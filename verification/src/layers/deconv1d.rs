//! The one-dimensional transposed convolution layer: every input
//! position scatters its contribution through the kernel into a
//! longer output, on top of the bias; a pointwise activation follows.
//! Every access the scatter can make is validated when the layer is
//! built.

use vstd::prelude::*;

use crate::activations::Activation;
use crate::constraints::Constraint;
use crate::layers::conv2d::{axis_ok, check_axis, lemma_div_bound, lemma_product3, Padding};
use crate::regularizers::Regularization;
use crate::shape::{dims_product, Shape};
use crate::tensor::{lemma_tensor_capacity_fits, wadd, wmul, wsub, Tensor};

verus! {

/// Unfolding the capacity of a rank-two shape.
pub proof fn lemma_product2(dims: Seq<usize>)
    requires
        dims.len() == 2,
    ensures
        dims_product(dims) == (dims[0] as int) * (dims[1] as int),
{
    reveal_with_fuel(dims_product, 4);
    assert(dims =~= seq![dims[0], dims[1]]);
    assert(dims.drop_first() =~= seq![dims[1]]);
    assert(seq![dims[1]].drop_first().len() == 0);
    assert((dims[1] as nat) * 1 == dims[1] as nat) by (nonlinear_arith);
}

/// A well-formed rank-two shape, or `None` when the capacity would
/// leave `usize`.
fn make_shape2(d0: usize, d1: usize) -> (r: Option<Shape>)
    ensures
        r is Some <==> (d0 as int) * (d1 as int) <= usize::MAX,
        r matches Some(s) ==> s.wf() && s.dims() =~= seq![d0, d1],
{
    if d0.checked_mul(d1).is_none() {
        return None;
    }
    let mut dims: Vec<usize> = Vec::new();
    dims.push(d0);
    dims.push(d1);
    proof {
        reveal_with_fuel(dims_product, 4);
        assert(dims@ =~= seq![d0, d1]);
        assert(dims@.skip(2).len() == 0);
        assert(dims@.skip(1) =~= seq![d1]);
        assert(dims@.skip(0) =~= dims@);
        assert(seq![d1].drop_first().len() == 0);
        assert(dims@.drop_first() =~= seq![d1]);
        assert((d1 as nat) * 1 == d1 as nat) by (nonlinear_arith);
        assert(dims_product(dims@) == (d0 as nat) * (d1 as nat));
    }
    Some(Shape::new(dims))
}

/// Everything a one-dimensional transposed convolution's
/// construction validates, as one predicate over the raw
/// configuration: a rank-two input with at least one position, at
/// least one kernel position, the output extent defined with every
/// intermediate fitting the machine, every shape capacity and the
/// scatter iteration count fitting the machine, and every scatter
/// access staying inside the output.
pub open spec fn deconv_build_ok(
    input_dims: Seq<usize>,
    filters: int,
    k0n: int,
    pad: (int, int),
    st: int,
    dil: int,
) -> bool {
    &&& input_dims.len() == 2
    &&& k0n >= 1
    &&& ({
        let in0 = input_dims[0] as int;
        let in1 = input_dims[1] as int;
        let a = (in0 - 1) * st;
        let w = dil * (k0n - 1);
        let e = a + w + 1 - pad.0 - pad.1;
        &&& in0 >= 1
        &&& a <= usize::MAX
        &&& w <= usize::MAX
        &&& a + w <= usize::MAX
        &&& a + w + 1 <= usize::MAX
        &&& a + w + 1 >= pad.0
        &&& a + w + 1 - pad.0 >= pad.1
        &&& e * filters <= usize::MAX
        &&& in1 * filters <= usize::MAX
        &&& k0n * (in1 * filters) <= usize::MAX
        &&& k0n * filters <= usize::MAX
        &&& in1 * (k0n * filters) <= usize::MAX
        &&& in0 * (in1 * (k0n * filters)) <= usize::MAX
        &&& axis_ok(in0, k0n, dil, st, pad.0, e)
    })
}

/// A one-dimensional transposed convolution: kernel of shape
/// `[kernel length, input channels, filters]`, bias of the output
/// shape, and the scatter geometry. Built only through `new`, which
/// validates every access the scatter can make.
pub struct Deconv1D<A: Activation> {
    input_shape: Shape,
    output_shape: Shape,
    kernel: Tensor<i64>,
    bias: Tensor<i64>,
    activation: A,
    pad0: usize,
    str0: usize,
    dil0: usize,
    kernel_regularizer: Regularization,
    bias_regularizer: Regularization,
    activity_regularizer: Regularization,
    kernel_constraint: Constraint,
    bias_constraint: Constraint,
}

/// The one-shot backward context of a transposed convolution: the
/// input it saw, the pre-activation values, and the activity
/// regularization of the output.
pub struct Deconv1DCtx {
    input: Tensor<i64>,
    pre: Tensor<i64>,
    act_reg: Tensor<i64>,
}

impl Deconv1DCtx {
    /// The input the forward pass saw.
    pub closed spec fn input_data(&self) -> Seq<i64> {
        self.input.data_seq()
    }
}

impl<A: Activation> Deconv1D<A> {
    /// The extents of the input: positions, channels.
    pub closed spec fn input_dims(&self) -> Seq<usize> {
        self.input_shape.dims()
    }

    /// The extents of the output: positions, filters.
    pub closed spec fn output_dims(&self) -> Seq<usize> {
        self.output_shape.dims()
    }

    /// The kernel's elements, flat.
    pub closed spec fn kernel_data(&self) -> Seq<i64> {
        self.kernel.data_seq()
    }

    /// The bias elements, one per output element.
    pub closed spec fn bias_data(&self) -> Seq<i64> {
        self.bias.data_seq()
    }

    /// The activation applied on top of the scatter.
    pub closed spec fn activation_spec(&self) -> A {
        self.activation
    }

    /// The kernel's extents.
    pub closed spec fn kernel_dims(&self) -> Seq<usize> {
        self.kernel.dims()
    }

    /// The scatter geometry: padding, stride, dilation.
    pub closed spec fn geometry(&self) -> (usize, usize, usize) {
        (self.pad0, self.str0, self.dil0)
    }

    /// The layer's regularizers: kernel, bias, activity.
    pub closed spec fn regs(&self) -> (Regularization, Regularization, Regularization) {
        (self.kernel_regularizer, self.bias_regularizer, self.activity_regularizer)
    }

    /// The layer's constraints: kernel, bias.
    pub closed spec fn constraints(&self) -> (Constraint, Constraint) {
        (self.kernel_constraint, self.bias_constraint)
    }

    /// How many scatter iterations one forward pass makes.
    pub closed spec fn tq(&self) -> int {
        (self.input_dims()[0] as int) * ((self.input_dims()[1] as int) * ((self.kernel_dims()[0]
            as int) * (self.kernel_dims()[2] as int)))
    }

    /// Shapes are consistent, every scatter access stays inside the
    /// output, and the iteration count fits the machine.
    pub closed spec fn wf(&self) -> bool {
        &&& self.input_shape.wf()
        &&& self.output_shape.wf()
        &&& self.kernel.wf()
        &&& self.bias.wf()
        &&& self.input_dims().len() == 2
        &&& self.output_dims().len() == 2
        &&& self.kernel_dims().len() == 3
        &&& self.bias.dims() == self.output_dims()
        &&& self.kernel_dims()[1] == self.input_dims()[1]
        &&& self.kernel_dims()[2] == self.output_dims()[1]
        &&& self.tq() <= usize::MAX
        &&& axis_ok(
            self.input_dims()[0] as int,
            self.kernel_dims()[0] as int,
            self.dil0 as int,
            self.str0 as int,
            self.pad0 as int,
            self.output_dims()[0] as int,
        )
    }

    /// The input position of one scatter iteration.
    pub closed spec fn ti0(&self, t: int) -> int {
        t / ((self.input_dims()[1] as int) * ((self.kernel_dims()[0] as int) * (self.kernel_dims()[
            2] as int)))
    }

    /// The input channel of one scatter iteration.
    pub closed spec fn ti1(&self, t: int) -> int {
        (t / ((self.kernel_dims()[0] as int) * (self.kernel_dims()[2] as int))) % (
        self.input_dims()[1] as int)
    }

    /// The kernel position of one scatter iteration.
    pub closed spec fn tk0(&self, t: int) -> int {
        (t / (self.kernel_dims()[2] as int)) % (self.kernel_dims()[0] as int)
    }

    /// The filter of one scatter iteration.
    pub closed spec fn tk2(&self, t: int) -> int {
        t % (self.kernel_dims()[2] as int)
    }

    /// Whether one scatter iteration lands inside the output, given
    /// the padding.
    pub closed spec fn tap_valid(&self, t: int) -> bool {
        self.ti0(t) * (self.dil0 as int) + self.tk0(t) * (self.str0 as int) >= self.pad0 as int
    }

    /// The flat output offset one scatter iteration writes.
    pub closed spec fn tap_out(&self, t: int) -> int {
        (self.ti0(t) * (self.dil0 as int) + self.tk0(t) * (self.str0 as int) - (self.pad0 as int))
            * (self.output_dims()[1] as int) + self.tk2(t)
    }

    /// The flat input offset one scatter iteration reads.
    pub closed spec fn tap_in(&self, t: int) -> int {
        self.ti0(t) * (self.input_dims()[1] as int) + self.ti1(t)
    }

    /// The flat kernel offset one scatter iteration reads.
    pub closed spec fn tap_kernel(&self, t: int) -> int {
        self.tk0(t) * ((self.input_dims()[1] as int) * (self.kernel_dims()[2] as int)) + self.ti1(
            t,
        ) * (self.kernel_dims()[2] as int) + self.tk2(t)
    }

    /// The pre-activation output after the first `t` scatter
    /// iterations, seeded with the bias.
    pub open spec fn scatter_acc(&self, x: Seq<i64>, t: int) -> Seq<i64>
        decreases t,
    {
        if t <= 0 {
            self.bias_data()
        } else {
            let prev = self.scatter_acc(x, t - 1);
            if self.tap_valid(t - 1) {
                let oo = self.tap_out(t - 1);
                prev.update(
                    oo,
                    wadd(prev[oo], wmul(x[self.tap_in(t - 1)], self.kernel_data()[self.tap_kernel(
                        t - 1,
                    )])),
                )
            } else {
                prev
            }
        }
    }

    /// What `feed_forward` returns: the activation of the whole
    /// scatter.
    pub open spec fn forward_spec(&self, x: Seq<i64>) -> Seq<i64> {
        Seq::new(
            dims_product(self.output_dims()),
            |p: int| self.activation_spec().activate_spec(self.scatter_acc(x, self.tq())[p]),
        )
    }

    /// The scaled delta of one output element: mirroring the forward
    /// recording, the pre-activation value times the incoming
    /// gradient plus the activity regularization.
    pub open spec fn delta_spec(&self, x: Seq<i64>, g: Seq<i64>, p: int) -> i64 {
        wmul(
            self.scatter_acc(x, self.tq())[p],
            wadd(
                g[p],
                self.regs().2.derive_spec(
                    self.activation_spec().activate_spec(self.scatter_acc(x, self.tq())[p]),
                ),
            ),
        )
    }

    /// The kernel and input gradients after the first `t` gather
    /// steps of the backward sweep.
    pub open spec fn bwd_state(
        &self,
        x: Seq<i64>,
        g: Seq<i64>,
        kd0: Seq<i64>,
        id0: Seq<i64>,
        t: int,
    ) -> (Seq<i64>, Seq<i64>)
        decreases t,
    {
        if t <= 0 {
            (kd0, id0)
        } else {
            let prev = self.bwd_state(x, g, kd0, id0, t - 1);
            if self.tap_valid(t - 1) {
                let oo = self.tap_out(t - 1);
                let ki = self.tap_kernel(t - 1);
                let xi = self.tap_in(t - 1);
                let kd = prev.0.update(
                    ki,
                    wadd(prev.0[ki], wmul(x[xi], self.delta_spec(x, g, oo))),
                );
                let id = prev.1.update(
                    xi,
                    wadd(prev.1[xi], wmul(self.kernel_data()[ki], self.delta_spec(x, g, oo))),
                );
                (kd, id)
            } else {
                prev
            }
        }
    }

    /// The captured context belongs to this layer and records the
    /// given input faithfully.
    pub closed spec fn ctx_matches(&self, ctx: Deconv1DCtx) -> bool {
        &&& ctx.input.wf()
        &&& ctx.input.dims() == self.input_dims()
        &&& ctx.pre.wf()
        &&& ctx.pre.dims() == self.output_dims()
        &&& ctx.pre.data_seq() =~= self.scatter_acc(ctx.input.data_seq(), self.tq())
        &&& ctx.act_reg.wf()
        &&& ctx.act_reg.dims() == self.output_dims()
        &&& ctx.act_reg.data_seq() =~= Seq::new(
            dims_product(self.output_dims()),
            |p: int|
                self.regs().2.derive_spec(
                    self.activation_spec().activate_spec(
                        self.scatter_acc(ctx.input.data_seq(), self.tq())[p],
                    ),
                ),
        )
    }

    /// Builds the layer, eagerly validating the scatter: a build
    /// whose scatter could reach outside the output or overflow the
    /// machine fails here, never during a forward pass.
    pub fn new(
        input_shape: Shape,
        filters: usize,
        kernel_length: usize,
        kernel_init: i64,
        bias_init: i64,
        activation: A,
        padding: Padding,
        stride: usize,
        dilation: usize,
        kernel_regularizer: Regularization,
        bias_regularizer: Regularization,
        activity_regularizer: Regularization,
        kernel_constraint: Constraint,
        bias_constraint: Constraint,
    ) -> (r: Result<Deconv1D<A>, crate::model::ModelError>)
        requires
            input_shape.wf(),
        ensures
            r is Ok <==> deconv_build_ok(
                input_shape.dims(),
                filters as int,
                kernel_length as int,
                (padding.resolve_spec().0 as int, padding.resolve_spec().1 as int),
                stride as int,
                dilation as int,
            ),
            r matches Ok(l) ==> {
                &&& l.wf()
                &&& l.input_dims() == input_shape.dims()
                &&& l.activation_spec() == activation
                &&& forall|p: int|
                    0 <= p < l.kernel_data().len() ==> l.kernel_data()[p] == kernel_init
                &&& forall|p: int| 0 <= p < l.bias_data().len() ==> l.bias_data()[p] == bias_init
                &&& l.output_dims() =~= seq![
                    (((input_shape.dims()[0] as int) - 1) * (stride as int) + (dilation as int)
                        * ((kernel_length as int) - 1) + 1 - (padding.resolve_spec().0 as int) - (
                    padding.resolve_spec().1 as int)) as usize,
                    filters,
                ]
                &&& l.kernel_dims() =~= seq![kernel_length, input_shape.dims()[1], filters]
                &&& l.geometry() == (padding.resolve_spec().0, stride, dilation)
                &&& l.regs() == (kernel_regularizer, bias_regularizer, activity_regularizer)
                &&& l.constraints() == (kernel_constraint, bias_constraint)
            },
    {
        if input_shape.dimensions() != 2 || kernel_length == 0 {
            return Err(crate::model::ModelError::MissingConfiguration);
        }
        let in0 = input_shape.dim(0);
        let in1 = input_shape.dim(1);
        let p = padding.resolve();
        if in0 == 0 {
            return Err(crate::model::ModelError::MissingConfiguration);
        }
        // the output extent: (input - 1) * stride
        //   + dilation * (kernel - 1) + 1 - both paddings
        let a: usize = match (in0 - 1).checked_mul(stride) {
            Some(v) => v,
            None => {
                return Err(crate::model::ModelError::CapacityOverflow);
            },
        };
        let w: usize = match dilation.checked_mul(kernel_length - 1) {
            Some(v) => v,
            None => {
                return Err(crate::model::ModelError::CapacityOverflow);
            },
        };
        let aw: usize = match a.checked_add(w) {
            Some(v) => v,
            None => {
                return Err(crate::model::ModelError::CapacityOverflow);
            },
        };
        let aw1: usize = match aw.checked_add(1) {
            Some(v) => v,
            None => {
                return Err(crate::model::ModelError::CapacityOverflow);
            },
        };
        let sub0: usize = match aw1.checked_sub(p.0) {
            Some(v) => v,
            None => {
                return Err(crate::model::ModelError::CapacityOverflow);
            },
        };
        let out0: usize = match sub0.checked_sub(p.1) {
            Some(v) => v,
            None => {
                return Err(crate::model::ModelError::CapacityOverflow);
            },
        };
        let output_shape = match make_shape2(out0, filters) {
            Some(s) => s,
            None => {
                return Err(crate::model::ModelError::CapacityOverflow);
            },
        };
        let kernel_shape = match crate::layers::conv2d::make_shape3(kernel_length, in1, filters) {
            Some(s) => s,
            None => {
                return Err(crate::model::ModelError::CapacityOverflow);
            },
        };
        let tq1: usize = match kernel_length.checked_mul(filters) {
            Some(v) => v,
            None => {
                return Err(crate::model::ModelError::CapacityOverflow);
            },
        };
        let tq2: usize = match in1.checked_mul(tq1) {
            Some(v) => v,
            None => {
                return Err(crate::model::ModelError::CapacityOverflow);
            },
        };
        let tqv: usize = match in0.checked_mul(tq2) {
            Some(v) => v,
            None => {
                return Err(crate::model::ModelError::CapacityOverflow);
            },
        };
        if !check_axis(in0, kernel_length, dilation, stride, p.0, out0) {
            return Err(crate::model::ModelError::CapacityOverflow);
        }
        let mut ki: i64 = kernel_init;
        let mut bi: i64 = bias_init;
        let kernel = crate::initializers::Initializer::initialize(&mut ki, kernel_shape);
        let bias = crate::initializers::Initializer::initialize(&mut bi, output_shape.clone());
        let layer = Deconv1D {
            input_shape,
            output_shape,
            kernel,
            bias,
            activation,
            pad0: p.0,
            str0: stride,
            dil0: dilation,
            kernel_regularizer,
            bias_regularizer,
            activity_regularizer,
            kernel_constraint,
            bias_constraint,
        };
        proof {
            assert(layer.kernel_dims() =~= seq![kernel_length, in1, filters]);
            assert(layer.output_dims() =~= seq![out0, filters]);
            assert(layer.tq() == (in0 as int) * ((in1 as int) * ((kernel_length as int) * (
            filters as int))));
            assert((kernel_length as int) * (filters as int) == tq1 as int);
            assert((in1 as int) * (tq1 as int) == tq2 as int);
            assert((in0 as int) * (tq2 as int) == tqv as int);
            assert(layer.tq() <= usize::MAX);
        }
        Ok(layer)
    }

    /// The input shape the layer accepts.
    pub fn get_input_shape(&self) -> (s: &Shape)
        ensures
            s.dims() == self.input_dims(),
            self.wf() ==> s.wf(),
    {
        &self.input_shape
    }

    /// The output shape the layer produces.
    pub fn get_output_shape(&self) -> (s: &Shape)
        ensures
            s.dims() == self.output_dims(),
            self.wf() ==> s.wf(),
    {
        &self.output_shape
    }

    /// How many scatter iterations one forward pass makes.
    fn scatter_count(&self) -> (r: usize)
        requires
            self.wf(),
        ensures
            r as int == self.tq(),
    {
        let in0 = self.input_shape.dim(0);
        let in1 = self.input_shape.dim(1);
        let k0n = self.kernel.get_shape().dim(0);
        let f = self.kernel.get_shape().dim(2);
        proof {
            crate::shape::lemma_shape_capacity_fits(&self.input_shape);
            lemma_tensor_capacity_fits(self.kernel);
            lemma_product3(self.kernel_dims());
            lemma_product2(self.input_dims());
            if !(in0 == 0 || in1 == 0 || k0n == 0 || f == 0) {
                let whole = (in0 as int) * ((in1 as int) * ((k0n as int) * (f as int)));
                assert((k0n as int) * (f as int) <= whole && (in1 as int) * ((k0n as int) * (
                f as int)) <= whole) by (nonlinear_arith)
                    requires
                        whole == (in0 as int) * ((in1 as int) * ((k0n as int) * (f as int))) && (
                        in0 as int) >= 1 && (in1 as int) >= 1 && (k0n as int) >= 1 && (f as int)
                            >= 1;
                assert(whole <= usize::MAX);
            }
        }
        if in0 == 0 || in1 == 0 || k0n == 0 || f == 0 {
            proof {
                assert(self.tq() == 0) by (nonlinear_arith)
                    requires
                        self.tq() == (in0 as int) * ((in1 as int) * ((k0n as int) * (f as int)))
                            && (in0 == 0 || in1 == 0 || k0n == 0 || f == 0);
            }
            0
        } else {
            in0 * (in1 * (k0n * f))
        }
    }

    /// One scatter iteration's shape: whether it lands inside the
    /// output and, when it does, the flat output, input and kernel
    /// offsets it touches.
    fn tap_at(&self, t: usize) -> (r: (bool, usize, usize, usize))
        requires
            self.wf(),
            (t as int) < self.tq(),
        ensures
            r.0 == self.tap_valid(t as int),
            r.0 ==> (r.1 as int) == self.tap_out(t as int) && (r.1 as int) < dims_product(
                self.output_dims(),
            ) && (r.2 as int) == self.tap_in(t as int) && (r.2 as int) < dims_product(
                self.input_dims(),
            ) && (r.3 as int) == self.tap_kernel(t as int) && (r.3 as int) < dims_product(
                self.kernel_dims(),
            ),
    {
        let in0 = self.input_shape.dim(0);
        let in1 = self.input_shape.dim(1);
        let k0n = self.kernel.get_shape().dim(0);
        let f = self.kernel.get_shape().dim(2);
        let out0 = self.output_shape.dim(0);
        let ghost ts = t as int;
        proof {
            crate::shape::lemma_shape_capacity_fits(&self.input_shape);
            crate::shape::lemma_shape_capacity_fits(&self.output_shape);
            lemma_tensor_capacity_fits(self.kernel);
            lemma_product3(self.kernel_dims());
            lemma_product2(self.input_dims());
            lemma_product2(self.output_dims());
            assert(in0 > 0 && in1 > 0 && k0n > 0 && f > 0) by (nonlinear_arith)
                requires
                    0 <= ts < (in0 as int) * ((in1 as int) * ((k0n as int) * (f as int))) && (
                    in0 as int) >= 0 && (in1 as int) >= 0 && (k0n as int) >= 0 && (f as int)
                        >= 0;
            let whole = (in0 as int) * ((in1 as int) * ((k0n as int) * (f as int)));
            assert((k0n as int) * (f as int) <= whole && (in1 as int) * ((k0n as int) * (
            f as int)) <= whole) by (nonlinear_arith)
                requires
                    whole == (in0 as int) * ((in1 as int) * ((k0n as int) * (f as int))) && (
                    in0 as int) >= 1 && (in1 as int) >= 1 && (k0n as int) >= 1 && (f as int)
                        >= 1;
            assert(whole <= usize::MAX);
        }
        let m1: usize = k0n * f;
        let m0: usize = in1 * m1;
        proof {
            assert(m1 > 0) by (nonlinear_arith)
                requires m1 as int == (k0n as int) * (f as int) && k0n > 0 && f > 0;
            assert(m0 > 0) by (nonlinear_arith)
                requires
                    m0 as int == (in1 as int) * ((k0n as int) * (f as int)) && in1 > 0 && (
                    k0n as int) * (f as int) > 0;
            assert(ts < (in0 as int) * (m0 as int)) by (nonlinear_arith)
                requires
                    ts < (in0 as int) * ((in1 as int) * ((k0n as int) * (f as int))) && m0 as int
                        == (in1 as int) * ((k0n as int) * (f as int));
            lemma_div_bound(ts, m0 as int, in0 as int);
            vstd::arithmetic::div_mod::lemma_mod_bound(ts / (m1 as int), in1 as int);
            vstd::arithmetic::div_mod::lemma_mod_bound(ts / (f as int), k0n as int);
            vstd::arithmetic::div_mod::lemma_mod_bound(ts, f as int);
            vstd::arithmetic::div_mod::lemma_div_pos_is_pos(ts, m0 as int);
            vstd::arithmetic::div_mod::lemma_div_pos_is_pos(ts, m1 as int);
            vstd::arithmetic::div_mod::lemma_div_pos_is_pos(ts, f as int);
            assert(self.ti0(ts) == ts / (m0 as int));
            assert((in1 as int) * ((k0n as int) * (f as int)) == ((in1 as int)) * (m1 as int))
                by (nonlinear_arith)
                requires m1 as int == (k0n as int) * (f as int);
            assert(self.ti1(ts) == (ts / (m1 as int)) % (in1 as int));
            assert(self.tk0(ts) == (ts / (f as int)) % (k0n as int));
            assert(self.tk2(ts) == ts % (f as int));
        }
        let i0 = t / m0;
        let i1 = (t / m1) % in1;
        let k0 = (t / f) % k0n;
        let k2 = t % f;
        proof {
            assert(0 <= self.ti0(ts) < in0 as int);
            assert((i0 as int) * (self.dil0 as int) + (k0 as int) * (self.str0 as int)
                <= usize::MAX);
        }
        let t0 = i0 * self.dil0 + k0 * self.str0;
        if t0 >= self.pad0 {
            let o0 = t0 - self.pad0;
            proof {
                assert(self.tap_valid(ts));
                assert((o0 as int) < out0 as int);
                assert((o0 as int) * (f as int) + (k2 as int) < (out0 as int) * (f as int))
                    by (nonlinear_arith)
                    requires
                        (o0 as int) < out0 as int && (k2 as int) < f as int && (o0 as int) >= 0
                            && (k2 as int) >= 0 && (f as int) >= 0;
                assert((f as int) <= (out0 as int) * (f as int) || out0 == 0) by (nonlinear_arith)
                    requires (f as int) >= 0 && (out0 as int) >= 0;
                assert((i0 as int) * (in1 as int) + (i1 as int) < (in0 as int) * (in1 as int))
                    by (nonlinear_arith)
                    requires
                        (i0 as int) < in0 as int && (i1 as int) < in1 as int && (i0 as int) >= 0
                            && (i1 as int) >= 0 && (in1 as int) >= 0;
                assert((i1 as int) * (f as int) + (k2 as int) < (in1 as int) * (f as int))
                    by (nonlinear_arith)
                    requires
                        (i1 as int) < in1 as int && (k2 as int) < f as int && (i1 as int) >= 0
                            && (k2 as int) >= 0 && (f as int) >= 0;
                assert((k0 as int) * ((in1 as int) * (f as int)) + ((in1 as int) * (f as int))
                    <= (k0n as int) * ((in1 as int) * (f as int))) by (nonlinear_arith)
                    requires (k0 as int) < k0n as int && (in1 as int) * (f as int) >= 0;
                assert(dims_product(self.kernel_dims()) == (k0n as int) * ((in1 as int) * (
                f as int)));
                assert((in1 as int) * (f as int) <= usize::MAX) by (nonlinear_arith)
                    requires
                        dims_product(self.kernel_dims()) <= usize::MAX && dims_product(
                            self.kernel_dims(),
                        ) == (k0n as int) * ((in1 as int) * (f as int)) && k0n >= 1 && (in1 as int)
                            * (f as int) >= 0;
                assert(dims_product(self.output_dims()) == (out0 as int) * (f as int));
                assert(dims_product(self.input_dims()) == (in0 as int) * (in1 as int));
            }
            let oo = o0 * f + k2;
            let xi = i0 * in1 + i1;
            let ki = k0 * (in1 * f) + i1 * f + k2;
            (true, oo, xi, ki)
        } else {
            proof {
                assert(!self.tap_valid(ts));
            }
            (false, 0, 0, 0)
        }
    }

    /// The scatter's pre-activation values, the activated outputs,
    /// and the activity regularization, in one sweep.
    fn forward_parts(&self, input: &Tensor<i64>) -> (r: (Tensor<i64>, Tensor<i64>, Tensor<i64>))
        requires
            self.wf(),
            input.wf(),
            input.dims() == self.input_dims(),
        ensures
            r.0.wf(),
            r.0.dims() == self.output_dims(),
            r.0.data_seq() =~= self.forward_spec(input.data_seq()),
            r.1.wf(),
            r.1.dims() == self.output_dims(),
            r.1.data_seq() =~= self.scatter_acc(input.data_seq(), self.tq()),
            r.2.wf(),
            r.2.dims() == self.output_dims(),
            r.2.data_seq() =~= Seq::new(
                dims_product(self.output_dims()),
                |p: int|
                    self.regs().2.derive_spec(
                        self.activation_spec().activate_spec(
                            self.scatter_acc(input.data_seq(), self.tq())[p],
                        ),
                    ),
            ),
    {
        let ghost x = input.data_seq();
        proof {
            lemma_tensor_capacity_fits(*input);
            lemma_tensor_capacity_fits(self.kernel);
            lemma_tensor_capacity_fits(self.bias);
        }
        let mut pre = self.bias.clone();
        let tq = self.scatter_count();
        proof {
            assert(pre.data_seq() =~= self.scatter_acc(x, 0));
        }
        let mut t: usize = 0;
        while t < tq
            invariant
                t <= tq,
                self.wf(),
                input.wf(),
                input.dims() == self.input_dims(),
                x == input.data_seq(),
                tq as int == self.tq(),
                input.data_seq().len() == dims_product(self.input_dims()),
                self.kernel.data_seq().len() == dims_product(self.kernel_dims()),
                pre.wf(),
                pre.dims() == self.output_dims(),
                pre.data_seq() == self.scatter_acc(x, t as int),
            decreases tq - t,
        {
            proof {
                lemma_tensor_capacity_fits(pre);
            }
            let (valid, oo, xi, ki) = self.tap_at(t);
            if valid {
                let v = pre.flat_get(oo).wrapping_add(
                    input.flat_get(xi).wrapping_mul(*self.kernel.flat_get(ki)),
                );
                pre.flat_set(oo, v);
            }
            t += 1;
        }
        let out_cap = self.output_shape.capacity();
        let mut out = Tensor::zero(self.output_shape.clone());
        let mut act_reg = Tensor::zero(self.output_shape.clone());
        proof {
            lemma_tensor_capacity_fits(pre);
        }
        let mut p: usize = 0;
        while p < out_cap
            invariant
                p <= out_cap,
                self.wf(),
                x == input.data_seq(),
                out_cap == dims_product(self.output_dims()),
                pre.wf(),
                pre.dims() == self.output_dims(),
                pre.data_seq() == self.scatter_acc(x, self.tq()),
                pre.data_seq().len() == out_cap,
                out.wf(),
                out.dims() == self.output_dims(),
                out.data_seq().len() == out_cap,
                act_reg.wf(),
                act_reg.dims() == self.output_dims(),
                act_reg.data_seq().len() == out_cap,
                forall|j: int|
                    0 <= j < p ==> out.data_seq()[j] == self.activation_spec().activate_spec(
                        self.scatter_acc(x, self.tq())[j],
                    ),
                forall|j: int|
                    0 <= j < p ==> act_reg.data_seq()[j] == self.regs().2.derive_spec(
                        self.activation_spec().activate_spec(self.scatter_acc(x, self.tq())[j]),
                    ),
            decreases out_cap - p,
        {
            let v = *pre.flat_get(p);
            out.flat_set(p, self.activation.activate(v));
            act_reg.flat_set(p, self.activity_regularizer.derive_at(self.activation.activate(v)));
            p += 1;
        }
        (out, pre, act_reg)
    }

    /// The pure forward evaluation: no gradient bookkeeping, no side
    /// effects on the layer.
    pub fn feed_forward(&self, input: &Tensor<i64>) -> (r: Tensor<i64>)
        requires
            self.wf(),
            input.wf(),
            input.dims() == self.input_dims(),
        ensures
            r.wf(),
            r.dims() == self.output_dims(),
            r.data_seq() =~= self.forward_spec(input.data_seq()),
    {
        let (out, _pre, _act_reg) = self.forward_parts(input);
        out
    }

    /// Computes the same outputs as `feed_forward` and captures the
    /// one-shot backward context.
    pub fn back_propagate(&self, input: &Tensor<i64>) -> (r: (Tensor<i64>, Deconv1DCtx))
        requires
            self.wf(),
            input.wf(),
            input.dims() == self.input_dims(),
        ensures
            r.0.wf(),
            r.0.dims() == self.output_dims(),
            r.0.data_seq() =~= self.forward_spec(input.data_seq()),
            self.ctx_matches(r.1),
            r.1.input_data() == input.data_seq(),
    {
        let (out, pre, act_reg) = self.forward_parts(input);
        let ctx = Deconv1DCtx { input: input.clone(), pre, act_reg };
        (out, ctx)
    }

    /// Consumes a backward context and the gradient of the loss with
    /// respect to this layer's output; returns the gradient with
    /// respect to the input and, in update order, the kernel and bias
    /// gradients. Mirroring the forward recording, the deltas scale
    /// by the pre-activation values, and the bias gradient adds the
    /// raw pre-activation values.
    pub fn backward(&self, ctx: Deconv1DCtx, output_d: &Tensor<i64>) -> (r: (
        Tensor<i64>,
        Vec<Tensor<i64>>,
    ))
        requires
            self.wf(),
            self.ctx_matches(ctx),
            output_d.wf(),
            output_d.dims() == self.output_dims(),
        ensures
            ({
                let x = ctx.input_data();
                let g = output_d.data_seq();
                let kd0 = Seq::new(
                    dims_product(self.kernel_dims()),
                    |i: int| self.regs().0.derive_spec(self.kernel_data()[i]),
                );
                let id0 = Seq::new(dims_product(self.input_dims()), |i: int| 0i64);
                let end = self.bwd_state(x, g, kd0, id0, self.tq());
                &&& r.0.wf()
                &&& r.0.dims() == self.input_dims()
                &&& r.0.data_seq() == end.1
                &&& r.1@.len() == 2
                &&& r.1@[0].wf()
                &&& r.1@[0].dims() == self.kernel_dims()
                &&& r.1@[0].data_seq() == end.0
                &&& r.1@[1].wf()
                &&& r.1@[1].dims() == self.output_dims()
                &&& r.1@[1].data_seq() =~= Seq::new(
                    dims_product(self.output_dims()),
                    |p: int|
                        wadd(
                            self.regs().1.derive_spec(self.bias_data()[p]),
                            self.scatter_acc(x, self.tq())[p],
                        ),
                )
            }),
    {
        let ghost x = ctx.input_data();
        let ghost g = output_d.data_seq();
        proof {
            lemma_tensor_capacity_fits(ctx.input);
            lemma_tensor_capacity_fits(ctx.pre);
            lemma_tensor_capacity_fits(*output_d);
            lemma_tensor_capacity_fits(self.kernel);
            lemma_tensor_capacity_fits(self.bias);
        }
        let out_cap = self.output_shape.capacity();
        // the bias gradient: regularization plus the raw
        // pre-activation values, as the forward pass recorded them
        let mut bias_d = self.bias_regularizer.derive(&self.bias);
        let mut o: usize = 0;
        while o < out_cap
            invariant
                o <= out_cap,
                self.wf(),
                self.ctx_matches(ctx),
                x == ctx.input_data(),
                out_cap == dims_product(self.output_dims()),
                ctx.pre.data_seq().len() == out_cap,
                bias_d.wf(),
                bias_d.dims() == self.output_dims(),
                bias_d.data_seq().len() == out_cap,
                forall|j: int|
                    o <= j < out_cap ==> bias_d.data_seq()[j] == self.regs().1.derive_spec(
                        self.bias_data()[j],
                    ),
                forall|j: int|
                    0 <= j < o ==> bias_d.data_seq()[j] == wadd(
                        self.regs().1.derive_spec(self.bias_data()[j]),
                        self.scatter_acc(x, self.tq())[j],
                    ),
            decreases out_cap - o,
        {
            let v = bias_d.flat_get(o).wrapping_add(*ctx.pre.flat_get(o));
            bias_d.flat_set(o, v);
            o += 1;
        }
        // the scaled deltas: pre-activation value times incoming
        // gradient plus activity regularization
        let mut d = Tensor::zero(self.output_shape.clone());
        let mut o2: usize = 0;
        while o2 < out_cap
            invariant
                o2 <= out_cap,
                self.wf(),
                self.ctx_matches(ctx),
                output_d.wf(),
                output_d.dims() == self.output_dims(),
                x == ctx.input_data(),
                g == output_d.data_seq(),
                g.len() == out_cap,
                out_cap == dims_product(self.output_dims()),
                ctx.pre.data_seq().len() == out_cap,
                ctx.act_reg.data_seq().len() == out_cap,
                d.wf(),
                d.dims() == self.output_dims(),
                d.data_seq().len() == out_cap,
                forall|j: int| 0 <= j < o2 ==> d.data_seq()[j] == self.delta_spec(x, g, j),
            decreases out_cap - o2,
        {
            let v = ctx.pre.flat_get(o2).wrapping_mul(
                output_d.flat_get(o2).wrapping_add(*ctx.act_reg.flat_get(o2)),
            );
            d.flat_set(o2, v);
            o2 += 1;
        }
        // the gather sweep over every scatter iteration
        let ghost kd0 = Seq::new(
            dims_product(self.kernel_dims()),
            |i: int| self.regs().0.derive_spec(self.kernel_data()[i]),
        );
        let ghost id0 = Seq::new(dims_product(self.input_dims()), |i: int| 0i64);
        let mut kernel_d = self.kernel_regularizer.derive(&self.kernel);
        let mut input_d = Tensor::zero(self.input_shape.clone());
        let tq = self.scatter_count();
        proof {
            assert(kernel_d.data_seq() =~= kd0);
            assert(input_d.data_seq() =~= id0);
        }
        let mut t: usize = 0;
        while t < tq
            invariant
                t <= tq,
                self.wf(),
                self.ctx_matches(ctx),
                x == ctx.input_data(),
                g == output_d.data_seq(),
                out_cap == dims_product(self.output_dims()),
                tq as int == self.tq(),
                x.len() == dims_product(self.input_dims()),
                d.data_seq().len() == out_cap,
                forall|j: int| 0 <= j < out_cap ==> d.data_seq()[j] == self.delta_spec(x, g, j),
                kd0 == Seq::new(
                    dims_product(self.kernel_dims()),
                    |i: int| self.regs().0.derive_spec(self.kernel_data()[i]),
                ),
                id0 == Seq::new(dims_product(self.input_dims()), |i: int| 0i64),
                kernel_d.wf(),
                kernel_d.dims() == self.kernel_dims(),
                input_d.wf(),
                input_d.dims() == self.input_dims(),
                (kernel_d.data_seq(), input_d.data_seq()) == self.bwd_state(
                    x,
                    g,
                    kd0,
                    id0,
                    t as int,
                ),
            decreases tq - t,
        {
            proof {
                lemma_tensor_capacity_fits(kernel_d);
                lemma_tensor_capacity_fits(input_d);
                lemma_tensor_capacity_fits(self.kernel);
                lemma_tensor_capacity_fits(ctx.input);
            }
            let (valid, oo, xi, ki) = self.tap_at(t);
            if valid {
                let kv = kernel_d.flat_get(ki).wrapping_add(
                    ctx.input.flat_get(xi).wrapping_mul(*d.flat_get(oo)),
                );
                kernel_d.flat_set(ki, kv);
                let iv = input_d.flat_get(xi).wrapping_add(
                    self.kernel.flat_get(ki).wrapping_mul(*d.flat_get(oo)),
                );
                input_d.flat_set(xi, iv);
            }
            t += 1;
        }
        let mut grads: Vec<Tensor<i64>> = Vec::new();
        grads.push(kernel_d);
        grads.push(bias_d);
        (input_d, grads)
    }

    /// Applies one optimizer step: subtracts the deltas from the
    /// kernel and the bias, then re-applies the value constraints to
    /// every updated parameter element. The only mutation path of the
    /// layer.
    pub fn update(&mut self, deltas: &Vec<Tensor<i64>>) -> (nothing: ())
        requires
            old(self).wf(),
            deltas@.len() == 2,
            deltas@[0].wf(),
            deltas@[0].dims() == old(self).kernel_dims(),
            deltas@[1].wf(),
            deltas@[1].dims() == old(self).output_dims(),
        ensures
            final(self).wf(),
            final(self).input_dims() == old(self).input_dims(),
            final(self).output_dims() == old(self).output_dims(),
            final(self).geometry() == old(self).geometry(),
            final(self).kernel_dims() == old(self).kernel_dims(),
            final(self).activation_spec() == old(self).activation_spec(),
            final(self).regs() == old(self).regs(),
            final(self).constraints() == old(self).constraints(),
            final(self).kernel_data() =~= Seq::new(
                old(self).kernel_data().len(),
                |p: int|
                    old(self).constraints().0.constrain_spec(
                        wsub(old(self).kernel_data()[p], deltas@[0].data_seq()[p]),
                    ),
            ),
            final(self).bias_data() =~= Seq::new(
                old(self).bias_data().len(),
                |o: int|
                    old(self).constraints().1.constrain_spec(
                        wsub(old(self).bias_data()[o], deltas@[1].data_seq()[o]),
                    ),
            ),
    {
        proof {
            lemma_tensor_capacity_fits(self.kernel);
            lemma_tensor_capacity_fits(self.bias);
            lemma_tensor_capacity_fits(deltas@[0]);
            lemma_tensor_capacity_fits(deltas@[1]);
        }
        self.kernel.sub_assign(&deltas[0]);
        self.bias.sub_assign(&deltas[1]);
        let kn = self.kernel.len();
        let mut p: usize = 0;
        while p < kn
            invariant
                p <= kn,
                kn == self.kernel.data_seq().len(),
                kn == old(self).kernel.data_seq().len(),
                self.kernel.wf(),
                self.kernel.dims() == old(self).kernel.dims(),
                self.kernel_constraint == old(self).kernel_constraint,
                self.bias_constraint == old(self).bias_constraint,
                self.kernel_regularizer == old(self).kernel_regularizer,
                self.bias_regularizer == old(self).bias_regularizer,
                self.activity_regularizer == old(self).activity_regularizer,
                self.input_shape == old(self).input_shape,
                self.output_shape == old(self).output_shape,
                self.activation == old(self).activation,
                self.pad0 == old(self).pad0,
                self.str0 == old(self).str0,
                self.dil0 == old(self).dil0,
                old(self).wf(),
                self.bias.wf(),
                self.bias.dims() == old(self).bias.dims(),
                self.bias.data_seq().len() == old(self).bias.data_seq().len(),
                forall|j: int|
                    0 <= j < self.bias.data_seq().len() ==> self.bias.data_seq()[j] == wsub(
                        old(self).bias.data_seq()[j],
                        deltas@[1].data_seq()[j],
                    ),
                forall|j: int|
                    p <= j < kn ==> self.kernel.data_seq()[j] == wsub(
                        old(self).kernel.data_seq()[j],
                        deltas@[0].data_seq()[j],
                    ),
                forall|j: int|
                    0 <= j < p ==> self.kernel.data_seq()[j]
                        == old(self).kernel_constraint.constrain_spec(
                        wsub(old(self).kernel.data_seq()[j], deltas@[0].data_seq()[j]),
                    ),
            decreases kn - p,
        {
            let v = self.kernel_constraint.constrain(*self.kernel.flat_get(p));
            self.kernel.flat_set(p, v);
            p += 1;
        }
        let bn = self.bias.len();
        let mut b: usize = 0;
        while b < bn
            invariant
                b <= bn,
                bn == self.bias.data_seq().len(),
                bn == old(self).bias.data_seq().len(),
                self.bias.wf(),
                self.bias.dims() == old(self).bias.dims(),
                self.kernel_constraint == old(self).kernel_constraint,
                self.bias_constraint == old(self).bias_constraint,
                self.kernel_regularizer == old(self).kernel_regularizer,
                self.bias_regularizer == old(self).bias_regularizer,
                self.activity_regularizer == old(self).activity_regularizer,
                self.input_shape == old(self).input_shape,
                self.output_shape == old(self).output_shape,
                self.activation == old(self).activation,
                self.pad0 == old(self).pad0,
                self.str0 == old(self).str0,
                self.dil0 == old(self).dil0,
                old(self).wf(),
                self.kernel.wf(),
                self.kernel.dims() == old(self).kernel.dims(),
                self.kernel.data_seq().len() == old(self).kernel.data_seq().len(),
                forall|j: int|
                    0 <= j < self.kernel.data_seq().len() ==> self.kernel.data_seq()[j]
                        == old(self).kernel_constraint.constrain_spec(
                        wsub(old(self).kernel.data_seq()[j], deltas@[0].data_seq()[j]),
                    ),
                forall|j: int|
                    b <= j < bn ==> self.bias.data_seq()[j] == wsub(
                        old(self).bias.data_seq()[j],
                        deltas@[1].data_seq()[j],
                    ),
                forall|j: int|
                    0 <= j < b ==> self.bias.data_seq()[j]
                        == old(self).bias_constraint.constrain_spec(
                        wsub(old(self).bias.data_seq()[j], deltas@[1].data_seq()[j]),
                    ),
            decreases bn - b,
        {
            let v = self.bias_constraint.constrain(*self.bias.flat_get(b));
            self.bias.flat_set(b, v);
            b += 1;
        }
    }
}

} // verus!
