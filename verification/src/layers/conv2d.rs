//! The two-dimensional convolution layer: a kernel slid over a
//! rank-three input (two spatial axes and a channel axis), with
//! padding, strides, dilation and channel groups, a bias per output
//! element and a pointwise activation. Every access the sliding
//! window can make is validated when the layer is built.

use vstd::prelude::*;

use crate::activations::Activation;
use crate::constraints::Constraint;
use crate::regularizers::Regularization;
use crate::shape::{dims_product, Shape};
use crate::tensor::{lemma_tensor_capacity_fits, wadd, wmul, wsub, Tensor};

verus! {

/// How one spatial axis is padded: not at all, the same amount on
/// both ends, or two different amounts.
#[derive(Copy, Clone)]
pub enum Padding {
    Zero,
    Symmetrical(usize),
    Asymmetrical(usize, usize),
}

impl Padding {
    /// What `resolve` returns: the padding before and after the axis.
    pub open spec fn resolve_spec(&self) -> (usize, usize) {
        match *self {
            Padding::Zero => (0usize, 0usize),
            Padding::Symmetrical(p) => (p, p),
            Padding::Asymmetrical(p0, p1) => (p0, p1),
        }
    }

    /// The padding before and after the axis.
    pub fn resolve(self) -> (r: (usize, usize))
        ensures
            r == self.resolve_spec(),
    {
        match self {
            Padding::Zero => (0, 0),
            Padding::Symmetrical(p) => (p, p),
            Padding::Asymmetrical(p0, p1) => (p0, p1),
        }
    }
}

/// One spatial axis never reaches outside the input: for every output
/// coordinate and kernel coordinate, the mapped input coordinate,
/// when the padding does not push it below zero, lies within the
/// input extent, and the mapping never overflows.
pub open spec fn axis_ok(
    out_n: int,
    k_n: int,
    dil: int,
    st: int,
    pad: int,
    in_n: int,
) -> bool {
    forall|o: int, k: int|
        0 <= o < out_n && 0 <= k < k_n ==> #[trigger] (o * dil + k * st) <= usize::MAX && (o * dil
            + k * st >= pad ==> o * dil + k * st - pad < in_n)
}

/// Checks one spatial axis of the sliding window, coordinate by
/// coordinate.
pub fn check_axis(out_n: usize, k_n: usize, dil: usize, st: usize, pad: usize, in_n: usize) -> (r:
    bool)
    ensures
        r == axis_ok(out_n as int, k_n as int, dil as int, st as int, pad as int, in_n as int),
{
    let mut o: usize = 0;
    while o < out_n
        invariant
            o <= out_n,
            forall|oo: int, k: int|
                0 <= oo < o && 0 <= k < k_n ==> #[trigger] (oo * (dil as int) + k * (st as int))
                    <= usize::MAX && (oo * (dil as int) + k * (st as int) >= pad ==> oo * (
                dil as int) + k * (st as int) - pad < in_n),
        decreases out_n - o,
    {
        let mut k: usize = 0;
        while k < k_n
            invariant
                k <= k_n,
                o < out_n,
                forall|oo: int, kk: int|
                    0 <= oo < o && 0 <= kk < k_n ==> #[trigger] (oo * (dil as int) + kk * (
                    st as int)) <= usize::MAX && (oo * (dil as int) + kk * (st as int) >= pad
                        ==> oo * (dil as int) + kk * (st as int) - pad < in_n),
                forall|kk: int|
                    0 <= kk < k ==> #[trigger] ((o as int) * (dil as int) + kk * (st as int))
                        <= usize::MAX && ((o as int) * (dil as int) + kk * (st as int) >= pad
                        ==> (o as int) * (dil as int) + kk * (st as int) - pad < in_n),
            decreases k_n - k,
        {
            proof {
                assert((o as int) * (dil as int) >= 0) by (nonlinear_arith);
                assert((k as int) * (st as int) >= 0) by (nonlinear_arith);
            }
            let a = o.checked_mul(dil);
            let b = k.checked_mul(st);
            let t: usize = match (a, b) {
                (Some(av), Some(bv)) => {
                    match av.checked_add(bv) {
                        Some(tv) => tv,
                        None => {
                            proof {
                                assert((o as int) * (dil as int) + (k as int) * (st as int)
                                    > usize::MAX);
                            }
                            return false;
                        },
                    }
                },
                _ => {
                    proof {
                        assert((o as int) * (dil as int) + (k as int) * (st as int) > usize::MAX);
                    }
                    return false;
                },
            };
            if t >= pad {
                if t - pad >= in_n {
                    return false;
                }
            }
            k += 1;
        }
        o += 1;
    }
    true
}

/// The side conditions under which one spatial axis's output extent
/// is defined: at least one kernel position and a positive stride,
/// every intermediate of the formula fits the machine, and the padded
/// input is long enough to place the dilated kernel once.
pub open spec fn axis_extent_ok(in_n: int, pa: int, pb: int, dil: int, kn: int, st: int) -> bool {
    &&& kn >= 1
    &&& st >= 1
    &&& in_n + pa <= usize::MAX
    &&& in_n + pa + pb <= usize::MAX
    &&& dil * (kn - 1) <= usize::MAX
    &&& in_n + pa + pb - dil * (kn - 1) - 1 >= 0
    &&& (in_n + pa + pb - dil * (kn - 1) - 1) / st + 1 <= usize::MAX
}

/// The output extent of one spatial axis:
/// `(input + padding - dilation * (kernel - 1) - 1) / stride + 1`.
pub open spec fn axis_extent(in_n: int, pa: int, pb: int, dil: int, kn: int, st: int) -> int {
    (in_n + pa + pb - dil * (kn - 1) - 1) / st + 1
}

/// A quotient stays below `n` when the dividend stays below `n * d`.
pub proof fn lemma_div_bound(x: int, d: int, n: int)
    requires
        0 <= x,
        0 < d,
        x < n * d,
    ensures
        x / d < n,
{
    vstd::arithmetic::div_mod::lemma_fundamental_div_mod(x, d);
    if x / d >= n {
        assert(d * (x / d) >= d * n) by (nonlinear_arith)
            requires x / d >= n && d > 0;
        assert(d * n == n * d) by (nonlinear_arith);
        vstd::arithmetic::div_mod::lemma_mod_bound(x, d);
    }
}

/// Everything a two-dimensional convolution's construction
/// validates, as one predicate over the raw configuration: a
/// rank-three input, positive strides and group count, channels and
/// filters splitting evenly into groups, both output extents defined,
/// every shape capacity and the window iteration count fitting the
/// machine, and every window access staying inside the input.
pub open spec fn conv_build_ok(
    input_dims: Seq<usize>,
    filters: int,
    k0n: int,
    k1n: int,
    pad0: (int, int),
    pad1: (int, int),
    s0: int,
    s1: int,
    d0: int,
    d1: int,
    groups: int,
) -> bool {
    &&& input_dims.len() == 3
    &&& groups >= 1
    &&& s0 >= 1
    &&& s1 >= 1
    &&& ({
        let in0 = input_dims[0] as int;
        let in1 = input_dims[1] as int;
        let in2 = input_dims[2] as int;
        let kc = in2 / groups;
        let e0 = axis_extent(in0, pad0.0, pad0.1, d0, k0n, s0);
        let e1 = axis_extent(in1, pad1.0, pad1.1, d1, k1n, s1);
        &&& filters % groups == 0
        &&& in2 % groups == 0
        &&& axis_extent_ok(in0, pad0.0, pad0.1, d0, k0n, s0)
        &&& axis_extent_ok(in1, pad1.0, pad1.1, d1, k1n, s1)
        &&& kc * filters <= usize::MAX
        &&& k1n * (kc * filters) <= usize::MAX
        &&& k0n * (k1n * (kc * filters)) <= usize::MAX
        &&& e1 * filters <= usize::MAX
        &&& e0 * (e1 * filters) <= usize::MAX
        &&& k0n * k1n <= usize::MAX
        &&& (k0n * k1n) * kc <= usize::MAX
        &&& ((k0n * k1n) * kc) * groups <= usize::MAX
        &&& axis_ok(e0, k0n, d0, s0, pad0.0, in0)
        &&& axis_ok(e1, k1n, d1, s1, pad1.0, in1)
    })
}

/// A two-dimensional convolution: kernel of shape
/// `[rows, columns, channels per group, filters]`, bias of the output
/// shape, and the window geometry. Built only through `new`, which
/// validates every access the window can make.
pub struct Conv2D<A: Activation> {
    input_shape: Shape,
    output_shape: Shape,
    kernel: Tensor<i64>,
    bias: Tensor<i64>,
    activation: A,
    pad0: usize,
    pad1: usize,
    str0: usize,
    str1: usize,
    dil0: usize,
    dil1: usize,
    groups: usize,
    kernel_regularizer: Regularization,
    bias_regularizer: Regularization,
    activity_regularizer: Regularization,
    kernel_constraint: Constraint,
    bias_constraint: Constraint,
}

/// The one-shot backward context of a convolution: the input it saw
/// and the scaled activation derivatives, everything the gradient
/// computation needs.
pub struct Conv2DCtx {
    input: Tensor<i64>,
    derivatives: Tensor<i64>,
    act_reg: Tensor<i64>,
}

impl Conv2DCtx {
    /// The input the forward pass saw.
    pub closed spec fn input_data(&self) -> Seq<i64> {
        self.input.data_seq()
    }
}

impl<A: Activation> Conv2D<A> {
    /// The extents of the input: rows, columns, channels.
    pub closed spec fn input_dims(&self) -> Seq<usize> {
        self.input_shape.dims()
    }

    /// The extents of the output: rows, columns, filters.
    pub closed spec fn output_dims(&self) -> Seq<usize> {
        self.output_shape.dims()
    }

    /// The kernel's elements, flat.
    pub closed spec fn kernel_data(&self) -> Seq<i64> {
        self.kernel.data_seq()
    }

    /// The bias elements, one per output element.
    pub closed spec fn bias_data(&self) -> Seq<i64> {
        self.bias.data_seq()
    }

    /// The activation applied to each pre-activation value.
    pub closed spec fn activation_spec(&self) -> A {
        self.activation
    }

    /// The window geometry: paddings before each spatial axis,
    /// strides, dilations and the channel group count.
    pub closed spec fn geometry(&self) -> (usize, usize, usize, usize, usize, usize, usize) {
        (self.pad0, self.pad1, self.str0, self.str1, self.dil0, self.dil1, self.groups)
    }

    /// The kernel's extents.
    pub closed spec fn kernel_dims(&self) -> Seq<usize> {
        self.kernel.dims()
    }

    /// How many kernel positions one output element sums over.
    pub closed spec fn kq(&self) -> int {
        (self.kernel_dims()[0] as int) * (self.kernel_dims()[1] as int) * (self.kernel_dims()[2]
            as int) * (self.groups as int)
    }

    /// Shapes are consistent, the channel axis splits evenly into
    /// groups, every access the window can make stays inside the
    /// input, and the iteration counts fit the machine.
    pub closed spec fn wf(&self) -> bool {
        &&& self.input_shape.wf()
        &&& self.output_shape.wf()
        &&& self.kernel.wf()
        &&& self.bias.wf()
        &&& self.input_dims().len() == 3
        &&& self.output_dims().len() == 3
        &&& self.kernel_dims().len() == 4
        &&& self.bias.dims() == self.output_dims()
        &&& self.groups > 0
        &&& (self.groups as int) * (self.kernel_dims()[2] as int) == self.input_dims()[2] as int
        &&& self.kq() <= usize::MAX
        &&& axis_ok(
            self.output_dims()[0] as int,
            self.kernel_dims()[0] as int,
            self.dil0 as int,
            self.str0 as int,
            self.pad0 as int,
            self.input_dims()[0] as int,
        )
        &&& axis_ok(
            self.output_dims()[1] as int,
            self.kernel_dims()[1] as int,
            self.dil1 as int,
            self.str1 as int,
            self.pad1 as int,
            self.input_dims()[1] as int,
        )
        &&& self.output_dims()[2] == self.kernel_dims()[3]
    }

    /// The output row a flat output offset addresses.
    pub open spec fn o0(&self, p: int) -> int {
        p / ((self.output_dims()[1] as int) * (self.output_dims()[2] as int))
    }

    /// The output column a flat output offset addresses.
    pub open spec fn o1(&self, p: int) -> int {
        (p / (self.output_dims()[2] as int)) % (self.output_dims()[1] as int)
    }

    /// The filter a flat output offset addresses.
    pub open spec fn o2(&self, p: int) -> int {
        p % (self.output_dims()[2] as int)
    }

    /// The kernel row of one window iteration.
    pub closed spec fn qk0(&self, q: int) -> int {
        q / ((self.kernel_dims()[1] as int) * (self.kernel_dims()[2] as int) * (self.groups
            as int))
    }

    /// The kernel column of one window iteration.
    pub closed spec fn qk1(&self, q: int) -> int {
        (q / ((self.kernel_dims()[2] as int) * (self.groups as int))) % (self.kernel_dims()[1]
            as int)
    }

    /// The in-group channel of one window iteration.
    pub closed spec fn qk2(&self, q: int) -> int {
        (q / (self.groups as int)) % (self.kernel_dims()[2] as int)
    }

    /// The group of one window iteration.
    pub closed spec fn qg(&self, q: int) -> int {
        q % (self.groups as int)
    }

    /// Whether one window iteration lands inside the input, given the
    /// paddings.
    pub closed spec fn tap_valid(&self, p: int, q: int) -> bool {
        &&& self.o0(p) * (self.dil0 as int) + self.qk0(q) * (self.str0 as int) >= self.pad0 as int
        &&& self.o1(p) * (self.dil1 as int) + self.qk1(q) * (self.str1 as int) >= self.pad1 as int
    }

    /// The flat input offset one window iteration reads.
    pub closed spec fn tap_input(&self, p: int, q: int) -> int {
        let i0 = self.o0(p) * (self.dil0 as int) + self.qk0(q) * (self.str0 as int) - (self.pad0
            as int);
        let i1 = self.o1(p) * (self.dil1 as int) + self.qk1(q) * (self.str1 as int) - (self.pad1
            as int);
        let ch = self.qg(q) * (self.kernel_dims()[2] as int) + self.qk2(q);
        i0 * ((self.input_dims()[1] as int) * (self.input_dims()[2] as int)) + i1 * (
        self.input_dims()[2] as int) + ch
    }

    /// The flat kernel offset one window iteration reads.
    pub closed spec fn tap_kernel(&self, p: int, q: int) -> int {
        let f = self.kernel_dims()[3] as int;
        let kc = self.kernel_dims()[2] as int;
        let k1n = self.kernel_dims()[1] as int;
        self.qk0(q) * (k1n * kc * f) + self.qk1(q) * (kc * f) + self.qk2(q) * f + self.o2(p)
    }

    /// The pre-activation accumulation of one output element over the
    /// first `q` window iterations, seeded with the bias.
    pub open spec fn conv_acc(&self, x: Seq<i64>, p: int, q: int) -> i64
        decreases q,
    {
        if q <= 0 {
            self.bias_data()[p]
        } else if self.tap_valid(p, q - 1) {
            wadd(
                self.conv_acc(x, p, q - 1),
                wmul(x[self.tap_input(p, q - 1)], self.kernel_data()[self.tap_kernel(p, q - 1)]),
            )
        } else {
            self.conv_acc(x, p, q - 1)
        }
    }

    /// The pre-activation value of one output element: the bias plus
    /// the whole window sum.
    pub open spec fn pre_spec(&self, x: Seq<i64>, p: int) -> i64 {
        self.conv_acc(x, p, self.kq())
    }

    /// What `feed_forward` returns: each output element is the
    /// activation of its window sum.
    pub open spec fn forward_spec(&self, x: Seq<i64>) -> Seq<i64> {
        Seq::new(
            dims_product(self.output_dims()),
            |p: int| self.activation_spec().activate_spec(self.pre_spec(x, p)),
        )
    }

    /// Builds the layer, eagerly validating the whole window
    /// geometry: a build that would let any access reach outside the
    /// input, overflow the machine, or split channels unevenly into
    /// groups fails here, never during a forward pass.
    pub fn new(
        input_shape: Shape,
        filters: usize,
        kernel_shape: (usize, usize),
        kernel_init: i64,
        bias_init: i64,
        activation: A,
        padding: (Padding, Padding),
        strides: (usize, usize),
        dilation: (usize, usize),
        groups: usize,
        kernel_regularizer: Regularization,
        bias_regularizer: Regularization,
        activity_regularizer: Regularization,
        kernel_constraint: Constraint,
        bias_constraint: Constraint,
    ) -> (r: Result<Conv2D<A>, crate::model::ModelError>)
        requires
            input_shape.wf(),
        ensures
            r is Ok <==> conv_build_ok(
                input_shape.dims(),
                filters as int,
                kernel_shape.0 as int,
                kernel_shape.1 as int,
                (padding.0.resolve_spec().0 as int, padding.0.resolve_spec().1 as int),
                (padding.1.resolve_spec().0 as int, padding.1.resolve_spec().1 as int),
                strides.0 as int,
                strides.1 as int,
                dilation.0 as int,
                dilation.1 as int,
                groups as int,
            ),
            r matches Ok(l) ==> {
                &&& l.wf()
                &&& l.input_dims() == input_shape.dims()
                &&& l.activation_spec() == activation
                &&& forall|p: int|
                    0 <= p < l.kernel_data().len() ==> l.kernel_data()[p] == kernel_init
                &&& forall|p: int| 0 <= p < l.bias_data().len() ==> l.bias_data()[p] == bias_init
                &&& l.output_dims() =~= seq![
                    axis_extent(
                        input_shape.dims()[0] as int,
                        padding.0.resolve_spec().0 as int,
                        padding.0.resolve_spec().1 as int,
                        dilation.0 as int,
                        kernel_shape.0 as int,
                        strides.0 as int,
                    ) as usize,
                    axis_extent(
                        input_shape.dims()[1] as int,
                        padding.1.resolve_spec().0 as int,
                        padding.1.resolve_spec().1 as int,
                        dilation.1 as int,
                        kernel_shape.1 as int,
                        strides.1 as int,
                    ) as usize,
                    filters,
                ]
                &&& l.kernel_dims() =~= seq![
                    kernel_shape.0,
                    kernel_shape.1,
                    ((input_shape.dims()[2] as int) / (groups as int)) as usize,
                    filters,
                ]
                &&& l.geometry() == (
                    padding.0.resolve_spec().0,
                    padding.1.resolve_spec().0,
                    strides.0,
                    strides.1,
                    dilation.0,
                    dilation.1,
                    groups,
                )
                &&& l.regs() == (kernel_regularizer, bias_regularizer, activity_regularizer)
                &&& l.constraints() == (kernel_constraint, bias_constraint)
            },
    {
        if input_shape.dimensions() != 3 {
            return Err(crate::model::ModelError::MissingConfiguration);
        }
        if groups == 0 || strides.0 == 0 || strides.1 == 0 {
            return Err(crate::model::ModelError::MissingConfiguration);
        }
        let in0 = input_shape.dim(0);
        let in1 = input_shape.dim(1);
        let in2 = input_shape.dim(2);
        if filters % groups != 0 || in2 % groups != 0 {
            return Err(crate::model::ModelError::ShapeMismatch(
                vec![groups],
                vec![filters, in2],
            ));
        }
        let kc = in2 / groups;
        let (k0n, k1n) = kernel_shape;
        let p0 = padding.0.resolve();
        let p1 = padding.1.resolve();
        // the output extent of each spatial axis, checked step by step
        let out0 = match conv_out_extent(in0, p0.0, p0.1, dilation.0, k0n, strides.0) {
            Some(v) => v,
            None => {
                return Err(crate::model::ModelError::CapacityOverflow);
            },
        };
        let out1 = match conv_out_extent(in1, p1.0, p1.1, dilation.1, k1n, strides.1) {
            Some(v) => v,
            None => {
                return Err(crate::model::ModelError::CapacityOverflow);
            },
        };
        // every product the shapes and iteration counts need must fit
        let kernel_shape_v = match shape4(k0n, k1n, kc, filters) {
            Some(s) => s,
            None => {
                return Err(crate::model::ModelError::CapacityOverflow);
            },
        };
        let output_shape = match make_shape3(out0, out1, filters) {
            Some(s) => s,
            None => {
                return Err(crate::model::ModelError::CapacityOverflow);
            },
        };
        let kq01: usize = match k0n.checked_mul(k1n) {
            Some(v) => v,
            None => {
                return Err(crate::model::ModelError::CapacityOverflow);
            },
        };
        let kq012: usize = match kq01.checked_mul(kc) {
            Some(v) => v,
            None => {
                return Err(crate::model::ModelError::CapacityOverflow);
            },
        };
        let kqv: usize = match kq012.checked_mul(groups) {
            Some(v) => v,
            None => {
                return Err(crate::model::ModelError::CapacityOverflow);
            },
        };
        if !check_axis(out0, k0n, dilation.0, strides.0, p0.0, in0) {
            return Err(crate::model::ModelError::CapacityOverflow);
        }
        if !check_axis(out1, k1n, dilation.1, strides.1, p1.0, in1) {
            return Err(crate::model::ModelError::CapacityOverflow);
        }
        let mut ki: i64 = kernel_init;
        let mut bi: i64 = bias_init;
        let kernel = crate::initializers::Initializer::initialize(&mut ki, kernel_shape_v);
        let bias = crate::initializers::Initializer::initialize(&mut bi, output_shape.clone());
        let layer = Conv2D {
            input_shape,
            output_shape,
            kernel,
            bias,
            activation,
            pad0: p0.0,
            pad1: p1.0,
            str0: strides.0,
            str1: strides.1,
            dil0: dilation.0,
            dil1: dilation.1,
            groups,
            kernel_regularizer,
            bias_regularizer,
            activity_regularizer,
            kernel_constraint,
            bias_constraint,
        };
        proof {
            assert(layer.kernel_dims() =~= seq![k0n, k1n, kc, filters]);
            assert(layer.output_dims() =~= seq![out0, out1, filters]);
            assert(layer.input_dims()[2] == in2);
            vstd::arithmetic::div_mod::lemma_fundamental_div_mod(in2 as int, groups as int);
            assert((layer.groups as int) * (layer.kernel_dims()[2] as int)
                == layer.input_dims()[2] as int);
            assert(layer.kq() == ((k0n as int) * (k1n as int)) * (kc as int) * (groups as int));
            assert(((k0n as int) * (k1n as int)) * (kc as int) == kq012 as int);
            assert((kq012 as int) * (groups as int) == kqv as int);
            assert(layer.kq() <= usize::MAX);
        }
        Ok(layer)
    }

    /// The input shape the layer accepts.
    pub fn get_input_shape(&self) -> (s: &Shape)
        ensures
            s.dims() == self.input_dims(),
            self.wf() ==> s.wf(),
    {
        &self.input_shape
    }

    /// The output shape the layer produces.
    pub fn get_output_shape(&self) -> (s: &Shape)
        ensures
            s.dims() == self.output_dims(),
            self.wf() ==> s.wf(),
    {
        &self.output_shape
    }
}

/// Unfolding the capacity of a rank-three shape.
pub proof fn lemma_product3(dims: Seq<usize>)
    requires
        dims.len() == 3,
    ensures
        dims_product(dims) == (dims[0] as int) * ((dims[1] as int) * (dims[2] as int)),
{
    reveal_with_fuel(dims_product, 5);
    assert(dims =~= seq![dims[0], dims[1], dims[2]]);
    assert(dims.drop_first() =~= seq![dims[1], dims[2]]);
    assert(seq![dims[1], dims[2]].drop_first() =~= seq![dims[2]]);
    assert(seq![dims[2]].drop_first().len() == 0);
    assert((dims[2] as nat) * 1 == dims[2] as nat) by (nonlinear_arith);
}

/// Unfolding the capacity of a rank-four shape.
pub proof fn lemma_product4(dims: Seq<usize>)
    requires
        dims.len() == 4,
    ensures
        dims_product(dims) == (dims[0] as int) * ((dims[1] as int) * ((dims[2] as int) * (dims[3]
            as int))),
{
    reveal_with_fuel(dims_product, 6);
    assert(dims =~= seq![dims[0], dims[1], dims[2], dims[3]]);
    assert(dims.drop_first() =~= seq![dims[1], dims[2], dims[3]]);
    assert(seq![dims[1], dims[2], dims[3]].drop_first() =~= seq![dims[2], dims[3]]);
    assert(seq![dims[2], dims[3]].drop_first() =~= seq![dims[3]]);
    assert(seq![dims[3]].drop_first().len() == 0);
    assert((dims[3] as nat) * 1 == dims[3] as nat) by (nonlinear_arith);
}

impl<A: Activation> Conv2D<A> {
    /// How many window iterations one output element sums over.
    fn window_count(&self) -> (r: usize)
        requires
            self.wf(),
        ensures
            r as int == self.kq(),
            r > 0 ==> self.kernel_dims()[0] > 0 && self.kernel_dims()[1] > 0
                && self.kernel_dims()[2] > 0 && self.geometry().6 > 0,
    {
        let k0n = self.kernel.get_shape().dim(0);
        let k1n = self.kernel.get_shape().dim(1);
        let kc = self.kernel.get_shape().dim(2);
        let gn = self.groups;
        proof {
            assert(self.kq() == ((k0n as int) * (k1n as int)) * (kc as int) * (gn as int));
            assert(((k0n as int) * (k1n as int)) * (kc as int) * (gn as int) == (k0n as int) * ((
            k1n as int) * ((kc as int) * (gn as int)))) by (nonlinear_arith);
        }
        if k0n == 0 || k1n == 0 || kc == 0 || gn == 0 {
            proof {
                assert(self.kq() == 0) by (nonlinear_arith)
                    requires
                        self.kq() == ((k0n as int) * (k1n as int)) * (kc as int) * (gn as int)
                            && (k0n == 0 || k1n == 0 || kc == 0 || gn == 0);
            }
            0
        } else {
            proof {
                let whole = (k0n as int) * ((k1n as int) * ((kc as int) * (gn as int)));
                assert((kc as int) * (gn as int) <= whole && (k1n as int) * ((kc as int) * (
                gn as int)) <= whole) by (nonlinear_arith)
                    requires
                        whole == (k0n as int) * ((k1n as int) * ((kc as int) * (gn as int)))
                            && (k0n as int) >= 1 && (k1n as int) >= 1 && (kc as int) >= 1 && (
                        gn as int) >= 1;
                assert(whole <= usize::MAX);
            }
            k0n * (k1n * (kc * gn))
        }
    }

    /// One window iteration's shape: whether it lands inside the
    /// input and, when it does, the flat input and kernel offsets it
    /// touches.
    fn tap_at(&self, p: usize, q: usize) -> (r: (bool, usize, usize))
        requires
            self.wf(),
            (p as int) < dims_product(self.output_dims()),
            (q as int) < self.kq(),
        ensures
            r.0 == self.tap_valid(p as int, q as int),
            r.0 ==> (r.1 as int) == self.tap_input(p as int, q as int) && (r.1 as int)
                < dims_product(self.input_dims()) && (r.2 as int) == self.tap_kernel(
                p as int,
                q as int,
            ) && (r.2 as int) < dims_product(self.kernel_dims()),
    {
        let k0n = self.kernel.get_shape().dim(0);
        let k1n = self.kernel.get_shape().dim(1);
        let kc = self.kernel.get_shape().dim(2);
        let f = self.kernel.get_shape().dim(3);
        let gn = self.groups;
        let out1 = self.output_shape.dim(1);
        let in0 = self.input_shape.dim(0);
        let in1 = self.input_shape.dim(1);
        let in2 = self.input_shape.dim(2);
        let ghost qs = q as int;
        let ghost o0s = self.o0(p as int);
        let ghost o1s = self.o1(p as int);
        let ghost o2s = self.o2(p as int);
        proof {
            lemma_product3(self.input_dims());
            lemma_product3(self.output_dims());
            lemma_product4(self.kernel_dims());
            lemma_tensor_capacity_fits(self.kernel);
            lemma_tensor_capacity_fits(self.bias);
            crate::shape::lemma_shape_capacity_fits(&self.input_shape);
            assert(self.kq() == ((k0n as int) * (k1n as int)) * (kc as int) * (gn as int));
            assert(((k0n as int) * (k1n as int)) * (kc as int) * (gn as int) == (k0n as int) * ((
            k1n as int) * ((kc as int) * (gn as int)))) by (nonlinear_arith);
            assert(k0n > 0 && k1n > 0 && kc > 0 && gn > 0) by (nonlinear_arith)
                requires
                    0 <= qs < (k0n as int) * ((k1n as int) * ((kc as int) * (gn as int)))
                        && (k0n as int) >= 0 && (k1n as int) >= 0 && (kc as int) >= 0 && (
                    gn as int) >= 0;
            let whole = (k0n as int) * ((k1n as int) * ((kc as int) * (gn as int)));
            assert((kc as int) * (gn as int) <= whole && (k1n as int) * ((kc as int) * (
            gn as int)) <= whole) by (nonlinear_arith)
                requires
                    whole == (k0n as int) * ((k1n as int) * ((kc as int) * (gn as int))) && (
                    k0n as int) >= 1 && (k1n as int) >= 1 && (kc as int) >= 1 && (gn as int)
                        >= 1;
            assert(whole <= usize::MAX);
        }
        let m2: usize = kc * gn;
        let m1: usize = k1n * m2;
        proof {
            assert(m2 > 0) by (nonlinear_arith)
                requires m2 as int == (kc as int) * (gn as int) && kc > 0 && gn > 0;
            assert(m1 > 0) by (nonlinear_arith)
                requires
                    m1 as int == (k1n as int) * ((kc as int) * (gn as int)) && k1n > 0 && (
                    kc as int) * (gn as int) > 0;
            assert(qs < (k0n as int) * (m1 as int)) by (nonlinear_arith)
                requires
                    qs < (k0n as int) * ((k1n as int) * ((kc as int) * (gn as int))) && m1 as int
                        == (k1n as int) * ((kc as int) * (gn as int));
            lemma_div_bound(qs, m1 as int, k0n as int);
            vstd::arithmetic::div_mod::lemma_mod_bound(qs / (m2 as int), k1n as int);
            vstd::arithmetic::div_mod::lemma_mod_bound(qs / (gn as int), kc as int);
            vstd::arithmetic::div_mod::lemma_mod_bound(qs, gn as int);
            vstd::arithmetic::div_mod::lemma_div_pos_is_pos(qs, m1 as int);
            vstd::arithmetic::div_mod::lemma_div_pos_is_pos(qs, m2 as int);
            vstd::arithmetic::div_mod::lemma_div_pos_is_pos(qs, gn as int);
            assert((k1n as int) * ((kc as int) * (gn as int)) == ((k1n as int) * (kc as int)) * (
            gn as int)) by (nonlinear_arith);
            assert(self.qk0(qs) == qs / (m1 as int));
            assert(self.qk1(qs) == (qs / (m2 as int)) % (k1n as int));
            assert(self.qk2(qs) == (qs / (gn as int)) % (kc as int));
            assert(self.qg(qs) == qs % (gn as int));
        }
        let k0 = q / m1;
        let k1 = (q / m2) % k1n;
        let k2 = (q / gn) % kc;
        let gi = q % gn;
        proof {
            // the output coordinates stay inside their extents
            assert(dims_product(self.output_dims()) > 0);
            assert((self.output_dims()[0] as int) >= 1 && (out1 as int) * (f as int) > 0 && (
            out1 as int) >= 1 && (f as int) >= 1) by (nonlinear_arith)
                requires
                    dims_product(self.output_dims()) == (self.output_dims()[0] as int) * ((
                    out1 as int) * (f as int)) && dims_product(self.output_dims()) > 0 && (
                    self.output_dims()[0] as int) >= 0 && (out1 as int) >= 0 && (f as int) >= 0;
            assert((out1 as int) * (f as int) <= usize::MAX) by (nonlinear_arith)
                requires
                    dims_product(self.output_dims()) <= usize::MAX && dims_product(
                        self.output_dims(),
                    ) == (self.output_dims()[0] as int) * ((out1 as int) * (f as int)) && (
                    self.output_dims()[0] as int) >= 1 && (out1 as int) * (f as int) >= 0;
            assert((p as int) < (self.output_dims()[0] as int) * ((out1 as int) * (f as int)));
            lemma_div_bound(p as int, (out1 as int) * (f as int), self.output_dims()[0] as int);
            vstd::arithmetic::div_mod::lemma_mod_bound(p as int / (f as int), out1 as int);
            vstd::arithmetic::div_mod::lemma_mod_bound(p as int, f as int);
            vstd::arithmetic::div_mod::lemma_div_pos_is_pos(p as int, (out1 as int) * (f as int));
            vstd::arithmetic::div_mod::lemma_div_pos_is_pos(p as int, f as int);
            assert(0 <= o0s < self.output_dims()[0] as int);
            assert(0 <= o1s < out1 as int);
            assert(0 <= o2s < f as int);
            assert(o0s * (self.geometry().4 as int) + (k0 as int) * (self.geometry().2 as int)
                <= usize::MAX);
            assert(o1s * (self.geometry().5 as int) + (k1 as int) * (self.geometry().3 as int)
                <= usize::MAX);
        }
        let o0v: usize = p / (out1 * f);
        let o1v: usize = (p / f) % out1;
        let o2v: usize = p % f;
        proof {
            assert(o0v as int == o0s);
            assert(o1v as int == o1s);
            assert(o2v as int == o2s);
        }
        let t0 = o0v * self.dil0 + k0 * self.str0;
        let t1 = o1v * self.dil1 + k1 * self.str1;
        if t0 >= self.pad0 && t1 >= self.pad1 {
            let i0 = t0 - self.pad0;
            let i1 = t1 - self.pad1;
            proof {
                assert(self.tap_valid(p as int, qs));
                assert((i0 as int) < in0 as int);
                assert((i1 as int) < in1 as int);
                assert((gi as int) * (kc as int) + (k2 as int) < in2 as int) by (nonlinear_arith)
                    requires
                        (gi as int) < gn as int && (k2 as int) < kc as int && (gn as int) * (
                        kc as int) == in2 as int && (gi as int) >= 0 && (k2 as int) >= 0 && (
                        kc as int) >= 0;
                assert((i1 as int) * (in2 as int) + ((gi as int) * (kc as int) + (k2 as int)) < (
                in1 as int) * (in2 as int)) by (nonlinear_arith)
                    requires
                        (i1 as int) < in1 as int && (gi as int) * (kc as int) + (k2 as int)
                            < in2 as int && (i1 as int) >= 0 && (gi as int) * (kc as int) + (
                        k2 as int) >= 0 && (in2 as int) >= 0;
                assert((i0 as int) * ((in1 as int) * (in2 as int)) + ((in1 as int) * (in2 as int))
                    <= (in0 as int) * ((in1 as int) * (in2 as int))) by (nonlinear_arith)
                    requires (i0 as int) < in0 as int && (in1 as int) * (in2 as int) >= 0;
                assert(self.tap_input(p as int, qs) == (i0 as int) * ((in1 as int) * (in2 as int))
                    + (i1 as int) * (in2 as int) + ((gi as int) * (kc as int) + (k2 as int)));
                assert((k2 as int) * (f as int) + (o2s as int) < (kc as int) * (f as int))
                    by (nonlinear_arith)
                    requires
                        (k2 as int) < kc as int && o2s < f as int && (k2 as int) >= 0 && o2s >= 0
                            && (f as int) >= 0;
                assert((k1 as int) * ((kc as int) * (f as int)) + ((kc as int) * (f as int)) <= (
                k1n as int) * ((kc as int) * (f as int))) by (nonlinear_arith)
                    requires (k1 as int) < k1n as int && (kc as int) * (f as int) >= 0;
                assert((k0 as int) * ((k1n as int) * ((kc as int) * (f as int))) + ((k1n as int)
                    * ((kc as int) * (f as int))) <= (k0n as int) * ((k1n as int) * ((kc as int)
                    * (f as int)))) by (nonlinear_arith)
                    requires
                        (k0 as int) < k0n as int && (k1n as int) * ((kc as int) * (f as int))
                            >= 0;
                assert(dims_product(self.kernel_dims()) == (k0n as int) * ((k1n as int) * ((
                kc as int) * (f as int))));
                assert(self.tap_kernel(p as int, qs) == (k0 as int) * ((k1n as int) * ((kc as int)
                    * (f as int))) + (k1 as int) * ((kc as int) * (f as int)) + (k2 as int) * (
                f as int) + o2s) by (nonlinear_arith)
                    requires
                        self.tap_kernel(p as int, qs) == (k0 as int) * (((k1n as int) * (
                        kc as int)) * (f as int)) + (k1 as int) * ((kc as int) * (f as int)) + (
                        k2 as int) * (f as int) + o2s;
                assert((in1 as int) * (in2 as int) <= usize::MAX) by (nonlinear_arith)
                    requires
                        dims_product(self.input_dims()) <= usize::MAX && dims_product(
                            self.input_dims(),
                        ) == (in0 as int) * ((in1 as int) * (in2 as int)) && (i0 as int) < (
                        in0 as int) && (i0 as int) >= 0 && (in1 as int) * (in2 as int) >= 0;
                assert((kc as int) * (f as int) <= usize::MAX && (k1n as int) * ((kc as int) * (
                f as int)) <= usize::MAX) by (nonlinear_arith)
                    requires
                        dims_product(self.kernel_dims()) <= usize::MAX && dims_product(
                            self.kernel_dims(),
                        ) == (k0n as int) * ((k1n as int) * ((kc as int) * (f as int))) && k0n
                            >= 1 && k1n >= 1 && (kc as int) >= 0 && (f as int) >= 0;
            }
            let ii = i0 * (in1 * in2) + i1 * in2 + (gi * kc + k2);
            let ki = k0 * (k1n * (kc * f)) + k1 * (kc * f) + k2 * f + o2v;
            (true, ii, ki)
        } else {
            proof {
                assert(!self.tap_valid(p as int, qs));
            }
            (false, 0, 0)
        }
    }

    /// The scaled delta of one output element: the activation
    /// derivative at the window sum times the incoming gradient plus
    /// the activity regularization of the output.
    pub open spec fn delta_spec(&self, x: Seq<i64>, g: Seq<i64>, p: int) -> i64 {
        wmul(
            self.activation_spec().derive_spec(self.pre_spec(x, p)),
            wadd(
                g[p],
                self.regs().2.derive_spec(
                    self.activation_spec().activate_spec(self.pre_spec(x, p)),
                ),
            ),
        )
    }

    /// The layer's regularizers: kernel, bias, activity.
    pub closed spec fn regs(&self) -> (Regularization, Regularization, Regularization) {
        (self.kernel_regularizer, self.bias_regularizer, self.activity_regularizer)
    }

    /// The layer's constraints: kernel, bias.
    pub closed spec fn constraints(&self) -> (Constraint, Constraint) {
        (self.kernel_constraint, self.bias_constraint)
    }

    /// The kernel and input gradients after the first `t` of the
    /// backward sweep's interleaved accumulation steps, walking the
    /// output elements in order and, within each, the window
    /// iterations: each valid step first folds the step's
    /// contribution into the kernel gradient, then folds the updated
    /// kernel entry into the input gradient, exactly in that order.
    pub open spec fn bwd_state(
        &self,
        x: Seq<i64>,
        g: Seq<i64>,
        kd0: Seq<i64>,
        id0: Seq<i64>,
        t: int,
    ) -> (Seq<i64>, Seq<i64>)
        decreases t,
    {
        if t <= 0 {
            (kd0, id0)
        } else {
            let prev = self.bwd_state(x, g, kd0, id0, t - 1);
            let p = (t - 1) / self.kq();
            let q = (t - 1) % self.kq();
            if self.tap_valid(p, q) {
                let ki = self.tap_kernel(p, q);
                let ii = self.tap_input(p, q);
                let kd = prev.0.update(
                    ki,
                    wadd(prev.0[ki], wmul(x[ii], self.delta_spec(x, g, p))),
                );
                let id = prev.1.update(
                    ii,
                    wadd(prev.1[ii], wmul(kd[ki], self.delta_spec(x, g, p))),
                );
                (kd, id)
            } else {
                prev
            }
        }
    }

    /// The captured context belongs to this layer and records the
    /// given input faithfully.
    pub closed spec fn ctx_matches(&self, ctx: Conv2DCtx) -> bool {
        &&& ctx.input.wf()
        &&& ctx.input.dims() == self.input_dims()
        &&& ctx.derivatives.wf()
        &&& ctx.derivatives.dims() == self.output_dims()
        &&& ctx.derivatives.data_seq() =~= Seq::new(
            dims_product(self.output_dims()),
            |p: int| self.activation_spec().derive_spec(self.pre_spec(ctx.input.data_seq(), p)),
        )
        &&& ctx.act_reg.wf()
        &&& ctx.act_reg.dims() == self.output_dims()
        &&& ctx.act_reg.data_seq() =~= Seq::new(
            dims_product(self.output_dims()),
            |p: int|
                self.regs().2.derive_spec(
                    self.activation_spec().activate_spec(self.pre_spec(ctx.input.data_seq(), p)),
                ),
        )
    }

    /// The pure forward evaluation: no gradient bookkeeping, no side
    /// effects on the layer.
    pub fn feed_forward(&self, input: &Tensor<i64>) -> (r: Tensor<i64>)
        requires
            self.wf(),
            input.wf(),
            input.dims() == self.input_dims(),
        ensures
            r.wf(),
            r.dims() == self.output_dims(),
            r.data_seq() =~= self.forward_spec(input.data_seq()),
    {
        let (out, _deriv, _act_reg) = self.forward_parts(input);
        out
    }

    /// The window sums, the activation outputs and derivatives, and
    /// the activity regularization, in one sweep over the output.
    fn forward_parts(&self, input: &Tensor<i64>) -> (r: (Tensor<i64>, Tensor<i64>, Tensor<i64>))
        requires
            self.wf(),
            input.wf(),
            input.dims() == self.input_dims(),
        ensures
            r.0.wf(),
            r.0.dims() == self.output_dims(),
            r.0.data_seq() =~= self.forward_spec(input.data_seq()),
            r.1.wf(),
            r.1.dims() == self.output_dims(),
            r.1.data_seq() =~= Seq::new(
                dims_product(self.output_dims()),
                |p: int| self.activation_spec().derive_spec(self.pre_spec(input.data_seq(), p)),
            ),
            r.2.wf(),
            r.2.dims() == self.output_dims(),
            r.2.data_seq() =~= Seq::new(
                dims_product(self.output_dims()),
                |p: int|
                    self.regs().2.derive_spec(
                        self.activation_spec().activate_spec(
                            self.pre_spec(input.data_seq(), p),
                        ),
                    ),
            ),
    {
        let ghost x = input.data_seq();
        proof {
            lemma_tensor_capacity_fits(self.bias);
        }
        let out_cap = self.output_shape.capacity();
        let mut out = Tensor::zero(self.output_shape.clone());
        let mut deriv = Tensor::zero(self.output_shape.clone());
        let mut act_reg = Tensor::zero(self.output_shape.clone());
        let mut p: usize = 0;
        while p < out_cap
            invariant
                p <= out_cap,
                self.wf(),
                input.wf(),
                input.dims() == self.input_dims(),
                x == input.data_seq(),
                out_cap == dims_product(self.output_dims()),
                out.wf(),
                out.dims() == self.output_dims(),
                out.data_seq().len() == out_cap,
                deriv.wf(),
                deriv.dims() == self.output_dims(),
                deriv.data_seq().len() == out_cap,
                act_reg.wf(),
                act_reg.dims() == self.output_dims(),
                act_reg.data_seq().len() == out_cap,
                forall|j: int|
                    0 <= j < p ==> out.data_seq()[j] == self.activation_spec().activate_spec(
                        self.pre_spec(x, j),
                    ),
                forall|j: int|
                    0 <= j < p ==> deriv.data_seq()[j] == self.activation_spec().derive_spec(
                        self.pre_spec(x, j),
                    ),
                forall|j: int|
                    0 <= j < p ==> act_reg.data_seq()[j] == self.regs().2.derive_spec(
                        self.activation_spec().activate_spec(self.pre_spec(x, j)),
                    ),
            decreases out_cap - p,
        {
            let pre = self.pre_at(input, p);
            out.flat_set(p, self.activation.activate(pre));
            deriv.flat_set(p, self.activation.derive(pre));
            act_reg.flat_set(p, self.activity_regularizer.derive_at(self.activation.activate(pre)));
            p += 1;
        }
        (out, deriv, act_reg)
    }

    /// Computes the same outputs as `feed_forward` and captures the
    /// one-shot backward context.
    pub fn back_propagate(&self, input: &Tensor<i64>) -> (r: (Tensor<i64>, Conv2DCtx))
        requires
            self.wf(),
            input.wf(),
            input.dims() == self.input_dims(),
        ensures
            r.0.wf(),
            r.0.dims() == self.output_dims(),
            r.0.data_seq() =~= self.forward_spec(input.data_seq()),
            self.ctx_matches(r.1),
            r.1.input_data() == input.data_seq(),
    {
        let (out, deriv, act_reg) = self.forward_parts(input);
        let ctx = Conv2DCtx { input: input.clone(), derivatives: deriv, act_reg };
        (out, ctx)
    }

    /// Consumes a backward context and the gradient of the loss with
    /// respect to this layer's output; returns the gradient with
    /// respect to the input and, in update order, the kernel and bias
    /// gradients, computed by the interleaved accumulation sweep.
    pub fn backward(&self, ctx: Conv2DCtx, output_d: &Tensor<i64>) -> (r: (
        Tensor<i64>,
        Vec<Tensor<i64>>,
    ))
        requires
            self.wf(),
            self.ctx_matches(ctx),
            output_d.wf(),
            output_d.dims() == self.output_dims(),
        ensures
            ({
                let x = ctx.input_data();
                let g = output_d.data_seq();
                let kd0 = Seq::new(
                    dims_product(self.kernel_dims()),
                    |i: int| self.regs().0.derive_spec(self.kernel_data()[i]),
                );
                let id0 = Seq::new(dims_product(self.input_dims()), |i: int| 0i64);
                let end = self.bwd_state(
                    x,
                    g,
                    kd0,
                    id0,
                    dims_product(self.output_dims()) * self.kq(),
                );
                &&& r.0.wf()
                &&& r.0.dims() == self.input_dims()
                &&& r.0.data_seq() == end.1
                &&& r.1@.len() == 2
                &&& r.1@[0].wf()
                &&& r.1@[0].dims() == self.kernel_dims()
                &&& r.1@[0].data_seq() == end.0
                &&& r.1@[1].wf()
                &&& r.1@[1].dims() == self.output_dims()
                &&& r.1@[1].data_seq() =~= Seq::new(
                    dims_product(self.output_dims()),
                    |p: int| wadd(self.regs().1.derive_spec(self.bias_data()[p]), self.delta_spec(x, g, p)),
                )
            }),
    {
        let ghost x = ctx.input_data();
        let ghost g = output_d.data_seq();
        proof {
            lemma_tensor_capacity_fits(ctx.input);
            lemma_tensor_capacity_fits(*output_d);
            lemma_tensor_capacity_fits(self.kernel);
            lemma_tensor_capacity_fits(self.bias);
        }
        let out_cap = self.output_shape.capacity();
        // the scaled deltas, one per output element
        let mut d = Tensor::zero(self.output_shape.clone());
        let mut o: usize = 0;
        while o < out_cap
            invariant
                o <= out_cap,
                self.wf(),
                self.ctx_matches(ctx),
                output_d.wf(),
                output_d.dims() == self.output_dims(),
                x == ctx.input_data(),
                g == output_d.data_seq(),
                out_cap == dims_product(self.output_dims()),
                g.len() == out_cap,
                ctx.derivatives.data_seq().len() == out_cap,
                ctx.act_reg.data_seq().len() == out_cap,
                d.wf(),
                d.dims() == self.output_dims(),
                d.data_seq().len() == out_cap,
                forall|j: int| 0 <= j < o ==> d.data_seq()[j] == self.delta_spec(x, g, j),
            decreases out_cap - o,
        {
            let v = ctx.derivatives.flat_get(o).wrapping_mul(
                output_d.flat_get(o).wrapping_add(*ctx.act_reg.flat_get(o)),
            );
            d.flat_set(o, v);
            o += 1;
        }
        // the bias gradient: regularization plus deltas
        let mut bias_d = self.bias_regularizer.derive(&self.bias);
        let mut o2: usize = 0;
        while o2 < out_cap
            invariant
                o2 <= out_cap,
                self.wf(),
                x == ctx.input_data(),
                g == output_d.data_seq(),
                out_cap == dims_product(self.output_dims()),
                d.data_seq().len() == out_cap,
                forall|j: int| 0 <= j < out_cap ==> d.data_seq()[j] == self.delta_spec(x, g, j),
                bias_d.wf(),
                bias_d.dims() == self.output_dims(),
                bias_d.data_seq().len() == out_cap,
                forall|j: int|
                    o2 <= j < out_cap ==> bias_d.data_seq()[j] == self.regs().1.derive_spec(
                        self.bias_data()[j],
                    ),
                forall|j: int|
                    0 <= j < o2 ==> bias_d.data_seq()[j] == wadd(
                        self.regs().1.derive_spec(self.bias_data()[j]),
                        self.delta_spec(x, g, j),
                    ),
            decreases out_cap - o2,
        {
            let v = bias_d.flat_get(o2).wrapping_add(*d.flat_get(o2));
            bias_d.flat_set(o2, v);
            o2 += 1;
        }
        // the interleaved kernel/input gradient sweep
        let ghost kd0 = Seq::new(
            dims_product(self.kernel_dims()),
            |i: int| self.regs().0.derive_spec(self.kernel_data()[i]),
        );
        let ghost id0 = Seq::new(dims_product(self.input_dims()), |i: int| 0i64);
        let mut kernel_d = self.kernel_regularizer.derive(&self.kernel);
        let mut input_d = Tensor::zero(self.input_shape.clone());
        let kq = self.window_count();
        proof {
            assert(kernel_d.data_seq() =~= kd0);
            assert(input_d.data_seq() =~= id0);
            assert(self.bwd_state(x, g, kd0, id0, 0) == (kd0, id0));
        }
        let mut p: usize = 0;
        while p < out_cap
            invariant
                p <= out_cap,
                self.wf(),
                self.ctx_matches(ctx),
                x == ctx.input_data(),
                g == output_d.data_seq(),
                out_cap == dims_product(self.output_dims()),
                kq as int == self.kq(),
                x.len() == dims_product(self.input_dims()),
                d.data_seq().len() == out_cap,
                forall|j: int| 0 <= j < out_cap ==> d.data_seq()[j] == self.delta_spec(x, g, j),
                kd0 == Seq::new(
                    dims_product(self.kernel_dims()),
                    |i: int| self.regs().0.derive_spec(self.kernel_data()[i]),
                ),
                id0 == Seq::new(dims_product(self.input_dims()), |i: int| 0i64),
                kernel_d.wf(),
                kernel_d.dims() == self.kernel_dims(),
                input_d.wf(),
                input_d.dims() == self.input_dims(),
                (kernel_d.data_seq(), input_d.data_seq()) == self.bwd_state(
                    x,
                    g,
                    kd0,
                    id0,
                    (p as int) * (kq as int),
                ),
            decreases out_cap - p,
        {
            let mut q: usize = 0;
            while q < kq
                invariant
                    q <= kq,
                    p < out_cap,
                    self.wf(),
                    self.ctx_matches(ctx),
                    x == ctx.input_data(),
                    g == output_d.data_seq(),
                    out_cap == dims_product(self.output_dims()),
                    kq as int == self.kq(),
                    x.len() == dims_product(self.input_dims()),
                    d.data_seq().len() == out_cap,
                    forall|j: int|
                        0 <= j < out_cap ==> d.data_seq()[j] == self.delta_spec(x, g, j),
                    kd0 == Seq::new(
                        dims_product(self.kernel_dims()),
                        |i: int| self.regs().0.derive_spec(self.kernel_data()[i]),
                    ),
                    id0 == Seq::new(dims_product(self.input_dims()), |i: int| 0i64),
                    kernel_d.wf(),
                    kernel_d.dims() == self.kernel_dims(),
                    input_d.wf(),
                    input_d.dims() == self.input_dims(),
                    (kernel_d.data_seq(), input_d.data_seq()) == self.bwd_state(
                        x,
                        g,
                        kd0,
                        id0,
                        (p as int) * (kq as int) + (q as int),
                    ),
                decreases kq - q,
            {
                let ghost t = (p as int) * (kq as int) + (q as int) + 1;
                proof {
                    lemma_tensor_capacity_fits(kernel_d);
                    lemma_tensor_capacity_fits(input_d);
                    lemma_product4(self.kernel_dims());
                    vstd::arithmetic::div_mod::lemma_fundamental_div_mod_converse(
                        t - 1,
                        kq as int,
                        p as int,
                        q as int,
                    );
                    assert((t - 1) / (kq as int) == p as int);
                    assert((t - 1) % (kq as int) == q as int);
                }
                let (valid, ii, ki) = self.tap_at(p, q);
                if valid {
                    let kv = kernel_d.flat_get(ki).wrapping_add(
                        ctx.input.flat_get(ii).wrapping_mul(*d.flat_get(p)),
                    );
                    kernel_d.flat_set(ki, kv);
                    let iv = input_d.flat_get(ii).wrapping_add(
                        kernel_d.flat_get(ki).wrapping_mul(*d.flat_get(p)),
                    );
                    input_d.flat_set(ii, iv);
                    proof {
                        assert((kernel_d.data_seq(), input_d.data_seq()) == self.bwd_state(
                            x,
                            g,
                            kd0,
                            id0,
                            t,
                        ));
                    }
                } else {
                    proof {
                        assert((kernel_d.data_seq(), input_d.data_seq()) == self.bwd_state(
                            x,
                            g,
                            kd0,
                            id0,
                            t,
                        ));
                    }
                }
                q += 1;
            }
            p += 1;
            proof {
                assert((p as int) * (kq as int) == ((p - 1) as int) * (kq as int) + (kq as int))
                    by (nonlinear_arith);
            }
        }
        proof {
            assert((out_cap as int) * (kq as int) == dims_product(self.output_dims())
                * self.kq()) by (nonlinear_arith)
                requires out_cap == dims_product(self.output_dims()) && kq as int == self.kq();
        }
        let mut grads: Vec<Tensor<i64>> = Vec::new();
        grads.push(kernel_d);
        grads.push(bias_d);
        (input_d, grads)
    }

    /// Applies one optimizer step: subtracts the deltas from the
    /// kernel and the bias, then re-applies the value constraints to
    /// every updated parameter element. The only mutation path of the
    /// layer.
    pub fn update(&mut self, deltas: &Vec<Tensor<i64>>) -> (nothing: ())
        requires
            old(self).wf(),
            deltas@.len() == 2,
            deltas@[0].wf(),
            deltas@[0].dims() == old(self).kernel_dims(),
            deltas@[1].wf(),
            deltas@[1].dims() == old(self).output_dims(),
        ensures
            final(self).wf(),
            final(self).input_dims() == old(self).input_dims(),
            final(self).output_dims() == old(self).output_dims(),
            final(self).geometry() == old(self).geometry(),
            final(self).kernel_dims() == old(self).kernel_dims(),
            final(self).activation_spec() == old(self).activation_spec(),
            final(self).regs() == old(self).regs(),
            final(self).constraints() == old(self).constraints(),
            final(self).kernel_data() =~= Seq::new(
                old(self).kernel_data().len(),
                |p: int|
                    old(self).constraints().0.constrain_spec(
                        wsub(old(self).kernel_data()[p], deltas@[0].data_seq()[p]),
                    ),
            ),
            final(self).bias_data() =~= Seq::new(
                old(self).bias_data().len(),
                |o: int|
                    old(self).constraints().1.constrain_spec(
                        wsub(old(self).bias_data()[o], deltas@[1].data_seq()[o]),
                    ),
            ),
    {
        proof {
            lemma_tensor_capacity_fits(self.kernel);
            lemma_tensor_capacity_fits(self.bias);
            lemma_tensor_capacity_fits(deltas@[0]);
            lemma_tensor_capacity_fits(deltas@[1]);
        }
        self.kernel.sub_assign(&deltas[0]);
        self.bias.sub_assign(&deltas[1]);
        let kn = self.kernel.len();
        let mut p: usize = 0;
        while p < kn
            invariant
                p <= kn,
                kn == self.kernel.data_seq().len(),
                kn == old(self).kernel.data_seq().len(),
                self.kernel.wf(),
                self.kernel.dims() == old(self).kernel.dims(),
                self.kernel_constraint == old(self).kernel_constraint,
                self.bias_constraint == old(self).bias_constraint,
                self.kernel_regularizer == old(self).kernel_regularizer,
                self.bias_regularizer == old(self).bias_regularizer,
                self.activity_regularizer == old(self).activity_regularizer,
                self.input_shape == old(self).input_shape,
                self.output_shape == old(self).output_shape,
                self.activation == old(self).activation,
                self.pad0 == old(self).pad0,
                self.pad1 == old(self).pad1,
                self.str0 == old(self).str0,
                self.str1 == old(self).str1,
                self.dil0 == old(self).dil0,
                self.dil1 == old(self).dil1,
                self.groups == old(self).groups,
                old(self).wf(),
                self.bias.wf(),
                self.bias.dims() == old(self).bias.dims(),
                self.bias.data_seq().len() == old(self).bias.data_seq().len(),
                forall|j: int|
                    0 <= j < self.bias.data_seq().len() ==> self.bias.data_seq()[j] == wsub(
                        old(self).bias.data_seq()[j],
                        deltas@[1].data_seq()[j],
                    ),
                forall|j: int|
                    p <= j < kn ==> self.kernel.data_seq()[j] == wsub(
                        old(self).kernel.data_seq()[j],
                        deltas@[0].data_seq()[j],
                    ),
                forall|j: int|
                    0 <= j < p ==> self.kernel.data_seq()[j]
                        == old(self).kernel_constraint.constrain_spec(
                        wsub(old(self).kernel.data_seq()[j], deltas@[0].data_seq()[j]),
                    ),
            decreases kn - p,
        {
            let v = self.kernel_constraint.constrain(*self.kernel.flat_get(p));
            self.kernel.flat_set(p, v);
            p += 1;
        }
        let bn = self.bias.len();
        let mut b: usize = 0;
        while b < bn
            invariant
                b <= bn,
                bn == self.bias.data_seq().len(),
                bn == old(self).bias.data_seq().len(),
                self.bias.wf(),
                self.bias.dims() == old(self).bias.dims(),
                self.kernel_constraint == old(self).kernel_constraint,
                self.bias_constraint == old(self).bias_constraint,
                self.kernel_regularizer == old(self).kernel_regularizer,
                self.bias_regularizer == old(self).bias_regularizer,
                self.activity_regularizer == old(self).activity_regularizer,
                self.input_shape == old(self).input_shape,
                self.output_shape == old(self).output_shape,
                self.activation == old(self).activation,
                self.pad0 == old(self).pad0,
                self.pad1 == old(self).pad1,
                self.str0 == old(self).str0,
                self.str1 == old(self).str1,
                self.dil0 == old(self).dil0,
                self.dil1 == old(self).dil1,
                self.groups == old(self).groups,
                old(self).wf(),
                self.kernel.wf(),
                self.kernel.dims() == old(self).kernel.dims(),
                self.kernel.data_seq().len() == old(self).kernel.data_seq().len(),
                forall|j: int|
                    0 <= j < self.kernel.data_seq().len() ==> self.kernel.data_seq()[j]
                        == old(self).kernel_constraint.constrain_spec(
                        wsub(old(self).kernel.data_seq()[j], deltas@[0].data_seq()[j]),
                    ),
                forall|j: int|
                    b <= j < bn ==> self.bias.data_seq()[j] == wsub(
                        old(self).bias.data_seq()[j],
                        deltas@[1].data_seq()[j],
                    ),
                forall|j: int|
                    0 <= j < b ==> self.bias.data_seq()[j]
                        == old(self).bias_constraint.constrain_spec(
                        wsub(old(self).bias.data_seq()[j], deltas@[1].data_seq()[j]),
                    ),
            decreases bn - b,
        {
            let v = self.bias_constraint.constrain(*self.bias.flat_get(b));
            self.bias.flat_set(b, v);
            b += 1;
        }
    }

    /// One output element's window sum; shared by the forward and
    /// backward entry points.
    fn pre_at(&self, input: &Tensor<i64>, p: usize) -> (r: i64)
        requires
            self.wf(),
            input.wf(),
            input.dims() == self.input_dims(),
            (p as int) < dims_product(self.output_dims()),
        ensures
            r == self.pre_spec(input.data_seq(), p as int),
    {
        let ghost x = input.data_seq();
        proof {
            lemma_tensor_capacity_fits(*input);
            lemma_tensor_capacity_fits(self.bias);
            lemma_tensor_capacity_fits(self.kernel);
        }
        let kq = self.window_count();
        let mut acc: i64 = *self.bias.flat_get(p);
        let mut q: usize = 0;
        while q < kq
            invariant
                q <= kq,
                self.wf(),
                input.wf(),
                input.dims() == self.input_dims(),
                x == input.data_seq(),
                kq as int == self.kq(),
                (p as int) < dims_product(self.output_dims()),
                input.data_seq().len() == dims_product(self.input_dims()),
                self.kernel.data_seq().len() == dims_product(self.kernel_dims()),
                acc == self.conv_acc(x, p as int, q as int),
            decreases kq - q,
        {
            proof {
                lemma_tensor_capacity_fits(self.kernel);
            }
            let (valid, ii, ki) = self.tap_at(p, q);
            if valid {
                let w = *self.kernel.flat_get(ki);
                acc = acc.wrapping_add(input.flat_get(ii).wrapping_mul(w));
            }
            q += 1;
        }
        acc
    }
}

/// A builder for a convolution layer: collects optional
/// configuration and resolves the input shape when the layer is
/// built. The kernel shape and the filter count are required; every
/// unset field resolves to its documented default — zero
/// initializers, no padding, unit strides, unit dilation, one group,
/// no regularization, no constraint and the identity activation.
pub struct Builder {
    kernel_shape: Option<(usize, usize)>,
    filters: Option<usize>,
    activation: Option<crate::activations::Identity>,
    padding: Option<(Padding, Padding)>,
    strides: Option<(usize, usize)>,
    dilation: Option<(usize, usize)>,
    groups: Option<usize>,
    kernel_initializer: Option<i64>,
    bias_initializer: Option<i64>,
    kernel_regularizer: Option<Regularization>,
    bias_regularizer: Option<Regularization>,
    activity_regularizer: Option<Regularization>,
    kernel_constraint: Option<Constraint>,
    bias_constraint: Option<Constraint>,
}

impl Builder {
    /// The configured kernel shape, if one was set.
    pub closed spec fn kernel_shape_spec(&self) -> Option<(usize, usize)> {
        self.kernel_shape
    }

    /// The configured filter count, if one was set.
    pub closed spec fn filters_spec(&self) -> Option<usize> {
        self.filters
    }

    /// The configured activation, the identity when unset.
    pub closed spec fn activation_res_spec(&self) -> crate::activations::Identity {
        match self.activation {
            Option::Some(a) => a,
            Option::None => crate::activations::Identity {  },
        }
    }

    /// The configured paddings, no padding when unset.
    pub closed spec fn padding_res_spec(&self) -> (Padding, Padding) {
        match self.padding {
            Option::Some(p) => p,
            Option::None => (Padding::Zero, Padding::Zero),
        }
    }

    /// The configured strides, unit strides when unset.
    pub closed spec fn strides_res_spec(&self) -> (usize, usize) {
        match self.strides {
            Option::Some(v) => v,
            Option::None => (1usize, 1usize),
        }
    }

    /// The configured dilations, unit dilation when unset.
    pub closed spec fn dilation_res_spec(&self) -> (usize, usize) {
        match self.dilation {
            Option::Some(v) => v,
            Option::None => (1usize, 1usize),
        }
    }

    /// The configured group count, one group when unset.
    pub closed spec fn groups_res_spec(&self) -> usize {
        match self.groups {
            Option::Some(v) => v,
            Option::None => 1usize,
        }
    }

    /// The configured kernel initializer value, zero when unset.
    pub closed spec fn kernel_init_spec(&self) -> i64 {
        match self.kernel_initializer {
            Option::Some(v) => v,
            Option::None => 0i64,
        }
    }

    /// The configured bias initializer value, zero when unset.
    pub closed spec fn bias_init_spec(&self) -> i64 {
        match self.bias_initializer {
            Option::Some(v) => v,
            Option::None => 0i64,
        }
    }

    /// The configured kernel regularizer, none when unset.
    pub closed spec fn kernel_reg_spec(&self) -> Regularization {
        match self.kernel_regularizer {
            Option::Some(r) => r,
            Option::None => Regularization::Off,
        }
    }

    /// The configured bias regularizer, none when unset.
    pub closed spec fn bias_reg_spec(&self) -> Regularization {
        match self.bias_regularizer {
            Option::Some(r) => r,
            Option::None => Regularization::Off,
        }
    }

    /// The configured activity regularizer, none when unset.
    pub closed spec fn activity_reg_spec(&self) -> Regularization {
        match self.activity_regularizer {
            Option::Some(r) => r,
            Option::None => Regularization::Off,
        }
    }

    /// The configured kernel constraint, none when unset.
    pub closed spec fn kernel_con_spec(&self) -> Constraint {
        match self.kernel_constraint {
            Option::Some(c) => c,
            Option::None => Constraint::Off,
        }
    }

    /// The configured bias constraint, none when unset.
    pub closed spec fn bias_con_spec(&self) -> Constraint {
        match self.bias_constraint {
            Option::Some(c) => c,
            Option::None => Constraint::Off,
        }
    }

    /// The whole resolved configuration, in one value. Each setter
    /// changes exactly one component.
    pub open spec fn config_spec(&self) -> (
        Option<(usize, usize)>,
        Option<usize>,
        crate::activations::Identity,
        (Padding, Padding),
        (usize, usize),
        (usize, usize),
        usize,
        i64,
        i64,
        Regularization,
        Regularization,
        Regularization,
        Constraint,
        Constraint,
    ) {
        (
            self.kernel_shape_spec(),
            self.filters_spec(),
            self.activation_res_spec(),
            self.padding_res_spec(),
            self.strides_res_spec(),
            self.dilation_res_spec(),
            self.groups_res_spec(),
            self.kernel_init_spec(),
            self.bias_init_spec(),
            self.kernel_reg_spec(),
            self.bias_reg_spec(),
            self.activity_reg_spec(),
            self.kernel_con_spec(),
            self.bias_con_spec(),
        )
    }

    /// A builder with nothing configured.
    pub fn new() -> (r: Builder)
        ensures
            r.kernel_shape_spec() is None,
            r.filters_spec() is None,
            r.config_spec() == (
                Option::<(usize, usize)>::None,
                Option::<usize>::None,
                crate::activations::Identity {  },
                (Padding::Zero, Padding::Zero),
                (1usize, 1usize),
                (1usize, 1usize),
                1usize,
                0i64,
                0i64,
                Regularization::Off,
                Regularization::Off,
                Regularization::Off,
                Constraint::Off,
                Constraint::Off,
            ),
    {
        Builder {
            kernel_shape: None,
            filters: None,
            activation: None,
            padding: None,
            strides: None,
            dilation: None,
            groups: None,
            kernel_initializer: None,
            bias_initializer: None,
            kernel_regularizer: None,
            bias_regularizer: None,
            activity_regularizer: None,
            kernel_constraint: None,
            bias_constraint: None,
        }
    }

    /// Sets the required kernel shape.
    pub fn kernel_shape(self, rows: usize, columns: usize) -> (r: Builder)
        ensures
            r.config_spec() == (
                Some((rows, columns)),
                self.config_spec().1,
                self.config_spec().2,
                self.config_spec().3,
                self.config_spec().4,
                self.config_spec().5,
                self.config_spec().6,
                self.config_spec().7,
                self.config_spec().8,
                self.config_spec().9,
                self.config_spec().10,
                self.config_spec().11,
                self.config_spec().12,
                self.config_spec().13,
            ),
    {
        Builder { kernel_shape: Some((rows, columns)), ..self }
    }

    /// Sets the required filter count.
    pub fn filters(self, filters: usize) -> (r: Builder)
        ensures
            r.config_spec() == (
                self.config_spec().0,
                Some(filters),
                self.config_spec().2,
                self.config_spec().3,
                self.config_spec().4,
                self.config_spec().5,
                self.config_spec().6,
                self.config_spec().7,
                self.config_spec().8,
                self.config_spec().9,
                self.config_spec().10,
                self.config_spec().11,
                self.config_spec().12,
                self.config_spec().13,
            ),
    {
        Builder { filters: Some(filters), ..self }
    }

    /// Sets the activation.
    pub fn activation(self, activation: crate::activations::Identity) -> (r: Builder)
        ensures
            r.config_spec() == (
                self.config_spec().0,
                self.config_spec().1,
                activation,
                self.config_spec().3,
                self.config_spec().4,
                self.config_spec().5,
                self.config_spec().6,
                self.config_spec().7,
                self.config_spec().8,
                self.config_spec().9,
                self.config_spec().10,
                self.config_spec().11,
                self.config_spec().12,
                self.config_spec().13,
            ),
    {
        Builder { activation: Some(activation), ..self }
    }

    /// Sets the paddings of the two spatial axes.
    pub fn padding(self, padding: (Padding, Padding)) -> (r: Builder)
        ensures
            r.config_spec() == (
                self.config_spec().0,
                self.config_spec().1,
                self.config_spec().2,
                padding,
                self.config_spec().4,
                self.config_spec().5,
                self.config_spec().6,
                self.config_spec().7,
                self.config_spec().8,
                self.config_spec().9,
                self.config_spec().10,
                self.config_spec().11,
                self.config_spec().12,
                self.config_spec().13,
            ),
    {
        Builder { padding: Some(padding), ..self }
    }

    /// Sets the strides of the two spatial axes.
    pub fn strides(self, strides: (usize, usize)) -> (r: Builder)
        ensures
            r.config_spec() == (
                self.config_spec().0,
                self.config_spec().1,
                self.config_spec().2,
                self.config_spec().3,
                strides,
                self.config_spec().5,
                self.config_spec().6,
                self.config_spec().7,
                self.config_spec().8,
                self.config_spec().9,
                self.config_spec().10,
                self.config_spec().11,
                self.config_spec().12,
                self.config_spec().13,
            ),
    {
        Builder { strides: Some(strides), ..self }
    }

    /// Sets the dilations of the two spatial axes.
    pub fn dilation(self, dilation: (usize, usize)) -> (r: Builder)
        ensures
            r.config_spec() == (
                self.config_spec().0,
                self.config_spec().1,
                self.config_spec().2,
                self.config_spec().3,
                self.config_spec().4,
                dilation,
                self.config_spec().6,
                self.config_spec().7,
                self.config_spec().8,
                self.config_spec().9,
                self.config_spec().10,
                self.config_spec().11,
                self.config_spec().12,
                self.config_spec().13,
            ),
    {
        Builder { dilation: Some(dilation), ..self }
    }

    /// Sets the channel group count.
    pub fn groups(self, groups: usize) -> (r: Builder)
        ensures
            r.config_spec() == (
                self.config_spec().0,
                self.config_spec().1,
                self.config_spec().2,
                self.config_spec().3,
                self.config_spec().4,
                self.config_spec().5,
                groups,
                self.config_spec().7,
                self.config_spec().8,
                self.config_spec().9,
                self.config_spec().10,
                self.config_spec().11,
                self.config_spec().12,
                self.config_spec().13,
            ),
    {
        Builder { groups: Some(groups), ..self }
    }

    /// Sets the kernel initializer to a constant fill value.
    pub fn kernel_initializer(self, value: i64) -> (r: Builder)
        ensures
            r.config_spec() == (
                self.config_spec().0,
                self.config_spec().1,
                self.config_spec().2,
                self.config_spec().3,
                self.config_spec().4,
                self.config_spec().5,
                self.config_spec().6,
                value,
                self.config_spec().8,
                self.config_spec().9,
                self.config_spec().10,
                self.config_spec().11,
                self.config_spec().12,
                self.config_spec().13,
            ),
    {
        Builder { kernel_initializer: Some(value), ..self }
    }

    /// Sets the bias initializer to a constant fill value.
    pub fn bias_initializer(self, value: i64) -> (r: Builder)
        ensures
            r.config_spec() == (
                self.config_spec().0,
                self.config_spec().1,
                self.config_spec().2,
                self.config_spec().3,
                self.config_spec().4,
                self.config_spec().5,
                self.config_spec().6,
                self.config_spec().7,
                value,
                self.config_spec().9,
                self.config_spec().10,
                self.config_spec().11,
                self.config_spec().12,
                self.config_spec().13,
            ),
    {
        Builder { bias_initializer: Some(value), ..self }
    }

    /// Sets the kernel regularizer.
    pub fn kernel_regularizer(self, r0: Regularization) -> (r: Builder)
        ensures
            r.config_spec() == (
                self.config_spec().0,
                self.config_spec().1,
                self.config_spec().2,
                self.config_spec().3,
                self.config_spec().4,
                self.config_spec().5,
                self.config_spec().6,
                self.config_spec().7,
                self.config_spec().8,
                r0,
                self.config_spec().10,
                self.config_spec().11,
                self.config_spec().12,
                self.config_spec().13,
            ),
    {
        Builder { kernel_regularizer: Some(r0), ..self }
    }

    /// Sets the bias regularizer.
    pub fn bias_regularizer(self, r0: Regularization) -> (r: Builder)
        ensures
            r.config_spec() == (
                self.config_spec().0,
                self.config_spec().1,
                self.config_spec().2,
                self.config_spec().3,
                self.config_spec().4,
                self.config_spec().5,
                self.config_spec().6,
                self.config_spec().7,
                self.config_spec().8,
                self.config_spec().9,
                r0,
                self.config_spec().11,
                self.config_spec().12,
                self.config_spec().13,
            ),
    {
        Builder { bias_regularizer: Some(r0), ..self }
    }

    /// Sets the activity regularizer.
    pub fn activity_regularizer(self, r0: Regularization) -> (r: Builder)
        ensures
            r.config_spec() == (
                self.config_spec().0,
                self.config_spec().1,
                self.config_spec().2,
                self.config_spec().3,
                self.config_spec().4,
                self.config_spec().5,
                self.config_spec().6,
                self.config_spec().7,
                self.config_spec().8,
                self.config_spec().9,
                self.config_spec().10,
                r0,
                self.config_spec().12,
                self.config_spec().13,
            ),
    {
        Builder { activity_regularizer: Some(r0), ..self }
    }

    /// Sets the kernel constraint.
    pub fn kernel_constraint(self, c: Constraint) -> (r: Builder)
        ensures
            r.config_spec() == (
                self.config_spec().0,
                self.config_spec().1,
                self.config_spec().2,
                self.config_spec().3,
                self.config_spec().4,
                self.config_spec().5,
                self.config_spec().6,
                self.config_spec().7,
                self.config_spec().8,
                self.config_spec().9,
                self.config_spec().10,
                self.config_spec().11,
                c,
                self.config_spec().13,
            ),
    {
        Builder { kernel_constraint: Some(c), ..self }
    }

    /// Sets the bias constraint.
    pub fn bias_constraint(self, c: Constraint) -> (r: Builder)
        ensures
            r.config_spec() == (
                self.config_spec().0,
                self.config_spec().1,
                self.config_spec().2,
                self.config_spec().3,
                self.config_spec().4,
                self.config_spec().5,
                self.config_spec().6,
                self.config_spec().7,
                self.config_spec().8,
                self.config_spec().9,
                self.config_spec().10,
                self.config_spec().11,
                self.config_spec().12,
                c,
            ),
    {
        Builder { bias_constraint: Some(c), ..self }
    }

    /// Resolves the builder against the input shape: fails when the
    /// kernel shape or the filter count was never set, and otherwise
    /// succeeds exactly when the resolved configuration passes the
    /// validated construction; the built layer carries the resolved
    /// configuration.
    pub fn build(self, input_shape: Shape) -> (r: Result<
        Conv2D<crate::activations::Identity>,
        crate::model::ModelError,
    >)
        requires
            input_shape.wf(),
        ensures
            self.kernel_shape_spec() is None || self.filters_spec() is None ==> r matches Err(
                crate::model::ModelError::MissingConfiguration,
            ),
            self.kernel_shape_spec() is Some && self.filters_spec() is Some ==> (r is Ok
                <==> conv_build_ok(
                input_shape.dims(),
                self.filters_spec()->0 as int,
                (self.kernel_shape_spec()->0).0 as int,
                (self.kernel_shape_spec()->0).1 as int,
                (
                    self.padding_res_spec().0.resolve_spec().0 as int,
                    self.padding_res_spec().0.resolve_spec().1 as int,
                ),
                (
                    self.padding_res_spec().1.resolve_spec().0 as int,
                    self.padding_res_spec().1.resolve_spec().1 as int,
                ),
                self.strides_res_spec().0 as int,
                self.strides_res_spec().1 as int,
                self.dilation_res_spec().0 as int,
                self.dilation_res_spec().1 as int,
                self.groups_res_spec() as int,
            )),
            r matches Ok(l) ==> {
                &&& l.wf()
                &&& l.input_dims() == input_shape.dims()
                &&& l.activation_spec() == self.activation_res_spec()
                &&& forall|p: int|
                    0 <= p < l.kernel_data().len() ==> l.kernel_data()[p]
                        == self.kernel_init_spec()
                &&& forall|p: int|
                    0 <= p < l.bias_data().len() ==> l.bias_data()[p] == self.bias_init_spec()
                &&& l.output_dims() =~= seq![
                    axis_extent(
                        input_shape.dims()[0] as int,
                        self.padding_res_spec().0.resolve_spec().0 as int,
                        self.padding_res_spec().0.resolve_spec().1 as int,
                        self.dilation_res_spec().0 as int,
                        (self.kernel_shape_spec()->0).0 as int,
                        self.strides_res_spec().0 as int,
                    ) as usize,
                    axis_extent(
                        input_shape.dims()[1] as int,
                        self.padding_res_spec().1.resolve_spec().0 as int,
                        self.padding_res_spec().1.resolve_spec().1 as int,
                        self.dilation_res_spec().1 as int,
                        (self.kernel_shape_spec()->0).1 as int,
                        self.strides_res_spec().1 as int,
                    ) as usize,
                    self.filters_spec()->0,
                ]
                &&& l.kernel_dims() =~= seq![
                    (self.kernel_shape_spec()->0).0,
                    (self.kernel_shape_spec()->0).1,
                    ((input_shape.dims()[2] as int) / (self.groups_res_spec() as int)) as usize,
                    self.filters_spec()->0,
                ]
                &&& l.geometry() == (
                    self.padding_res_spec().0.resolve_spec().0,
                    self.padding_res_spec().1.resolve_spec().0,
                    self.strides_res_spec().0,
                    self.strides_res_spec().1,
                    self.dilation_res_spec().0,
                    self.dilation_res_spec().1,
                    self.groups_res_spec(),
                )
                &&& l.regs() == (
                    self.kernel_reg_spec(),
                    self.bias_reg_spec(),
                    self.activity_reg_spec(),
                )
                &&& l.constraints() == (self.kernel_con_spec(), self.bias_con_spec())
            },
    {
        let kernel_shape = match self.kernel_shape {
            Some(k) => k,
            None => {
                return Err(crate::model::ModelError::MissingConfiguration);
            },
        };
        let filters = match self.filters {
            Some(f) => f,
            None => {
                return Err(crate::model::ModelError::MissingConfiguration);
            },
        };
        let activation = match self.activation {
            Some(a) => a,
            None => crate::activations::Identity::new(),
        };
        let padding = match self.padding {
            Some(p) => p,
            None => (Padding::Zero, Padding::Zero),
        };
        let strides = match self.strides {
            Some(s) => s,
            None => (1, 1),
        };
        let dilation = match self.dilation {
            Some(d) => d,
            None => (1, 1),
        };
        let groups = match self.groups {
            Some(g) => g,
            None => 1,
        };
        let kernel_init: i64 = match self.kernel_initializer {
            Some(v) => v,
            None => 0,
        };
        let bias_init: i64 = match self.bias_initializer {
            Some(v) => v,
            None => 0,
        };
        let kr = match self.kernel_regularizer {
            Some(v) => v,
            None => Regularization::Off,
        };
        let br = match self.bias_regularizer {
            Some(v) => v,
            None => Regularization::Off,
        };
        let ar = match self.activity_regularizer {
            Some(v) => v,
            None => Regularization::Off,
        };
        let kc = match self.kernel_constraint {
            Some(v) => v,
            None => Constraint::Off,
        };
        let bc = match self.bias_constraint {
            Some(v) => v,
            None => Constraint::Off,
        };
        Conv2D::new(
            input_shape,
            filters,
            kernel_shape,
            kernel_init,
            bias_init,
            activation,
            padding,
            strides,
            dilation,
            groups,
            kr,
            br,
            ar,
            kc,
            bc,
        )
    }
}

/// The output extent of one spatial axis, or `None` exactly when the
/// formula's side conditions fail.
pub(crate) fn conv_out_extent(
    in_n: usize,
    pad_a: usize,
    pad_b: usize,
    dil: usize,
    k_n: usize,
    st: usize,
) -> (r: Option<usize>)
    requires
        st > 0,
    ensures
        r is Some <==> axis_extent_ok(
            in_n as int,
            pad_a as int,
            pad_b as int,
            dil as int,
            k_n as int,
            st as int,
        ),
        r matches Some(e) ==> e as int == axis_extent(
            in_n as int,
            pad_a as int,
            pad_b as int,
            dil as int,
            k_n as int,
            st as int,
        ),
{
    if k_n == 0 {
        return None;
    }
    let pa: usize = match in_n.checked_add(pad_a) {
        Some(v) => v,
        None => {
            return None;
        },
    };
    let padded: usize = match pa.checked_add(pad_b) {
        Some(v) => v,
        None => {
            return None;
        },
    };
    let window: usize = match dil.checked_mul(k_n - 1) {
        Some(v) => v,
        None => {
            return None;
        },
    };
    let span: usize = match padded.checked_sub(window) {
        Some(v) => {
            match v.checked_sub(1) {
                Some(w) => w,
                None => {
                    return None;
                },
            }
        },
        None => {
            return None;
        },
    };
    let quot = span / st;
    match quot.checked_add(1) {
        Some(e) => Some(e),
        None => None,
    }
}

/// A well-formed rank-three shape, or `None` when the capacity would
/// leave `usize`.
pub(crate) fn make_shape3(d0: usize, d1: usize, d2: usize) -> (r: Option<Shape>)
    ensures
        r is Some <==> (d1 as int) * (d2 as int) <= usize::MAX && (d0 as int) * ((d1 as int) * (
        d2 as int)) <= usize::MAX,
        r matches Some(s) ==> s.wf() && s.dims() =~= seq![d0, d1, d2],
{
    let p2 = d1.checked_mul(d2);
    let p2v: usize = match p2 {
        Some(v) => v,
        None => {
            return None;
        },
    };
    if d0.checked_mul(p2v).is_none() {
        return None;
    }
    let mut dims: Vec<usize> = Vec::new();
    dims.push(d0);
    dims.push(d1);
    dims.push(d2);
    proof {
        reveal_with_fuel(dims_product, 5);
        assert(dims@ =~= seq![d0, d1, d2]);
        assert(dims@.skip(3).len() == 0);
        assert(dims@.skip(2) =~= seq![d2]);
        assert(dims@.skip(1) =~= seq![d1, d2]);
        assert(dims@.skip(0) =~= dims@);
        assert(seq![d2].drop_first().len() == 0);
        assert(seq![d1, d2].drop_first() =~= seq![d2]);
        assert(dims@.drop_first() =~= seq![d1, d2]);
        assert((d2 as nat) * 1 == d2 as nat) by (nonlinear_arith);
        assert(dims_product(seq![d1, d2]) == (d1 as nat) * (d2 as nat));
        assert(dims_product(dims@) == (d0 as nat) * ((d1 as nat) * (d2 as nat)));
    }
    Some(Shape::new(dims))
}

/// A well-formed rank-four shape, or `None` when the capacity would
/// leave `usize`.
fn shape4(d0: usize, d1: usize, d2: usize, d3: usize) -> (r: Option<Shape>)
    ensures
        r is Some <==> (d2 as int) * (d3 as int) <= usize::MAX && (d1 as int) * ((d2 as int) * (
        d3 as int)) <= usize::MAX && (d0 as int) * ((d1 as int) * ((d2 as int) * (d3 as int)))
            <= usize::MAX,
        r matches Some(s) ==> s.wf() && s.dims() =~= seq![d0, d1, d2, d3],
{
    let p3 = d2.checked_mul(d3);
    let p3v: usize = match p3 {
        Some(v) => v,
        None => {
            return None;
        },
    };
    let p2 = d1.checked_mul(p3v);
    let p2v: usize = match p2 {
        Some(v) => v,
        None => {
            return None;
        },
    };
    if d0.checked_mul(p2v).is_none() {
        return None;
    }
    let mut dims: Vec<usize> = Vec::new();
    dims.push(d0);
    dims.push(d1);
    dims.push(d2);
    dims.push(d3);
    proof {
        reveal_with_fuel(dims_product, 6);
        assert(dims@ =~= seq![d0, d1, d2, d3]);
        assert(dims@.skip(4).len() == 0);
        assert(dims@.skip(3) =~= seq![d3]);
        assert(dims@.skip(2) =~= seq![d2, d3]);
        assert(dims@.skip(1) =~= seq![d1, d2, d3]);
        assert(dims@.skip(0) =~= dims@);
        assert(seq![d3].drop_first().len() == 0);
        assert(seq![d2, d3].drop_first() =~= seq![d3]);
        assert(seq![d1, d2, d3].drop_first() =~= seq![d2, d3]);
        assert(dims@.drop_first() =~= seq![d1, d2, d3]);
        assert((d3 as nat) * 1 == d3 as nat) by (nonlinear_arith);
        assert(dims_product(seq![d2, d3]) == (d2 as nat) * (d3 as nat));
        assert(dims_product(seq![d1, d2, d3]) == (d1 as nat) * ((d2 as nat) * (d3 as nat)));
        assert(dims_product(dims@) == (d0 as nat) * ((d1 as nat) * ((d2 as nat) * (d3 as nat))));
    }
    Some(Shape::new(dims))
}

} // verus!
