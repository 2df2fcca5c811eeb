//! The dense (fully connected) layer: a kernel of one weight per
//! (input element, output element) pair, a bias per output element,
//! and a pointwise activation on top of the affine combination.

use vstd::prelude::*;

use crate::activations::Activation;
use crate::constraints::Constraint;
use crate::regularizers::Regularization;
use crate::shape::{dims_product, Shape};
use crate::tensor::{lemma_tensor_capacity_fits, wadd, wmul, wsub, Tensor};

verus! {

/// The affine accumulation for output slot `o` over the first `k`
/// input elements, seeded with the bias; the kernel is stored with
/// shape `[inputs, outputs]`, so weight `(i, o)` sits at flat offset
/// `i * out_cap + o`.
pub open spec fn dense_acc(
    x: Seq<i64>,
    kernel: Seq<i64>,
    bias: Seq<i64>,
    out_cap: int,
    o: int,
    k: int,
) -> i64
    decreases k,
{
    if k <= 0 {
        bias[o]
    } else {
        wadd(dense_acc(x, kernel, bias, out_cap, o, k - 1), wmul(x[k - 1], kernel[(k - 1) * out_cap
            + o]))
    }
}

/// The input-gradient accumulation for input slot `i` over the first
/// `k` output slots: each output's scaled delta weighted by the
/// kernel column it reached `i` through.
pub open spec fn dense_input_acc(
    d: Seq<i64>,
    kernel: Seq<i64>,
    out_cap: int,
    i: int,
    k: int,
) -> i64
    decreases k,
{
    if k <= 0 {
        0i64
    } else {
        wadd(dense_input_acc(d, kernel, out_cap, i, k - 1), wmul(d[k - 1], kernel[i * out_cap + (k
            - 1)]))
    }
}

/// A dense layer: kernel of shape `[input capacity, output capacity]`,
/// bias of the output shape, an activation, and the regularizers and
/// constraints applied to its parameters.
pub struct Dense<A: Activation> {
    kernel: Tensor<i64>,
    bias: Tensor<i64>,
    input_shape: Shape,
    output_shape: Shape,
    activation: A,
    kernel_regularizer: Regularization,
    bias_regularizer: Regularization,
    activity_regularizer: Regularization,
    kernel_constraint: Constraint,
    bias_constraint: Constraint,
}

/// The one-shot backward context a dense layer captures while
/// computing its forward pass: the input it saw, the activation
/// derivatives at the pre-activation values, and the activity
/// regularization of the output. Consumed exactly once by `backward`.
pub struct DenseCtx {
    input: Tensor<i64>,
    derivatives: Tensor<i64>,
    act_reg: Tensor<i64>,
}

impl DenseCtx {
    /// The input the forward pass saw.
    pub closed spec fn input_data(&self) -> Seq<i64> {
        self.input.data_seq()
    }
}

impl<A: Activation> Dense<A> {
    /// The extents of the input shape.
    pub closed spec fn input_dims(&self) -> Seq<usize> {
        self.input_shape.dims()
    }

    /// The extents of the output shape.
    pub closed spec fn output_dims(&self) -> Seq<usize> {
        self.output_shape.dims()
    }

    /// The kernel's elements, flat, row `i` holding the weights of
    /// input element `i`.
    pub closed spec fn kernel_data(&self) -> Seq<i64> {
        self.kernel.data_seq()
    }

    /// The bias elements, one per output element.
    pub closed spec fn bias_data(&self) -> Seq<i64> {
        self.bias.data_seq()
    }

    /// The activation applied to each pre-activation value.
    pub closed spec fn activation_spec(&self) -> A {
        self.activation
    }

    /// How many elements an input tensor holds.
    pub open spec fn in_cap(&self) -> nat {
        dims_product(self.input_dims())
    }

    /// How many elements an output tensor holds.
    pub open spec fn out_cap(&self) -> nat {
        dims_product(self.output_dims())
    }

    /// Shapes are well formed, the kernel holds one weight per
    /// (input element, output element) pair and the bias one value
    /// per output element.
    pub closed spec fn wf(&self) -> bool {
        &&& self.input_shape.wf()
        &&& self.output_shape.wf()
        &&& self.kernel.wf()
        &&& self.bias.wf()
        &&& self.kernel.dims() =~= seq![
            dims_product(self.input_shape.dims()) as usize,
            dims_product(self.output_shape.dims()) as usize,
        ]
        &&& self.in_cap() * self.out_cap() <= usize::MAX
        &&& self.bias.dims() == self.output_shape.dims()
    }

    /// The pre-activation value of output slot `o`.
    pub open spec fn pre_spec(&self, x: Seq<i64>, o: int) -> i64 {
        dense_acc(x, self.kernel_data(), self.bias_data(), self.out_cap() as int, o, self.in_cap() as int)
    }

    /// What `feed_forward` returns: each output element is the
    /// activation of its affine combination.
    pub open spec fn forward_spec(&self, x: Seq<i64>) -> Seq<i64> {
        Seq::new(self.out_cap(), |o: int| self.activation_spec().activate_spec(self.pre_spec(x, o)))
    }

    /// The scaled delta of output slot `o`: the activation derivative
    /// at the pre-activation value times the incoming gradient plus
    /// the activity regularization of the output.
    pub open spec fn delta_spec(&self, x: Seq<i64>, g: Seq<i64>, o: int) -> i64 {
        wmul(
            self.activation_spec().derive_spec(self.pre_spec(x, o)),
            wadd(
                g[o],
                self.activity_regularizer_spec().derive_spec(
                    self.activation_spec().activate_spec(self.pre_spec(x, o)),
                ),
            ),
        )
    }

    /// The regularizer applied to the layer's output.
    pub closed spec fn activity_regularizer_spec(&self) -> Regularization {
        self.activity_regularizer
    }

    /// The regularizer applied to the kernel.
    pub closed spec fn kernel_regularizer_spec(&self) -> Regularization {
        self.kernel_regularizer
    }

    /// The regularizer applied to the bias.
    pub closed spec fn bias_regularizer_spec(&self) -> Regularization {
        self.bias_regularizer
    }

    /// The constraint applied to the kernel after an update.
    pub closed spec fn kernel_constraint_spec(&self) -> Constraint {
        self.kernel_constraint
    }

    /// The constraint applied to the bias after an update.
    pub closed spec fn bias_constraint_spec(&self) -> Constraint {
        self.bias_constraint
    }

    /// What the backward pass hands back for the layer's input.
    pub open spec fn input_grad_spec(&self, x: Seq<i64>, g: Seq<i64>) -> Seq<i64> {
        Seq::new(
            self.in_cap(),
            |i: int|
                dense_input_acc(
                    Seq::new(self.out_cap(), |o: int| self.delta_spec(x, g, o)),
                    self.kernel_data(),
                    self.out_cap() as int,
                    i,
                    self.out_cap() as int,
                ),
        )
    }

    /// What the backward pass hands back for the kernel: the outer
    /// product of the scaled deltas with the input.
    pub open spec fn kernel_grad_spec(&self, x: Seq<i64>, g: Seq<i64>) -> Seq<i64> {
        Seq::new(
            self.in_cap() * self.out_cap(),
            |p: int|
                wmul(
                    self.delta_spec(x, g, p % (self.out_cap() as int)),
                    x[p / (self.out_cap() as int)],
                ),
        )
    }

    /// What the backward pass hands back for the bias: the bias
    /// regularization plus the scaled deltas.
    pub open spec fn bias_grad_spec(&self, x: Seq<i64>, g: Seq<i64>) -> Seq<i64> {
        Seq::new(
            self.out_cap(),
            |o: int|
                wadd(
                    self.bias_regularizer_spec().derive_spec(self.bias_data()[o]),
                    self.delta_spec(x, g, o),
                ),
        )
    }

    /// The captured context belongs to this layer and records the
    /// given input faithfully.
    pub closed spec fn ctx_matches(&self, ctx: DenseCtx) -> bool {
        &&& ctx.input.wf()
        &&& ctx.input.dims() == self.input_dims()
        &&& ctx.derivatives.wf()
        &&& ctx.derivatives.dims() == self.output_dims()
        &&& ctx.derivatives.data_seq() =~= Seq::new(
            self.out_cap(),
            |o: int| self.activation_spec().derive_spec(self.pre_spec(ctx.input.data_seq(), o)),
        )
        &&& ctx.act_reg.wf()
        &&& ctx.act_reg.dims() == self.output_dims()
        &&& ctx.act_reg.data_seq() =~= Seq::new(
            self.out_cap(),
            |o: int|
                self.activity_regularizer_spec().derive_spec(
                    self.activation_spec().activate_spec(self.pre_spec(ctx.input.data_seq(), o)),
                ),
        )
    }

    /// Builds the layer with constant-initialized parameters.
    pub fn new(
        input_shape: Shape,
        output_shape: Shape,
        activation: A,
        kernel_init: i64,
        bias_init: i64,
        kernel_regularizer: Regularization,
        bias_regularizer: Regularization,
        activity_regularizer: Regularization,
        kernel_constraint: Constraint,
        bias_constraint: Constraint,
    ) -> (r: Dense<A>)
        requires
            input_shape.wf(),
            output_shape.wf(),
            dims_product(input_shape.dims()) * dims_product(output_shape.dims()) <= usize::MAX,
        ensures
            r.wf(),
            r.input_dims() == input_shape.dims(),
            r.output_dims() == output_shape.dims(),
            r.activation_spec() == activation,
            forall|p: int| 0 <= p < r.kernel_data().len() ==> r.kernel_data()[p] == kernel_init,
            forall|o: int| 0 <= o < r.bias_data().len() ==> r.bias_data()[o] == bias_init,
            r.kernel_data().len() == r.in_cap() * r.out_cap(),
            r.bias_data().len() == r.out_cap(),
            r.kernel_regularizer_spec() == kernel_regularizer,
            r.bias_regularizer_spec() == bias_regularizer,
            r.activity_regularizer_spec() == activity_regularizer,
            r.kernel_constraint_spec() == kernel_constraint,
            r.bias_constraint_spec() == bias_constraint,
    {
        let in_cap = input_shape.capacity();
        let out_cap = output_shape.capacity();
        let mut kdims: Vec<usize> = Vec::new();
        kdims.push(in_cap);
        kdims.push(out_cap);
        proof {
            reveal_with_fuel(dims_product, 3);
            assert(kdims@ =~= seq![in_cap, out_cap]);
            assert(kdims@.skip(2).len() == 0);
            assert(kdims@.skip(1) =~= seq![out_cap]);
            assert(kdims@.skip(0) =~= kdims@);
            assert(seq![out_cap].drop_first().len() == 0);
            assert(kdims@.drop_first() =~= seq![out_cap]);
            assert(dims_product(seq![out_cap]) == (out_cap as nat) * 1);
            assert((out_cap as nat) * 1 == out_cap as nat) by (nonlinear_arith);
            assert(dims_product(kdims@) == (in_cap as nat) * (out_cap as nat));
        }
        let kernel_shape = Shape::new(kdims);
        let mut ki: i64 = kernel_init;
        let mut bi: i64 = bias_init;
        let kernel = crate::initializers::Initializer::initialize(&mut ki, kernel_shape);
        let bias = crate::initializers::Initializer::initialize(&mut bi, output_shape.clone());
        proof {
            lemma_tensor_capacity_fits(kernel);
            lemma_tensor_capacity_fits(bias);
        }
        Dense {
            kernel,
            bias,
            input_shape,
            output_shape,
            activation,
            kernel_regularizer,
            bias_regularizer,
            activity_regularizer,
            kernel_constraint,
            bias_constraint,
        }
    }

    /// The input shape the layer accepts.
    pub fn get_input_shape(&self) -> (s: &Shape)
        ensures
            s.dims() == self.input_dims(),
            self.wf() ==> s.wf(),
    {
        &self.input_shape
    }

    /// The output shape the layer produces.
    pub fn get_output_shape(&self) -> (s: &Shape)
        ensures
            s.dims() == self.output_dims(),
            self.wf() ==> s.wf(),
    {
        &self.output_shape
    }

    /// The pre-activation values and, elementwise, the activation
    /// derivative at each of them; shared by the forward and backward
    /// entry points.
    fn forward_parts(&self, input: &Tensor<i64>) -> (r: (Tensor<i64>, Tensor<i64>, Tensor<i64>))
        requires
            self.wf(),
            input.wf(),
            input.dims() == self.input_dims(),
        ensures
            r.0.wf(),
            r.0.dims() == self.output_dims(),
            r.0.data_seq() =~= self.forward_spec(input.data_seq()),
            r.1.wf(),
            r.1.dims() == self.output_dims(),
            r.1.data_seq() =~= Seq::new(
                self.out_cap(),
                |o: int| self.activation_spec().derive_spec(self.pre_spec(input.data_seq(), o)),
            ),
            r.2.wf(),
            r.2.dims() == self.output_dims(),
            r.2.data_seq() =~= Seq::new(
                self.out_cap(),
                |o: int|
                    self.activity_regularizer_spec().derive_spec(
                        self.activation_spec().activate_spec(self.pre_spec(input.data_seq(), o)),
                    ),
            ),
    {
        let ghost x = input.data_seq();
        let in_cap = self.input_shape.capacity();
        let out_cap = self.output_shape.capacity();
        proof {
            lemma_tensor_capacity_fits(*input);
            lemma_tensor_capacity_fits(self.kernel);
            lemma_tensor_capacity_fits(self.bias);
            reveal_with_fuel(dims_product, 3);
            assert(self.kernel.dims().drop_first() =~= seq![out_cap]);
            assert(seq![out_cap].drop_first().len() == 0);
            assert((out_cap as nat) * 1 == out_cap as nat) by (nonlinear_arith);
            assert(self.kernel.data_seq().len() == (in_cap as nat) * (out_cap as nat));
        }
        let mut out = Tensor::zero(self.output_shape.clone());
        let mut deriv = Tensor::zero(self.output_shape.clone());
        let mut act_reg = Tensor::zero(self.output_shape.clone());
        let mut o: usize = 0;
        while o < out_cap
            invariant
                o <= out_cap,
                self.wf(),
                input.wf(),
                input.dims() == self.input_dims(),
                x == input.data_seq(),
                in_cap == self.in_cap(),
                out_cap == self.out_cap(),
                input.data_seq().len() == in_cap,
                self.kernel.data_seq().len() == (in_cap as nat) * (out_cap as nat),
                self.bias.data_seq().len() == out_cap,
                out.wf(),
                out.dims() == self.output_dims(),
                out.data_seq().len() == out_cap,
                deriv.wf(),
                deriv.dims() == self.output_dims(),
                deriv.data_seq().len() == out_cap,
                act_reg.wf(),
                act_reg.dims() == self.output_dims(),
                act_reg.data_seq().len() == out_cap,
                forall|j: int|
                    0 <= j < o ==> out.data_seq()[j] == self.activation_spec().activate_spec(
                        self.pre_spec(x, j),
                    ),
                forall|j: int|
                    0 <= j < o ==> deriv.data_seq()[j] == self.activation_spec().derive_spec(
                        self.pre_spec(x, j),
                    ),
                forall|j: int|
                    0 <= j < o ==> act_reg.data_seq()[j]
                        == self.activity_regularizer_spec().derive_spec(
                        self.activation_spec().activate_spec(self.pre_spec(x, j)),
                    ),
            decreases out_cap - o,
        {
            let mut acc: i64 = *self.bias.flat_get(o);
            let mut i: usize = 0;
            while i < in_cap
                invariant
                    i <= in_cap,
                    o < out_cap,
                    self.wf(),
                    input.wf(),
                    x == input.data_seq(),
                    in_cap == self.in_cap(),
                    out_cap == self.out_cap(),
                    input.data_seq().len() == in_cap,
                    self.kernel.data_seq().len() == (in_cap as nat) * (out_cap as nat),
                    self.bias.data_seq().len() == out_cap,
                    acc == dense_acc(
                        x,
                        self.kernel_data(),
                        self.bias_data(),
                        out_cap as int,
                        o as int,
                        i as int,
                    ),
                decreases in_cap - i,
            {
                proof {
                    assert((i + 1) * (out_cap as int) <= (in_cap as int) * (out_cap as int))
                        by (nonlinear_arith)
                        requires i + 1 <= in_cap as int && out_cap as int >= 0;
                    assert(i * (out_cap as int) + out_cap == (i + 1) * (out_cap as int))
                        by (nonlinear_arith);
                }
                let w = *self.kernel.flat_get(i * out_cap + o);
                acc = acc.wrapping_add(input.flat_get(i).wrapping_mul(w));
                i += 1;
            }
            out.flat_set(o, self.activation.activate(acc));
            deriv.flat_set(o, self.activation.derive(acc));
            act_reg.flat_set(o, self.activity_regularizer.derive_at(self.activation.activate(acc)));
            o += 1;
        }
        (out, deriv, act_reg)
    }

    /// The pure forward evaluation: no gradient bookkeeping, no side
    /// effects on the layer.
    pub fn feed_forward(&self, input: &Tensor<i64>) -> (r: Tensor<i64>)
        requires
            self.wf(),
            input.wf(),
            input.dims() == self.input_dims(),
        ensures
            r.wf(),
            r.dims() == self.output_dims(),
            r.data_seq() =~= self.forward_spec(input.data_seq()),
    {
        let (out, _deriv, _act_reg) = self.forward_parts(input);
        out
    }

    /// Computes the same outputs as `feed_forward` and captures the
    /// one-shot backward context: everything `backward` needs is
    /// recorded here, because the output alone does not determine the
    /// layer-local derivatives.
    pub fn back_propagate(&self, input: &Tensor<i64>) -> (r: (Tensor<i64>, DenseCtx))
        requires
            self.wf(),
            input.wf(),
            input.dims() == self.input_dims(),
        ensures
            r.0.wf(),
            r.0.dims() == self.output_dims(),
            r.0.data_seq() =~= self.forward_spec(input.data_seq()),
            self.ctx_matches(r.1),
            r.1.input_data() == input.data_seq(),
    {
        let (out, deriv, act_reg) = self.forward_parts(input);
        let ctx = DenseCtx { input: input.clone(), derivatives: deriv, act_reg };
        (out, ctx)
    }

    /// Consumes a backward context and the gradient of the loss with
    /// respect to this layer's output; returns the gradient with
    /// respect to the input and, in update order, the kernel and bias
    /// gradients.
    pub fn backward(&self, ctx: DenseCtx, output_d: &Tensor<i64>) -> (r: (
        Tensor<i64>,
        Vec<Tensor<i64>>,
    ))
        requires
            self.wf(),
            self.ctx_matches(ctx),
            output_d.wf(),
            output_d.dims() == self.output_dims(),
        ensures
            r.0.wf(),
            r.0.dims() == self.input_dims(),
            r.0.data_seq() =~= self.input_grad_spec(ctx.input_data(), output_d.data_seq()),
            r.1@.len() == 2,
            r.1@[0].wf(),
            r.1@[0].dims() == seq![self.in_cap() as usize, self.out_cap() as usize],
            r.1@[0].data_seq() =~= self.kernel_grad_spec(ctx.input_data(), output_d.data_seq()),
            r.1@[1].wf(),
            r.1@[1].dims() == self.output_dims(),
            r.1@[1].data_seq() =~= self.bias_grad_spec(ctx.input_data(), output_d.data_seq()),
    {
        let ghost x = ctx.input.data_seq();
        let ghost g = output_d.data_seq();
        let in_cap = self.input_shape.capacity();
        let out_cap = self.output_shape.capacity();
        proof {
            lemma_tensor_capacity_fits(ctx.input);
            lemma_tensor_capacity_fits(*output_d);
            lemma_tensor_capacity_fits(self.kernel);
            lemma_tensor_capacity_fits(self.bias);
            lemma_tensor_capacity_fits(ctx.derivatives);
            lemma_tensor_capacity_fits(ctx.act_reg);
            reveal_with_fuel(dims_product, 3);
            assert(self.kernel.dims().drop_first() =~= seq![out_cap]);
            assert(seq![out_cap].drop_first().len() == 0);
            assert((out_cap as nat) * 1 == out_cap as nat) by (nonlinear_arith);
            assert(self.kernel.data_seq().len() == (in_cap as nat) * (out_cap as nat));
        }
        // scaled deltas: activation derivative times (incoming gradient
        // plus activity regularization)
        let mut d = Tensor::zero(self.output_shape.clone());
        let mut o: usize = 0;
        while o < out_cap
            invariant
                o <= out_cap,
                self.wf(),
                self.ctx_matches(ctx),
                output_d.wf(),
                output_d.dims() == self.output_dims(),
                x == ctx.input.data_seq(),
                g == output_d.data_seq(),
                in_cap == self.in_cap(),
                out_cap == self.out_cap(),
                g.len() == out_cap,
                ctx.derivatives.data_seq().len() == out_cap,
                ctx.act_reg.data_seq().len() == out_cap,
                d.wf(),
                d.dims() == self.output_dims(),
                d.data_seq().len() == out_cap,
                forall|j: int| 0 <= j < o ==> d.data_seq()[j] == self.delta_spec(x, g, j),
            decreases out_cap - o,
        {
            let v = ctx.derivatives.flat_get(o).wrapping_mul(
                output_d.flat_get(o).wrapping_add(*ctx.act_reg.flat_get(o)),
            );
            d.flat_set(o, v);
            o += 1;
        }
        // kernel gradient: the regularizer's derivative, then each
        // entry overwritten with delta times input, as the update
        // payload expects
        let mut kernel_d = self.kernel_regularizer.derive(&self.kernel);
        let ghost kd_dims = kernel_d.dims();
        let mut i: usize = 0;
        while i < in_cap
            invariant
                i <= in_cap,
                self.wf(),
                self.ctx_matches(ctx),
                x == ctx.input.data_seq(),
                g == output_d.data_seq(),
                in_cap == self.in_cap(),
                out_cap == self.out_cap(),
                x.len() == in_cap,
                d.data_seq().len() == out_cap,
                forall|j: int| 0 <= j < out_cap ==> d.data_seq()[j] == self.delta_spec(x, g, j),
                kernel_d.wf(),
                kernel_d.dims() == kd_dims,
                kd_dims == self.kernel.dims(),
                kernel_d.data_seq().len() == (in_cap as nat) * (out_cap as nat),
                forall|a: int, b: int|
                    0 <= a < i && 0 <= b < out_cap ==> kernel_d.data_seq()[a * (out_cap as int) + b]
                        == wmul(self.delta_spec(x, g, b), x[a]),
            decreases in_cap - i,
        {
            let mut oo: usize = 0;
            while oo < out_cap
                invariant
                    oo <= out_cap,
                    i < in_cap,
                    self.wf(),
                    self.ctx_matches(ctx),
                    x == ctx.input.data_seq(),
                    g == output_d.data_seq(),
                    in_cap == self.in_cap(),
                    out_cap == self.out_cap(),
                    x.len() == in_cap,
                    d.data_seq().len() == out_cap,
                    forall|j: int| 0 <= j < out_cap ==> d.data_seq()[j] == self.delta_spec(x, g, j),
                    kernel_d.wf(),
                    kernel_d.dims() == kd_dims,
                    kd_dims == self.kernel.dims(),
                    kernel_d.data_seq().len() == (in_cap as nat) * (out_cap as nat),
                    forall|a: int, b: int|
                        0 <= a < i && 0 <= b < out_cap ==> kernel_d.data_seq()[a * (out_cap as int)
                            + b] == wmul(self.delta_spec(x, g, b), x[a]),
                    forall|b: int|
                        0 <= b < oo ==> kernel_d.data_seq()[i * (out_cap as int) + b] == wmul(
                            self.delta_spec(x, g, b),
                            x[i as int],
                        ),
                decreases out_cap - oo,
            {
                proof {
                    assert((i + 1) * (out_cap as int) <= (in_cap as int) * (out_cap as int))
                        by (nonlinear_arith)
                        requires i + 1 <= in_cap as int && out_cap as int >= 0;
                    assert(i * (out_cap as int) + out_cap == (i + 1) * (out_cap as int))
                        by (nonlinear_arith);
                }
                let v = d.flat_get(oo).wrapping_mul(*ctx.input.flat_get(i));
                kernel_d.flat_set(i * out_cap + oo, v);
                oo += 1;
                proof {
                    assert forall|a: int, b: int|
                        0 <= a < i && 0 <= b < out_cap implies kernel_d.data_seq()[a * (
                    out_cap as int) + b] == wmul(self.delta_spec(x, g, b), x[a]) by {
                        assert(a * (out_cap as int) + b < i * (out_cap as int))
                            by (nonlinear_arith)
                            requires 0 <= a < i && 0 <= b < out_cap as int;
                    }
                }
            }
            i += 1;
        }
        // bias gradient: the regularizer's derivative plus the deltas
        let mut bias_d = self.bias_regularizer.derive(&self.bias);
        let mut o2: usize = 0;
        while o2 < out_cap
            invariant
                o2 <= out_cap,
                self.wf(),
                x == ctx.input.data_seq(),
                g == output_d.data_seq(),
                out_cap == self.out_cap(),
                d.data_seq().len() == out_cap,
                forall|j: int| 0 <= j < out_cap ==> d.data_seq()[j] == self.delta_spec(x, g, j),
                bias_d.wf(),
                bias_d.dims() == self.output_dims(),
                bias_d.data_seq().len() == out_cap,
                forall|j: int|
                    o2 <= j < out_cap ==> bias_d.data_seq()[j]
                        == self.bias_regularizer_spec().derive_spec(self.bias_data()[j]),
                forall|j: int|
                    0 <= j < o2 ==> bias_d.data_seq()[j] == wadd(
                        self.bias_regularizer_spec().derive_spec(self.bias_data()[j]),
                        self.delta_spec(x, g, j),
                    ),
            decreases out_cap - o2,
        {
            let v = bias_d.flat_get(o2).wrapping_add(*d.flat_get(o2));
            bias_d.flat_set(o2, v);
            o2 += 1;
        }
        // input gradient: deltas folded back through the kernel
        let mut input_d = Tensor::zero(self.input_shape.clone());
        let ghost dvals = Seq::new(self.out_cap(), |o: int| self.delta_spec(x, g, o));
        let mut i2: usize = 0;
        while i2 < in_cap
            invariant
                i2 <= in_cap,
                self.wf(),
                x == ctx.input.data_seq(),
                g == output_d.data_seq(),
                in_cap == self.in_cap(),
                out_cap == self.out_cap(),
                self.kernel.data_seq().len() == (in_cap as nat) * (out_cap as nat),
                d.data_seq().len() == out_cap,
                dvals == Seq::new(self.out_cap(), |o: int| self.delta_spec(x, g, o)),
                forall|j: int| 0 <= j < out_cap ==> d.data_seq()[j] == self.delta_spec(x, g, j),
                input_d.wf(),
                input_d.dims() == self.input_dims(),
                input_d.data_seq().len() == in_cap,
                forall|j: int|
                    0 <= j < i2 ==> input_d.data_seq()[j] == dense_input_acc(
                        dvals,
                        self.kernel_data(),
                        out_cap as int,
                        j,
                        out_cap as int,
                    ),
            decreases in_cap - i2,
        {
            let mut acc: i64 = 0;
            let mut o3: usize = 0;
            while o3 < out_cap
                invariant
                    o3 <= out_cap,
                    i2 < in_cap,
                    self.wf(),
                    x == ctx.input.data_seq(),
                    g == output_d.data_seq(),
                    in_cap == self.in_cap(),
                    out_cap == self.out_cap(),
                    self.kernel.data_seq().len() == (in_cap as nat) * (out_cap as nat),
                    d.data_seq().len() == out_cap,
                    dvals == Seq::new(self.out_cap(), |o: int| self.delta_spec(x, g, o)),
                    forall|j: int| 0 <= j < out_cap ==> d.data_seq()[j] == self.delta_spec(x, g, j),
                    acc == dense_input_acc(
                        dvals,
                        self.kernel_data(),
                        out_cap as int,
                        i2 as int,
                        o3 as int,
                    ),
                decreases out_cap - o3,
            {
                proof {
                    assert((i2 + 1) * (out_cap as int) <= (in_cap as int) * (out_cap as int))
                        by (nonlinear_arith)
                        requires i2 + 1 <= in_cap as int && out_cap as int >= 0;
                    assert(i2 * (out_cap as int) + out_cap == (i2 + 1) * (out_cap as int))
                        by (nonlinear_arith);
                }
                let w = *self.kernel.flat_get(i2 * out_cap + o3);
                acc = acc.wrapping_add(d.flat_get(o3).wrapping_mul(w));
                o3 += 1;
            }
            input_d.flat_set(i2, acc);
            i2 += 1;
        }
        let mut grads: Vec<Tensor<i64>> = Vec::new();
        grads.push(kernel_d);
        grads.push(bias_d);
        proof {
            assert(input_d.data_seq() =~= self.input_grad_spec(x, g));
            assert(grads@[0].data_seq() =~= self.kernel_grad_spec(x, g)) by {
                assert forall|p: int|
                    0 <= p < (in_cap as int) * (out_cap as int) implies grads@[0].data_seq()[p]
                    == wmul(
                    self.delta_spec(x, g, p % (out_cap as int)),
                    x[p / (out_cap as int)],
                ) by {
                    let a = p / (out_cap as int);
                    let b = p % (out_cap as int);
                    vstd::arithmetic::div_mod::lemma_fundamental_div_mod(p, out_cap as int);
                    assert(0 <= b < out_cap as int);
                    assert(0 <= a < in_cap as int) by (nonlinear_arith)
                        requires
                            p == (out_cap as int) * a + b && 0 <= p < (in_cap as int) * (
                            out_cap as int) && 0 <= b < out_cap as int;
                    assert(a * (out_cap as int) + b == p) by (nonlinear_arith)
                        requires p == (out_cap as int) * a + b;
                }
            }
            assert(grads@[1].data_seq() =~= self.bias_grad_spec(x, g));
        }
        (input_d, grads)
    }

    /// Applies one optimizer step: subtracts the deltas from the
    /// kernel and the bias, then re-applies the value constraints to
    /// every updated parameter element. The only mutation path of the
    /// layer.
    pub fn update(&mut self, deltas: &Vec<Tensor<i64>>) -> (nothing: ())
        requires
            old(self).wf(),
            deltas@.len() == 2,
            deltas@[0].wf(),
            deltas@[0].dims() == old(self).kernel_dims(),
            deltas@[1].wf(),
            deltas@[1].dims() == old(self).output_dims(),
        ensures
            final(self).wf(),
            final(self).input_dims() == old(self).input_dims(),
            final(self).output_dims() == old(self).output_dims(),
            final(self).activation_spec() == old(self).activation_spec(),
            final(self).kernel_regularizer_spec() == old(self).kernel_regularizer_spec(),
            final(self).bias_regularizer_spec() == old(self).bias_regularizer_spec(),
            final(self).activity_regularizer_spec() == old(self).activity_regularizer_spec(),
            final(self).kernel_constraint_spec() == old(self).kernel_constraint_spec(),
            final(self).bias_constraint_spec() == old(self).bias_constraint_spec(),
            final(self).kernel_data() =~= Seq::new(
                old(self).kernel_data().len(),
                |p: int|
                    old(self).kernel_constraint_spec().constrain_spec(
                        wsub(old(self).kernel_data()[p], deltas@[0].data_seq()[p]),
                    ),
            ),
            final(self).bias_data() =~= Seq::new(
                old(self).bias_data().len(),
                |o: int|
                    old(self).bias_constraint_spec().constrain_spec(
                        wsub(old(self).bias_data()[o], deltas@[1].data_seq()[o]),
                    ),
            ),
    {
        proof {
            lemma_tensor_capacity_fits(self.kernel);
            lemma_tensor_capacity_fits(self.bias);
            lemma_tensor_capacity_fits(deltas@[0]);
            lemma_tensor_capacity_fits(deltas@[1]);
        }
        self.kernel.sub_assign(&deltas[0]);
        self.bias.sub_assign(&deltas[1]);
        let kn = self.kernel.len();
        let mut p: usize = 0;
        while p < kn
            invariant
                p <= kn,
                kn == self.kernel.data_seq().len(),
                self.kernel.wf(),
                self.kernel.dims() == old(self).kernel.dims(),
                self.kernel_constraint == old(self).kernel_constraint,
                self.bias_constraint == old(self).bias_constraint,
                self.kernel_regularizer == old(self).kernel_regularizer,
                self.bias_regularizer == old(self).bias_regularizer,
                self.activity_regularizer == old(self).activity_regularizer,
                self.input_shape == old(self).input_shape,
                self.output_shape == old(self).output_shape,
                self.activation == old(self).activation,
                old(self).wf(),
                self.bias.wf(),
                self.bias.dims() == old(self).bias.dims(),
                self.bias.data_seq().len() == old(self).bias.data_seq().len(),
                forall|j: int|
                    0 <= j < self.bias.data_seq().len() ==> self.bias.data_seq()[j] == wsub(
                        old(self).bias.data_seq()[j],
                        deltas@[1].data_seq()[j],
                    ),
                kn == old(self).kernel.data_seq().len(),
                forall|j: int|
                    p <= j < kn ==> self.kernel.data_seq()[j] == wsub(
                        old(self).kernel.data_seq()[j],
                        deltas@[0].data_seq()[j],
                    ),
                forall|j: int|
                    0 <= j < p ==> self.kernel.data_seq()[j]
                        == old(self).kernel_constraint.constrain_spec(
                        wsub(old(self).kernel.data_seq()[j], deltas@[0].data_seq()[j]),
                    ),
            decreases kn - p,
        {
            let v = self.kernel_constraint.constrain(*self.kernel.flat_get(p));
            self.kernel.flat_set(p, v);
            p += 1;
        }
        let bn = self.bias.len();
        let mut q: usize = 0;
        while q < bn
            invariant
                q <= bn,
                bn == self.bias.data_seq().len(),
                self.bias.wf(),
                self.bias.dims() == old(self).bias.dims(),
                self.bias_constraint == old(self).bias_constraint,
                self.kernel_constraint == old(self).kernel_constraint,
                self.kernel_regularizer == old(self).kernel_regularizer,
                self.bias_regularizer == old(self).bias_regularizer,
                self.activity_regularizer == old(self).activity_regularizer,
                self.input_shape == old(self).input_shape,
                self.output_shape == old(self).output_shape,
                self.activation == old(self).activation,
                old(self).wf(),
                self.kernel.wf(),
                self.kernel.dims() == old(self).kernel.dims(),
                self.kernel.data_seq().len() == old(self).kernel.data_seq().len(),
                forall|j: int|
                    0 <= j < self.kernel.data_seq().len() ==> self.kernel.data_seq()[j]
                        == old(self).kernel_constraint.constrain_spec(
                        wsub(old(self).kernel.data_seq()[j], deltas@[0].data_seq()[j]),
                    ),
                bn == old(self).bias.data_seq().len(),
                forall|j: int|
                    q <= j < bn ==> self.bias.data_seq()[j] == wsub(
                        old(self).bias.data_seq()[j],
                        deltas@[1].data_seq()[j],
                    ),
                forall|j: int|
                    0 <= j < q ==> self.bias.data_seq()[j]
                        == old(self).bias_constraint.constrain_spec(
                        wsub(old(self).bias.data_seq()[j], deltas@[1].data_seq()[j]),
                    ),
            decreases bn - q,
        {
            let v = self.bias_constraint.constrain(*self.bias.flat_get(q));
            self.bias.flat_set(q, v);
            q += 1;
        }
    }

    /// The extents of the kernel: one row per input element, one
    /// column per output element.
    pub open spec fn kernel_dims(&self) -> Seq<usize> {
        seq![self.in_cap() as usize, self.out_cap() as usize]
    }
}

/// A builder for a dense layer: collects optional configuration and
/// resolves the input shape when the model is built. Only the output
/// shape is required; every unset field resolves to its documented
/// default — zero initializers, no regularization, no constraint and
/// the identity activation.
pub struct Builder {
    output_shape: Option<Shape>,
    activation: Option<crate::activations::Identity>,
    kernel_initializer: Option<i64>,
    bias_initializer: Option<i64>,
    kernel_regularizer: Option<Regularization>,
    bias_regularizer: Option<Regularization>,
    activity_regularizer: Option<Regularization>,
    kernel_constraint: Option<Constraint>,
    bias_constraint: Option<Constraint>,
}

impl Builder {
    /// The configured output shape, if one was set.
    pub closed spec fn output_shape_spec(&self) -> Option<Shape> {
        self.output_shape
    }

    /// The configured kernel initializer value, zero when unset.
    pub closed spec fn kernel_init_spec(&self) -> i64 {
        match self.kernel_initializer {
            Option::Some(v) => v,
            Option::None => 0i64,
        }
    }

    /// The configured bias initializer value, zero when unset.
    pub closed spec fn bias_init_spec(&self) -> i64 {
        match self.bias_initializer {
            Option::Some(v) => v,
            Option::None => 0i64,
        }
    }

    /// The configured activation, the identity when unset.
    pub closed spec fn activation_res_spec(&self) -> crate::activations::Identity {
        match self.activation {
            Option::Some(a) => a,
            Option::None => crate::activations::Identity {  },
        }
    }

    /// The configured kernel regularizer, none when unset.
    pub closed spec fn kernel_reg_spec(&self) -> Regularization {
        match self.kernel_regularizer {
            Option::Some(r) => r,
            Option::None => Regularization::Off,
        }
    }

    /// The configured bias regularizer, none when unset.
    pub closed spec fn bias_reg_spec(&self) -> Regularization {
        match self.bias_regularizer {
            Option::Some(r) => r,
            Option::None => Regularization::Off,
        }
    }

    /// The configured activity regularizer, none when unset.
    pub closed spec fn activity_reg_spec(&self) -> Regularization {
        match self.activity_regularizer {
            Option::Some(r) => r,
            Option::None => Regularization::Off,
        }
    }

    /// The configured kernel constraint, none when unset.
    pub closed spec fn kernel_con_spec(&self) -> Constraint {
        match self.kernel_constraint {
            Option::Some(c) => c,
            Option::None => Constraint::Off,
        }
    }

    /// The configured bias constraint, none when unset.
    pub closed spec fn bias_con_spec(&self) -> Constraint {
        match self.bias_constraint {
            Option::Some(c) => c,
            Option::None => Constraint::Off,
        }
    }

    /// The whole resolved configuration, in one value: output shape,
    /// activation, the two initializer fills, the three regularizers
    /// and the two constraints. Each setter changes exactly one
    /// component.
    pub open spec fn config_spec(&self) -> (
        Option<Shape>,
        crate::activations::Identity,
        i64,
        i64,
        Regularization,
        Regularization,
        Regularization,
        Constraint,
        Constraint,
    ) {
        (
            self.output_shape_spec(),
            self.activation_res_spec(),
            self.kernel_init_spec(),
            self.bias_init_spec(),
            self.kernel_reg_spec(),
            self.bias_reg_spec(),
            self.activity_reg_spec(),
            self.kernel_con_spec(),
            self.bias_con_spec(),
        )
    }

    /// Any configured shape is well formed.
    pub closed spec fn wf(&self) -> bool {
        self.output_shape matches Some(s) ==> s.wf()
    }

    /// The layer can be built against input of the given extents: the
    /// output shape was set and the kernel fits in memory.
    pub open spec fn build_ok(&self, dims: Seq<usize>) -> bool {
        &&& self.output_shape_spec() is Some
        &&& dims_product(dims) * dims_product(self.output_shape_spec()->0.dims()) <= usize::MAX
    }

    /// The extents the built layer produces.
    pub open spec fn out_dims_spec(&self) -> Seq<usize> {
        self.output_shape_spec()->0.dims()
    }

    /// A builder with nothing configured.
    pub fn new() -> (r: Builder)
        ensures
            r.wf(),
            r.output_shape_spec() is None,
    {
        Builder {
            output_shape: None,
            activation: None,
            kernel_initializer: None,
            bias_initializer: None,
            kernel_regularizer: None,
            bias_regularizer: None,
            activity_regularizer: None,
            kernel_constraint: None,
            bias_constraint: None,
        }
    }

    /// Sets the required output shape.
    pub fn output_shape(self, output_shape: Shape) -> (r: Builder)
        requires
            output_shape.wf(),
        ensures
            r.wf(),
            r.config_spec() == (
                Some(output_shape),
                self.config_spec().1,
                self.config_spec().2,
                self.config_spec().3,
                self.config_spec().4,
                self.config_spec().5,
                self.config_spec().6,
                self.config_spec().7,
                self.config_spec().8,
            ),
    {
        Builder { output_shape: Some(output_shape), ..self }
    }

    /// Sets the activation.
    pub fn activation(self, activation: crate::activations::Identity) -> (r: Builder)
        ensures
            r.wf() == self.wf(),
            r.config_spec() == (
                self.config_spec().0,
                activation,
                self.config_spec().2,
                self.config_spec().3,
                self.config_spec().4,
                self.config_spec().5,
                self.config_spec().6,
                self.config_spec().7,
                self.config_spec().8,
            ),
    {
        Builder { activation: Some(activation), ..self }
    }

    /// Sets the kernel initializer to a constant fill value.
    pub fn kernel_initializer(self, value: i64) -> (r: Builder)
        ensures
            r.wf() == self.wf(),
            r.config_spec() == (
                self.config_spec().0,
                self.config_spec().1,
                value,
                self.config_spec().3,
                self.config_spec().4,
                self.config_spec().5,
                self.config_spec().6,
                self.config_spec().7,
                self.config_spec().8,
            ),
    {
        Builder { kernel_initializer: Some(value), ..self }
    }

    /// Sets the bias initializer to a constant fill value.
    pub fn bias_initializer(self, value: i64) -> (r: Builder)
        ensures
            r.wf() == self.wf(),
            r.config_spec() == (
                self.config_spec().0,
                self.config_spec().1,
                self.config_spec().2,
                value,
                self.config_spec().4,
                self.config_spec().5,
                self.config_spec().6,
                self.config_spec().7,
                self.config_spec().8,
            ),
    {
        Builder { bias_initializer: Some(value), ..self }
    }

    /// Sets the kernel regularizer.
    pub fn kernel_regularizer(self, r0: Regularization) -> (r: Builder)
        ensures
            r.wf() == self.wf(),
            r.config_spec() == (
                self.config_spec().0,
                self.config_spec().1,
                self.config_spec().2,
                self.config_spec().3,
                r0,
                self.config_spec().5,
                self.config_spec().6,
                self.config_spec().7,
                self.config_spec().8,
            ),
    {
        Builder { kernel_regularizer: Some(r0), ..self }
    }

    /// Sets the bias regularizer.
    pub fn bias_regularizer(self, r0: Regularization) -> (r: Builder)
        ensures
            r.wf() == self.wf(),
            r.config_spec() == (
                self.config_spec().0,
                self.config_spec().1,
                self.config_spec().2,
                self.config_spec().3,
                self.config_spec().4,
                r0,
                self.config_spec().6,
                self.config_spec().7,
                self.config_spec().8,
            ),
    {
        Builder { bias_regularizer: Some(r0), ..self }
    }

    /// Sets the activity regularizer.
    pub fn activity_regularizer(self, r0: Regularization) -> (r: Builder)
        ensures
            r.wf() == self.wf(),
            r.config_spec() == (
                self.config_spec().0,
                self.config_spec().1,
                self.config_spec().2,
                self.config_spec().3,
                self.config_spec().4,
                self.config_spec().5,
                r0,
                self.config_spec().7,
                self.config_spec().8,
            ),
    {
        Builder { activity_regularizer: Some(r0), ..self }
    }

    /// Sets the kernel constraint.
    pub fn kernel_constraint(self, c: Constraint) -> (r: Builder)
        ensures
            r.wf() == self.wf(),
            r.config_spec() == (
                self.config_spec().0,
                self.config_spec().1,
                self.config_spec().2,
                self.config_spec().3,
                self.config_spec().4,
                self.config_spec().5,
                self.config_spec().6,
                c,
                self.config_spec().8,
            ),
    {
        Builder { kernel_constraint: Some(c), ..self }
    }

    /// Sets the bias constraint.
    pub fn bias_constraint(self, c: Constraint) -> (r: Builder)
        ensures
            r.wf() == self.wf(),
            r.config_spec() == (
                self.config_spec().0,
                self.config_spec().1,
                self.config_spec().2,
                self.config_spec().3,
                self.config_spec().4,
                self.config_spec().5,
                self.config_spec().6,
                self.config_spec().7,
                c,
            ),
    {
        Builder { bias_constraint: Some(c), ..self }
    }

    /// Resolves the builder against the input shape handed to it by
    /// the chain: fails exactly when the output shape was never set
    /// or the kernel would hold more elements than a `usize` can
    /// count.
    pub fn build(self, input_shape: Shape) -> (r: Result<
        Dense<crate::activations::Identity>,
        crate::model::ModelError,
    >)
        requires
            self.wf(),
            input_shape.wf(),
        ensures
            r is Ok <==> self.build_ok(input_shape.dims()),
            self.output_shape_spec() is None ==> r matches Err(
                crate::model::ModelError::MissingConfiguration,
            ),
            r matches Ok(l) ==> {
                &&& l.wf()
                &&& l.input_dims() == input_shape.dims()
                &&& l.output_dims() == self.out_dims_spec()
                &&& forall|p: int|
                    0 <= p < l.kernel_data().len() ==> l.kernel_data()[p]
                        == self.kernel_init_spec()
                &&& forall|o: int|
                    0 <= o < l.bias_data().len() ==> l.bias_data()[o] == self.bias_init_spec()
                &&& l.kernel_data().len() == l.in_cap() * l.out_cap()
                &&& l.bias_data().len() == l.out_cap()
                &&& l.activation_spec() == self.activation_res_spec()
                &&& l.kernel_regularizer_spec() == self.kernel_reg_spec()
                &&& l.bias_regularizer_spec() == self.bias_reg_spec()
                &&& l.activity_regularizer_spec() == self.activity_reg_spec()
                &&& l.kernel_constraint_spec() == self.kernel_con_spec()
                &&& l.bias_constraint_spec() == self.bias_con_spec()
            },
    {
        let output_shape = match self.output_shape {
            Some(s) => s,
            None => {
                return Err(crate::model::ModelError::MissingConfiguration);
            },
        };
        let in_cap = input_shape.capacity();
        let out_cap = output_shape.capacity();
        if in_cap.checked_mul(out_cap).is_none() {
            return Err(crate::model::ModelError::CapacityOverflow);
        }
        let activation = match self.activation {
            Some(a) => a,
            None => crate::activations::Identity::new(),
        };
        let kernel_init: i64 = match self.kernel_initializer {
            Some(v) => v,
            None => 0,
        };
        let bias_init: i64 = match self.bias_initializer {
            Some(v) => v,
            None => 0,
        };
        let kernel_regularizer = match self.kernel_regularizer {
            Some(r0) => r0,
            None => Regularization::Off,
        };
        let bias_regularizer = match self.bias_regularizer {
            Some(r0) => r0,
            None => Regularization::Off,
        };
        let activity_regularizer = match self.activity_regularizer {
            Some(r0) => r0,
            None => Regularization::Off,
        };
        let kernel_constraint = match self.kernel_constraint {
            Some(c) => c,
            None => Constraint::Off,
        };
        let bias_constraint = match self.bias_constraint {
            Some(c) => c,
            None => Constraint::Off,
        };
        Ok(
            Dense::new(
                input_shape,
                output_shape,
                activation,
                kernel_init,
                bias_init,
                kernel_regularizer,
                bias_regularizer,
                activity_regularizer,
                kernel_constraint,
                bias_constraint,
            ),
        )
    }
}

} // verus!
