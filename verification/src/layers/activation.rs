//! The activation layer: applies a pointwise activation to every
//! element of its input, keeping the shape. It owns no parameters.

use vstd::prelude::*;

use crate::activations::Activation as Act;
use crate::shape::Shape;
use crate::tensor::{lemma_tensor_capacity_fits, wmul, Tensor};

verus! {

/// An activation stage over one fixed shape.
pub struct Activation<A: Act> {
    activation: A,
    shape: Shape,
}

/// The one-shot backward context of an activation stage: the
/// activation derivatives at the forward pass's inputs, which scale
/// the incoming gradient on the way back, plus a ghost record of the
/// input.
pub struct ActivationCtx {
    derivatives: Tensor<i64>,
    input: Ghost<Seq<i64>>,
}

impl ActivationCtx {
    /// The input the forward pass saw.
    pub closed spec fn input_data(&self) -> Seq<i64> {
        self.input@
    }
}

impl<A: Act> Activation<A> {
    /// The shape this stage accepts and produces.
    pub closed spec fn shape_dims(&self) -> Seq<usize> {
        self.shape.dims()
    }

    /// The activation applied to each element.
    pub closed spec fn activation_spec(&self) -> A {
        self.activation
    }

    /// The held shape is well formed.
    pub closed spec fn wf(&self) -> bool {
        self.shape.wf()
    }

    /// What `feed_forward` returns: the activation of every element.
    pub open spec fn forward_spec(&self, x: Seq<i64>) -> Seq<i64> {
        Seq::new(x.len(), |i: int| self.activation_spec().activate_spec(x[i]))
    }

    /// What the backward pass hands back for the input: the incoming
    /// gradient scaled elementwise by the activation's derivative at
    /// the input.
    pub open spec fn input_grad_spec(&self, x: Seq<i64>, g: Seq<i64>) -> Seq<i64> {
        Seq::new(x.len(), |i: int| wmul(self.activation_spec().derive_spec(x[i]), g[i]))
    }

    /// The captured context belongs to this stage and records the
    /// activation derivatives at the input it holds.
    pub closed spec fn ctx_matches_rec(&self, ctx: ActivationCtx) -> bool {
        &&& ctx.derivatives.wf()
        &&& ctx.derivatives.dims() == self.shape_dims()
        &&& ctx.derivatives.data_seq() =~= Seq::new(
            ctx.input_data().len(),
            |i: int| self.activation_spec().derive_spec(ctx.input_data()[i]),
        )
        &&& ctx.input_data().len() == ctx.derivatives.data_seq().len()
    }

    /// A stage applying `activation` over tensors of `shape`.
    pub fn new(activation: A, shape: Shape) -> (r: Activation<A>)
        requires
            shape.wf(),
        ensures
            r.wf(),
            r.shape_dims() == shape.dims(),
            r.activation_spec() == activation,
    {
        Activation { activation, shape }
    }

    /// The input shape the stage accepts.
    pub fn get_input_shape(&self) -> (s: &Shape)
        ensures
            s.dims() == self.shape_dims(),
            self.wf() ==> s.wf(),
    {
        &self.shape
    }

    /// The output shape the stage produces: the same as its input.
    pub fn get_output_shape(&self) -> (s: &Shape)
        ensures
            s.dims() == self.shape_dims(),
            self.wf() ==> s.wf(),
    {
        &self.shape
    }

    /// The pure forward evaluation.
    pub fn feed_forward(&self, input: &Tensor<i64>) -> (r: Tensor<i64>)
        requires
            self.wf(),
            input.wf(),
            input.dims() == self.shape_dims(),
        ensures
            r.wf(),
            r.dims() == self.shape_dims(),
            r.data_seq() =~= self.forward_spec(input.data_seq()),
    {
        let n = input.len();
        let mut out = Tensor::zero(self.shape.clone());
        proof {
            lemma_tensor_capacity_fits(*input);
            lemma_tensor_capacity_fits(out);
        }
        let mut i: usize = 0;
        while i < n
            invariant
                i <= n,
                self.wf(),
                input.wf(),
                input.dims() == self.shape_dims(),
                n == input.data_seq().len(),
                out.wf(),
                out.dims() == self.shape_dims(),
                out.data_seq().len() == n,
                forall|j: int|
                    0 <= j < i ==> out.data_seq()[j] == self.activation_spec().activate_spec(
                        input.data_seq()[j],
                    ),
            decreases n - i,
        {
            out.flat_set(i, self.activation.activate(*input.flat_get(i)));
            i += 1;
        }
        out
    }

    /// Computes the same outputs as `feed_forward` and captures the
    /// one-shot backward context: the activation derivatives at every
    /// input element.
    pub fn back_propagate(&self, input: &Tensor<i64>) -> (r: (Tensor<i64>, ActivationCtx))
        requires
            self.wf(),
            input.wf(),
            input.dims() == self.shape_dims(),
        ensures
            r.0.wf(),
            r.0.dims() == self.shape_dims(),
            r.0.data_seq() =~= self.forward_spec(input.data_seq()),
            self.ctx_matches_rec(r.1),
            r.1.input_data() == input.data_seq(),
    {
        let out = self.feed_forward(input);
        let n = input.len();
        let mut deriv = Tensor::zero(self.shape.clone());
        proof {
            lemma_tensor_capacity_fits(*input);
            lemma_tensor_capacity_fits(deriv);
        }
        let mut i: usize = 0;
        while i < n
            invariant
                i <= n,
                self.wf(),
                input.wf(),
                input.dims() == self.shape_dims(),
                n == input.data_seq().len(),
                deriv.wf(),
                deriv.dims() == self.shape_dims(),
                deriv.data_seq().len() == n,
                forall|j: int|
                    0 <= j < i ==> deriv.data_seq()[j] == self.activation_spec().derive_spec(
                        input.data_seq()[j],
                    ),
            decreases n - i,
        {
            deriv.flat_set(i, self.activation.derive(*input.flat_get(i)));
            i += 1;
        }
        let ctx = ActivationCtx { derivatives: deriv, input: Ghost(input.data_seq()) };
        (out, ctx)
    }

    /// Consumes a backward context and the gradient with respect to
    /// the output; returns the gradient with respect to the input:
    /// the output gradient scaled by the activation's derivative at
    /// the input. The stage has no parameters, so no parameter
    /// gradients come back.
    pub fn backward(&self, ctx: ActivationCtx, output_d: &Tensor<i64>) -> (r: Tensor<i64>)
        requires
            self.wf(),
            self.ctx_matches_rec(ctx),
            output_d.wf(),
            output_d.dims() == self.shape_dims(),
        ensures
            r.wf(),
            r.dims() == self.shape_dims(),
            r.data_seq() =~= self.input_grad_spec(ctx.input_data(), output_d.data_seq()),
    {
        let ghost x = ctx.input_data();
        let n = ctx.derivatives.len();
        proof {
            lemma_tensor_capacity_fits(ctx.derivatives);
            lemma_tensor_capacity_fits(*output_d);
        }
        let mut out = Tensor::zero(self.shape.clone());
        let mut i: usize = 0;
        while i < n
            invariant
                i <= n,
                self.wf(),
                self.ctx_matches_rec(ctx),
                x == ctx.input_data(),
                output_d.wf(),
                output_d.dims() == self.shape_dims(),
                n == ctx.derivatives.data_seq().len(),
                output_d.data_seq().len() == n,
                out.wf(),
                out.dims() == self.shape_dims(),
                out.data_seq().len() == n,
                forall|j: int|
                    0 <= j < i ==> out.data_seq()[j] == wmul(
                        ctx.derivatives.data_seq()[j],
                        output_d.data_seq()[j],
                    ),
            decreases n - i,
        {
            out.flat_set(i, ctx.derivatives.flat_get(i).wrapping_mul(*output_d.flat_get(i)));
            i += 1;
        }
        proof {
            assert(out.data_seq() =~= self.input_grad_spec(x, output_d.data_seq()));
        }
        out
    }
}

/// A builder for an activation stage. The activation defaults to the
/// identity; a declared shape, when one is set, must match the input
/// shape the chain hands in, or the build fails.
pub struct Builder {
    activation: Option<crate::activations::Identity>,
    shape: Option<Shape>,
}

impl Builder {
    /// The declared shape requirement, if one was set.
    pub closed spec fn shape_spec(&self) -> Option<Shape> {
        self.shape
    }

    /// The configured activation, the identity when unset.
    pub closed spec fn activation_res_spec(&self) -> crate::activations::Identity {
        match self.activation {
            Option::Some(a) => a,
            Option::None => crate::activations::Identity {  },
        }
    }

    /// Any configured shape is well formed.
    pub closed spec fn wf(&self) -> bool {
        self.shape matches Some(s) ==> s.wf()
    }

    /// The stage can be built against input of the given extents: no
    /// shape was declared, or the declared extents agree.
    pub open spec fn build_ok(&self, dims: Seq<usize>) -> bool {
        match self.shape_spec() {
            Option::Some(s) => s.dims() == dims,
            Option::None => true,
        }
    }

    /// A builder with nothing configured.
    pub fn new() -> (r: Builder)
        ensures
            r.wf(),
            r.shape_spec() is None,
    {
        Builder { activation: None, shape: None }
    }

    /// Sets the activation.
    pub fn activation(self, activation: crate::activations::Identity) -> (r: Builder)
        ensures
            r.wf() == self.wf(),
            r.shape_spec() == self.shape_spec(),
            r.activation_res_spec() == activation,
    {
        Builder { activation: Some(activation), ..self }
    }

    /// Declares the shape the stage must be given.
    pub fn shape(self, shape: Shape) -> (r: Builder)
        requires
            shape.wf(),
        ensures
            r.wf(),
            r.shape_spec() == Some(shape),
            r.activation_res_spec() == self.activation_res_spec(),
    {
        Builder { shape: Some(shape), ..self }
    }

    /// Resolves the builder against the input shape handed to it by
    /// the chain: fails exactly when a declared shape disagrees with
    /// the input shape.
    pub fn build(self, input_shape: Shape) -> (r: Result<
        Activation<crate::activations::Identity>,
        crate::model::ModelError,
    >)
        requires
            self.wf(),
            input_shape.wf(),
        ensures
            r is Ok <==> self.build_ok(input_shape.dims()),
            r matches Ok(l) ==> l.wf() && l.shape_dims() == input_shape.dims()
                && l.activation_spec() == self.activation_res_spec(),
            !self.build_ok(input_shape.dims()) ==> (r matches Err(
                crate::model::ModelError::ShapeMismatch(e, a),
            ) && e@ == self.shape_spec()->0.dims() && a@ == input_shape.dims()),
    {
        let activation = match self.activation {
            Some(a) => a,
            None => crate::activations::Identity::new(),
        };
        match self.shape {
            Some(s) => {
                if !shapes_dims_eq(&s, &input_shape) {
                    return Err(
                        crate::model::ModelError::ShapeMismatch(
                            dims_vec(&s),
                            dims_vec(&input_shape),
                        ),
                    );
                }
                Ok(Activation::new(activation, input_shape))
            },
            None => Ok(Activation::new(activation, input_shape)),
        }
    }
}

/// Whether two shapes have the same extents.
fn shapes_dims_eq(a: &Shape, b: &Shape) -> (r: bool)
    ensures
        r == (a.dims() == b.dims()),
{
    let n = a.dimensions();
    if n != b.dimensions() {
        proof {
            assert(a.dims() != b.dims());
        }
        return false;
    }
    let mut i: usize = 0;
    while i < n
        invariant
            i <= n,
            n == a.dims().len(),
            n == b.dims().len(),
            forall|j: int| 0 <= j < i ==> a.dims()[j] == b.dims()[j],
        decreases n - i,
    {
        if a.dim(i) != b.dim(i) {
            return false;
        }
        i += 1;
    }
    proof {
        assert(a.dims() =~= b.dims());
    }
    true
}

/// The extents of a shape as a vector.
fn dims_vec(s: &Shape) -> (r: Vec<usize>)
    ensures
        r@ == s.dims(),
{
    let n = s.dimensions();
    let mut out: Vec<usize> = Vec::new();
    let mut i: usize = 0;
    while i < n
        invariant
            i <= n,
            n == s.dims().len(),
            out@.len() == i,
            forall|j: int| 0 <= j < i ==> out@[j] == s.dims()[j],
        decreases n - i,
    {
        out.push(s.dim(i));
        i += 1;
    }
    proof {
        assert(out@ =~= s.dims());
    }
    out
}

} // verus!
