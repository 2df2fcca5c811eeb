//! Model composition: a right-nested chain of stages that lifts the
//! single-layer contract — shape introspection, forward evaluation,
//! one-shot backward contexts, parameter update — to the whole chain.
//! A chain of zero stages is the identity model; shape compatibility
//! between consecutive stages is checked when the chain is built, not
//! when it is called.

use vstd::prelude::*;

use crate::activations::Identity;
use crate::layers::activation::{Activation, ActivationCtx};
use crate::layers::dense::{Dense, DenseCtx};
use crate::shape::Shape;
use crate::tensor::Tensor;

verus! {

/// One stage of a sequential chain: a single-input, single-output
/// layer.
pub enum Stage {
    Dense(Dense<Identity>),
    Activation(Activation<Identity>),
}

/// The one-shot backward context of one stage.
pub enum StageCtx {
    Dense(DenseCtx),
    Activation(ActivationCtx),
}

impl Stage {
    /// The stage's layer is well formed.
    pub open spec fn wf(&self) -> bool {
        match *self {
            Stage::Dense(l) => l.wf(),
            Stage::Activation(l) => l.wf(),
        }
    }

    /// The extents of the input the stage accepts.
    pub open spec fn in_dims(&self) -> Seq<usize> {
        match *self {
            Stage::Dense(l) => l.input_dims(),
            Stage::Activation(l) => l.shape_dims(),
        }
    }

    /// The extents of the output the stage produces.
    pub open spec fn out_dims(&self) -> Seq<usize> {
        match *self {
            Stage::Dense(l) => l.output_dims(),
            Stage::Activation(l) => l.shape_dims(),
        }
    }

    /// What the stage's forward evaluation returns.
    pub open spec fn forward_spec(&self, x: Seq<i64>) -> Seq<i64> {
        match *self {
            Stage::Dense(l) => l.forward_spec(x),
            Stage::Activation(l) => l.forward_spec(x),
        }
    }

    /// What the stage's backward pass hands back for its input.
    pub open spec fn input_grad_spec(&self, x: Seq<i64>, g: Seq<i64>) -> Seq<i64> {
        match *self {
            Stage::Dense(l) => l.input_grad_spec(x, g),
            Stage::Activation(l) => l.input_grad_spec(x, g),
        }
    }

    /// The input recorded in a backward context.
    pub open spec fn ctx_input(&self, ctx: StageCtx) -> Seq<i64> {
        match ctx {
            StageCtx::Dense(c) => c.input_data(),
            StageCtx::Activation(c) => c.input_data(),
        }
    }

    /// The backward context belongs to this stage and faithfully
    /// records a forward pass of the input it holds.
    pub open spec fn ctx_matches(&self, ctx: StageCtx) -> bool {
        match (*self, ctx) {
            (Stage::Dense(l), StageCtx::Dense(c)) => l.wf() && l.ctx_matches(c)
                && c.input_data().len() == l.in_cap(),
            (Stage::Activation(l), StageCtx::Activation(c)) => l.wf() && l.ctx_matches_rec(c),
            _ => false,
        }
    }

    /// The parameter gradients a backward pass of input `x` and
    /// output gradient `g` hands back, in update order.
    pub open spec fn param_grads_ok(&self, grads: Seq<Tensor<i64>>, x: Seq<i64>, g: Seq<i64>) -> bool {
        match *self {
            Stage::Dense(l) => {
                &&& grads.len() == 2
                &&& grads[0].wf()
                &&& grads[0].dims() == l.kernel_dims()
                &&& grads[0].data_seq() == l.kernel_grad_spec(x, g)
                &&& grads[1].wf()
                &&& grads[1].dims() == l.output_dims()
                &&& grads[1].data_seq() == l.bias_grad_spec(x, g)
            },
            Stage::Activation(_) => grads.len() == 0,
        }
    }

    /// Deltas this stage's `update` accepts: one tensor per owned
    /// parameter tensor, of matching shape.
    pub open spec fn deltas_ok(&self, d: Seq<Tensor<i64>>) -> bool {
        match *self {
            Stage::Dense(l) => {
                &&& d.len() == 2
                &&& d[0].wf()
                &&& d[0].dims() == l.kernel_dims()
                &&& d[1].wf()
                &&& d[1].dims() == l.output_dims()
            },
            Stage::Activation(_) => d.len() == 0,
        }
    }

    /// How `update` transforms the stage: parameters step by the
    /// deltas and are re-constrained; everything else is unchanged.
    pub open spec fn updated(&self, new: Stage, d: Seq<Tensor<i64>>) -> bool {
        match (*self, new) {
            (Stage::Dense(l), Stage::Dense(l2)) => {
                &&& l2.wf()
                &&& l2.input_dims() == l.input_dims()
                &&& l2.output_dims() == l.output_dims()
                &&& l2.activation_spec() == l.activation_spec()
                &&& l2.kernel_data() == Seq::new(
                    l.kernel_data().len(),
                    |p: int|
                        l.kernel_constraint_spec().constrain_spec(
                            crate::tensor::wsub(l.kernel_data()[p], d[0].data_seq()[p]),
                        ),
                )
                &&& l2.bias_data() == Seq::new(
                    l.bias_data().len(),
                    |o: int|
                        l.bias_constraint_spec().constrain_spec(
                            crate::tensor::wsub(l.bias_data()[o], d[1].data_seq()[o]),
                        ),
                )
            },
            (Stage::Activation(l), Stage::Activation(l2)) => l2 == l,
            _ => false,
        }
    }

    /// The input shape the stage accepts.
    pub fn get_input_shape(&self) -> (s: &Shape)
        ensures
            s.dims() == self.in_dims(),
            self.wf() ==> s.wf(),
    {
        match self {
            Stage::Dense(l) => l.get_input_shape(),
            Stage::Activation(l) => l.get_input_shape(),
        }
    }

    /// The output shape the stage produces.
    pub fn get_output_shape(&self) -> (s: &Shape)
        ensures
            s.dims() == self.out_dims(),
            self.wf() ==> s.wf(),
    {
        match self {
            Stage::Dense(l) => l.get_output_shape(),
            Stage::Activation(l) => l.get_output_shape(),
        }
    }

    /// The pure forward evaluation of one stage.
    pub fn feed_forward(&self, input: &Tensor<i64>) -> (r: Tensor<i64>)
        requires
            self.wf(),
            input.wf(),
            input.dims() == self.in_dims(),
        ensures
            r.wf(),
            r.dims() == self.out_dims(),
            r.data_seq() == self.forward_spec(input.data_seq()),
    {
        match self {
            Stage::Dense(l) => l.feed_forward(input),
            Stage::Activation(l) => l.feed_forward(input),
        }
    }

    /// Computes the same output as `feed_forward` and captures the
    /// stage's one-shot backward context.
    pub fn back_propagate(&self, input: &Tensor<i64>) -> (r: (Tensor<i64>, StageCtx))
        requires
            self.wf(),
            input.wf(),
            input.dims() == self.in_dims(),
        ensures
            r.0.wf(),
            r.0.dims() == self.out_dims(),
            r.0.data_seq() == self.forward_spec(input.data_seq()),
            self.ctx_matches(r.1),
            self.ctx_input(r.1) == input.data_seq(),
    {
        match self {
            Stage::Dense(l) => {
                let (out, ctx) = l.back_propagate(input);
                proof {
                    crate::tensor::lemma_tensor_capacity_fits(*input);
                }
                (out, StageCtx::Dense(ctx))
            },
            Stage::Activation(l) => {
                let (out, ctx) = l.back_propagate(input);
                (out, StageCtx::Activation(ctx))
            },
        }
    }

    /// Consumes a backward context and the gradient with respect to
    /// the stage's output; returns the gradient with respect to its
    /// input and the parameter gradients in update order.
    pub fn backward(&self, ctx: StageCtx, output_d: &Tensor<i64>) -> (r: (
        Tensor<i64>,
        Vec<Tensor<i64>>,
    ))
        requires
            self.wf(),
            self.ctx_matches(ctx),
            output_d.wf(),
            output_d.dims() == self.out_dims(),
        ensures
            r.0.wf(),
            r.0.dims() == self.in_dims(),
            r.0.data_seq() == self.input_grad_spec(self.ctx_input(ctx), output_d.data_seq()),
            self.param_grads_ok(r.1@, self.ctx_input(ctx), output_d.data_seq()),
    {
        match self {
            Stage::Dense(l) => {
                let ghost x = self.ctx_input(ctx);
                match ctx {
                    StageCtx::Dense(c) => l.backward(c, output_d),
                    StageCtx::Activation(c) => {
                        proof {
                            assert(false);
                        }
                        (output_d.clone(), Vec::new())
                    },
                }
            },
            Stage::Activation(l) => {
                match ctx {
                    StageCtx::Activation(c) => {
                        let out = l.backward(c, output_d);
                        (out, Vec::new())
                    },
                    StageCtx::Dense(c) => {
                        proof {
                            assert(false);
                        }
                        (output_d.clone(), Vec::new())
                    },
                }
            },
        }
    }

    /// Applies one optimizer step to the stage's parameters.
    pub fn update(&mut self, deltas: &Vec<Tensor<i64>>) -> (nothing: ())
        requires
            old(self).wf(),
            old(self).deltas_ok(deltas@),
        ensures
            final(self).wf(),
            old(self).updated(*final(self), deltas@),
            final(self).in_dims() == old(self).in_dims(),
            final(self).out_dims() == old(self).out_dims(),
    {
        match self {
            Stage::Dense(l) => {
                l.update(deltas);
            },
            Stage::Activation(_) => {
            },
        }
    }
}

/// A right-nested chain of stages: empty (the identity model) or a
/// stage followed by a sub-chain whose input shape is the stage's
/// output shape.
pub enum Chain {
    Empty,
    Node(Stage, Box<Chain>),
}

/// The one-shot backward context of a chain: one stage context per
/// stage, in chain order.
pub enum CtxChain {
    Empty,
    Node(StageCtx, Box<CtxChain>),
}

/// The parameter payload of a chain: the head stage's tensors paired
/// with the sub-chain's payload — a nested pair, not a flattened
/// list.
pub enum Deltas {
    Empty,
    Node(Vec<Tensor<i64>>, Box<Deltas>),
}

impl Chain {
    /// Every stage of the chain is well formed.
    pub open spec fn wf_all(&self) -> bool
        decreases self,
    {
        match *self {
            Chain::Empty => true,
            Chain::Node(l, m) => l.wf() && m.wf_all(),
        }
    }

    /// The chain accepts input of the given extents: each stage's
    /// input shape matches what the previous stage produces.
    pub open spec fn wf_for(&self, dims: Seq<usize>) -> bool
        decreases self,
    {
        match *self {
            Chain::Empty => true,
            Chain::Node(l, m) => l.wf() && l.in_dims() == dims && m.wf_for(l.out_dims()),
        }
    }

    /// The extents of the chain's output for input of the given
    /// extents; the empty chain is the identity.
    pub open spec fn out_dims_for(&self, dims: Seq<usize>) -> Seq<usize>
        decreases self,
    {
        match *self {
            Chain::Empty => dims,
            Chain::Node(l, m) => m.out_dims_for(l.out_dims()),
        }
    }

    /// What the chain's forward evaluation returns: the head stage's
    /// output passed unchanged into the sub-chain.
    pub open spec fn forward_spec(&self, x: Seq<i64>) -> Seq<i64>
        decreases self,
    {
        match *self {
            Chain::Empty => x,
            Chain::Node(l, m) => m.forward_spec(l.forward_spec(x)),
        }
    }

    /// What the chain's backward pass hands back for its input: the
    /// sub-chain's input gradient fed through the head stage's
    /// backward pass.
    pub open spec fn input_grad_spec(&self, x: Seq<i64>, g: Seq<i64>) -> Seq<i64>
        decreases self,
    {
        match *self {
            Chain::Empty => g,
            Chain::Node(l, m) => l.input_grad_spec(x, m.input_grad_spec(l.forward_spec(x), g)),
        }
    }

    /// The first recorded input of a backward context chain.
    pub open spec fn ctx_input(&self, ctx: CtxChain) -> Seq<i64> {
        match (*self, ctx) {
            (Chain::Node(l, m), CtxChain::Node(c, cm)) => l.ctx_input(c),
            _ => Seq::empty(),
        }
    }

    /// The backward context belongs to this chain and records one
    /// forward pass faithfully: each stage's context holds the output
    /// of the previous stage as its input.
    pub open spec fn ctx_matches(&self, ctx: CtxChain) -> bool
        decreases self,
    {
        match (*self, ctx) {
            (Chain::Empty, CtxChain::Empty) => true,
            (Chain::Node(l, m), CtxChain::Node(c, cm)) => {
                &&& l.wf()
                &&& l.ctx_matches(c)
                &&& m.ctx_matches(*cm)
                &&& m.ctx_input_is(*cm, l.forward_spec(l.ctx_input(c)))
                &&& m.wf_for(l.out_dims())
            },
            _ => false,
        }
    }

    /// If the chain has a head stage, its recorded input is `x`.
    pub open spec fn ctx_input_is(&self, ctx: CtxChain, x: Seq<i64>) -> bool {
        match (*self, ctx) {
            (Chain::Node(l, m), CtxChain::Node(c, cm)) => l.ctx_input(c) == x,
            _ => true,
        }
    }

    /// The gradient tensor handed to the chain's backward pass has
    /// the extents of the chain's output.
    pub open spec fn ctx_grad_dims_ok(&self, ctx: CtxChain, gdims: Seq<usize>) -> bool
        decreases self,
    {
        match (*self, ctx) {
            (Chain::Node(l, m), CtxChain::Node(c, cm)) => {
                if *m is Empty {
                    gdims == l.out_dims()
                } else {
                    m.ctx_grad_dims_ok(*cm, gdims)
                }
            },
            _ => true,
        }
    }

    /// The parameter payload holds, stage by stage, exactly the
    /// parameter gradients of a backward pass of input `x` and output
    /// gradient `g`.
    pub open spec fn deltas_match(&self, d: Deltas, x: Seq<i64>, g: Seq<i64>) -> bool
        decreases self,
    {
        match (*self, d) {
            (Chain::Empty, Deltas::Empty) => true,
            (Chain::Node(l, m), Deltas::Node(v, rest)) => {
                &&& l.param_grads_ok(v@, x, m.input_grad_spec(l.forward_spec(x), g))
                &&& m.deltas_match(*rest, l.forward_spec(x), g)
            },
            _ => false,
        }
    }

    /// The parameter payload has the right structure and shapes for
    /// this chain's `update`.
    pub open spec fn deltas_ok(&self, d: Deltas) -> bool
        decreases self,
    {
        match (*self, d) {
            (Chain::Empty, Deltas::Empty) => true,
            (Chain::Node(l, m), Deltas::Node(v, rest)) => l.deltas_ok(v@) && m.deltas_ok(*rest),
            _ => false,
        }
    }

    /// How `update` transforms the chain: the payload is split, each
    /// half dispatched to its stage.
    pub open spec fn updated(&self, new: Chain, d: Deltas) -> bool
        decreases self,
    {
        match (*self, d) {
            (Chain::Empty, Deltas::Empty) => new is Empty,
            (Chain::Node(l, m), Deltas::Node(v, rest)) => match new {
                Chain::Node(l2, m2) => l.updated(l2, v@) && m.updated(*m2, *rest),
                Chain::Empty => false,
            },
            _ => false,
        }
    }

    /// The chain's forward evaluation: the head stage's output is
    /// forwarded unchanged into the sub-chain.
    pub fn feed_forward(&self, input: &Tensor<i64>) -> (r: Tensor<i64>)
        requires
            self.wf_for(input.dims()),
            input.wf(),
        ensures
            r.wf(),
            r.dims() == self.out_dims_for(input.dims()),
            r.data_seq() == self.forward_spec(input.data_seq()),
        decreases self,
    {
        match self {
            Chain::Empty => input.clone(),
            Chain::Node(l, m) => {
                let y = l.feed_forward(input);
                m.feed_forward(&y)
            },
        }
    }

    /// Computes the same output as `feed_forward` and captures the
    /// chain's combined one-shot backward context.
    pub fn back_propagate(&self, input: &Tensor<i64>) -> (r: (Tensor<i64>, CtxChain))
        requires
            self.wf_for(input.dims()),
            input.wf(),
        ensures
            r.0.wf(),
            r.0.dims() == self.out_dims_for(input.dims()),
            r.0.data_seq() == self.forward_spec(input.data_seq()),
            self.ctx_matches(r.1),
            self.ctx_input_is(r.1, input.data_seq()),
            self.ctx_grad_dims_ok(r.1, self.out_dims_for(input.dims())),
        decreases self,
    {
        match self {
            Chain::Empty => (input.clone(), CtxChain::Empty),
            Chain::Node(l, m) => {
                let (y, lctx) = l.back_propagate(input);
                let (out, mctx) = m.back_propagate(&y);
                (out, CtxChain::Node(lctx, Box::new(mctx)))
            },
        }
    }

    /// Consumes the combined backward context and the gradient of the
    /// loss with respect to the chain's output: runs the sub-chain's
    /// backward pass first, feeds the resulting gradient into the
    /// head stage's, and pairs the head's parameter gradients with
    /// the sub-chain's payload.
    pub fn backward(&self, ctx: CtxChain, output_d: &Tensor<i64>) -> (r: (Tensor<i64>, Deltas))
        requires
            self.ctx_matches(ctx),
            output_d.wf(),
            self.ctx_grad_dims_ok(ctx, output_d.dims()),
        ensures
            r.0.wf(),
            self is Node ==> r.0.dims() == self->Node_0.in_dims(),
            self is Empty ==> r.0.dims() == output_d.dims(),
            r.0.data_seq() == self.input_grad_spec(self.ctx_input(ctx), output_d.data_seq()),
            self is Empty ==> r.0.data_seq() == output_d.data_seq(),
            self.deltas_match(r.1, self.ctx_input(ctx), output_d.data_seq()),
            self.deltas_ok(r.1),
        decreases self,
    {
        match self {
            Chain::Empty => {
                match ctx {
                    CtxChain::Empty => {
                        proof {
                            assert(self.input_grad_spec(self.ctx_input(ctx), output_d.data_seq())
                                == output_d.data_seq());
                            assert(self.deltas_match(
                                Deltas::Empty,
                                self.ctx_input(ctx),
                                output_d.data_seq(),
                            ));
                        }
                        (output_d.clone(), Deltas::Empty)
                    },
                    CtxChain::Node(c, cm) => {
                        proof {
                            assert(false);
                        }
                        (output_d.clone(), Deltas::Empty)
                    },
                }
            },
            Chain::Node(l, m) => {
                match ctx {
                    CtxChain::Node(c, cm) => {
                        let ghost x = l.ctx_input(c);
                        let ghost g = output_d.data_seq();
                        let (gm, dm) = m.backward(*cm, output_d);
                        proof {
                            if **m is Empty {
                                assert(gm.data_seq() == g);
                                assert(m.input_grad_spec(l.forward_spec(x), g) == g);
                                assert(gm.dims() == l.out_dims());
                            } else {
                                assert(gm.data_seq() == m.input_grad_spec(l.forward_spec(x), g));
                                assert(gm.dims() == l.out_dims());
                            }
                        }
                        let (gi, dl) = l.backward(c, &gm);
                        proof {
                            assert(gi.data_seq() == l.input_grad_spec(
                                x,
                                m.input_grad_spec(l.forward_spec(x), g),
                            ));
                            assert(gi.data_seq() == self.input_grad_spec(x, g));
                            assert(l.param_grads_ok(
                                dl@,
                                x,
                                m.input_grad_spec(l.forward_spec(x), g),
                            ));
                            if **m is Empty {
                                assert(dm is Empty);
                                assert(m.deltas_match(dm, l.forward_spec(x), g));
                            } else {
                                assert(m.deltas_match(dm, m.ctx_input(*cm), g));
                                assert(m.ctx_input(*cm) == l.forward_spec(x));
                            }
                            assert(m.deltas_match(dm, l.forward_spec(x), g));
                        }
                        (gi, Deltas::Node(dl, Box::new(dm)))
                    },
                    CtxChain::Empty => {
                        proof {
                            assert(false);
                        }
                        (output_d.clone(), Deltas::Empty)
                    },
                }
            },
        }
    }

    /// Splits the parameter payload and dispatches each half to its
    /// stage.
    pub fn update(&mut self, deltas: &Deltas) -> (nothing: ())
        requires
            old(self).wf_all(),
            old(self).deltas_ok(*deltas),
        ensures
            old(self).updated(*final(self), *deltas),
        decreases *deltas,
    {
        match self {
            Chain::Empty => {
            },
            Chain::Node(l, m) => {
                match deltas {
                    Deltas::Node(v, rest) => {
                        proof {
                            assert(old(self)->Node_0.deltas_ok(v@));
                        }
                        l.update(v);
                        m.update(rest);
                    },
                    Deltas::Empty => {
                        proof {
                            assert(false);
                        }
                    },
                }
            },
        }
    }
}

/// Composing two stages into a chain composes their contracts: the
/// chain's forward evaluation is the second stage's applied to the
/// first stage's, and the chain's backward pass composes the stages'
/// backward passes in reverse order.
pub proof fn lemma_chain_composition(a: Stage, b: Stage, x: Seq<i64>, g: Seq<i64>)
    ensures
        ({
            let chain = Chain::Node(a, Box::new(Chain::Node(b, Box::new(Chain::Empty))));
            &&& chain.forward_spec(x) == b.forward_spec(a.forward_spec(x))
            &&& chain.input_grad_spec(x, g) == a.input_grad_spec(
                x,
                b.input_grad_spec(a.forward_spec(x), g),
            )
        }),
{
    reveal_with_fuel(Chain::forward_spec, 4);
    reveal_with_fuel(Chain::input_grad_spec, 4);
    let chain = Chain::Node(a, Box::new(Chain::Node(b, Box::new(Chain::Empty))));
    let sub = Chain::Node(b, Box::new(Chain::Empty));
    assert(chain.forward_spec(x) == sub.forward_spec(a.forward_spec(x)));
    assert(sub.forward_spec(a.forward_spec(x)) == b.forward_spec(a.forward_spec(x)));
    assert(sub.input_grad_spec(a.forward_spec(x), g) == b.input_grad_spec(
        a.forward_spec(x),
        g,
    ));
}

/// Every tensor of a parameter payload is well formed.
pub open spec fn deltas_wf(d: Deltas) -> bool
    decreases d,
{
    match d {
        Deltas::Empty => true,
        Deltas::Node(v, rest) => (forall|i: int|
            0 <= i < v@.len() ==> (#[trigger] v@[i]).wf()) && deltas_wf(*rest),
    }
}

/// Two parameter payloads have the same spine and, tensor by tensor,
/// the same extents.
pub open spec fn deltas_same_shape(a: Deltas, b: Deltas) -> bool
    decreases a,
{
    match (a, b) {
        (Deltas::Empty, Deltas::Empty) => true,
        (Deltas::Node(va, ra), Deltas::Node(vb, rb)) => {
            &&& va@.len() == vb@.len()
            &&& forall|i: int|
                0 <= i < va@.len() ==> (#[trigger] vb@[i]).dims() == va@[i].dims()
            &&& deltas_same_shape(*ra, *rb)
        },
        _ => false,
    }
}

/// A payload the chain's `update` accepts still fits after being
/// replaced by one of the same shape.
pub proof fn lemma_deltas_ok_same_shape(chain: Chain, a: Deltas, b: Deltas)
    requires
        chain.deltas_ok(a),
        deltas_same_shape(a, b),
        deltas_wf(b),
    ensures
        chain.deltas_ok(b),
    decreases chain,
{
    match chain {
        Chain::Empty => {
            assert(b is Empty);
        },
        Chain::Node(l, m) => {
            match (a, b) {
                (Deltas::Node(va, ra), Deltas::Node(vb, rb)) => {
                    lemma_deltas_ok_same_shape(*m, *ra, *rb);
                },
                _ => {
                },
            }
        },
    }
}

/// A payload the chain's `update` accepts is well formed.
pub proof fn lemma_deltas_ok_wf(chain: Chain, d: Deltas)
    requires
        chain.deltas_ok(d),
    ensures
        deltas_wf(d),
    decreases chain,
{
    match (chain, d) {
        (Chain::Node(l, m), Deltas::Node(v, rest)) => {
            lemma_deltas_ok_wf(*m, *rest);
            match l {
                Stage::Dense(_) => {
                    assert(forall|i: int| 0 <= i < v@.len() ==> (#[trigger] v@[i]).wf()) by {
                        assert(v@.len() == 2);
                    }
                },
                Stage::Activation(_) => {
                    assert(v@.len() == 0);
                },
            }
        },
        _ => {
        },
    }
}

/// Updated stages keep their layers well formed.
pub proof fn lemma_updated_wf_all(chain: Chain, new: Chain, d: Deltas)
    requires
        chain.wf_all(),
        chain.updated(new, d),
    ensures
        new.wf_all(),
    decreases chain,
{
    match (chain, d) {
        (Chain::Node(l, m), Deltas::Node(v, rest)) => {
            match new {
                Chain::Node(l2, m2) => {
                    lemma_updated_wf_all(*m, *m2, *rest);
                    assert(l2.wf()) by {
                        match (l, l2) {
                            (Stage::Dense(a), Stage::Dense(b)) => {
                            },
                            (Stage::Activation(a), Stage::Activation(b)) => {
                            },
                            _ => {
                            },
                        }
                    }
                },
                Chain::Empty => {
                },
            }
        },
        _ => {
        },
    }
}

/// An update never changes the shapes a chain accepts or produces:
/// the updated chain is still well formed for the same input extents
/// and produces the same output extents.
pub proof fn lemma_updated_preserves_shapes(chain: Chain, new: Chain, d: Deltas, dims: Seq<usize>)
    requires
        chain.updated(new, d),
        chain.wf_for(dims),
    ensures
        new.wf_for(dims),
        new.out_dims_for(dims) == chain.out_dims_for(dims),
    decreases chain,
{
    match (chain, d) {
        (Chain::Node(l, m), Deltas::Node(v, rest)) => {
            match new {
                Chain::Node(l2, m2) => {
                    assert(l.updated(l2, v@));
                    assert(l2.wf() && l2.in_dims() == l.in_dims() && l2.out_dims()
                        == l.out_dims()) by {
                        match (l, l2) {
                            (Stage::Dense(a), Stage::Dense(b)) => {
                            },
                            (Stage::Activation(a), Stage::Activation(b)) => {
                            },
                            _ => {
                            },
                        }
                    }
                    lemma_updated_preserves_shapes(*m, *m2, *rest, l.out_dims());
                },
                Chain::Empty => {
                },
            }
        },
        _ => {
        },
    }
}

/// Sameness of payload shapes is transitive.
pub proof fn lemma_deltas_same_shape_trans(a: Deltas, b: Deltas, c: Deltas)
    requires
        deltas_same_shape(a, b),
        deltas_same_shape(b, c),
    ensures
        deltas_same_shape(a, c),
    decreases a,
{
    match (a, b) {
        (Deltas::Node(va, ra), Deltas::Node(vb, rb)) => {
            match c {
                Deltas::Node(vc, rc) => {
                    lemma_deltas_same_shape_trans(*ra, *rb, *rc);
                },
                Deltas::Empty => {
                },
            }
        },
        _ => {
        },
    }
}

/// Why a model failed to build: a required configuration was never
/// set, two consecutive stages disagree on a shape (expected extents,
/// then actual extents), or a parameter tensor would hold more
/// elements than a `usize` can count.
#[derive(Debug)]
pub enum ModelError {
    MissingConfiguration,
    ShapeMismatch(Vec<usize>, Vec<usize>),
    CapacityOverflow,
}

impl ModelError {
    /// A short description of the failure.
    pub fn describe(&self) -> (r: &'static str) {
        match self {
            ModelError::MissingConfiguration => "a required configuration option was not set",
            ModelError::ShapeMismatch(_, _) => "consecutive stages disagree on a shape",
            ModelError::CapacityOverflow => "a parameter tensor would overflow the address space",
        }
    }
}

/// A builder for one stage of a sequential chain.
pub enum StageBuilder {
    Dense(crate::layers::dense::Builder),
    Activation(crate::layers::activation::Builder),
}

impl StageBuilder {
    /// Any configured shape is well formed.
    pub open spec fn wf(&self) -> bool {
        match *self {
            StageBuilder::Dense(b) => b.wf(),
            StageBuilder::Activation(b) => b.wf(),
        }
    }

    /// The stage can be built against input of the given extents.
    pub open spec fn build_ok(&self, dims: Seq<usize>) -> bool {
        match *self {
            StageBuilder::Dense(b) => b.build_ok(dims),
            StageBuilder::Activation(b) => b.build_ok(dims),
        }
    }

    /// The extents the built stage produces.
    pub open spec fn out_dims_spec(&self, dims: Seq<usize>) -> Seq<usize> {
        match *self {
            StageBuilder::Dense(b) => b.out_dims_spec(),
            StageBuilder::Activation(b) => dims,
        }
    }

    /// Resolves the builder against the input shape the chain hands
    /// in.
    pub fn build(self, input_shape: Shape) -> (r: Result<Stage, ModelError>)
        requires
            self.wf(),
            input_shape.wf(),
        ensures
            r is Ok <==> self.build_ok(input_shape.dims()),
            r matches Ok(s) ==> s.wf() && s.in_dims() == input_shape.dims() && s.out_dims()
                == self.out_dims_spec(input_shape.dims()) && stage_built_ok(
                self,
                input_shape.dims(),
                s,
            ),
    {
        match self {
            StageBuilder::Dense(b) => {
                match b.build(input_shape) {
                    Ok(l) => Ok(Stage::Dense(l)),
                    Err(e) => Err(e),
                }
            },
            StageBuilder::Activation(b) => {
                match b.build(input_shape) {
                    Ok(l) => Ok(Stage::Activation(l)),
                    Err(e) => Err(e),
                }
            },
        }
    }
}

/// The stage a builder resolves to, against given input extents: the
/// built stage carries the builder's whole resolved configuration.
pub open spec fn stage_built_ok(b: StageBuilder, dims: Seq<usize>, s: Stage) -> bool {
    match (b, s) {
        (StageBuilder::Dense(db), Stage::Dense(l)) => {
            &&& l.wf()
            &&& l.input_dims() == dims
            &&& l.output_dims() == db.out_dims_spec()
            &&& forall|p: int|
                0 <= p < l.kernel_data().len() ==> l.kernel_data()[p] == db.kernel_init_spec()
            &&& forall|o: int|
                0 <= o < l.bias_data().len() ==> l.bias_data()[o] == db.bias_init_spec()
            &&& l.kernel_data().len() == l.in_cap() * l.out_cap()
            &&& l.bias_data().len() == l.out_cap()
            &&& l.activation_spec() == db.activation_res_spec()
            &&& l.kernel_regularizer_spec() == db.kernel_reg_spec()
            &&& l.bias_regularizer_spec() == db.bias_reg_spec()
            &&& l.activity_regularizer_spec() == db.activity_reg_spec()
            &&& l.kernel_constraint_spec() == db.kernel_con_spec()
            &&& l.bias_constraint_spec() == db.bias_con_spec()
        },
        (StageBuilder::Activation(ab), Stage::Activation(l)) => {
            &&& l.wf()
            &&& l.shape_dims() == dims
            &&& l.activation_spec() == ab.activation_res_spec()
        },
        _ => false,
    }
}

/// The chain holds exactly the stages the builders resolve to, in
/// order, each built against the output extents of the one before it.
pub open spec fn chain_built_from(builders: Seq<StageBuilder>, dims: Seq<usize>, chain: Chain) -> bool
    decreases builders.len(),
{
    if builders.len() == 0 {
        chain is Empty
    } else {
        match chain {
            Chain::Node(l, m) => stage_built_ok(builders[0], dims, l) && chain_built_from(
                builders.drop_first(),
                builders[0].out_dims_spec(dims),
                *m,
            ),
            Chain::Empty => false,
        }
    }
}

/// A chain of zero stages is the identity model: it forwards its
/// input untouched and hands the output gradient straight back.
pub proof fn lemma_empty_chain_identity(x: Seq<i64>, g: Seq<i64>)
    ensures
        Chain::Empty.forward_spec(x) == x,
        Chain::Empty.input_grad_spec(x, g) == g,
{
}

/// A chain of exactly one stage behaves exactly as that stage alone,
/// forward and backward.
pub proof fn lemma_single_stage_chain(s: Stage, x: Seq<i64>, g: Seq<i64>)
    ensures
        Chain::Node(s, Box::new(Chain::Empty)).forward_spec(x) == s.forward_spec(x),
        Chain::Node(s, Box::new(Chain::Empty)).input_grad_spec(x, g) == s.input_grad_spec(x, g),
{
    reveal_with_fuel(Chain::forward_spec, 3);
    reveal_with_fuel(Chain::input_grad_spec, 3);
}

/// Every stage builder in the sequence resolves, each against the
/// output extents of the one before it.
pub open spec fn builders_ok(builders: Seq<StageBuilder>, dims: Seq<usize>) -> bool
    decreases builders.len(),
{
    if builders.len() == 0 {
        true
    } else {
        builders[0].build_ok(dims) && builders_ok(
            builders.drop_first(),
            builders[0].out_dims_spec(dims),
        )
    }
}

/// The extents the whole sequence of stages produces.
pub open spec fn builders_out_dims(builders: Seq<StageBuilder>, dims: Seq<usize>) -> Seq<usize>
    decreases builders.len(),
{
    if builders.len() == 0 {
        dims
    } else {
        builders_out_dims(builders.drop_first(), builders[0].out_dims_spec(dims))
    }
}

/// A sequential model under construction: stage builders in chain
/// order, resolved left to right when `build` is called.
pub struct Sequential {
    builders: Vec<StageBuilder>,
}

impl Sequential {
    /// The collected stage builders, in chain order.
    pub closed spec fn builders_spec(&self) -> Seq<StageBuilder> {
        self.builders@
    }

    /// Every collected builder's configured shapes are well formed.
    pub closed spec fn wf(&self) -> bool {
        forall|i: int| 0 <= i < self.builders@.len() ==> (#[trigger] self.builders@[i]).wf()
    }

    /// A chain with no stages.
    pub fn empty() -> (r: Sequential)
        ensures
            r.wf(),
            r.builders_spec() == Seq::<StageBuilder>::empty(),
    {
        Sequential { builders: Vec::new() }
    }

    /// Appends one stage to the end of the chain.
    pub fn add_layer(self, builder: StageBuilder) -> (r: Sequential)
        requires
            builder.wf(),
        ensures
            self.wf() ==> r.wf(),
            r.builders_spec() == self.builders_spec().push(builder),
    {
        let mut s = self;
        s.builders.push(builder);
        s
    }

    /// Resolves the chain against its overall input shape: shape
    /// inference flows strictly left to right, and the whole build
    /// fails on the first stage that cannot be built. An incompatible
    /// chain never becomes a model.
    pub fn build(self, input_shape: Shape) -> (r: Result<Model, ModelError>)
        requires
            self.wf(),
            input_shape.wf(),
        ensures
            r is Ok <==> builders_ok(self.builders_spec(), input_shape.dims()),
            r matches Ok(m) ==> m.model.wf_all() && m.model.wf_for(input_shape.dims())
                && m.model.out_dims_for(input_shape.dims()) == builders_out_dims(
                self.builders_spec(),
                input_shape.dims(),
            ) && chain_built_from(self.builders_spec(), input_shape.dims(), m.model),
    {
        match build_chain(self.builders, input_shape) {
            Ok(chain) => Ok(Model { model: chain }),
            Err(e) => Err(e),
        }
    }
}

/// Resolves stage builders front to back into a right-nested chain,
/// threading each stage's output shape into the next builder.
fn build_chain(builders: Vec<StageBuilder>, input_shape: Shape) -> (r: Result<Chain, ModelError>)
    requires
        forall|i: int| 0 <= i < builders@.len() ==> (#[trigger] builders@[i]).wf(),
        input_shape.wf(),
    ensures
        r is Ok <==> builders_ok(builders@, input_shape.dims()),
        r matches Ok(c) ==> c.wf_all() && c.wf_for(input_shape.dims()) && c.out_dims_for(
            input_shape.dims(),
        ) == builders_out_dims(builders@, input_shape.dims()) && chain_built_from(
            builders@,
            input_shape.dims(),
            c,
        ),
    decreases builders@.len(),
{
    let ghost all = builders@;
    let mut builders = builders;
    if builders.len() == 0 {
        return Ok(Chain::Empty);
    }
    let b = builders.remove(0);
    proof {
        assert(builders@ =~= all.drop_first());
        assert(b == all[0]);
    }
    match b.build(input_shape.clone()) {
        Err(e) => Err(e),
        Ok(stage) => {
            let out_shape = stage.get_output_shape().clone();
            match build_chain(builders, out_shape) {
                Err(e) => Err(e),
                Ok(rest) => Ok(Chain::Node(stage, Box::new(rest))),
            }
        },
    }
}

/// The model wrapper: a built sequential chain, used repeatedly for
/// forward and backward passes and updated through `update` only.
pub struct Model {
    pub model: Chain,
}

impl Model {
    /// Starts building a sequential model.
    pub fn sequential() -> (r: Sequential)
        ensures
            r.wf(),
            r.builders_spec() == Seq::<StageBuilder>::empty(),
    {
        Sequential::empty()
    }

    /// The chain's forward evaluation.
    pub fn feed_forward(&self, input: &Tensor<i64>) -> (r: Tensor<i64>)
        requires
            self.model.wf_for(input.dims()),
            input.wf(),
        ensures
            r.wf(),
            r.dims() == self.model.out_dims_for(input.dims()),
            r.data_seq() == self.model.forward_spec(input.data_seq()),
    {
        self.model.feed_forward(input)
    }

    /// The chain's forward evaluation together with its combined
    /// one-shot backward context.
    pub fn back_propagate(&self, input: &Tensor<i64>) -> (r: (Tensor<i64>, CtxChain))
        requires
            self.model.wf_for(input.dims()),
            input.wf(),
        ensures
            r.0.wf(),
            r.0.dims() == self.model.out_dims_for(input.dims()),
            r.0.data_seq() == self.model.forward_spec(input.data_seq()),
            self.model.ctx_matches(r.1),
            self.model.ctx_input_is(r.1, input.data_seq()),
            self.model.ctx_grad_dims_ok(r.1, self.model.out_dims_for(input.dims())),
        decreases 0int,
    {
        self.model.back_propagate(input)
    }

    /// Consumes a backward context with the loss gradient and returns
    /// the input gradient and the chain's parameter-gradient payload.
    pub fn backward(&self, ctx: CtxChain, output_d: &Tensor<i64>) -> (r: (Tensor<i64>, Deltas))
        requires
            self.model.ctx_matches(ctx),
            output_d.wf(),
            self.model.ctx_grad_dims_ok(ctx, output_d.dims()),
        ensures
            r.0.wf(),
            r.0.data_seq() == self.model.input_grad_spec(
                self.model.ctx_input(ctx),
                output_d.data_seq(),
            ),
            self.model.deltas_match(r.1, self.model.ctx_input(ctx), output_d.data_seq()),
            self.model.deltas_ok(r.1),
    {
        self.model.backward(ctx, output_d)
    }

    /// Applies one optimizer step to every stage's parameters.
    pub fn update(&mut self, deltas: &Deltas) -> (nothing: ())
        requires
            old(self).model.wf_all(),
            old(self).model.deltas_ok(*deltas),
        ensures
            old(self).model.updated(final(self).model, *deltas),
    {
        self.model.update(deltas)
    }
}

} // verus!
