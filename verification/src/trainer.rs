//! The training loop: pulls samples from a dataset, runs the model's
//! forward and backward passes, computes the loss gradient, hands the
//! parameter gradients to the optimizer, and applies whatever deltas
//! the optimizer is ready to release. A training step never changes
//! which shapes the model accepts or produces.

use vstd::prelude::*;

use crate::losses::Loss;
use crate::model::{
    lemma_deltas_ok_same_shape, lemma_deltas_ok_wf, lemma_updated_preserves_shapes,
    lemma_updated_wf_all, Chain, Deltas, Model,
};
use crate::optimizers::Optimizer;
use crate::tensor::Tensor;

verus! {

/// One training step: from a model chain and an optimizer state, a
/// forward-and-backward pass over one sample produces the chain's
/// parameter gradients for the loss gradient of the prediction
/// against the label; the optimizer transforms them, and the chain is
/// updated with whatever deltas the optimizer released, or left as it
/// was when it released none.
pub open spec fn train_step<L: Loss, O: Optimizer>(
    chain0: Chain,
    opt0: O,
    input: Tensor<i64>,
    label: Tensor<i64>,
    loss: L,
    chain1: Chain,
    opt1: O,
) -> bool {
    let x = input.data_seq();
    let predicted = chain0.forward_spec(x);
    let gdata = Seq::new(
        predicted.len(),
        |i: int| loss.derive_spec(predicted, label.data_seq(), i),
    );
    exists|gr: Deltas, rel: Option<Deltas>|
        {
            &&& chain0.deltas_match(gr, x, gdata)
            &&& chain0.deltas_ok(gr)
            &&& #[trigger] opt0.transform_ok(gr, rel)
            &&& opt0.next_ok(gr, opt1)
            &&& match rel {
                Option::None => chain1 == chain0,
                Option::Some(d) => chain0.updated(chain1, d),
            }
        }
}

/// One pass over the dataset: the samples are trained on in order,
/// each step starting from the states the previous step produced.
pub open spec fn trained_pass<L: Loss, O: Optimizer>(
    chain0: Chain,
    opt0: O,
    samples: Seq<(Tensor<i64>, Tensor<i64>)>,
    loss: L,
    chain1: Chain,
    opt1: O,
) -> bool
    decreases samples.len(),
{
    if samples.len() == 0 {
        chain1 == chain0 && opt1 == opt0
    } else {
        exists|cm: Chain, om: O|
            {
                &&& #[trigger] train_step(chain0, opt0, samples[0].0, samples[0].1, loss, cm, om)
                &&& trained_pass(cm, om, samples.drop_first(), loss, chain1, opt1)
            }
    }
}

/// A whole training run: `epochs` passes over the dataset, each pass
/// starting from the states the previous pass produced.
pub open spec fn trained_epochs<L: Loss, O: Optimizer>(
    chain0: Chain,
    opt0: O,
    samples: Seq<(Tensor<i64>, Tensor<i64>)>,
    loss: L,
    epochs: int,
    chain1: Chain,
    opt1: O,
) -> bool
    decreases epochs,
{
    if epochs <= 0 {
        chain1 == chain0 && opt1 == opt0
    } else {
        exists|cm: Chain, om: O|
            {
                &&& #[trigger] trained_pass(chain0, opt0, samples, loss, cm, om)
                &&& trained_epochs(cm, om, samples, loss, epochs - 1, chain1, opt1)
            }
    }
}

/// Extending a partial pass by one more step extends the trained
/// prefix.
pub proof fn lemma_trained_pass_snoc<L: Loss, O: Optimizer>(
    c0: Chain,
    o0: O,
    samples: Seq<(Tensor<i64>, Tensor<i64>)>,
    k: int,
    loss: L,
    cm: Chain,
    om: O,
    c1: Chain,
    o1: O,
)
    requires
        0 <= k < samples.len(),
        trained_pass(c0, o0, samples.take(k), loss, cm, om),
        train_step(cm, om, samples[k].0, samples[k].1, loss, c1, o1),
    ensures
        trained_pass(c0, o0, samples.take(k + 1), loss, c1, o1),
    decreases k,
{
    if k == 0 {
        assert(samples.take(0).len() == 0);
        assert(cm == c0 && om == o0);
        assert(samples.take(1)[0] == samples[0]);
        assert(samples.take(1).drop_first() =~= Seq::<(Tensor<i64>, Tensor<i64>)>::empty());
        assert(train_step(c0, o0, samples.take(1)[0].0, samples.take(1)[0].1, loss, c1, o1));
        assert(trained_pass(c1, o1, samples.take(1).drop_first(), loss, c1, o1));
    } else {
        assert(samples.take(k).len() == k);
        let (cm1, om1) = choose|cm1: Chain, om1: O|
            {
                &&& #[trigger] train_step(
                    c0,
                    o0,
                    samples.take(k)[0].0,
                    samples.take(k)[0].1,
                    loss,
                    cm1,
                    om1,
                )
                &&& trained_pass(cm1, om1, samples.take(k).drop_first(), loss, cm, om)
            };
        assert(samples.take(k).drop_first() =~= samples.drop_first().take(k - 1));
        assert(samples[k] == samples.drop_first()[k - 1]);
        lemma_trained_pass_snoc(cm1, om1, samples.drop_first(), k - 1, loss, cm, om, c1, o1);
        assert(samples.take(k + 1)[0] == samples[0]);
        assert(samples.take(k)[0] == samples[0]);
        assert(samples.take(k + 1).drop_first() =~= samples.drop_first().take(k));
        assert(train_step(c0, o0, samples.take(k + 1)[0].0, samples.take(k + 1)[0].1, loss, cm1, om1));
        assert(trained_pass(cm1, om1, samples.take(k + 1).drop_first(), loss, c1, o1));
    }
}

/// Extending a run by one more completed pass extends the trained
/// epoch count.
pub proof fn lemma_trained_epochs_snoc<L: Loss, O: Optimizer>(
    c0: Chain,
    o0: O,
    samples: Seq<(Tensor<i64>, Tensor<i64>)>,
    loss: L,
    e: int,
    cm: Chain,
    om: O,
    c1: Chain,
    o1: O,
)
    requires
        e >= 0,
        trained_epochs(c0, o0, samples, loss, e, cm, om),
        trained_pass(cm, om, samples, loss, c1, o1),
    ensures
        trained_epochs(c0, o0, samples, loss, e + 1, c1, o1),
    decreases e,
{
    if e == 0 {
        assert(cm == c0 && om == o0);
        assert(trained_pass(c0, o0, samples, loss, c1, o1));
        assert(trained_epochs(c1, o1, samples, loss, 0, c1, o1));
    } else {
        let (cm1, om1) = choose|cm1: Chain, om1: O|
            {
                &&& #[trigger] trained_pass(c0, o0, samples, loss, cm1, om1)
                &&& trained_epochs(cm1, om1, samples, loss, e - 1, cm, om)
            };
        lemma_trained_epochs_snoc(cm1, om1, samples, loss, e - 1, cm, om, c1, o1);
    }
}

/// Drives training of one model with one optimizer; the trainer owns
/// both while training runs and hands them back afterwards.
pub struct Trainer<O: Optimizer> {
    model: Model,
    optimizer: O,
}

impl<O: Optimizer> Trainer<O> {
    /// The model being trained.
    pub closed spec fn model_spec(&self) -> Model {
        self.model
    }

    /// The optimizer driving the updates.
    pub closed spec fn optimizer_spec(&self) -> O {
        self.optimizer
    }

    /// A trainer over a model and an optimizer.
    pub fn new(model: Model, optimizer: O) -> (r: Trainer<O>)
        ensures
            r.model_spec() == model,
            r.optimizer_spec() == optimizer,
    {
        Trainer { model, optimizer }
    }

    /// Hands the model and the optimizer back.
    pub fn into_parts(self) -> (r: (Model, O))
        ensures
            r.0 == self.model_spec(),
            r.1 == self.optimizer_spec(),
    {
        let Trainer { model, optimizer } = self;
        (model, optimizer)
    }

    /// Runs `epochs` passes over the dataset: for each sample, a
    /// forward-and-backward pass, the loss gradient against the
    /// expected tensor, one optimizer step, and — whenever the
    /// optimizer releases deltas — one parameter update. A failure in
    /// any stage is ruled out up front; there is no retry. Training
    /// never changes which shapes the model accepts or produces.
    pub fn train<L: Loss>(
        &mut self,
        epochs: usize,
        dataset: &Vec<(Tensor<i64>, Tensor<i64>)>,
        loss: &L,
    ) -> (nothing: ())
        requires
            old(self).model_spec().model.wf_all(),
            forall|k: int|
                0 <= k < dataset@.len() ==> (#[trigger] dataset@[k]).0.wf()
                    && dataset@[k].1.wf() && old(self).model_spec().model.wf_for(
                    dataset@[k].0.dims(),
                ) && dataset@[k].1.dims() == old(self).model_spec().model.out_dims_for(
                    dataset@[k].0.dims(),
                ),
        ensures
            final(self).model_spec().model.wf_all(),
            forall|k: int|
                0 <= k < dataset@.len() ==> final(self).model_spec().model.wf_for(
                    (#[trigger] dataset@[k]).0.dims(),
                ) && final(self).model_spec().model.out_dims_for(dataset@[k].0.dims())
                    == old(self).model_spec().model.out_dims_for(dataset@[k].0.dims()),
            trained_epochs(
                old(self).model_spec().model,
                old(self).optimizer_spec(),
                dataset@,
                *loss,
                epochs as int,
                final(self).model_spec().model,
                final(self).optimizer_spec(),
            ),
    {
        let ghost orig = old(self).model.model;
        let ghost orig_opt = old(self).optimizer;
        let n = dataset.len();
        let mut e: usize = 0;
        while e < epochs
            invariant
                e <= epochs,
                n == dataset@.len(),
                trained_epochs(orig, orig_opt, dataset@, *loss, e as int, self.model.model, self.optimizer),
                self.model.model.wf_all(),
                forall|k: int|
                    0 <= k < dataset@.len() ==> (#[trigger] dataset@[k]).0.wf()
                        && dataset@[k].1.wf() && self.model.model.wf_for(dataset@[k].0.dims())
                        && dataset@[k].1.dims() == self.model.model.out_dims_for(
                        dataset@[k].0.dims(),
                    ),
                forall|k: int|
                    0 <= k < dataset@.len() ==> self.model.model.out_dims_for(
                        (#[trigger] dataset@[k]).0.dims(),
                    ) == orig.out_dims_for(dataset@[k].0.dims()),
            decreases epochs - e,
        {
            let ghost ce = self.model.model;
            let ghost oe = self.optimizer;
            let mut i: usize = 0;
            while i < n
                invariant
                    i <= n,
                    n == dataset@.len(),
                    trained_epochs(orig, orig_opt, dataset@, *loss, e as int, ce, oe),
                    trained_pass(ce, oe, dataset@.take(i as int), *loss, self.model.model, self.optimizer),
                    e < epochs,
                    self.model.model.wf_all(),
                    forall|k: int|
                        0 <= k < dataset@.len() ==> (#[trigger] dataset@[k]).0.wf()
                            && dataset@[k].1.wf() && self.model.model.wf_for(
                            dataset@[k].0.dims(),
                        ) && dataset@[k].1.dims() == self.model.model.out_dims_for(
                            dataset@[k].0.dims(),
                        ),
                    forall|k: int|
                        0 <= k < dataset@.len() ==> self.model.model.out_dims_for(
                            (#[trigger] dataset@[k]).0.dims(),
                        ) == orig.out_dims_for(dataset@[k].0.dims()),
                decreases n - i,
            {
                let ghost cstep = self.model.model;
                let ghost ostep = self.optimizer;
                let sample = &dataset[i];
                let ghost x = sample.0.data_seq();
                let (predicted, computation) = self.model.back_propagate(&sample.0);
                let derivatives = loss.derive(&predicted, &sample.1);
                proof {
                    // the loss gradient is exactly the step's spec
                    assert(derivatives.data_seq() =~= Seq::new(
                        cstep.forward_spec(x).len(),
                        |j: int| loss.derive_spec(cstep.forward_spec(x), sample.1.data_seq(), j),
                    ));
                }
                let (_input_grad, gradients) = self.model.backward(computation, &derivatives);
                proof {
                    lemma_deltas_ok_wf(self.model.model, gradients);
                    // the payload matches the chain's gradients for the
                    // sample's input, whether or not the chain is empty
                    match cstep {
                        Chain::Empty => {
                            assert(cstep.deltas_match(gradients, x, derivatives.data_seq()));
                        },
                        Chain::Node(l, m) => {
                            assert(cstep.deltas_match(gradients, x, derivatives.data_seq()));
                        },
                    }
                }
                let ghost g0 = gradients;
                let ghost chain0 = self.model.model;
                let deltas = self.optimizer.gradients_to_deltas(gradients);
                let ghost rel = deltas;
                match deltas {
                    Some(d) => {
                        proof {
                            lemma_deltas_ok_same_shape(chain0, g0, d);
                        }
                        let ghost before = self.model.model;
                        self.model.update(&d);
                        proof {
                            lemma_updated_wf_all(before, self.model.model, d);
                            assert forall|k: int| 0 <= k < dataset@.len() implies
                                self.model.model.wf_for((#[trigger] dataset@[k]).0.dims())
                                && self.model.model.out_dims_for(dataset@[k].0.dims())
                                    == before.out_dims_for(dataset@[k].0.dims()) by {
                                lemma_updated_preserves_shapes(
                                    before,
                                    self.model.model,
                                    d,
                                    dataset@[k].0.dims(),
                                );
                            }
                        }
                    },
                    None => {
                    },
                }
                proof {
                    assert(train_step(
                        cstep,
                        ostep,
                        sample.0,
                        sample.1,
                        *loss,
                        self.model.model,
                        self.optimizer,
                    )) by {
                        assert(ostep.transform_ok(g0, rel));
                        assert(ostep.next_ok(g0, self.optimizer));
                    }
                    assert(dataset@[i as int] == *sample);
                    lemma_trained_pass_snoc(
                        ce,
                        oe,
                        dataset@,
                        i as int,
                        *loss,
                        cstep,
                        ostep,
                        self.model.model,
                        self.optimizer,
                    );
                }
                i += 1;
            }
            proof {
                assert(dataset@.take(n as int) =~= dataset@);
                lemma_trained_epochs_snoc(
                    orig,
                    orig_opt,
                    dataset@,
                    *loss,
                    e as int,
                    ce,
                    oe,
                    self.model.model,
                    self.optimizer,
                );
            }
            e += 1;
        }
    }
}

} // verus!
