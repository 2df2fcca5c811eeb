//! Optimizers: turn the parameter gradients of one backward pass into
//! the deltas the model's `update` applies. `None` is not an error:
//! it signals that the optimizer is not yet ready to apply anything,
//! as during mini-batch accumulation.

use vstd::prelude::*;

use crate::model::{deltas_same_shape, deltas_wf, Deltas};
use crate::schedules::LearningRateSchedule;
use crate::tensor::{seq_wadd, seq_wmul, Tensor};

verus! {

/// `b` is `a` with every tensor of each nesting level scaled
/// elementwise by the rate the schedule yields for that level: the
/// head level uses the schedule's current rate, deeper levels see the
/// schedule advanced once per level, as a fresh rate is drawn for
/// each.
pub open spec fn deltas_scaled_by_schedule<S: LearningRateSchedule>(
    a: Deltas,
    b: Deltas,
    s: S,
) -> bool
    decreases a,
{
    match (a, b) {
        (Deltas::Empty, Deltas::Empty) => true,
        (Deltas::Node(va, ra), Deltas::Node(vb, rb)) => {
            &&& va@.len() == vb@.len()
            &&& forall|i: int|
                0 <= i < va@.len() ==> (#[trigger] vb@[i]).data_seq() == seq_wmul(
                    va@[i].data_seq(),
                    s.rate_spec(),
                ) && vb@[i].dims() == va@[i].dims()
            &&& deltas_scaled_by_schedule(*ra, *rb, s.advanced_spec())
        },
        _ => false,
    }
}

/// The schedule's state after drawing one rate per nesting level of a
/// payload.
pub open spec fn schedule_after<S: LearningRateSchedule>(a: Deltas, s: S) -> S
    decreases a,
{
    match a {
        Deltas::Empty => s,
        Deltas::Node(_, ra) => schedule_after(*ra, s.advanced_spec()),
    }
}

/// Scales one nesting level's tensors elementwise by one rate.
fn scale_level(v: Vec<Tensor<i64>>, rate: i64) -> (r: Vec<Tensor<i64>>)
    requires
        forall|i: int| 0 <= i < v@.len() ==> (#[trigger] v@[i]).wf(),
    ensures
        r@.len() == v@.len(),
        forall|i: int|
            0 <= i < v@.len() ==> (#[trigger] r@[i]).data_seq() == seq_wmul(
                v@[i].data_seq(),
                rate,
            ) && r@[i].dims() == v@[i].dims() && r@[i].wf(),
{
    let ghost v0 = v@;
    let mut v = v;
    let mut out: Vec<Tensor<i64>> = Vec::new();
    let n = v.len();
    let mut i: usize = 0;
    while i < n
        invariant
            i <= n,
            n == v0.len(),
            v@ =~= v0.skip(i as int),
            forall|j: int| 0 <= j < v0.len() ==> (#[trigger] v0[j]).wf(),
            out@.len() == i,
            forall|j: int|
                0 <= j < i ==> (#[trigger] out@[j]).data_seq() == seq_wmul(
                    v0[j].data_seq(),
                    rate,
                ) && out@[j].dims() == v0[j].dims() && out@[j].wf(),
        decreases n - i,
    {
        let t = v.remove(0);
        proof {
            assert(t == v0[i as int]);
            assert(v@ =~= v0.skip(i + 1));
        }
        out.push(t.mul(rate));
        i += 1;
    }
    out
}

/// Scales a payload level by level, drawing a fresh rate from the
/// schedule for each nesting level.
pub fn scale_by_schedule<S: LearningRateSchedule>(d: Deltas, schedule: &mut S) -> (r: Deltas)
    requires
        deltas_wf(d),
    ensures
        deltas_scaled_by_schedule(d, r, *old(schedule)),
        *final(schedule) == schedule_after(d, *old(schedule)),
        deltas_same_shape(d, r),
        deltas_wf(r),
    decreases d,
{
    match d {
        Deltas::Empty => Deltas::Empty,
        Deltas::Node(v, rest) => {
            let rate = schedule.next();
            let out = scale_level(v, rate);
            let rest_scaled = scale_by_schedule(*rest, schedule);
            Deltas::Node(out, Box::new(rest_scaled))
        },
    }
}

/// `r` is `d` with `s` folded in: the same spine and extents as
/// `d`, every element the wrapping sum of the corresponding elements.
pub open spec fn deltas_acc(r: Deltas, d: Deltas, s: Deltas) -> bool
    decreases d,
{
    match (d, s, r) {
        (Deltas::Empty, Deltas::Empty, Deltas::Empty) => true,
        (Deltas::Node(vd, rd), Deltas::Node(vs, rs), Deltas::Node(vr, rr)) => {
            &&& vd@.len() == vr@.len()
            &&& forall|i: int|
                0 <= i < vd@.len() ==> (#[trigger] vr@[i]).data_seq() == seq_wadd(
                    vd@[i].data_seq(),
                    vs@[i].data_seq(),
                ) && vr@[i].dims() == vd@[i].dims()
            &&& deltas_acc(*rr, *rd, *rs)
        },
        _ => false,
    }
}

/// Two payloads can be summed: the same spine and, tensor by tensor,
/// the same element counts.
pub open spec fn deltas_compatible(d: Deltas, s: Deltas) -> bool
    decreases d,
{
    match (d, s) {
        (Deltas::Empty, Deltas::Empty) => true,
        (Deltas::Node(vd, rd), Deltas::Node(vs, rs)) => {
            &&& vd@.len() == vs@.len()
            &&& forall|i: int|
                0 <= i < vd@.len() ==> (#[trigger] vs@[i]).data_seq().len()
                    == vd@[i].data_seq().len()
            &&& deltas_compatible(*rd, *rs)
        },
        _ => false,
    }
}

/// Whether two payloads can be summed.
pub fn deltas_compat_check(a: &Deltas, b: &Deltas) -> (r: bool)
    ensures
        r == deltas_compatible(*a, *b),
    decreases *a,
{
    match (a, b) {
        (Deltas::Empty, Deltas::Empty) => true,
        (Deltas::Node(va, ra), Deltas::Node(vb, rb)) => {
            proof {
                assert(*a == Deltas::Node(*va, Box::new(**ra)));
                assert(*b == Deltas::Node(*vb, Box::new(**rb)));
            }
            if va.len() != vb.len() {
                proof {
                    assert(!deltas_compatible(*a, *b));
                }
                return false;
            }
            let n = va.len();
            let mut i: usize = 0;
            while i < n
                invariant
                    i <= n,
                    n == va@.len(),
                    n == vb@.len(),
                    *a == Deltas::Node(*va, Box::new(**ra)),
                    *b == Deltas::Node(*vb, Box::new(**rb)),
                    forall|j: int|
                        0 <= j < i ==> (#[trigger] vb@[j]).data_seq().len()
                            == va@[j].data_seq().len(),
                decreases n - i,
            {
                if va[i].len() != vb[i].len() {
                    proof {
                        assert(vb@[i as int].data_seq().len() != va@[i as int].data_seq().len());
                        assert(!deltas_compatible(*a, *b));
                    }
                    return false;
                }
                i += 1;
            }
            deltas_compat_check(ra, rb)
        },
        _ => false,
    }
}

/// Folds one tensor of equal element count into a well-formed one.
fn tensor_acc(t: Tensor<i64>, s: &Tensor<i64>) -> (r: Tensor<i64>)
    requires
        t.wf(),
        s.data_seq().len() == t.data_seq().len(),
    ensures
        r.wf(),
        r.dims() == t.dims(),
        r.data_seq() == seq_wadd(t.data_seq(), s.data_seq()),
{
    let ghost tdata = t.data_seq();
    let ghost tdims = t.dims();
    let mut out = t;
    let n = out.len();
    let mut i: usize = 0;
    while i < n
        invariant
            i <= n,
            n == out.data_seq().len(),
            n == s.data_seq().len(),
            out.wf(),
            out.dims() == tdims,
            forall|j: int|
                0 <= j < i ==> out.data_seq()[j] == crate::tensor::wadd(
                    tdata[j],
                    s.data_seq()[j],
                ),
            forall|j: int| i <= j < n ==> out.data_seq()[j] == tdata[j],
        decreases n - i,
    {
        let v = out.flat_get(i).wrapping_add(*s.flat_get(i));
        out.flat_set(i, v);
        i += 1;
    }
    proof {
        assert(out.data_seq() =~= seq_wadd(tdata, s.data_seq()));
    }
    out
}

/// Folds a payload of equal element counts into a well-formed one.
pub fn acc_deltas(d: Deltas, s: &Deltas) -> (r: Deltas)
    requires
        deltas_wf(d),
        deltas_compatible(d, *s),
    ensures
        deltas_acc(r, d, *s),
        deltas_same_shape(d, r),
        deltas_wf(r),
    decreases d,
{
    match d {
        Deltas::Empty => Deltas::Empty,
        Deltas::Node(vd, rd) => {
            match s {
                Deltas::Node(vs, rs) => {
                    let ghost vd0 = vd@;
                    let mut vd = vd;
                    let mut out: Vec<Tensor<i64>> = Vec::new();
                    let n = vd.len();
                    let mut i: usize = 0;
                    while i < n
                        invariant
                            i <= n,
                            n == vd0.len(),
                            n == vs@.len(),
                            vd@ =~= vd0.skip(i as int),
                            forall|j: int| 0 <= j < vd0.len() ==> (#[trigger] vd0[j]).wf(),
                            forall|j: int|
                                0 <= j < vd0.len() ==> (#[trigger] vs@[j]).data_seq().len()
                                    == vd0[j].data_seq().len(),
                            out@.len() == i,
                            forall|j: int|
                                0 <= j < i ==> (#[trigger] out@[j]).data_seq() == seq_wadd(
                                    vd0[j].data_seq(),
                                    vs@[j].data_seq(),
                                ) && out@[j].dims() == vd0[j].dims() && out@[j].wf(),
                        decreases n - i,
                    {
                        let t = vd.remove(0);
                        proof {
                            assert(t == vd0[i as int]);
                            assert(vd@ =~= vd0.skip(i + 1));
                        }
                        out.push(tensor_acc(t, &vs[i]));
                        i += 1;
                    }
                    let rest = acc_deltas(*rd, rs);
                    Deltas::Node(out, Box::new(rest))
                },
                Deltas::Empty => {
                    proof {
                        assert(false);
                    }
                    Deltas::Empty
                },
            }
        },
    }
}

/// Turns the gradients of one backward pass into deltas for the
/// model's `update`, or `None` to signal "accumulate more".
pub trait Optimizer: Sized {
    /// What the returned value is, given the optimizer's state.
    spec fn transform_ok(&self, gradients: Deltas, r: Option<Deltas>) -> bool;

    /// What the optimizer's state becomes.
    spec fn next_ok(&self, gradients: Deltas, new: Self) -> bool;

    /// One optimizer step over the gradients of one backward pass.
    fn gradients_to_deltas(&mut self, gradients: Deltas) -> (r: Option<Deltas>)
        requires
            deltas_wf(gradients),
        ensures
            old(self).transform_ok(gradients, r),
            old(self).next_ok(gradients, *final(self)),
            r matches Some(d) ==> deltas_same_shape(gradients, d) && deltas_wf(d),
    ;
}

/// Stochastic gradient descent: every gradient is scaled by the
/// learning rate the schedule yields, and deltas are handed back at
/// every step.
pub struct SGD<S: LearningRateSchedule> {
    learning_rate: S,
}

impl<S: LearningRateSchedule> SGD<S> {
    /// The schedule the learning rate is drawn from.
    pub closed spec fn schedule_spec(&self) -> S {
        self.learning_rate
    }

    /// Descent at the rates the schedule yields.
    pub fn new(learning_rate: S) -> (r: SGD<S>)
        ensures
            r.schedule_spec() == learning_rate,
    {
        SGD { learning_rate }
    }
}

impl<S: LearningRateSchedule> Optimizer for SGD<S> {
    /// The result is every gradient scaled level by level, each
    /// nesting level of the payload drawing a fresh rate from the
    /// schedule, so deeper stages see later schedule steps.
    open spec fn transform_ok(&self, gradients: Deltas, r: Option<Deltas>) -> bool {
        r matches Some(d) && deltas_scaled_by_schedule(gradients, d, self.schedule_spec())
    }

    /// The schedule advances once per nesting level of the payload.
    open spec fn next_ok(&self, gradients: Deltas, new: Self) -> bool {
        new.schedule_spec() == schedule_after(gradients, self.schedule_spec())
    }

    fn gradients_to_deltas(&mut self, gradients: Deltas) -> (r: Option<Deltas>) {
        Some(scale_by_schedule(gradients, &mut self.learning_rate))
    }
}

/// Mini-batch accumulation around an inner optimizer: the inner
/// deltas are summed until the batch is full, then handed back at
/// once. A payload whose shape disagrees with what was accumulated
/// restarts the accumulation.
pub struct MiniBatch<O: Optimizer> {
    size: usize,
    inner: O,
    position: usize,
    state: Option<Deltas>,
}

impl<O: Optimizer> MiniBatch<O> {
    /// The inner optimizer.
    pub closed spec fn inner_spec(&self) -> O {
        self.inner
    }

    /// The number of steps accumulated into one applied update.
    pub closed spec fn size_spec(&self) -> nat {
        self.size as nat
    }

    /// How many steps of the current batch have been taken.
    pub closed spec fn position_spec(&self) -> nat {
        self.position as nat
    }

    /// The accumulated deltas of the current batch, if any.
    pub closed spec fn state_spec(&self) -> Option<Deltas> {
        self.state
    }

    /// The batch size is positive and the position stays inside the
    /// batch.
    pub closed spec fn wf(&self) -> bool {
        &&& self.size > 0
        &&& self.position < self.size
    }

    /// Accumulates `size` steps of `inner` into one update.
    pub fn new(size: usize, inner: O) -> (r: MiniBatch<O>)
        requires
            size > 0,
        ensures
            r.wf(),
            r.inner_spec() == inner,
            r.size_spec() == size,
            r.position_spec() == 0,
            r.state_spec() is None,
    {
        MiniBatch { size, inner, position: 0, state: None }
    }
}

impl<O: Optimizer> Optimizer for MiniBatch<O> {
    /// The inner optimizer's deltas are folded into the accumulated
    /// state; the sum is handed back exactly when this step completes
    /// a batch.
    open spec fn transform_ok(&self, gradients: Deltas, r: Option<Deltas>) -> bool {
        self.wf() && self.size_spec() > 0 ==> exists|di: Option<Deltas>|
            {
                &&& #[trigger] self.inner_spec().transform_ok(gradients, di)
                &&& match di {
                    Option::None => r is None,
                    Option::Some(d) => {
                        if (self.position_spec() + 1) % self.size_spec() == 0 {
                            match self.state_spec() {
                                Option::None => r == Option::Some(d),
                                Option::Some(s) => if deltas_compatible(d, s) {
                                    r matches Some(rd) && deltas_acc(rd, d, s)
                                } else {
                                    r == Option::Some(d)
                                },
                            }
                        } else {
                            r is None
                        }
                    },
                }
            }
    }

    /// The inner optimizer steps; the batch position advances, wraps
    /// at the batch size, and the accumulated state is either
    /// extended or handed out.
    open spec fn next_ok(&self, gradients: Deltas, new: Self) -> bool {
        self.wf() && self.size_spec() > 0 ==> {
            &&& new.size_spec() == self.size_spec()
            &&& new.wf()
            &&& exists|di: Option<Deltas>|
                {
                    &&& #[trigger] self.inner_spec().transform_ok(gradients, di)
                    &&& self.inner_spec().next_ok(gradients, new.inner_spec())
                    &&& match di {
                        Option::None => new.position_spec() == self.position_spec()
                            && new.state_spec() == self.state_spec(),
                        Option::Some(d) => {
                            &&& new.position_spec() == (self.position_spec() + 1)
                                % self.size_spec()
                            &&& if (self.position_spec() + 1) % self.size_spec() == 0 {
                                new.state_spec() is None
                            } else {
                                match self.state_spec() {
                                    Option::None => new.state_spec() == Option::Some(d),
                                    Option::Some(s) => if deltas_compatible(d, s) {
                                        new.state_spec() matches Some(ns) && deltas_acc(
                                            ns,
                                            d,
                                            s,
                                        )
                                    } else {
                                        new.state_spec() == Option::Some(d)
                                    },
                                }
                            }
                        },
                    }
                }
        }
    }

    fn gradients_to_deltas(&mut self, gradients: Deltas) -> (r: Option<Deltas>) {
        let ghost pre = *old(self);
        let di = self.inner.gradients_to_deltas(gradients);
        let ghost gdi = di;
        let deltas = match di {
            Some(d) => d,
            None => {
                proof {
                    assert(pre.inner_spec().transform_ok(gradients, gdi));
                }
                return None;
            },
        };
        let ghost d0 = deltas;
        let prev = self.state.take();
        let ghost prev0 = prev;
        let st = match prev {
            None => deltas,
            Some(s) => {
                if deltas_compat_check(&deltas, &s) {
                    acc_deltas(deltas, &s)
                } else {
                    deltas
                }
            },
        };
        proof {
            if deltas_same_shape(d0, st) {
                crate::model::lemma_deltas_same_shape_trans(gradients, d0, st);
            }
            assert(deltas_same_shape(gradients, st));
        }
        let new_position: usize = if self.size > 0 && self.position >= self.size - 1 {
            0
        } else if self.position < usize::MAX {
            self.position + 1
        } else {
            self.position
        };
        proof {
            if pre.wf() {
                if pre.position_spec() + 1 < pre.size_spec() {
                    vstd::arithmetic::div_mod::lemma_small_mod(
                        pre.position_spec() + 1,
                        pre.size_spec(),
                    );
                } else {
                    vstd::arithmetic::div_mod::lemma_mod_self_0(pre.size_spec() as int);
                }
            }
        }
        self.position = new_position;
        if new_position == 0 {
            self.state = None;
            proof {
                assert(pre.inner_spec().transform_ok(gradients, gdi));
                if pre.wf() {
                    assert((pre.position_spec() + 1) % pre.size_spec() == 0);
                    assert(pre.transform_ok(gradients, Option::Some(st)));
                }
            }
            Some(st)
        } else {
            self.state = Some(st);
            proof {
                assert(pre.inner_spec().transform_ok(gradients, gdi));
                if pre.wf() {
                    assert((pre.position_spec() + 1) % pre.size_spec() != 0);
                    assert(pre.transform_ok(gradients, Option::None));
                }
            }
            None
        }
    }
}

} // verus!
