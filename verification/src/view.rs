//! Views: non-owning strided and offset projections of a tensor,
//! produced by slicing. A `Single` specifier fixes one axis and drops
//! it from the view's addressing; a `Range` specifier selects a
//! strided sub-range and keeps the axis.

use vstd::prelude::*;

use crate::shape::index_in_bounds;
use crate::tensor::Tensor;

verus! {

/// One per-axis slice specifier: `Single(i)` fixes the axis at
/// coordinate `i`; `Range(start, stop, step)` maps view coordinate `k`
/// to base coordinate `start + k * step`, with `start` defaulting to 0
/// and `step` to 1, and with coordinates checked against `stop` when
/// one is given.
#[derive(Copy, Clone)]
pub enum SliceIndex {
    Single(usize),
    Range(Option<usize>, Option<usize>, Option<usize>),
}

/// The rank of a view: one axis per `Range` specifier.
pub open spec fn range_count(slices: Seq<SliceIndex>) -> nat
    decreases slices.len(),
{
    if slices.len() == 0 {
        0
    } else {
        range_count(slices.drop_last()) + match slices.last() {
            SliceIndex::Single(_) => 0nat,
            SliceIndex::Range(_, _, _) => 1nat,
        }
    }
}

/// Eager validity of one specifier against the extent it cuts: a
/// `Range`'s resolved bound must fit within the extent.
pub open spec fn slice_ok(s: SliceIndex, d: usize) -> bool {
    match s {
        SliceIndex::Single(_) => true,
        SliceIndex::Range(a, b, _) => match (a, b) {
            (Option::None, Option::Some(bv)) => bv <= d,
            (Option::Some(av), Option::None) => av < d,
            (Option::Some(av), Option::Some(bv)) => av < bv && bv <= d,
            (Option::None, Option::None) => true,
        },
    }
}

/// Eager validity of slice specifiers against the extents they cut,
/// one specifier per axis.
pub open spec fn slices_valid(slices: Seq<SliceIndex>, dims: Seq<usize>) -> bool {
    &&& slices.len() == dims.len()
    &&& forall|k: int| 0 <= k < slices.len() ==> slice_ok(#[trigger] slices[k], dims[k])
}

/// The base coordinate one specifier contributes, given the view-space
/// components of the `Range` axes.
pub open spec fn base_coord(s: SliceIndex, vidx: Seq<usize>, r: int) -> int {
    match s {
        SliceIndex::Single(t) => t as int,
        SliceIndex::Range(a, _, c) => {
            let a0 = if a is Some { a->0 as int } else { 0int };
            let c0 = if c is Some { c->0 as int } else { 1int };
            a0 + (vidx[r] as int) * c0
        },
    }
}

/// The full base multi-index a view-space multi-index resolves to:
/// `Single` axes contribute their fixed coordinate, `Range` axes their
/// mapped view component, in axis order.
pub open spec fn resolved_index(slices: Seq<SliceIndex>, vidx: Seq<usize>) -> Seq<int> {
    Seq::new(slices.len(), |k: int| base_coord(slices[k], vidx, range_count(slices.take(k)) as int))
}

/// Every `Range` axis with a `stop` keeps its resolved coordinate
/// below that stop; this is the per-access check.
pub open spec fn within_stops(slices: Seq<SliceIndex>, vidx: Seq<usize>) -> bool {
    forall|k: int|
        0 <= k < slices.len() ==> match #[trigger] slices[k] {
            SliceIndex::Single(_) => true,
            SliceIndex::Range(_, b, _) => b matches Some(bv) ==> base_coord(
                slices[k],
                vidx,
                range_count(slices.take(k)) as int,
            ) < bv,
        }
}

/// Resolves a view-space multi-index to a base multi-index, checking
/// each `Range` coordinate against its `stop` bound.
pub fn get_index(slices: &Vec<SliceIndex>, index: &Vec<usize>) -> (r: Vec<usize>)
    requires
        index@.len() == range_count(slices@),
        within_stops(slices@, index@),
        forall|k: int|
            0 <= k < slices@.len() ==> 0 <= #[trigger] resolved_index(slices@, index@)[k]
                <= usize::MAX,
    ensures
        r@.len() == slices@.len(),
        forall|k: int|
            0 <= k < slices@.len() ==> r@[k] as int == resolved_index(slices@, index@)[k],
{
    let n = slices.len();
    let m = index.len();
    let mut out: Vec<usize> = Vec::new();
    let mut k: usize = 0;
    let mut rc: usize = 0;
    while k < n
        invariant
            k <= n,
            m == index@.len(),
            n == slices@.len(),
            index@.len() == range_count(slices@),
            within_stops(slices@, index@),
            forall|j: int|
                0 <= j < n ==> 0 <= #[trigger] resolved_index(slices@, index@)[j] <= usize::MAX,
            out@.len() == k,
            rc == range_count(slices@.take(k as int)),
            rc <= index@.len(),
            forall|j: int| 0 <= j < k ==> out@[j] as int == resolved_index(slices@, index@)[j],
        decreases n - k,
    {
        proof {
            let tk = slices@.take(k + 1);
            assert(tk.drop_last() =~= slices@.take(k as int));
            assert(tk.last() == slices@[k as int]);
            assert(resolved_index(slices@, index@)[k as int] == base_coord(
                slices@[k as int],
                index@,
                rc as int,
            ));
            if slices@[k as int] is Range {
                assert(range_count(slices@) >= range_count(tk)) by {
                    lemma_range_count_monotonic(slices@, k + 1);
                }
                assert(range_count(tk) == range_count(slices@.take(k as int)) + 1);
                assert(rc + 1 <= index@.len());
            }
        }
        let v: usize = match slices[k] {
            SliceIndex::Single(t) => t,
            SliceIndex::Range(a, b, c) => {
                let a0: usize = match a {
                    Some(av) => av,
                    None => 0,
                };
                let c0: usize = match c {
                    Some(cv) => cv,
                    None => 1,
                };
                let t = index[rc] * c0 + a0;
                rc += 1;
                t
            },
        };
        out.push(v);
        k += 1;
    }
    out
}

/// A prefix of the specifiers never holds more `Range` axes than the
/// whole.
pub proof fn lemma_range_count_monotonic(slices: Seq<SliceIndex>, k: int)
    requires
        0 <= k <= slices.len(),
    ensures
        range_count(slices.take(k)) <= range_count(slices),
    decreases slices.len() - k,
{
    if k == slices.len() {
        assert(slices.take(k) =~= slices);
    } else {
        lemma_range_count_monotonic(slices, k + 1);
        let tk = slices.take(k + 1);
        assert(tk.drop_last() =~= slices.take(k));
    }
}

/// The number of view coordinates one `Range` axis spans: the
/// resolved span divided by the step, rounded up.
pub open spec fn range_extent(s: SliceIndex, d: usize) -> int {
    match s {
        SliceIndex::Single(_) => 0,
        SliceIndex::Range(a, b, c) => {
            let a0 = if a is Some { a->0 as int } else { 0int };
            let b0 = if b is Some { b->0 as int } else { d as int };
            let c0 = if c is Some { c->0 as int } else { 1int };
            let span = b0 - a0;
            if span <= 0 || c0 <= 0 {
                0
            } else {
                1 + (span - 1) / c0
            }
        },
    }
}

/// The view's own extents: one per `Range` axis, in axis order.
pub open spec fn view_dims_spec(slices: Seq<SliceIndex>, dims: Seq<usize>) -> Seq<usize>
    decreases slices.len(),
{
    if slices.len() == 0 {
        Seq::empty()
    } else {
        view_dims_spec(slices.drop_last(), dims.drop_last()) + (match slices.last() {
            SliceIndex::Single(_) => Seq::<usize>::empty(),
            SliceIndex::Range(_, _, _) => seq![
                range_extent(slices.last(), dims.last()) as usize,
            ],
        })
    }
}

/// A read-only view of a borrowed tensor through slice specifiers.
pub struct TensorView<'s, T> {
    inner: &'s Tensor<T>,
    slices: Vec<SliceIndex>,
}

impl<'s, T> TensorView<'s, T> {
    /// The borrowed tensor.
    pub closed spec fn inner_spec(&self) -> Tensor<T> {
        *self.inner
    }

    /// The slice specifiers, one per axis of the underlying tensor.
    pub closed spec fn slices_spec(&self) -> Seq<SliceIndex> {
        self.slices@
    }

    /// The view is over a well-formed tensor and its specifiers passed
    /// the eager bound checks.
    pub open spec fn wf(&self) -> bool {
        &&& self.inner_spec().wf()
        &&& slices_valid(self.slices_spec(), self.inner_spec().dims())
    }

    /// Wraps a tensor reference with eagerly validated specifiers.
    pub fn new(tensor: &'s Tensor<T>, slices: Vec<SliceIndex>) -> (v: TensorView<'s, T>)
        requires
            tensor.wf(),
            slices_valid(slices@, tensor.dims()),
        ensures
            v.wf(),
            v.inner_spec() == *tensor,
            v.slices_spec() == slices@,
    {
        TensorView { inner: tensor, slices }
    }

    /// The view's own shape: each `Range` axis contributes its
    /// resolved span, each `Single` axis is dropped from addressing.
    pub fn view_dims(&self) -> (r: Vec<usize>)
        requires
            self.wf(),
        ensures
            r@ == view_dims_spec(self.slices_spec(), self.inner_spec().dims()),
    {
        let n = self.slices.len();
        let shape = self.inner.get_shape();
        let mut out: Vec<usize> = Vec::new();
        let mut k: usize = 0;
        while k < n
            invariant
                k <= n,
                self.wf(),
                n == self.slices_spec().len(),
                n == self.inner_spec().dims().len(),
                shape.dims() == self.inner_spec().dims(),
                out@ == view_dims_spec(
                    self.slices_spec().take(k as int),
                    self.inner_spec().dims().take(k as int),
                ),
            decreases n - k,
        {
            proof {
                assert(self.slices_spec().take(k + 1).drop_last() =~= self.slices_spec().take(
                    k as int,
                ));
                assert(self.inner_spec().dims().take(k + 1).drop_last()
                    =~= self.inner_spec().dims().take(k as int));
                assert(self.slices_spec().take(k + 1).last() == self.slices_spec()[k as int]);
                assert(self.inner_spec().dims().take(k + 1).last() == self.inner_spec().dims()[
                    k as int]);
            }
            let d = shape.dim(k);
            match self.slices[k] {
                SliceIndex::Single(_) => {
                    proof {
                        assert(out@ =~= view_dims_spec(
                            self.slices_spec().take(k + 1),
                            self.inner_spec().dims().take(k + 1),
                        ));
                    }
                },
                SliceIndex::Range(a, b, c) => {
                    let a0: usize = match a {
                        Some(av) => av,
                        None => 0,
                    };
                    let b0: usize = match b {
                        Some(bv) => bv,
                        None => d,
                    };
                    let c0: usize = match c {
                        Some(cv) => cv,
                        None => 1,
                    };
                    let e: usize = if b0 <= a0 || c0 == 0 {
                        0
                    } else {
                        1 + (b0 - a0 - 1) / c0
                    };
                    out.push(e);
                    proof {
                        assert(e as int == range_extent(
                            self.slices_spec()[k as int],
                            self.inner_spec().dims()[k as int],
                        ));
                        assert(out@ =~= view_dims_spec(
                            self.slices_spec().take(k + 1),
                            self.inner_spec().dims().take(k + 1),
                        ));
                    }
                },
            }
            k += 1;
        }
        proof {
            assert(self.slices_spec().take(n as int) =~= self.slices_spec());
            assert(self.inner_spec().dims().take(n as int) =~= self.inner_spec().dims());
        }
        out
    }

    /// The element a view-space multi-index addresses: the base
    /// coordinates must resolve within the tensor's extents.
    pub fn get(&self, index: &Vec<usize>) -> (r: &T)
        requires
            self.wf(),
            index@.len() == range_count(self.slices_spec()),
            within_stops(self.slices_spec(), index@),
            forall|k: int|
                0 <= k < self.slices_spec().len() ==> 0 <= #[trigger] resolved_index(
                    self.slices_spec(),
                    index@,
                )[k] < self.inner_spec().dims()[k],
        ensures
            *r == self.inner_spec().at(
                Seq::new(
                    self.slices_spec().len(),
                    |k: int| resolved_index(self.slices_spec(), index@)[k] as usize,
                ),
            ),
    {
        let base = get_index(&self.slices, index);
        proof {
            assert(base@ =~= Seq::new(
                self.slices_spec().len(),
                |k: int| resolved_index(self.slices_spec(), index@)[k] as usize,
            ));
            assert(index_in_bounds(self.inner_spec().dims(), base@));
        }
        self.inner.get(&base)
    }
}

/// Slice specifiers held for read-write access to a tensor; the
/// tensor itself is passed to each access, so the exclusive borrow
/// lives only as long as each call.
pub struct TensorViewMut {
    slices: Vec<SliceIndex>,
}

impl TensorViewMut {
    /// The slice specifiers, one per axis of the tensor they cut.
    pub closed spec fn slices_spec(&self) -> Seq<SliceIndex> {
        self.slices@
    }

    /// Wraps eagerly validated specifiers for read-write access.
    pub fn new(tensor: &Tensor<i64>, slices: Vec<SliceIndex>) -> (v: TensorViewMut)
        requires
            tensor.wf(),
            slices_valid(slices@, tensor.dims()),
        ensures
            v.slices_spec() == slices@,
    {
        TensorViewMut { slices }
    }

    /// Reads the element a view-space multi-index addresses.
    pub fn get(&self, tensor: &Tensor<i64>, index: &Vec<usize>) -> (r: i64)
        requires
            tensor.wf(),
            index@.len() == range_count(self.slices_spec()),
            within_stops(self.slices_spec(), index@),
            self.slices_spec().len() == tensor.dims().len(),
            forall|k: int|
                0 <= k < self.slices_spec().len() ==> 0 <= #[trigger] resolved_index(
                    self.slices_spec(),
                    index@,
                )[k] < tensor.dims()[k],
        ensures
            r == tensor.at(
                Seq::new(
                    self.slices_spec().len(),
                    |k: int| resolved_index(self.slices_spec(), index@)[k] as usize,
                ),
            ),
    {
        let base = get_index(&self.slices, index);
        proof {
            assert(base@ =~= Seq::new(
                self.slices_spec().len(),
                |k: int| resolved_index(self.slices_spec(), index@)[k] as usize,
            ));
            assert(index_in_bounds(tensor.dims(), base@));
        }
        *tensor.get(&base)
    }

    /// Writes the element a view-space multi-index addresses; every
    /// other element is untouched.
    pub fn set(&self, tensor: &mut Tensor<i64>, index: &Vec<usize>, value: i64) -> (nothing: ())
        requires
            old(tensor).wf(),
            index@.len() == range_count(self.slices_spec()),
            within_stops(self.slices_spec(), index@),
            self.slices_spec().len() == old(tensor).dims().len(),
            forall|k: int|
                0 <= k < self.slices_spec().len() ==> 0 <= #[trigger] resolved_index(
                    self.slices_spec(),
                    index@,
                )[k] < old(tensor).dims()[k],
        ensures
            final(tensor).wf(),
            final(tensor).dims() == old(tensor).dims(),
            final(tensor).data_seq() == old(tensor).data_seq().update(
                crate::shape::flat_index(
                    old(tensor).dims(),
                    Seq::new(
                        self.slices_spec().len(),
                        |k: int| resolved_index(self.slices_spec(), index@)[k] as usize,
                    ),
                ) as int,
                value,
            ),
    {
        let base = get_index(&self.slices, index);
        proof {
            assert(base@ =~= Seq::new(
                self.slices_spec().len(),
                |k: int| resolved_index(self.slices_spec(), index@)[k] as usize,
            ));
            assert(index_in_bounds(old(tensor).dims(), base@));
        }
        tensor.set(&base, value);
    }
}

impl<T> Tensor<T> {
    /// Whether slice specifiers pass the eager bound checks against
    /// this tensor's extents.
    pub fn check_slice(&self, slices: &Vec<SliceIndex>) -> (ok: bool)
        requires
            self.wf(),
        ensures
            ok == slices_valid(slices@, self.dims()),
    {
        if slices.len() != self.get_shape().dimensions() {
            return false;
        }
        let n = slices.len();
        let mut k: usize = 0;
        while k < n
            invariant
                k <= n,
                self.wf(),
                n == slices@.len(),
                n == self.dims().len(),
                forall|j: int| 0 <= j < k ==> slice_ok(#[trigger] slices@[j], self.dims()[j]),
            decreases n - k,
        {
            let d = self.get_shape().dim(k);
            let ok = match slices[k] {
                SliceIndex::Single(_) => true,
                SliceIndex::Range(a, b, _) => {
                    match (a, b) {
                        (Option::None, Option::Some(bv)) => bv <= d,
                        (Option::Some(av), Option::None) => av < d,
                        (Option::Some(av), Option::Some(bv)) => av < bv && bv <= d,
                        (Option::None, Option::None) => true,
                    }
                },
            };
            if !ok {
                return false;
            }
            k += 1;
        }
        true
    }

    /// A read-only view through eagerly validated slice specifiers.
    pub fn slice(&self, slices: Vec<SliceIndex>) -> (v: TensorView<'_, T>)
        requires
            self.wf(),
            slices_valid(slices@, self.dims()),
        ensures
            v.wf(),
            v.inner_spec() == *self,
            v.slices_spec() == slices@,
    {
        TensorView::new(self, slices)
    }
}

impl Tensor<i64> {
    /// A read-write view through eagerly validated slice specifiers.
    pub fn slice_mut(&mut self, slices: Vec<SliceIndex>) -> (v: TensorViewMut)
        requires
            old(self).wf(),
            slices_valid(slices@, old(self).dims()),
        ensures
            *final(self) == *old(self),
            v.slices_spec() == slices@,
    {
        TensorViewMut { slices }
    }
}

} // verus!
