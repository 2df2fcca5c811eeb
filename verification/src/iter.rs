//! Sequential and index-paired traversal over a tensor's elements in
//! flat storage order, which for row-major strides is lexicographic
//! multi-index order. The index-paired form recovers coordinates on
//! demand by seeding from `inverse_index` and advancing with
//! `increment_index`, so it stays correct from any starting offset.

use vstd::prelude::*;

use crate::shape::{
    dims_product, index_in_bounds, lemma_flat_index_bound, lemma_unflatten_roundtrip, unflatten,
    Shape,
};
use crate::tensor::{lemma_tensor_capacity_fits, Tensor};

verus! {

/// A lazy, restartable pass over a tensor's elements in flat storage
/// order, carrying its current flat position and the owning shape.
pub struct Iter<'s, T> {
    inner: &'s Tensor<T>,
    position: usize,
}

impl<'s, T> Iter<'s, T> {
    /// The tensor being traversed.
    pub closed spec fn inner_spec(&self) -> Tensor<T> {
        *self.inner
    }

    /// The flat offset of the next element to yield.
    pub closed spec fn position_spec(&self) -> int {
        self.position as int
    }

    /// The traversal is over a well-formed tensor and its position
    /// never runs past one element beyond the end.
    pub open spec fn wf(&self) -> bool {
        &&& self.inner_spec().wf()
        &&& 0 <= self.position_spec() <= self.inner_spec().data_seq().len()
    }

    /// Starts a pass over all elements, from flat offset zero.
    pub fn new(tensor: &'s Tensor<T>) -> (it: Iter<'s, T>)
        requires
            tensor.wf(),
        ensures
            it.wf(),
            it.inner_spec() == *tensor,
            it.position_spec() == 0,
    {
        Iter { inner: tensor, position: 0 }
    }

    /// The current flat position.
    pub fn position(&self) -> (p: usize)
        ensures
            p == self.position_spec(),
    {
        self.position
    }

    /// The shape of the tensor being traversed.
    pub fn get_shape(&self) -> (s: &Shape)
        ensures
            s.dims() == self.inner_spec().dims(),
            self.inner_spec().wf() ==> s.wf(),
    {
        self.inner.get_shape()
    }

    /// Yields the element at the current position and advances, or
    /// `None` once every element has been yielded.
    pub fn next(&mut self) -> (r: Option<&'s T>)
        requires
            old(self).wf(),
        ensures
            final(self).wf(),
            final(self).inner_spec() == old(self).inner_spec(),
            old(self).position_spec() < old(self).inner_spec().data_seq().len() ==> (
            r matches Some(v) && *v == old(self).inner_spec().data_seq()[old(
                self,
            ).position_spec()] && final(self).position_spec() == old(self).position_spec() + 1),
            old(self).position_spec() >= old(self).inner_spec().data_seq().len() ==> r is None
                && final(self).position_spec() == old(self).position_spec(),
    {
        if self.position < self.inner.len() {
            let v = self.inner.flat_get(self.position);
            self.position = self.position + 1;
            Some(v)
        } else {
            None
        }
    }

    /// Skips ahead by `n` elements, stopping at the end; what remains
    /// is a partial pass starting at the advanced offset.
    pub fn skip(self, n: usize) -> (it: Iter<'s, T>)
        requires
            self.wf(),
        ensures
            it.wf(),
            it.inner_spec() == self.inner_spec(),
            it.position_spec() == if self.position_spec() + n <= self.inner_spec().data_seq().len() {
                self.position_spec() + n
            } else {
                self.inner_spec().data_seq().len() as int
            },
    {
        let len = self.inner.len();
        let p = if n <= len - self.position {
            self.position + n
        } else {
            len
        };
        Iter { inner: self.inner, position: p }
    }

    /// Pairs each remaining element with its multi-index.
    pub fn indexed(self) -> (it: Indexed<'s, T>)
        requires
            self.wf(),
        ensures
            it.wf(),
            it.iter_spec() == self,
    {
        Indexed::new(self)
    }
}

/// The capability shared by tensor traversals: a current flat
/// position and the owning shape, which together let a consumer
/// recover coordinates on demand.
pub trait TensorIterator {
    /// The flat offset of the next element to yield.
    fn position(&self) -> usize;

    /// The shape of the tensor being traversed.
    fn get_shape(&self) -> &Shape;
}

impl<'s, T> TensorIterator for Iter<'s, T> {
    fn position(&self) -> usize {
        self.position
    }

    fn get_shape(&self) -> &Shape {
        self.inner.get_shape()
    }
}

/// An index-paired traversal: yields `(multi_index, element)` pairs,
/// keeping the multi-index equal to the digits of the element's flat
/// offset by advancing it as an odometer after each yield.
pub struct Indexed<'s, T> {
    iter: Iter<'s, T>,
    index: Vec<usize>,
}

impl<'s, T> Indexed<'s, T> {
    /// The underlying flat traversal.
    pub closed spec fn iter_spec(&self) -> Iter<'s, T> {
        self.iter
    }

    /// The multi-index kept alongside the flat position.
    pub closed spec fn index_spec(&self) -> Seq<usize> {
        self.index@
    }

    /// While elements remain, the kept multi-index is exactly the
    /// digits of the current flat position.
    pub open spec fn wf(&self) -> bool {
        &&& self.iter_spec().wf()
        &&& self.iter_spec().position_spec() < self.iter_spec().inner_spec().data_seq().len()
            ==> self.index_spec() == unflatten(
            self.iter_spec().inner_spec().dims(),
            self.iter_spec().position_spec() as nat,
        ) && index_in_bounds(self.iter_spec().inner_spec().dims(), self.index_spec())
    }

    /// Seeds the multi-index from the iterator's current position, so
    /// a pass that started anywhere still pairs elements correctly.
    pub fn new(iter: Iter<'s, T>) -> (it: Indexed<'s, T>)
        requires
            iter.wf(),
        ensures
            it.wf(),
            it.iter_spec() == iter,
    {
        proof {
            lemma_tensor_capacity_fits(iter.inner_spec());
        }
        let index: Vec<usize> = if iter.position() < iter.inner.len() {
            iter.inner.get_shape().inverse_index(iter.position())
        } else {
            Vec::new()
        };
        Indexed { iter, index }
    }

    /// Yields the next element together with the multi-index of its
    /// position, or `None` once every element has been yielded. The
    /// pair's index always addresses exactly the element it comes
    /// with.
    pub fn next(&mut self) -> (r: Option<(Vec<usize>, &'s T)>)
        requires
            old(self).wf(),
        ensures
            final(self).wf(),
            final(self).iter_spec().inner_spec() == old(self).iter_spec().inner_spec(),
            old(self).iter_spec().position_spec() < old(self).iter_spec().inner_spec().data_seq().len()
                ==> (r matches Some(p) && p.0@ == unflatten(
                old(self).iter_spec().inner_spec().dims(),
                old(self).iter_spec().position_spec() as nat,
            ) && *p.1 == old(self).iter_spec().inner_spec().data_seq()[old(
                self,
            ).iter_spec().position_spec()] && final(self).iter_spec().position_spec() == old(
                self,
            ).iter_spec().position_spec() + 1),
            old(self).iter_spec().position_spec() >= old(
                self,
            ).iter_spec().inner_spec().data_seq().len() ==> r is None,
    {
        let ghost dims = self.iter.inner_spec().dims();
        let ghost pos = self.iter.position_spec();
        let ghost cap = self.iter.inner_spec().data_seq().len() as int;
        proof {
            lemma_tensor_capacity_fits(self.iter.inner_spec());
        }
        match self.iter.next() {
            None => None,
            Some(v) => {
                let idx = clone_index(&self.index);
                proof {
                    lemma_unflatten_roundtrip(dims, pos as nat);
                    lemma_flat_index_bound(dims, self.index@);
                }
                let shape = self.iter.inner.get_shape();
                if self.iter.position() < self.iter.inner.len() {
                    let more = shape.increment_index(&mut self.index, 1);
                    proof {
                        assert(more);
                        vstd::arithmetic::div_mod::lemma_small_mod(
                            (pos + 1) as nat,
                            dims_product(dims),
                        );
                    }
                }
                Some((idx, v))
            },
        }
    }
}

/// Copies a multi-index vector.
fn clone_index(index: &Vec<usize>) -> (r: Vec<usize>)
    ensures
        r@ == index@,
{
    let n = index.len();
    let mut out: Vec<usize> = Vec::new();
    let mut i: usize = 0;
    while i < n
        invariant
            i <= n,
            n == index@.len(),
            out@.len() == i,
            forall|j: int| 0 <= j < i ==> out@[j] == index@[j],
        decreases n - i,
    {
        out.push(index[i]);
        i += 1;
    }
    proof {
        assert(out@ =~= index@);
    }
    out
}

impl<T> Tensor<T> {
    /// A lazy, restartable pass over the elements in flat storage
    /// order; with row-major strides this is lexicographic multi-index
    /// order.
    pub fn iter(&self) -> (it: Iter<'_, T>)
        requires
            self.wf(),
        ensures
            it.wf(),
            it.inner_spec() == *self,
            it.position_spec() == 0,
    {
        Iter::new(self)
    }
}

} // verus!
