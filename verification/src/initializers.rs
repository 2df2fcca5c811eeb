//! Initializers: fill a parameter tensor of a given shape when a
//! layer is built. A plain value acts as the constant initializer;
//! an unset builder field resolves to the zero initializer.

use vstd::prelude::*;

use crate::shape::Shape;
use crate::tensor::Tensor;

verus! {

/// Fills a fresh parameter tensor of a given shape. The `i64` impl
/// fills every element with itself.
pub trait Initializer: Sized {
    /// The value placed at flat offset `i`.
    spec fn value_spec(&self, i: int) -> i64;

    /// A tensor of the given shape whose elements are the
    /// initializer's values.
    fn initialize(&mut self, shape: Shape) -> (r: Tensor<i64>)
        requires
            shape.wf(),
        ensures
            r.wf(),
            r.dims() == shape.dims(),
            r.data_seq() == Seq::new(
                r.data_seq().len(),
                |i: int| old(self).value_spec(i),
            ),
    ;
}

impl Initializer for i64 {
    open spec fn value_spec(&self, i: int) -> i64 {
        *self
    }

    fn initialize(&mut self, shape: Shape) -> (r: Tensor<i64>) {
        let ghost sdims = shape.dims();
        let v: i64 = *self;
        let mut out = Tensor::zero(shape);
        let n = out.len();
        let mut i: usize = 0;
        while i < n
            invariant
                i <= n,
                n == out.data_seq().len(),
                out.wf(),
                out.dims() == sdims,
                forall|j: int| 0 <= j < i ==> out.data_seq()[j] == v,
            decreases n - i,
        {
            out.flat_set(i, v);
            i += 1;
        }
        proof {
            assert(out.data_seq() =~= Seq::new(out.data_seq().len(), |i: int| v));
        }
        out
    }
}

} // verus!
