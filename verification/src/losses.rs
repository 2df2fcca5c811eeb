//! Loss functions: a scalar measure of the distance between a
//! prediction and an expected value, and its derivative with respect
//! to the prediction, which seeds the backward pass.

use vstd::prelude::*;

use crate::regularizers::wsum;
use crate::tensor::{wmul, wsub, Tensor};

verus! {

/// A loss over same-shaped prediction and expectation tensors; both
/// operations are pinned to their specification functions.
pub trait Loss: Sized {
    /// What `loss` returns.
    spec fn loss_spec(&self, predicted: Seq<i64>, expected: Seq<i64>) -> i64;

    /// What the gradient's element at flat offset `i` is.
    spec fn derive_spec(&self, predicted: Seq<i64>, expected: Seq<i64>, i: int) -> i64;

    /// The scalar loss of a prediction against an expectation.
    fn loss(&self, predicted: &Tensor<i64>, expected: &Tensor<i64>) -> (r: i64)
        requires
            predicted.wf(),
            expected.wf(),
            predicted.dims() == expected.dims(),
        ensures
            r == self.loss_spec(predicted.data_seq(), expected.data_seq()),
    ;

    /// The gradient of the loss with respect to the prediction.
    fn derive(&self, predicted: &Tensor<i64>, expected: &Tensor<i64>) -> (r: Tensor<i64>)
        requires
            predicted.wf(),
            expected.wf(),
            predicted.dims() == expected.dims(),
        ensures
            r.wf(),
            r.dims() == predicted.dims(),
            r.data_seq() == Seq::new(
                predicted.data_seq().len(),
                |i: int| self.derive_spec(predicted.data_seq(), expected.data_seq(), i),
            ),
    ;
}

/// The squared-error loss: the sum of the squared elementwise
/// differences, with gradient twice the difference.
pub struct Square {}

impl Square {
    /// The squared-error loss.
    pub fn new() -> (r: Square) {
        Square {  }
    }
}

impl Loss for Square {
    open spec fn loss_spec(&self, predicted: Seq<i64>, expected: Seq<i64>) -> i64 {
        wsum(
            Seq::new(
                predicted.len(),
                |i: int| wmul(wsub(predicted[i], expected[i]), wsub(predicted[i], expected[i])),
            ),
        )
    }

    open spec fn derive_spec(&self, predicted: Seq<i64>, expected: Seq<i64>, i: int) -> i64 {
        wmul(2i64, wsub(predicted[i], expected[i]))
    }

    fn loss(&self, predicted: &Tensor<i64>, expected: &Tensor<i64>) -> (r: i64) {
        let n = predicted.len();
        let ghost squares = Seq::new(
            predicted.data_seq().len(),
            |i: int| wmul(
                wsub(predicted.data_seq()[i], expected.data_seq()[i]),
                wsub(predicted.data_seq()[i], expected.data_seq()[i]),
            ),
        );
        proof {
            crate::tensor::lemma_tensor_capacity_fits(*predicted);
            crate::tensor::lemma_tensor_capacity_fits(*expected);
        }
        let mut acc: i64 = 0;
        let mut i: usize = 0;
        while i < n
            invariant
                i <= n,
                n == predicted.data_seq().len(),
                n == expected.data_seq().len(),
                predicted.wf(),
                expected.wf(),
                squares == Seq::new(
                    predicted.data_seq().len(),
                    |i: int| wmul(
                        wsub(predicted.data_seq()[i], expected.data_seq()[i]),
                        wsub(predicted.data_seq()[i], expected.data_seq()[i]),
                    ),
                ),
                acc == wsum(squares.take(i as int)),
            decreases n - i,
        {
            let d = predicted.flat_get(i).wrapping_sub(*expected.flat_get(i));
            acc = acc.wrapping_add(d.wrapping_mul(d));
            i += 1;
            proof {
                assert(squares.take(i as int).drop_last() =~= squares.take(i - 1));
                assert(squares.take(i as int).last() == squares[i - 1]);
            }
        }
        proof {
            assert(squares.take(n as int) =~= squares);
        }
        acc
    }

    fn derive(&self, predicted: &Tensor<i64>, expected: &Tensor<i64>) -> (r: Tensor<i64>) {
        let n = predicted.len();
        proof {
            crate::tensor::lemma_tensor_capacity_fits(*predicted);
            crate::tensor::lemma_tensor_capacity_fits(*expected);
        }
        let mut out = Tensor::zero(predicted.get_shape().clone());
        let mut i: usize = 0;
        while i < n
            invariant
                i <= n,
                n == predicted.data_seq().len(),
                n == expected.data_seq().len(),
                predicted.wf(),
                expected.wf(),
                out.wf(),
                out.dims() == predicted.dims(),
                out.data_seq().len() == n,
                forall|j: int|
                    0 <= j < i ==> out.data_seq()[j] == wmul(
                        2i64,
                        wsub(predicted.data_seq()[j], expected.data_seq()[j]),
                    ),
            decreases n - i,
        {
            let d = predicted.flat_get(i).wrapping_sub(*expected.flat_get(i));
            out.flat_set(i, 2i64.wrapping_mul(d));
            i += 1;
        }
        proof {
            assert(out.data_seq() =~= Seq::new(
                predicted.data_seq().len(),
                |i: int| self.derive_spec(predicted.data_seq(), expected.data_seq(), i),
            ));
        }
        out
    }
}

} // verus!
