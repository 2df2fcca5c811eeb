//! Regularization of parameter tensors: a penalty on the parameter
//! values and its derivative, added to the gradients during the
//! backward pass. A layer field holds one resolved choice; leaving a
//! builder field unset resolves to no regularization.

use vstd::prelude::*;

use crate::shape::dims_product;
use crate::tensor::{wadd, wmul, wsub, Tensor};

verus! {

/// The sign of a value: -1, 0 or 1.
pub open spec fn signum_spec(x: i64) -> i64 {
    if x > 0 {
        1i64
    } else if x < 0 {
        -1i64
    } else {
        0i64
    }
}

/// The magnitude of a value; the one value without a positive
/// magnitude, `i64::MIN`, wraps to itself.
pub open spec fn wabs_spec(x: i64) -> i64 {
    if x == i64::MIN {
        i64::MIN
    } else if x < 0 {
        (-x) as i64
    } else {
        x
    }
}

/// Wrapping sum of a sequence, accumulated left to right from zero.
pub open spec fn wsum(s: Seq<i64>) -> i64
    decreases s.len(),
{
    if s.len() == 0 {
        0i64
    } else {
        wadd(wsum(s.drop_last()), s.last())
    }
}

/// A resolved regularization choice: none, L1 (penalty proportional
/// to the magnitudes) or L2 (penalty proportional to the squares),
/// each with its strength factor.
pub enum Regularization {
    Off,
    L1(i64),
    L2(i64),
}

impl Regularization {
    /// The derivative of the penalty at one parameter value.
    pub open spec fn derive_spec(&self, x: i64) -> i64 {
        match *self {
            Regularization::Off => 0i64,
            Regularization::L1(alpha) => wmul(signum_spec(x), alpha),
            Regularization::L2(alpha) => wmul(wmul(2i64, x), alpha),
        }
    }

    /// The penalty of one parameter value, before the final sum is
    /// scaled by the strength factor.
    pub open spec fn penalty_spec(&self, x: i64) -> i64 {
        match *self {
            Regularization::Off => 0i64,
            Regularization::L1(_) => wabs_spec(x),
            Regularization::L2(_) => wmul(x, x),
        }
    }

    /// The total penalty of a parameter sequence: the summed
    /// per-element penalties scaled by the strength factor.
    pub open spec fn regularization_spec(&self, data: Seq<i64>) -> i64 {
        match *self {
            Regularization::Off => 0i64,
            Regularization::L1(alpha) => wmul(
                wsum(Seq::new(data.len(), |i: int| wabs_spec(data[i]))),
                alpha,
            ),
            Regularization::L2(alpha) => wmul(
                wsum(Seq::new(data.len(), |i: int| wmul(data[i], data[i]))),
                alpha,
            ),
        }
    }

    /// The derivative of the penalty at one value.
    pub fn derive_at(&self, x: i64) -> (r: i64)
        ensures
            r == self.derive_spec(x),
    {
        match *self {
            Regularization::Off => 0,
            Regularization::L1(alpha) => signum(x).wrapping_mul(alpha),
            Regularization::L2(alpha) => 2i64.wrapping_mul(x).wrapping_mul(alpha),
        }
    }

    /// The elementwise derivative of the penalty over a whole tensor.
    pub fn derive(&self, tensor: &Tensor<i64>) -> (r: Tensor<i64>)
        requires
            tensor.wf(),
        ensures
            r.wf(),
            r.dims() == tensor.dims(),
            r.data_seq() == Seq::new(
                tensor.data_seq().len(),
                |i: int| self.derive_spec(tensor.data_seq()[i]),
            ),
    {
        let n = tensor.len();
        let mut out = Tensor::zero(tensor.get_shape().clone());
        let ghost dlen = tensor.data_seq().len();
        proof {
            crate::tensor::lemma_tensor_capacity_fits(*tensor);
            assert(out.data_seq().len() == dlen);
        }
        let mut i: usize = 0;
        while i < n
            invariant
                i <= n,
                n == dlen,
                dlen == tensor.data_seq().len(),
                tensor.wf(),
                out.wf(),
                out.dims() == tensor.dims(),
                out.data_seq().len() == dlen,
                forall|j: int|
                    0 <= j < i ==> out.data_seq()[j] == self.derive_spec(tensor.data_seq()[j]),
            decreases n - i,
        {
            let v = self.derive_at(*tensor.flat_get(i));
            out.flat_set(i, v);
            i += 1;
        }
        proof {
            assert(out.data_seq() =~= Seq::new(
                tensor.data_seq().len(),
                |i: int| self.derive_spec(tensor.data_seq()[i]),
            ));
        }
        out
    }

    /// The total penalty of a tensor's parameters.
    pub fn regularization(&self, tensor: &Tensor<i64>) -> (r: i64)
        requires
            tensor.wf(),
        ensures
            r == self.regularization_spec(tensor.data_seq()),
    {
        let n = tensor.len();
        let alpha: i64 = match *self {
            Regularization::Off => {
                return 0;
            },
            Regularization::L1(alpha) => alpha,
            Regularization::L2(alpha) => alpha,
        };
        let mut acc: i64 = 0;
        let ghost penalties = Seq::new(
            tensor.data_seq().len(),
            |i: int| self.penalty_spec(tensor.data_seq()[i]),
        );
        let mut i: usize = 0;
        while i < n
            invariant
                i <= n,
                n == tensor.data_seq().len(),
                tensor.wf(),
                self is L1 || self is L2,
                penalties == Seq::new(
                    tensor.data_seq().len(),
                    |i: int| self.penalty_spec(tensor.data_seq()[i]),
                ),
                acc == wsum(penalties.take(i as int)),
            decreases n - i,
        {
            let x = *tensor.flat_get(i);
            let p: i64 = match *self {
                Regularization::Off => 0,
                Regularization::L1(_) => wrapping_abs(x),
                Regularization::L2(_) => x.wrapping_mul(x),
            };
            acc = acc.wrapping_add(p);
            i += 1;
            proof {
                assert(penalties.take(i as int).drop_last() =~= penalties.take(i - 1));
                assert(penalties.take(i as int).last() == penalties[i - 1]);
            }
        }
        proof {
            assert(penalties.take(n as int) =~= penalties);
            if self is L1 {
                assert(penalties =~= Seq::new(
                    tensor.data_seq().len(),
                    |i: int| wabs_spec(tensor.data_seq()[i]),
                ));
            } else {
                assert(penalties =~= Seq::new(
                    tensor.data_seq().len(),
                    |i: int| wmul(tensor.data_seq()[i], tensor.data_seq()[i]),
                ));
            }
        }
        acc.wrapping_mul(alpha)
    }
}

/// The sign of a value: -1, 0 or 1.
pub fn signum(x: i64) -> (r: i64)
    ensures
        r == signum_spec(x),
{
    if x > 0 {
        1
    } else if x < 0 {
        -1
    } else {
        0
    }
}

/// The magnitude of a value, wrapping on `i64::MIN`.
pub fn wrapping_abs(x: i64) -> (r: i64)
    ensures
        r == wabs_spec(x),
{
    if x == i64::MIN {
        i64::MIN
    } else if x < 0 {
        -x
    } else {
        x
    }
}

} // verus!
