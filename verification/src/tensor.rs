//! Tensors: a flat owned buffer of elements together with a `Shape`.
//! Element access goes through the shape's flat indexing; elementwise
//! arithmetic on `i64` tensors is specified exactly, with two's
//! complement wraparound as its overflow discipline.

use vstd::prelude::*;

use crate::shape::{
    dims_product, flat_index, index_in_bounds, lemma_flat_index_bound, lemma_shape_capacity_fits,
    Shape,
};

verus! {

/// Elementwise addition, wrapping on overflow.
pub open spec fn wadd(a: i64, b: i64) -> i64 {
    vstd::wrapping::i64_specs::wrapping_add(a, b)
}

/// Elementwise subtraction, wrapping on overflow.
pub open spec fn wsub(a: i64, b: i64) -> i64 {
    vstd::wrapping::i64_specs::wrapping_sub(a, b)
}

/// Elementwise multiplication, wrapping on overflow.
pub open spec fn wmul(a: i64, b: i64) -> i64 {
    vstd::wrapping::i64_specs::wrapping_mul(a, b)
}

/// Truncated integer division on the mathematical integers: the
/// quotient is rounded toward zero, as machine division does.
pub open spec fn tdiv(a: int, c: int) -> int {
    if a == 0 {
        0
    } else if a > 0 && c > 0 {
        a / c
    } else if a < 0 && c < 0 {
        (a * -1) / (c * -1)
    } else if a < 0 {
        ((a * -1) / c) * -1
    } else {
        (a / (c * -1)) * -1
    }
}

/// Pairwise wrapping sum of two element sequences.
pub open spec fn seq_wadd(a: Seq<i64>, b: Seq<i64>) -> Seq<i64> {
    Seq::new(a.len(), |i: int| wadd(a[i], b[i]))
}

/// Pairwise wrapping difference of two element sequences.
pub open spec fn seq_wsub(a: Seq<i64>, b: Seq<i64>) -> Seq<i64> {
    Seq::new(a.len(), |i: int| wsub(a[i], b[i]))
}

/// Every element multiplied by one scalar, wrapping.
pub open spec fn seq_wmul(a: Seq<i64>, c: i64) -> Seq<i64> {
    Seq::new(a.len(), |i: int| wmul(a[i], c))
}

/// Every element divided by one scalar, rounding toward zero.
pub open spec fn seq_tdiv(a: Seq<i64>, c: i64) -> Seq<i64> {
    Seq::new(a.len(), |i: int| tdiv(a[i] as int, c as int) as i64)
}

/// Wrapping pairwise accumulation of the element buffers of a
/// non-empty collection of tensors, in order.
pub open spec fn sum_data(tensors: Seq<Tensor<i64>>) -> Seq<i64>
    decreases tensors.len(),
{
    if tensors.len() <= 1 {
        tensors[0].data_seq()
    } else {
        seq_wadd(sum_data(tensors.drop_last()), tensors.last().data_seq())
    }
}

/// A truncated quotient fits in `i64` whenever the divisor is not zero
/// and the one overflowing case `i64::MIN / -1` is excluded.
pub proof fn lemma_tdiv_fits(a: int, c: int)
    requires
        i64::MIN <= a <= i64::MAX,
        c != 0,
        i64::MIN <= c <= i64::MAX,
        !(a == i64::MIN && c == -1),
    ensures
        i64::MIN <= tdiv(a, c) <= i64::MAX,
{
    if a == 0 {
    } else if a > 0 && c > 0 {
        vstd::arithmetic::div_mod::lemma_div_pos_is_pos(a, c);
        vstd::arithmetic::div_mod::lemma_div_nonincreasing(a, c);
    } else if a < 0 && c < 0 {
        vstd::arithmetic::div_mod::lemma_div_pos_is_pos(a * -1, c * -1);
        vstd::arithmetic::div_mod::lemma_div_nonincreasing(a * -1, c * -1);
        if c == -1 {
            assert(a != i64::MIN);
            assert(a * -1 <= i64::MAX);
        } else {
            vstd::arithmetic::div_mod::lemma_div_is_ordered_by_denominator(a * -1, 2, c * -1);
            assert((a * -1) / 2 <= i64::MAX) by {
                assert(a * -1 <= i64::MAX + 1);
            }
        }
    } else if a < 0 {
        vstd::arithmetic::div_mod::lemma_div_pos_is_pos(a * -1, c);
        vstd::arithmetic::div_mod::lemma_div_nonincreasing(a * -1, c);
        assert(a * -1 <= i64::MAX + 1);
    } else {
        vstd::arithmetic::div_mod::lemma_div_pos_is_pos(a, c * -1);
        vstd::arithmetic::div_mod::lemma_div_nonincreasing(a, c * -1);
    }
}

/// Wrapping multiplication agrees with exact multiplication whenever
/// the product fits in `i64`.
pub proof fn lemma_wmul_exact(a: i64, c: i64)
    requires
        i64::MIN <= (a as int) * (c as int) <= i64::MAX,
    ensures
        wmul(a, c) as int == (a as int) * (c as int),
{
    let p = (a as int) * (c as int);
    let r = 0x1_0000_0000_0000_0000int;
    if p >= 0 {
        vstd::arithmetic::div_mod::lemma_small_mod(p as nat, r as nat);
        assert(p % r == p);
    } else {
        vstd::arithmetic::div_mod::lemma_fundamental_div_mod_converse(p, r, -1, p + r);
        assert(p % r == p + r);
        assert(p + r > i64::MAX as int);
    }
}

/// Multiplying every element by a nonzero scalar and then dividing by
/// it gives the tensor's elements back exactly, provided no product
/// overflows.
pub proof fn lemma_mul_div_roundtrip(data: Seq<i64>, c: i64)
    requires
        c != 0,
        forall|i: int|
            0 <= i < data.len() ==> i64::MIN <= (#[trigger] data[i] as int) * (c as int)
                <= i64::MAX,
    ensures
        seq_tdiv(seq_wmul(data, c), c) =~= data,
{
    assert forall|i: int| 0 <= i < data.len() implies seq_tdiv(seq_wmul(data, c), c)[i]
        == data[i] by {
        let a = data[i] as int;
        let cc = c as int;
        lemma_wmul_exact(data[i], c);
        let p = a * cc;
        assert(seq_wmul(data, c)[i] as int == p);
        if p == 0 {
            assert(a == 0) by (nonlinear_arith)
                requires p == a * cc && p == 0 && cc != 0;
            assert(tdiv(p, cc) == a);
        } else if p > 0 && cc > 0 {
            assert(a > 0) by (nonlinear_arith)
                requires p == a * cc && p > 0 && cc > 0;
            assert(p == cc * a) by (nonlinear_arith)
                requires p == a * cc;
            vstd::arithmetic::div_mod::lemma_div_multiples_vanish(a, cc);
            assert(tdiv(p, cc) == a);
        } else if p > 0 && cc < 0 {
            assert(a < 0) by (nonlinear_arith)
                requires p == a * cc && p > 0 && cc < 0;
            assert(p == (cc * -1) * (a * -1)) by (nonlinear_arith)
                requires p == a * cc;
            vstd::arithmetic::div_mod::lemma_div_multiples_vanish(a * -1, cc * -1);
            assert(tdiv(p, cc) == (p / (cc * -1)) * -1);
            assert(tdiv(p, cc) == a);
        } else if p < 0 && cc > 0 {
            assert(a < 0) by (nonlinear_arith)
                requires p == a * cc && p < 0 && cc > 0;
            assert(p * -1 == cc * (a * -1)) by (nonlinear_arith)
                requires p == a * cc;
            vstd::arithmetic::div_mod::lemma_div_multiples_vanish(a * -1, cc);
            assert(tdiv(p, cc) == ((p * -1) / cc) * -1);
            assert(tdiv(p, cc) == a);
        } else {
            assert(a > 0) by (nonlinear_arith)
                requires p == a * cc && p < 0 && cc < 0;
            assert(p * -1 == (cc * -1) * a) by (nonlinear_arith)
                requires p == a * cc;
            vstd::arithmetic::div_mod::lemma_div_multiples_vanish(a, cc * -1);
            assert(tdiv(p, cc) == (p * -1) / (cc * -1));
            assert(tdiv(p, cc) == a);
        }
    }
}

/// A well-formed tensor's element count is an actual `usize`.
pub proof fn lemma_tensor_capacity_fits<T>(t: Tensor<T>)
    requires
        t.wf(),
    ensures
        t.data_seq().len() <= usize::MAX,
        dims_product(t.dims()) <= usize::MAX,
        t.data_seq().len() == dims_product(t.dims()),
{
    lemma_shape_capacity_fits(&t.shape);
}

/// An N-dimensional array: a flat buffer in row-major order plus the
/// `Shape` that addresses it.
pub struct Tensor<T> {
    data: Vec<T>,
    shape: Shape,
}

impl Clone for Tensor<i64> {
    /// The clone holds the same elements and the same shape.
    fn clone(&self) -> (r: Tensor<i64>)
        ensures
            r.data_seq() == self.data_seq(),
            r.dims() == self.dims(),
            r.wf() == self.wf(),
    {
        let r = Tensor { data: self.data.clone(), shape: self.shape.clone() };
        proof {
            assert(r.data@ =~= self.data@);
        }
        r
    }
}

impl<T> Tensor<T> {
    /// The elements in flat storage order.
    pub closed spec fn data_seq(&self) -> Seq<T> {
        self.data@
    }

    /// The extents of the axes.
    pub closed spec fn dims(&self) -> Seq<usize> {
        self.shape.dims()
    }

    /// The buffer holds exactly `capacity` elements of a well-formed
    /// shape.
    pub closed spec fn wf(&self) -> bool {
        &&& self.shape.wf()
        &&& self.data@.len() == dims_product(self.shape.dims())
    }

    /// The element at an in-bounds multi-index, at flat offset
    /// `flat_index`.
    pub open spec fn at(&self, idx: Seq<usize>) -> T {
        self.data_seq()[flat_index(self.dims(), idx) as int]
    }

    /// Pairs a buffer with a shape; the element count must equal the
    /// shape's capacity.
    pub fn from_parts(data: Vec<T>, shape: Shape) -> (r: Option<Tensor<T>>)
        requires
            shape.wf(),
        ensures
            data@.len() == dims_product(shape.dims()) ==> (r matches Some(t) && t.wf()
                && t.data_seq() == data@ && t.dims() == shape.dims()),
            data@.len() != dims_product(shape.dims()) ==> r is None,
    {
        if data.len() != shape.capacity() {
            return None;
        }
        Some(Tensor { data, shape })
    }

    /// The shape of this tensor.
    pub fn get_shape(&self) -> (s: &Shape)
        ensures
            s.dims() == self.dims(),
            self.wf() ==> s.wf(),
    {
        &self.shape
    }

    /// The number of elements in the flat buffer.
    pub fn len(&self) -> (n: usize)
        ensures
            n == self.data_seq().len(),
    {
        self.data.len()
    }

    /// Shared access to the element at a flat storage offset.
    pub fn flat_get(&self, f: usize) -> (r: &T)
        requires
            f < self.data_seq().len(),
        ensures
            *r == self.data_seq()[f as int],
    {
        &self.data[f]
    }

    /// Overwrites the element at a flat storage offset.
    pub fn flat_set(&mut self, f: usize, value: T) -> (nothing: ())
        requires
            f < old(self).data_seq().len(),
        ensures
            final(self).data_seq() == old(self).data_seq().update(f as int, value),
            final(self).dims() == old(self).dims(),
            final(self).wf() == old(self).wf(),
    {
        self.data.set(f, value);
    }

    /// Shared access to the element at an in-bounds multi-index.
    pub fn get(&self, idx: &Vec<usize>) -> (r: &T)
        requires
            self.wf(),
            index_in_bounds(self.dims(), idx@),
        ensures
            *r == self.at(idx@),
    {
        proof {
            lemma_flat_index_bound(self.dims(), idx@);
            lemma_shape_capacity_fits(&self.shape);
        }
        let f = self.shape.index(idx);
        match f {
            Some(f) => &self.data[f],
            None => {
                proof {
                    assert(false);
                }
                &self.data[0]
            },
        }
    }

    /// Exclusive access to the element at an in-bounds multi-index;
    /// writing through the result updates exactly that element.
    pub fn get_mut(&mut self, idx: &Vec<usize>) -> (r: &mut T)
        requires
            old(self).wf(),
            index_in_bounds(old(self).dims(), idx@),
        ensures
            *r == old(self).at(idx@),
            final(self).data_seq() == old(self).data_seq().update(
                flat_index(old(self).dims(), idx@) as int,
                *final(r),
            ),
            final(self).dims() == old(self).dims(),
            final(self).wf(),
    {
        proof {
            lemma_flat_index_bound(old(self).dims(), idx@);
            lemma_shape_capacity_fits(&old(self).shape);
        }
        let f = self.shape.index(idx);
        let f: usize = match f {
            Some(f) => f,
            None => {
                proof {
                    assert(false);
                }
                0
            },
        };
        &mut self.data[f]
    }

    /// Overwrites the element at an in-bounds multi-index.
    pub fn set(&mut self, idx: &Vec<usize>, value: T) -> (nothing: ())
        requires
            old(self).wf(),
            index_in_bounds(old(self).dims(), idx@),
        ensures
            final(self).wf(),
            final(self).dims() == old(self).dims(),
            final(self).data_seq() == old(self).data_seq().update(
                flat_index(old(self).dims(), idx@) as int,
                value,
            ),
    {
        let r = self.get_mut(idx);
        *r = value;
    }
}

impl Tensor<i64> {
    /// All elements are zero.
    pub open spec fn all_zero(&self) -> bool {
        forall|i: int| 0 <= i < self.data_seq().len() ==> self.data_seq()[i] == 0i64
    }

    /// A tensor of the given shape filled with zeros.
    pub fn zero(shape: Shape) -> (r: Tensor<i64>)
        requires
            shape.wf(),
        ensures
            r.wf(),
            r.dims() == shape.dims(),
            r.data_seq() =~= Seq::new(dims_product(shape.dims()) as int as nat, |i: int| 0i64),
    {
        let n = shape.capacity();
        let mut data: Vec<i64> = Vec::new();
        let mut i: usize = 0;
        while i < n
            invariant
                i <= n,
                data@.len() == i,
                forall|j: int| 0 <= j < i ==> data@[j] == 0i64,
            decreases n - i,
        {
            data.push(0);
            i += 1;
        }
        Tensor { data, shape }
    }

    /// A tensor of the given shape filled with the element type's
    /// default value, which for `i64` is zero.
    pub fn default(shape: Shape) -> (r: Tensor<i64>)
        requires
            shape.wf(),
        ensures
            r.wf(),
            r.dims() == shape.dims(),
            r.all_zero(),
    {
        Tensor::zero(shape)
    }

    /// Resets every element to zero, keeping the shape.
    pub fn clear(&mut self) -> (nothing: ())
        requires
            old(self).wf(),
        ensures
            final(self).wf(),
            final(self).dims() == old(self).dims(),
            final(self).data_seq().len() == old(self).data_seq().len(),
            final(self).all_zero(),
    {
        let n = self.data.len();
        let mut i: usize = 0;
        while i < n
            invariant
                i <= n,
                self.data@.len() == n,
                self.shape == old(self).shape,
                old(self).wf(),
                forall|j: int| 0 <= j < i ==> self.data@[j] == 0i64,
            decreases n - i,
        {
            let r = &mut self.data[i];
            *r = 0;
            i += 1;
        }
    }

    /// A rank-zero (scalar) tensor holding one value.
    pub fn from_scalar(value: i64) -> (r: Tensor<i64>)
        ensures
            r.wf(),
            r.dims() == Seq::<usize>::empty(),
            r.data_seq() =~= seq![value],
    {
        let shape = Shape::zero();
        let mut data: Vec<i64> = Vec::new();
        data.push(value);
        Tensor { data, shape }
    }

    /// A rank-one tensor holding the values of a vector; its single
    /// extent is the vector's length.
    pub fn from_vec(values: Vec<i64>) -> (r: Tensor<i64>)
        ensures
            r.wf(),
            r.dims() =~= seq![values@.len() as usize],
            r.data_seq() == values@,
    {
        let n = values.len();
        let mut dims: Vec<usize> = Vec::new();
        dims.push(n);
        proof {
            reveal_with_fuel(dims_product, 3);
            assert(dims@ =~= seq![n]);
            assert(dims@.drop_first().len() == 0);
            assert(dims@.skip(1).len() == 0);
            assert(dims@.skip(0) =~= dims@);
            assert(dims_product(dims@) == (n as nat) * 1);
            assert((n as nat) * 1 == n as nat) by (nonlinear_arith);
        }
        let shape = Shape::new(dims);
        Tensor { data: values, shape }
    }

    /// A rank-two tensor from nested rows: the outer length is the
    /// first extent, the common row width the second, elements in
    /// row-major order. Rows of unequal width are a construction
    /// error, so they are ruled out here; `from_rows_checked` makes
    /// that check at run time.
    pub fn from(rows: Vec<Vec<i64>>) -> (r: Tensor<i64>)
        requires
            rows@.len() > 0,
            forall|i: int| 0 <= i < rows@.len() ==> #[trigger] rows@[i]@.len() == rows@[0]@.len(),
            rows@.len() * rows@[0]@.len() <= usize::MAX,
        ensures
            r.wf(),
            r.dims() =~= seq![rows@.len() as usize, rows@[0]@.len() as usize],
            r.data_seq().len() == rows@.len() * rows@[0]@.len(),
            forall|i: int, j: int|
                0 <= i < rows@.len() && 0 <= j < rows@[0]@.len() ==> r.data_seq()[i * rows@[0]@.len()
                    + j] == rows@[i]@[j],
    {
        let nrows = rows.len();
        let ncols = rows[0].len();
        let ghost w = ncols as int;
        let mut data: Vec<i64> = Vec::new();
        let mut i: usize = 0;
        while i < nrows
            invariant
                i <= nrows,
                nrows == rows@.len(),
                ncols == rows@[0]@.len(),
                forall|k: int| 0 <= k < rows@.len() ==> #[trigger] rows@[k]@.len() == w,
                w == ncols as int,
                nrows * ncols <= usize::MAX,
                data@.len() == i * w,
                forall|a: int, b: int|
                    0 <= a < i && 0 <= b < w ==> data@[a * w + b] == rows@[a]@[b],
            decreases nrows - i,
        {
            proof {
                assert((i + 1) * w == i * w + w) by (nonlinear_arith);
                assert(i * w + w <= nrows * ncols) by (nonlinear_arith)
                    requires i + 1 <= nrows && w == ncols as int && w >= 0 && i >= 0;
            }
            let row = &rows[i];
            let mut j: usize = 0;
            while j < ncols
                invariant
                    j <= ncols,
                    i < nrows,
                    nrows == rows@.len(),
                    ncols == rows@[0]@.len(),
                    forall|k: int| 0 <= k < rows@.len() ==> #[trigger] rows@[k]@.len() == w,
                    w == ncols as int,
                    nrows * ncols <= usize::MAX,
                    row@ == rows@[i as int]@,
                    data@.len() == i * w + j,
                    i * w + w <= nrows * ncols,
                    forall|a: int, b: int|
                        0 <= a < i && 0 <= b < w ==> data@[a * w + b] == rows@[a]@[b],
                    forall|b: int| 0 <= b < j ==> data@[i * w + b] == rows@[i as int]@[b],
                decreases ncols - j,
            {
                data.push(row[j]);
                j += 1;
                proof {
                    assert forall|a: int, b: int|
                        0 <= a < i && 0 <= b < w implies data@[a * w + b] == rows@[a]@[b] by {
                        assert(a * w + b < i * w) by (nonlinear_arith)
                            requires a < i && b < w && 0 <= a && 0 <= b;
                    }
                }
            }
            i += 1;
        }
        let mut dims: Vec<usize> = Vec::new();
        dims.push(nrows);
        dims.push(ncols);
        proof {
            reveal_with_fuel(dims_product, 3);
            assert(dims@ =~= seq![nrows, ncols]);
            assert(dims@.skip(2).len() == 0);
            assert(dims@.skip(1) =~= seq![ncols]);
            assert(dims@.skip(0) =~= dims@);
            assert(dims@.drop_first() =~= seq![ncols]);
            assert(seq![ncols].drop_first().len() == 0);
            assert(dims_product(seq![ncols]) == (ncols as nat) * 1);
            assert(dims_product(dims@) == (nrows as nat) * ((ncols as nat) * 1));
            assert((nrows as nat) * ((ncols as nat) * 1) == (nrows as nat) * (ncols as nat))
                by (nonlinear_arith);
            assert(data@.len() == (nrows as nat) * (ncols as nat)) by (nonlinear_arith)
                requires data@.len() == (nrows as int) * (ncols as int);
        }
        let shape = Shape::new(dims);
        Tensor { data, shape }
    }

    /// Elementwise sum of two tensors of equal shape, consuming the
    /// left operand; each element wraps on overflow.
    pub fn add(self, rhs: &Tensor<i64>) -> (r: Tensor<i64>)
        requires
            self.wf(),
            rhs.wf(),
            self.dims() == rhs.dims(),
        ensures
            r.wf(),
            r.dims() == self.dims(),
            r.data_seq() == seq_wadd(self.data_seq(), rhs.data_seq()),
    {
        let mut out = self;
        out.add_assign(rhs);
        out
    }

    /// Adds another tensor of equal shape into this one elementwise.
    pub fn add_assign(&mut self, rhs: &Tensor<i64>) -> (nothing: ())
        requires
            old(self).wf(),
            rhs.wf(),
            old(self).dims() == rhs.dims(),
        ensures
            final(self).wf(),
            final(self).dims() == old(self).dims(),
            final(self).data_seq() == seq_wadd(old(self).data_seq(), rhs.data_seq()),
    {
        let n = self.data.len();
        let mut i: usize = 0;
        while i < n
            invariant
                i <= n,
                self.data@.len() == n,
                rhs.data@.len() == n,
                self.shape == old(self).shape,
                old(self).wf(),
                rhs.wf(),
                forall|j: int| 0 <= j < i ==> self.data@[j] == wadd(old(self).data@[j], rhs.data@[j]),
                forall|j: int| i <= j < n ==> self.data@[j] == old(self).data@[j],
            decreases n - i,
        {
            let v = self.data[i].wrapping_add(rhs.data[i]);
            self.data.set(i, v);
            i += 1;
        }
        proof {
            assert(self.data@ =~= seq_wadd(old(self).data@, rhs.data@));
        }
    }

    /// Elementwise difference of two tensors of equal shape, consuming
    /// the left operand; each element wraps on overflow.
    pub fn sub(self, rhs: &Tensor<i64>) -> (r: Tensor<i64>)
        requires
            self.wf(),
            rhs.wf(),
            self.dims() == rhs.dims(),
        ensures
            r.wf(),
            r.dims() == self.dims(),
            r.data_seq() == seq_wsub(self.data_seq(), rhs.data_seq()),
    {
        let mut out = self;
        out.sub_assign(rhs);
        out
    }

    /// Subtracts another tensor of equal shape from this one
    /// elementwise.
    pub fn sub_assign(&mut self, rhs: &Tensor<i64>) -> (nothing: ())
        requires
            old(self).wf(),
            rhs.wf(),
            old(self).dims() == rhs.dims(),
        ensures
            final(self).wf(),
            final(self).dims() == old(self).dims(),
            final(self).data_seq() == seq_wsub(old(self).data_seq(), rhs.data_seq()),
    {
        let n = self.data.len();
        let mut i: usize = 0;
        while i < n
            invariant
                i <= n,
                self.data@.len() == n,
                rhs.data@.len() == n,
                self.shape == old(self).shape,
                old(self).wf(),
                rhs.wf(),
                forall|j: int| 0 <= j < i ==> self.data@[j] == wsub(old(self).data@[j], rhs.data@[j]),
                forall|j: int| i <= j < n ==> self.data@[j] == old(self).data@[j],
            decreases n - i,
        {
            let v = self.data[i].wrapping_sub(rhs.data[i]);
            self.data.set(i, v);
            i += 1;
        }
        proof {
            assert(self.data@ =~= seq_wsub(old(self).data@, rhs.data@));
        }
    }

    /// The scalar broadcast to every element by multiplication,
    /// wrapping on overflow.
    pub fn mul(self, rhs: i64) -> (r: Tensor<i64>)
        requires
            self.wf(),
        ensures
            r.wf(),
            r.dims() == self.dims(),
            r.data_seq() == seq_wmul(self.data_seq(), rhs),
    {
        let mut out = self;
        out.mul_assign(rhs);
        out
    }

    /// Multiplies every element by the scalar in place.
    pub fn mul_assign(&mut self, rhs: i64) -> (nothing: ())
        requires
            old(self).wf(),
        ensures
            final(self).wf(),
            final(self).dims() == old(self).dims(),
            final(self).data_seq() == seq_wmul(old(self).data_seq(), rhs),
    {
        let n = self.data.len();
        let mut i: usize = 0;
        while i < n
            invariant
                i <= n,
                self.data@.len() == n,
                self.shape == old(self).shape,
                old(self).wf(),
                forall|j: int| 0 <= j < i ==> self.data@[j] == wmul(old(self).data@[j], rhs),
                forall|j: int| i <= j < n ==> self.data@[j] == old(self).data@[j],
            decreases n - i,
        {
            let v = self.data[i].wrapping_mul(rhs);
            self.data.set(i, v);
            i += 1;
        }
        proof {
            assert(self.data@ =~= seq_wmul(old(self).data@, rhs));
        }
    }

    /// The scalar broadcast to every element by division, rounding
    /// toward zero. Division by zero is excluded, as is the one
    /// quotient `i64::MIN / -1` that no `i64` can hold.
    pub fn div(self, rhs: i64) -> (r: Tensor<i64>)
        requires
            self.wf(),
            rhs != 0,
            rhs == -1 ==> forall|i: int|
                0 <= i < self.data_seq().len() ==> self.data_seq()[i] != i64::MIN,
        ensures
            r.wf(),
            r.dims() == self.dims(),
            r.data_seq() == seq_tdiv(self.data_seq(), rhs),
    {
        let mut out = self;
        out.div_assign(rhs);
        out
    }

    /// Divides every element by the scalar in place, rounding toward
    /// zero.
    pub fn div_assign(&mut self, rhs: i64) -> (nothing: ())
        requires
            old(self).wf(),
            rhs != 0,
            rhs == -1 ==> forall|i: int|
                0 <= i < old(self).data_seq().len() ==> old(self).data_seq()[i] != i64::MIN,
        ensures
            final(self).wf(),
            final(self).dims() == old(self).dims(),
            final(self).data_seq() == seq_tdiv(old(self).data_seq(), rhs),
    {
        let n = self.data.len();
        let mut i: usize = 0;
        while i < n
            invariant
                i <= n,
                self.data@.len() == n,
                self.shape == old(self).shape,
                old(self).wf(),
                rhs != 0,
                rhs == -1 ==> forall|j: int|
                    0 <= j < n ==> old(self).data_seq()[j] != i64::MIN,
                forall|j: int|
                    0 <= j < i ==> self.data@[j] == tdiv(
                        old(self).data@[j] as int,
                        rhs as int,
                    ) as i64,
                forall|j: int| i <= j < n ==> self.data@[j] == old(self).data@[j],
            decreases n - i,
        {
            proof {
                assert(self.data@[i as int] == old(self).data_seq()[i as int]);
                lemma_tdiv_fits(self.data@[i as int] as int, rhs as int);
            }
            let q = self.data[i].checked_div(rhs);
            let v: i64 = match q {
                Some(v) => v,
                None => {
                    proof {
                        assert(false);
                    }
                    0
                },
            };
            self.data.set(i, v);
            i += 1;
        }
        proof {
            assert(self.data@ =~= seq_tdiv(old(self).data@, rhs));
        }
    }

    /// Pairwise accumulation of a non-empty collection of tensors that
    /// all share one shape.
    pub fn sum(tensors: Vec<Tensor<i64>>) -> (r: Tensor<i64>)
        requires
            tensors@.len() > 0,
            forall|i: int| 0 <= i < tensors@.len() ==> (#[trigger] tensors@[i]).wf(),
            forall|i: int| 0 <= i < tensors@.len() ==> (#[trigger] tensors@[i]).dims()
                == tensors@[0].dims(),
        ensures
            r.wf(),
            r.dims() == tensors@[0].dims(),
            r.data_seq() == sum_data(tensors@),
    {
        let n = tensors.len();
        let mut out = tensors[0].clone();
        let mut i: usize = 1;
        proof {
            assert(tensors@.take(1).drop_last() =~= Seq::<Tensor<i64>>::empty());
            assert(tensors@.take(1) =~= seq![tensors@[0]]);
            assert(sum_data(tensors@.take(1)) == tensors@[0].data_seq());
        }
        while i < n
            invariant
                1 <= i <= n,
                n == tensors@.len(),
                forall|j: int| 0 <= j < n ==> (#[trigger] tensors@[j]).wf(),
                forall|j: int| 0 <= j < n ==> (#[trigger] tensors@[j]).dims()
                    == tensors@[0].dims(),
                out.wf(),
                out.dims() == tensors@[0].dims(),
                out.data_seq() == sum_data(tensors@.take(i as int)),
            decreases n - i,
        {
            out.add_assign(&tensors[i]);
            i += 1;
            proof {
                let t = tensors@.take(i as int);
                assert(t.drop_last() =~= tensors@.take(i - 1));
                assert(t.last() == tensors@[i - 1]);
            }
        }
        proof {
            assert(tensors@.take(n as int) =~= tensors@);
        }
        out
    }

    /// `from`, with the rectangularity and size checks made at run
    /// time: `None` when the rows disagree in width, are empty, or
    /// describe more elements than a `usize` can count.
    pub fn from_rows_checked(rows: Vec<Vec<i64>>) -> (r: Option<Tensor<i64>>)
        ensures
            r matches Some(t) ==> rows@.len() > 0 && t.wf() && t.dims() =~= seq![
                rows@.len() as usize,
                rows@[0]@.len() as usize,
            ] && forall|i: int, j: int|
                0 <= i < rows@.len() && 0 <= j < rows@[0]@.len()
                    ==> t.data_seq()[i * rows@[0]@.len() + j] == rows@[i]@[j],
            r is None ==> rows@.len() == 0 || (exists|i: int|
                0 <= i < rows@.len() && #[trigger] rows@[i]@.len() != rows@[0]@.len())
                || rows@.len() * rows@[0]@.len() > usize::MAX,
    {
        if rows.len() == 0 {
            return None;
        }
        let ncols = rows[0].len();
        let n = rows.len();
        let mut i: usize = 0;
        while i < n
            invariant
                i <= n,
                n == rows@.len(),
                ncols == rows@[0]@.len(),
                forall|k: int| 0 <= k < i ==> #[trigger] rows@[k]@.len() == ncols,
            decreases n - i,
        {
            if rows[i].len() != ncols {
                return None;
            }
            i += 1;
        }
        let total = n.checked_mul(ncols);
        if total.is_none() {
            return None;
        }
        Some(Tensor::from(rows))
    }
}

} // verus!
