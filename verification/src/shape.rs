//! Shapes of N-dimensional tensors: dimension extents, capacity and
//! row-major strides, with conversions between flat indices and
//! multi-indices.

use vstd::prelude::*;

verus! {

/// Product of a sequence of extents.
pub open spec fn dims_product(dims: Seq<usize>) -> nat
    decreases dims.len(),
{
    if dims.len() == 0 {
        1
    } else {
        (dims[0] as nat) * dims_product(dims.drop_first())
    }
}

/// A multi-index is in bounds when it has one component per axis and
/// each component is below that axis's extent.
pub open spec fn index_in_bounds(dims: Seq<usize>, idx: Seq<usize>) -> bool {
    &&& idx.len() == dims.len()
    &&& forall|k: int| 0 <= k < dims.len() ==> idx[k] < dims[k]
}

/// Row-major flat offset of a multi-index: Horner evaluation from the
/// most significant (first) axis, so the last axis has stride 1.
pub open spec fn flat_index(dims: Seq<usize>, idx: Seq<usize>) -> nat
    decreases dims.len(),
{
    if dims.len() == 0 {
        0
    } else {
        flat_index(dims.drop_last(), idx.drop_last()) * (dims.last() as nat) + (idx.last() as nat)
    }
}

/// Mixed-radix digits of a flat offset: the exact inverse of
/// `flat_index` on offsets below the capacity.
pub open spec fn unflatten(dims: Seq<usize>, f: nat) -> Seq<usize>
    decreases dims.len(),
{
    if dims.len() == 0 {
        Seq::empty()
    } else {
        unflatten(dims.drop_last(), f / (dims.last() as nat)).push((f % (dims.last() as nat)) as usize)
    }
}

/// Unfolding `dims_product` at the last axis.
pub proof fn lemma_product_drop_last(dims: Seq<usize>)
    requires
        dims.len() > 0,
    ensures
        dims_product(dims) == dims_product(dims.drop_last()) * (dims.last() as nat),
    decreases dims.len(),
{
    reveal_with_fuel(dims_product, 2);
    if dims.len() == 1 {
        assert(dims.drop_first().len() == 0);
        assert(dims.drop_last().len() == 0);
        assert(dims_product(dims) == (dims[0] as nat) * 1);
        assert(dims.last() == dims[0]);
        assert(dims_product(dims.drop_last()) * (dims.last() as nat) == 1 * (dims[0] as nat));
        assert((dims[0] as nat) * 1 == 1 * (dims[0] as nat)) by (nonlinear_arith);
    } else {
        lemma_product_drop_last(dims.drop_first());
        assert(dims.drop_first().drop_last() =~= dims.drop_last().drop_first());
        assert(dims.drop_first().last() == dims.last());
        assert(dims.drop_last()[0] == dims[0]);
        assert(dims.drop_last().len() > 0);
        let a = dims[0] as nat;
        let b = dims_product(dims.drop_last().drop_first());
        let c = dims.last() as nat;
        assert(dims_product(dims) == a * dims_product(dims.drop_first()));
        assert(dims_product(dims.drop_first()) == b * c);
        assert(dims_product(dims.drop_last()) == a * b);
        assert(a * (b * c) == (a * b) * c) by (nonlinear_arith);
        assert(dims_product(dims) == (a * b) * c);
    }
}

/// A flat offset of an in-bounds multi-index is below the capacity.
pub proof fn lemma_flat_index_bound(dims: Seq<usize>, idx: Seq<usize>)
    requires
        index_in_bounds(dims, idx),
    ensures
        flat_index(dims, idx) < dims_product(dims),
    decreases dims.len(),
{
    if dims.len() == 0 {
    } else {
        assert(index_in_bounds(dims.drop_last(), idx.drop_last()));
        lemma_flat_index_bound(dims.drop_last(), idx.drop_last());
        lemma_product_drop_last(dims);
        let fp = flat_index(dims.drop_last(), idx.drop_last());
        let pp = dims_product(dims.drop_last());
        let dl = dims.last() as nat;
        assert(fp <= pp - 1);
        assert(fp * dl <= (pp - 1) * dl) by (nonlinear_arith)
            requires fp <= pp - 1 && dl >= 0;
        assert((pp - 1) * dl == pp * dl - dl) by (nonlinear_arith);
        assert(idx.last() < dl);
    }
}

/// Every extent divides into a positive capacity.
pub proof fn lemma_positive_product_extents(dims: Seq<usize>)
    requires
        dims_product(dims) > 0,
    ensures
        forall|k: int| 0 <= k < dims.len() ==> dims[k] > 0,
    decreases dims.len(),
{
    if dims.len() > 0 {
        assert(dims_product(dims) == (dims[0] as nat) * dims_product(dims.drop_first()));
        assert((dims[0] as nat) * dims_product(dims.drop_first()) > 0 ==> dims[0] > 0
            && dims_product(dims.drop_first()) > 0) by (nonlinear_arith);
        lemma_positive_product_extents(dims.drop_first());
        assert forall|k: int| 0 <= k < dims.len() implies dims[k] > 0 by {
            if k > 0 {
                assert(dims[k] == dims.drop_first()[k - 1]);
            }
        }
    }
}

/// `unflatten` of an offset below the capacity is in bounds and
/// `flat_index` carries it back to the same offset.
pub proof fn lemma_unflatten_roundtrip(dims: Seq<usize>, f: nat)
    requires
        f < dims_product(dims),
    ensures
        index_in_bounds(dims, unflatten(dims, f)),
        flat_index(dims, unflatten(dims, f)) == f,
    decreases dims.len(),
{
    if dims.len() == 0 {
        assert(unflatten(dims, f) =~= Seq::<usize>::empty());
    } else {
        let dl = dims.last() as nat;
        lemma_product_drop_last(dims);
        lemma_positive_product_extents(dims);
        assert(dl > 0);
        let q = f / dl;
        let r = f % dl;
        vstd::arithmetic::div_mod::lemma_fundamental_div_mod(f as int, dl as int);
        assert(q < dims_product(dims.drop_last())) by {
            if q >= dims_product(dims.drop_last()) {
                assert(q * dl >= dims_product(dims.drop_last()) * dl) by (nonlinear_arith)
                    requires q >= dims_product(dims.drop_last()) && dl > 0;
                assert(f >= q * dl);
            }
        }
        lemma_unflatten_roundtrip(dims.drop_last(), q);
        let u = unflatten(dims, f);
        assert(u == unflatten(dims.drop_last(), q).push(r as usize));
        assert(u.drop_last() =~= unflatten(dims.drop_last(), q));
        assert(u.last() == r as usize);
        assert(index_in_bounds(dims, u)) by {
            assert forall|k: int| 0 <= k < dims.len() implies u[k] < dims[k] by {
                if k < dims.len() - 1 {
                    assert(u[k] == unflatten(dims.drop_last(), q)[k]);
                    assert(dims[k] == dims.drop_last()[k]);
                }
            }
        }
        assert(flat_index(dims, u) == q * dl + r);
    }
}

/// `flat_index` determines the multi-index: flattening then taking the
/// digits gives the original in-bounds multi-index back.
pub proof fn lemma_flat_index_roundtrip(dims: Seq<usize>, idx: Seq<usize>)
    requires
        index_in_bounds(dims, idx),
    ensures
        unflatten(dims, flat_index(dims, idx)) == idx,
    decreases dims.len(),
{
    if dims.len() == 0 {
        assert(unflatten(dims, flat_index(dims, idx)) =~= idx);
    } else {
        let dl = dims.last() as nat;
        let fp = flat_index(dims.drop_last(), idx.drop_last());
        let f = fp * dl + (idx.last() as nat);
        assert(index_in_bounds(dims.drop_last(), idx.drop_last()));
        lemma_flat_index_roundtrip(dims.drop_last(), idx.drop_last());
        assert(idx.last() < dl);
        vstd::arithmetic::div_mod::lemma_fundamental_div_mod_converse(
            f as int, dl as int, fp as int, idx.last() as int);
        assert(f / dl == fp && f % dl == idx.last() as nat);
        assert(unflatten(dims, f) == unflatten(dims.drop_last(), fp).push(idx.last()));
        assert(unflatten(dims, f) =~= idx);
    }
}

/// Partial strided sum over the first `k` axes: the flat offset
/// contribution of those components, each weighted by its stride.
pub open spec fn strided_prefix(dims: Seq<usize>, idx: Seq<usize>, k: int) -> nat
    decreases k,
{
    if k <= 0 {
        0
    } else {
        strided_prefix(dims, idx, k - 1) + (idx[k - 1] as nat) * dims_product(dims.skip(k))
    }
}

/// A product of positive extents is positive.
pub proof fn lemma_product_positive(dims: Seq<usize>)
    requires
        forall|k: int| 0 <= k < dims.len() ==> dims[k] > 0,
    ensures
        dims_product(dims) > 0,
    decreases dims.len(),
{
    if dims.len() > 0 {
        lemma_product_positive(dims.drop_first());
        let a = dims[0] as nat;
        let b = dims_product(dims.drop_first());
        assert(a > 0 && b > 0 ==> a * b > 0) by (nonlinear_arith);
    }
}

/// Unfolding `flat_index` at the first axis: the first component is
/// weighted by the product of the remaining extents.
pub proof fn lemma_flat_index_front(dims: Seq<usize>, idx: Seq<usize>)
    requires
        dims.len() > 0,
        idx.len() == dims.len(),
    ensures
        flat_index(dims, idx) == (idx[0] as nat) * dims_product(dims.drop_first()) + flat_index(
            dims.drop_first(),
            idx.drop_first(),
        ),
    decreases dims.len(),
{
    reveal_with_fuel(dims_product, 2);
    reveal_with_fuel(flat_index, 2);
    if dims.len() == 1 {
        assert(dims.drop_last().len() == 0);
        assert(dims.drop_first().len() == 0);
        assert(flat_index(dims.drop_last(), idx.drop_last()) == 0);
        assert(flat_index(dims, idx) == 0 * (dims.last() as nat) + (idx.last() as nat));
        assert(idx.last() == idx[0]);
        assert(flat_index(dims, idx) == idx[0] as nat);
        assert((idx[0] as nat) * 1 == idx[0] as nat) by (nonlinear_arith);
    } else {
        let dp = dims.drop_last();
        let ip = idx.drop_last();
        lemma_flat_index_front(dp, ip);
        assert(dp.drop_first() =~= dims.drop_first().drop_last());
        assert(ip.drop_first() =~= idx.drop_first().drop_last());
        assert(dp[0] == dims[0] && ip[0] == idx[0]);
        assert(dims.drop_first().last() == dims.last());
        assert(idx.drop_first().last() == idx.last());
        let a = idx[0] as nat;
        let p = dims_product(dp.drop_first());
        let f = flat_index(dp.drop_first(), ip.drop_first());
        let dl = dims.last() as nat;
        let il = idx.last() as nat;
        assert(flat_index(dims, idx) == flat_index(dp, ip) * dl + il);
        assert(flat_index(dp, ip) == a * p + f);
        lemma_product_drop_last(dims.drop_first());
        assert(dims_product(dims.drop_first()) == p * dl);
        assert(flat_index(dims.drop_first(), idx.drop_first()) == f * dl + il);
        assert((a * p + f) * dl == a * (p * dl) + f * dl) by (nonlinear_arith);
    }
}

/// Splitting `flat_index` at axis `i`: the full offset is the offset of
/// the leading components, scaled by the capacity of the trailing axes,
/// plus the offset of the trailing components.
pub proof fn lemma_flat_index_split(dims: Seq<usize>, idx: Seq<usize>, i: int)
    requires
        idx.len() == dims.len(),
        0 <= i <= dims.len(),
    ensures
        flat_index(dims, idx) == flat_index(dims.take(i), idx.take(i)) * dims_product(dims.skip(i))
            + flat_index(dims.skip(i), idx.skip(i)),
    decreases i,
{
    if i == 0 {
        assert(dims.take(0).len() == 0);
        assert(dims.skip(0) =~= dims);
        assert(idx.skip(0) =~= idx);
        assert(flat_index(dims.take(0), idx.take(0)) == 0);
        assert(flat_index(dims, idx) == flat_index(dims.take(i), idx.take(i)) * dims_product(
            dims.skip(i),
        ) + flat_index(dims.skip(i), idx.skip(i)));
    } else {
        lemma_flat_index_split(dims, idx, i - 1);
        let ds = dims.skip(i - 1);
        let is = idx.skip(i - 1);
        assert(ds.len() > 0);
        lemma_flat_index_front(ds, is);
        assert(ds.drop_first() =~= dims.skip(i));
        assert(is.drop_first() =~= idx.skip(i));
        assert(ds[0] == dims[i - 1] && is[0] == idx[i - 1]);
        assert(dims.take(i).drop_last() =~= dims.take(i - 1));
        assert(idx.take(i).drop_last() =~= idx.take(i - 1));
        assert(dims.take(i).last() == dims[i - 1]);
        assert(idx.take(i).last() == idx[i - 1]);
        let fp = flat_index(dims.take(i - 1), idx.take(i - 1));
        let d = dims[i - 1] as nat;
        let x = idx[i - 1] as nat;
        let ps = dims_product(dims.skip(i));
        lemma_skip_product_step(dims, i - 1);
        assert(dims_product(dims.skip(i - 1)) == d * ps);
        assert(flat_index(dims.take(i), idx.take(i)) == fp * d + x);
        let rest = flat_index(dims.skip(i), idx.skip(i));
        assert(flat_index(dims.skip(i - 1), idx.skip(i - 1)) == x * ps + rest);
        assert(flat_index(dims, idx) == fp * (d * ps) + (x * ps + rest));
        assert(fp * (d * ps) + x * ps == (fp * d + x) * ps) by (nonlinear_arith);
        assert(flat_index(dims, idx) == (fp * d + x) * ps + rest);
    }
}

/// The partial strided sum over the first `k` axes equals the flat
/// offset of those components scaled by the capacity of the rest.
pub proof fn lemma_strided_prefix_flat(dims: Seq<usize>, idx: Seq<usize>, k: int)
    requires
        idx.len() == dims.len(),
        0 <= k <= dims.len(),
    ensures
        strided_prefix(dims, idx, k) == flat_index(dims.take(k), idx.take(k)) * dims_product(
            dims.skip(k),
        ),
    decreases k,
{
    if k == 0 {
        assert(dims.take(0).len() == 0);
        assert(flat_index(dims.take(0), idx.take(0)) == 0);
        assert(0 * dims_product(dims.skip(0)) == 0) by (nonlinear_arith);
    } else {
        lemma_strided_prefix_flat(dims, idx, k - 1);
        assert(dims.take(k).drop_last() =~= dims.take(k - 1));
        assert(idx.take(k).drop_last() =~= idx.take(k - 1));
        assert(dims.take(k).last() == dims[k - 1]);
        assert(idx.take(k).last() == idx[k - 1]);
        let fp = flat_index(dims.take(k - 1), idx.take(k - 1));
        let d = dims[k - 1] as nat;
        let x = idx[k - 1] as nat;
        let ps = dims_product(dims.skip(k));
        lemma_skip_product_step(dims, k - 1);
        assert(dims_product(dims.skip(k - 1)) == d * ps);
        assert(flat_index(dims.take(k), idx.take(k)) == fp * d + x);
        assert(strided_prefix(dims, idx, k) == fp * (d * ps) + x * ps);
        assert(fp * (d * ps) + x * ps == (fp * d + x) * ps) by (nonlinear_arith);
        assert(strided_prefix(dims, idx, k) == flat_index(dims.take(k), idx.take(k)) * ps);
    }
}

/// Bound on the partial strided sum while only the first `k`
/// components are known to be in bounds.
pub proof fn lemma_strided_prefix_bound(dims: Seq<usize>, idx: Seq<usize>, k: int)
    requires
        idx.len() == dims.len(),
        0 <= k <= dims.len(),
        forall|j: int| 0 <= j < k ==> idx[j] < dims[j],
    ensures
        strided_prefix(dims, idx, k) + dims_product(dims.skip(k)) <= dims_product(dims),
    decreases k,
{
    if k == 0 {
        assert(dims.skip(0) =~= dims);
    } else {
        lemma_strided_prefix_bound(dims, idx, k - 1);
        let d = dims[k - 1] as nat;
        let x = idx[k - 1] as nat;
        let ps = dims_product(dims.skip(k));
        lemma_skip_product_step(dims, k - 1);
        assert(dims_product(dims.skip(k - 1)) == d * ps);
        assert(x + 1 <= d);
        assert(x * ps + ps <= d * ps) by (nonlinear_arith)
            requires x + 1 <= d && ps >= 0;
    }
}

/// Describes a tensor's dimensionality: the ordered extents of its
/// axes, the derived capacity (product of the extents) and the derived
/// row-major strides. Two shapes are equal exactly when their extent
/// sequences are equal.
pub struct Shape {
    dimensions: Vec<usize>,
    capacity: usize,
    strides: Vec<usize>,
}

impl Shape {
    /// The extents, one per axis.
    pub closed spec fn dims(&self) -> Seq<usize> {
        self.dimensions@
    }

    /// Capacity and strides are derived from the extents: the capacity
    /// is the product of all extents (so that product fits in `usize`),
    /// and each stride is the product of the extents of the later axes.
    pub closed spec fn wf(&self) -> bool {
        &&& self.capacity == dims_product(self.dimensions@)
        &&& self.strides@.len() == self.dimensions@.len()
        &&& forall|i: int|
            0 <= i < self.dimensions@.len() ==> self.strides@[i] == dims_product(
                self.dimensions@.skip(i + 1),
            )
    }

    /// The scalar shape: no axes, capacity 1.
    pub fn zero() -> (s: Shape)
        ensures
            s.wf(),
            s.dims() == Seq::<usize>::empty(),
    {
        let s = Shape { dimensions: Vec::new(), capacity: 1, strides: Vec::new() };
        proof {
            assert(s.dimensions@ =~= Seq::<usize>::empty());
        }
        s
    }

    /// Builds a shape from a sequence of extents, computing the
    /// capacity and the row-major strides. Every suffix product must
    /// fit in `usize`; `try_new` makes that check at run time.
    pub fn new(dimensions: Vec<usize>) -> (s: Shape)
        requires
            forall|i: int|
                0 <= i <= dimensions@.len() ==> dims_product(dimensions@.skip(i)) <= usize::MAX,
        ensures
            s.wf(),
            s.dims() == dimensions@,
    {
        let n = dimensions.len();
        let mut strides: Vec<usize> = Vec::new();
        let mut j: usize = 0;
        while j < n
            invariant
                strides@.len() == j,
                j <= n,
                n == dimensions@.len(),
            decreases n - j,
        {
            strides.push(1);
            j += 1;
        }
        let mut i: usize = n;
        while i > 0
            invariant
                i <= n,
                n == dimensions@.len(),
                strides@.len() == n,
                forall|k: int| i <= k < n ==> strides@[k] == dims_product(dimensions@.skip(k + 1)),
                forall|k: int|
                    0 <= k <= dimensions@.len() ==> dims_product(dimensions@.skip(k)) <= usize::MAX,
            decreases i,
        {
            i -= 1;
            if i + 1 < n {
                proof {
                    lemma_skip_product_step(dimensions@, i + 1);
                }
                let v = dimensions[i + 1] * strides[i + 1];
                strides.set(i, v);
            } else {
                proof {
                    assert(dimensions@.skip(i + 1) =~= Seq::<usize>::empty());
                }
                strides.set(i, 1);
            }
        }
        let capacity: usize = if n == 0 {
            1
        } else {
            proof {
                lemma_skip_product_step(dimensions@, 0);
                assert(dimensions@.skip(0) =~= dimensions@);
            }
            dimensions[0] * strides[0]
        };
        let s = Shape { dimensions, capacity, strides };
        s
    }

    /// Builds a shape from a sequence of extents, making the suffix
    /// product check at run time: `None` exactly when some suffix
    /// product of the extents does not fit in `usize`.
    pub fn try_new(dimensions: Vec<usize>) -> (r: Option<Shape>)
        ensures
            r is Some <==> forall|i: int|
                0 <= i <= dimensions@.len() ==> dims_product(dimensions@.skip(i)) <= usize::MAX,
            r matches Some(s) ==> s.wf() && s.dims() == dimensions@,
    {
        let n = dimensions.len();
        let mut acc: usize = 1;
        let mut i: usize = n;
        proof {
            assert(dimensions@.skip(n as int).len() == 0);
        }
        while i > 0
            invariant
                i <= n,
                n == dimensions@.len(),
                acc as nat == dims_product(dimensions@.skip(i as int)),
                forall|j: int|
                    i <= j <= n ==> dims_product(dimensions@.skip(j)) <= usize::MAX,
            decreases i,
        {
            i -= 1;
            proof {
                lemma_skip_product_step(dimensions@, i as int);
            }
            match dimensions[i].checked_mul(acc) {
                Some(v) => {
                    acc = v;
                },
                None => {
                    proof {
                        assert(dims_product(dimensions@.skip(i as int)) > usize::MAX);
                    }
                    return None;
                },
            }
        }
        Some(Shape::new(dimensions))
    }

    /// The number of elements a tensor of this shape holds.
    pub fn capacity(&self) -> (c: usize)
        requires
            self.wf(),
        ensures
            c == dims_product(self.dims()),
    {
        self.capacity
    }

    /// The rank: how many axes the shape has.
    pub fn dimensions(&self) -> (n: usize)
        ensures
            n == self.dims().len(),
    {
        self.dimensions.len()
    }

    /// The extent of one axis.
    pub fn dim(&self, i: usize) -> (d: usize)
        requires
            i < self.dims().len(),
        ensures
            d == self.dims()[i as int],
    {
        self.dimensions[i]
    }

    /// Flat offset of a multi-index: `None` when the rank does not
    /// match or any component is out of bounds, otherwise the sum of
    /// the components weighted by the row-major strides.
    pub fn index(&self, index: &Vec<usize>) -> (r: Option<usize>)
        requires
            self.wf(),
        ensures
            index_in_bounds(self.dims(), index@) ==> r == Some(
                flat_index(self.dims(), index@) as usize,
            ) && flat_index(self.dims(), index@) < dims_product(self.dims()),
            !index_in_bounds(self.dims(), index@) ==> r is None,
    {
        let ghost dims = self.dimensions@;
        if index.len() != self.dimensions.len() {
            return None;
        }
        let n = self.dimensions.len();
        let mut p: usize = 0;
        let mut i: usize = 0;
        while i < n
            invariant
                self.wf(),
                dims == self.dimensions@,
                n == dims.len(),
                index@.len() == n,
                i <= n,
                forall|j: int| 0 <= j < i ==> index@[j] < dims[j],
                p == strided_prefix(dims, index@, i as int),
            decreases n - i,
        {
            if index[i] >= self.dimensions[i] {
                return None;
            }
            proof {
                lemma_strided_prefix_bound(dims, index@, i + 1);
                assert(strided_prefix(dims, index@, i + 1) == strided_prefix(dims, index@, i as int)
                    + (index@[i as int] as nat) * dims_product(dims.skip(i + 1)));
                assert(dims_product(dims) <= usize::MAX);
            }
            p = p + index[i] * self.strides[i];
            i += 1;
        }
        proof {
            assert(index_in_bounds(dims, index@));
            lemma_strided_prefix_flat(dims, index@, n as int);
            assert(dims.take(n as int) =~= dims);
            assert(index@.take(n as int) =~= index@);
            assert(dims.skip(n as int).len() == 0);
            let f = flat_index(dims, index@);
            assert(f * 1 == f) by (nonlinear_arith);
            lemma_flat_index_bound(dims, index@);
        }
        Some(p)
    }

    /// The multi-index whose flat offset is `flat`: the exact inverse
    /// of `index` for any offset below the capacity, obtained by a
    /// divmod chain from the last axis to the first.
    pub fn inverse_index(&self, flat: usize) -> (r: Vec<usize>)
        requires
            self.wf(),
            (flat as nat) < dims_product(self.dims()),
        ensures
            r@ == unflatten(self.dims(), flat as nat),
            index_in_bounds(self.dims(), r@),
            flat_index(self.dims(), r@) == flat as nat,
    {
        let ghost dims = self.dimensions@;
        proof {
            lemma_positive_product_extents(dims);
            lemma_unflatten_roundtrip(dims, flat as nat);
        }
        let n = self.dimensions.len();
        let mut r: Vec<usize> = Vec::new();
        let mut j: usize = 0;
        while j < n
            invariant
                r@.len() == j,
                j <= n,
            decreases n - j,
        {
            r.push(0);
            j += 1;
        }
        let mut f: usize = flat;
        let mut i: usize = n;
        proof {
            assert(dims.take(n as int) =~= dims);
            assert(r@.skip(n as int) =~= Seq::<usize>::empty());
            assert(unflatten(dims, flat as nat) =~= unflatten(dims.take(n as int), flat as nat)
                + r@.skip(n as int));
        }
        while i > 0
            invariant
                self.wf(),
                dims == self.dimensions@,
                n == dims.len(),
                r@.len() == n,
                i <= n,
                forall|k: int| 0 <= k < dims.len() ==> dims[k] > 0,
                unflatten(dims, flat as nat) =~= unflatten(dims.take(i as int), f as nat) + r@.skip(
                    i as int,
                ),
            decreases i,
        {
            i -= 1;
            let d = self.dimensions[i];
            let ghost r_old = r@;
            let ghost f_old = f as nat;
            r.set(i, f % d);
            f = f / d;
            proof {
                let ti = dims.take(i + 1);
                assert(ti.len() > 0);
                assert(ti.drop_last() =~= dims.take(i as int));
                assert(ti.last() == dims[i as int]);
                assert(unflatten(dims.take(i + 1), f_old) == unflatten(
                    dims.take(i as int),
                    f_old / (dims[i as int] as nat),
                ).push((f_old % (dims[i as int] as nat)) as usize));
                assert(r@.skip(i as int) =~= seq![(f_old % (dims[i as int] as nat)) as usize]
                    + r_old.skip(i + 1));
                assert(unflatten(dims.take(i as int), f as nat) + r@.skip(i as int)
                    =~= unflatten(dims.take(i + 1), f_old) + r_old.skip(i + 1));
            }
        }
        proof {
            assert(unflatten(dims.take(0), f as nat) =~= Seq::<usize>::empty());
            assert(r@ =~= unflatten(dims, flat as nat));
        }
        r
    }

    /// Treats `index` as a mixed-radix odometer whose least significant
    /// digit is the last axis and adds `by`, carrying overflow into
    /// more significant axes. Returns whether the result stayed in
    /// bounds; `false` signals wraparound past the last multi-index.
    #[verifier::rlimit(100)]
    pub fn increment_index(&self, index: &mut Vec<usize>, by: usize) -> (r: bool)
        requires
            self.wf(),
            index_in_bounds(self.dims(), old(index)@),
            flat_index(self.dims(), old(index)@) + by <= usize::MAX,
        ensures
            r == (self.dims().len() > 0 && flat_index(self.dims(), old(index)@) + by
                < dims_product(self.dims())),
            final(index)@ == unflatten(
                self.dims(),
                (flat_index(self.dims(), old(index)@) + by) as nat % dims_product(self.dims()),
            ),
            index_in_bounds(self.dims(), final(index)@),
    {
        let ghost dims = self.dimensions@;
        let ghost orig = old(index)@;
        let ghost total = flat_index(dims, orig) + by;
        proof {
            lemma_flat_index_bound(dims, orig);
            lemma_product_positive(dims);
        }
        let n = self.dimensions.len();
        let mut inc: usize = by;
        let mut i: usize = n;
        proof {
            assert(dims.skip(n as int).len() == 0);
            assert(orig.skip(n as int).len() == 0);
            assert(index@.skip(n as int).len() == 0);
            assert(dims_product(dims.skip(n as int)) == 1);
            assert(flat_index(dims.skip(n as int), index@.skip(n as int)) == 0);
            assert((by as nat) * 1 == by as nat) by (nonlinear_arith);
        }
        while i > 0
            invariant
                self.wf(),
                dims == self.dimensions@,
                n == dims.len(),
                index@.len() == n,
                i <= n,
                index_in_bounds(dims, orig),
                index@.take(i as int) == orig.take(i as int),
                forall|k: int| i <= k < n ==> index@[k] < dims[k],
                flat_index(dims.skip(i as int), index@.skip(i as int)) + (inc as nat)
                    * dims_product(dims.skip(i as int)) == flat_index(
                    dims.skip(i as int),
                    orig.skip(i as int),
                ) + by,
                flat_index(dims, orig) + by <= usize::MAX,
                total == flat_index(dims, orig) + by,
                orig == old(index)@,
                i < n ==> inc >= 1,
            decreases i,
        {
            proof {
                lemma_flat_index_split(dims, orig, i as int);
                lemma_product_positive(dims.skip(i as int));
                lemma_flat_index_bound(dims.take(i as int), orig.take(i as int));
                // the pending carry times the stride is bounded by the
                // remaining flat budget, so the digit update cannot
                // overflow
                let ps = dims_product(dims.skip(i as int));
                let fo = flat_index(dims.skip(i as int), orig.skip(i as int));
                assert((inc as nat) * ps <= fo + by);
                let d = dims[i - 1] as nat;
                let x = orig[i - 1] as nat;
                let t = x + inc;
                let dsp = dims.skip(i - 1);
                assert(dsp.drop_first() =~= dims.skip(i as int));
                assert(dsp[0] == dims[i - 1]);
                assert(orig.skip(i - 1).drop_first() =~= orig.skip(i as int));
                assert(orig.skip(i - 1)[0] == orig[i - 1]);
                lemma_flat_index_front(dsp, orig.skip(i - 1));
                assert(flat_index(dsp, orig.skip(i - 1)) == x * ps + fo);
                lemma_flat_index_split(dims, orig, i - 1);
                assert(flat_index(dims, orig) >= flat_index(dsp, orig.skip(i - 1))) by {
                    let fp = flat_index(dims.take(i - 1), orig.take(i - 1));
                    let pp = dims_product(dims.skip(i - 1));
                    assert(fp * pp >= 0) by (nonlinear_arith);
                }
                assert(t * ps == x * ps + (inc as nat) * ps) by (nonlinear_arith)
                    requires t == x + (inc as nat);
                assert(t * ps <= x * ps + fo + by);
                assert(ps >= 1);
                assert(t <= t * ps) by (nonlinear_arith)
                    requires ps >= 1 && t >= 0;
                assert(t <= usize::MAX);
            }
            i -= 1;
            let d = self.dimensions[i];
            let t = index[i] + inc;
            let ghost prev = index@;
            let ghost inc_old = inc as nat;
            let digit = t % d;
            index.set(i, digit);
            inc = t / d;
            proof {
                let ii = i as int;
                let ps = dims_product(dims.skip(ii + 1));
                let dn = d as nat;
                let tn = (t as nat);
                vstd::arithmetic::div_mod::lemma_fundamental_div_mod(t as int, d as int);
                // re-establish the odometer invariant one axis further left
                let dsp = dims.skip(ii);
                let csp = index@.skip(ii);
                assert(csp.drop_first() =~= prev.skip(ii + 1));
                assert(csp[0] == digit);
                assert(dsp.drop_first() =~= dims.skip(ii + 1));
                assert(dsp[0] == dims[ii]);
                lemma_flat_index_front(dsp, csp);
                lemma_skip_product_step(dims, ii);
                let osp = orig.skip(ii);
                assert(osp.drop_first() =~= orig.skip(ii + 1));
                assert(osp[0] == orig[ii]);
                lemma_flat_index_front(dsp, osp);
                let fo1 = flat_index(dims.skip(ii + 1), orig.skip(ii + 1));
                let fc1 = flat_index(dims.skip(ii + 1), prev.skip(ii + 1));
                // flat(new suffix) + carry * stride == flat(old suffix) + by
                assert(flat_index(dsp, csp) == (digit as nat) * ps + fc1);
                assert(flat_index(dsp, osp) == (orig[ii] as nat) * ps + fo1);
                assert(tn == dn * (tn / dn) + tn % dn);
                assert((digit as nat) == tn % dn);
                assert((inc as nat) * dims_product(dsp) == (tn / dn) * (dn * ps));
                assert((tn / dn) * (dn * ps) == (dn * (tn / dn)) * ps) by (nonlinear_arith);
                assert((digit as nat) * ps + (dn * (tn / dn)) * ps == tn * ps) by (nonlinear_arith)
                    requires (digit as nat) + dn * (tn / dn) == tn;
                assert(tn * ps == (orig[ii] as nat) * ps + inc_old * ps) by (nonlinear_arith)
                    requires tn == (orig[ii] as nat) + inc_old;
                assert(flat_index(dsp, csp) + (inc as nat) * dims_product(dsp) == flat_index(
                    dsp,
                    osp,
                ) + by);
                assert(index@.take(ii) =~= orig.take(ii));
                assert(dn > 0);
                assert((digit as nat) < dn);
                assert(forall|k: int| ii < k < n ==> index@[k] == prev[k]);
            }
            if inc == 0 {
                proof {
                    let ii = i as int;
                    lemma_flat_index_split(dims, index@, ii);
                    lemma_flat_index_split(dims, orig, ii);
                    assert(index@.take(ii) == orig.take(ii));
                    assert((inc as nat) * dims_product(dims.skip(ii)) == 0) by (nonlinear_arith)
                        requires inc == 0;
                    assert(flat_index(dims, index@) == flat_index(dims, orig) + by);
                    assert(index_in_bounds(dims, index@)) by {
                        assert(forall|k: int|
                            0 <= k < ii ==> #[trigger] index@[k] == index@.take(ii)[k]
                                == orig.take(ii)[k] == orig[k]);
                    }
                    lemma_flat_index_bound(dims, index@);
                    lemma_flat_index_roundtrip(dims, index@);
                    vstd::arithmetic::div_mod::lemma_small_mod(
                        total as nat,
                        dims_product(dims),
                    );
                    assert(total < dims_product(dims));
                    assert(index@ == unflatten(dims, total as nat % dims_product(dims)));
                }
                return true;
            }
        }
        proof {
            if n == 0 {
                assert(index@ =~= orig);
                assert(unflatten(dims, total as nat % dims_product(dims)) =~= Seq::<usize>::empty());
            } else {
                assert(dims.skip(0) =~= dims);
                assert(index@.skip(0) =~= index@);
                assert(orig.skip(0) =~= orig);
                assert(index@.take(0) =~= orig.take(0));
                assert(flat_index(dims, index@) + (inc as nat) * dims_product(dims) == flat_index(
                    dims,
                    orig,
                ) + by);
                lemma_flat_index_bound(dims, index@);
                assert(inc >= 1);
                assert((inc as nat) * dims_product(dims) >= dims_product(dims)) by (nonlinear_arith)
                    requires inc >= 1 && dims_product(dims) >= 0;
                vstd::arithmetic::div_mod::lemma_fundamental_div_mod_converse(
                    total as int,
                    dims_product(dims) as int,
                    inc as int,
                    flat_index(dims, index@) as int,
                );
                lemma_flat_index_roundtrip(dims, index@);
            }
        }
        false
    }
}

impl Clone for Shape {
    /// Shapes are cheaply cloned; the clone describes the same extents.
    fn clone(&self) -> (s: Shape)
        ensures
            s.dims() == self.dims(),
            s.wf() == self.wf(),
    {
        Shape {
            dimensions: self.dimensions.clone(),
            capacity: self.capacity,
            strides: self.strides.clone(),
        }
    }
}

impl PartialEq for Shape {
    /// Two shapes are equal exactly when their extent sequences are
    /// equal; capacity and strides are derived, not compared.
    fn eq(&self, other: &Shape) -> (r: bool) {
        if self.dimensions.len() != other.dimensions.len() {
            return false;
        }
        let n = self.dimensions.len();
        let mut i: usize = 0;
        while i < n
            invariant
                i <= n,
                n == self.dimensions@.len(),
                n == other.dimensions@.len(),
                forall|j: int| 0 <= j < i ==> self.dimensions@[j] == other.dimensions@[j],
            decreases n - i,
        {
            if self.dimensions[i] != other.dimensions[i] {
                return false;
            }
            i += 1;
        }
        proof {
            assert(self.dimensions@ =~= other.dimensions@);
        }
        true
    }
}

impl Eq for Shape {

}

impl vstd::std_specs::cmp::PartialEqSpecImpl for Shape {
    open spec fn obeys_eq_spec() -> bool {
        true
    }

    open spec fn eq_spec(&self, other: &Shape) -> bool {
        self.dims() == other.dims()
    }
}

/// Strict lexicographic order on multi-indices of one rank: the
/// leftmost differing component decides.
pub open spec fn lex_less(a: Seq<usize>, b: Seq<usize>) -> bool {
    exists|k: int|
        0 <= k < a.len() && a[k] < b[k] && (forall|j: int| 0 <= j < k ==> a[j] == b[j])
}

/// Flat offsets order multi-indices lexicographically: a smaller
/// offset means a lexicographically smaller in-bounds multi-index.
pub proof fn lemma_flat_order_is_lex(dims: Seq<usize>, x: Seq<usize>, y: Seq<usize>)
    requires
        index_in_bounds(dims, x),
        index_in_bounds(dims, y),
        flat_index(dims, x) < flat_index(dims, y),
    ensures
        lex_less(x, y),
    decreases dims.len(),
{
    assert(dims.len() > 0);
    let dt = dims.drop_first();
    let xt = x.drop_first();
    let yt = y.drop_first();
    lemma_flat_index_front(dims, x);
    lemma_flat_index_front(dims, y);
    assert(index_in_bounds(dt, xt)) by {
        assert(forall|k: int| 0 <= k < dt.len() ==> xt[k] == x[k + 1] && dt[k] == dims[k + 1]);
    }
    assert(index_in_bounds(dt, yt)) by {
        assert(forall|k: int| 0 <= k < dt.len() ==> yt[k] == y[k + 1] && dt[k] == dims[k + 1]);
    }
    let p = dims_product(dt);
    let fx = flat_index(dt, xt);
    let fy = flat_index(dt, yt);
    lemma_flat_index_bound(dt, xt);
    lemma_flat_index_bound(dt, yt);
    if x[0] == y[0] {
        assert((x[0] as nat) * p == (y[0] as nat) * p);
        assert(fx < fy);
        lemma_flat_order_is_lex(dt, xt, yt);
        let k = choose|k: int|
            0 <= k < xt.len() && xt[k] < yt[k] && (forall|j: int| 0 <= j < k ==> xt[j] == yt[j]);
        assert(x[k + 1] < y[k + 1]);
        assert(forall|j: int| 0 <= j < k + 1 ==> x[j] == y[j]) by {
            assert(forall|j: int| 1 <= j < k + 1 ==> x[j] == xt[j - 1] && y[j] == yt[j - 1]);
        }
        assert(lex_less(x, y));
    } else if x[0] < y[0] {
        assert(lex_less(x, y));
    } else {
        assert((y[0] + 1) as nat * p <= (x[0] as nat) * p) by (nonlinear_arith)
            requires y[0] + 1 <= x[0] && p >= 0;
        assert((y[0] + 1) as nat * p == (y[0] as nat) * p + p) by (nonlinear_arith);
        assert(flat_index(dims, y) < (y[0] as nat) * p + p);
        assert(flat_index(dims, x) >= (x[0] as nat) * p);
        assert(false);
    }
}

/// The digits of offset zero are the all-zero multi-index.
pub proof fn lemma_unflatten_zero(dims: Seq<usize>)
    requires
        dims_product(dims) > 0,
    ensures
        unflatten(dims, 0) =~= Seq::new(dims.len(), |i: int| 0usize),
    decreases dims.len(),
{
    if dims.len() > 0 {
        lemma_positive_product_extents(dims);
        lemma_product_drop_last(dims);
        let dl = dims.last() as int;
        vstd::arithmetic::div_mod::lemma_div_basics(dl);
        vstd::arithmetic::div_mod::lemma_small_mod(0, dl as nat);
        assert(dims_product(dims.drop_last()) > 0) by (nonlinear_arith)
            requires dims_product(dims) == dims_product(dims.drop_last()) * (dims.last() as nat)
                && dims_product(dims) > 0;
        lemma_unflatten_zero(dims.drop_last());
        assert(unflatten(dims, 0) == unflatten(dims.drop_last(), 0).push(0usize));
    }
}

/// Driving `increment_index` with unit steps from the all-zero
/// multi-index enumerates the whole index space: the offsets below the
/// capacity stand in one-to-one correspondence with the in-bounds
/// multi-indices, in lexicographic order, and the offset reached after
/// `capacity` steps is the first to fall out of bounds.
pub proof fn lemma_odometer_enumerates(dims: Seq<usize>)
    requires
        dims_product(dims) > 0,
    ensures
        unflatten(dims, 0) =~= Seq::new(dims.len(), |i: int| 0usize),
        forall|f: nat|
            f < dims_product(dims) ==> index_in_bounds(dims, #[trigger] unflatten(dims, f))
                && flat_index(dims, unflatten(dims, f)) == f,
        forall|idx: Seq<usize>|
            index_in_bounds(dims, idx) ==> unflatten(dims, #[trigger] flat_index(dims, idx))
                == idx && flat_index(dims, idx) < dims_product(dims),
        forall|f1: nat, f2: nat|
            f1 < f2 < dims_product(dims) ==> lex_less(
                #[trigger] unflatten(dims, f1),
                #[trigger] unflatten(dims, f2),
            ),
{
    lemma_unflatten_zero(dims);
    assert forall|f: nat| f < dims_product(dims) implies index_in_bounds(
        dims,
        #[trigger] unflatten(dims, f),
    ) && flat_index(dims, unflatten(dims, f)) == f by {
        lemma_unflatten_roundtrip(dims, f);
    }
    assert forall|idx: Seq<usize>| index_in_bounds(dims, idx) implies unflatten(
        dims,
        #[trigger] flat_index(dims, idx),
    ) == idx && flat_index(dims, idx) < dims_product(dims) by {
        lemma_flat_index_roundtrip(dims, idx);
        lemma_flat_index_bound(dims, idx);
    }
    assert forall|f1: nat, f2: nat| f1 < f2 < dims_product(dims) implies lex_less(
        #[trigger] unflatten(dims, f1),
        #[trigger] unflatten(dims, f2),
    ) by {
        lemma_unflatten_roundtrip(dims, f1);
        lemma_unflatten_roundtrip(dims, f2);
        lemma_flat_order_is_lex(dims, unflatten(dims, f1), unflatten(dims, f2));
    }
}

/// A well-formed shape's capacity is an actual `usize`.
pub proof fn lemma_shape_capacity_fits(s: &Shape)
    requires
        s.wf(),
    ensures
        dims_product(s.dims()) <= usize::MAX,
{
}

/// Unfolding `dims_product` of a suffix at its first axis.
pub proof fn lemma_skip_product_step(dims: Seq<usize>, i: int)
    requires
        0 <= i < dims.len(),
    ensures
        dims_product(dims.skip(i)) == (dims[i] as nat) * dims_product(dims.skip(i + 1)),
{
    assert(dims.skip(i).len() > 0);
    assert(dims.skip(i)[0] == dims[i]);
    assert(dims.skip(i).drop_first() =~= dims.skip(i + 1));
}

} // verus!
