//! Two-dimensional pooling layers: a window slid over a rank-three
//! input, channel by channel, reducing each window to one value — its
//! average or its maximum. Pooling owns no parameters; its backward
//! pass spreads or routes the output gradient back through the
//! window. Every access the window can make is validated when the
//! layer is built.

use vstd::prelude::*;

use crate::layers::conv2d::{
    axis_extent, axis_extent_ok, axis_ok, check_axis, conv_out_extent, lemma_div_bound,
    lemma_product3, Padding,
};
use crate::shape::{dims_product, Shape};
use crate::tensor::{lemma_tensor_capacity_fits, tdiv, wadd, Tensor};

verus! {

/// Marks a pooling layer that averages each window.
pub struct Average {}

/// Marks a pooling layer that takes each window's maximum.
pub struct Max {}

/// A pooling window over a rank-three input: the window extents,
/// paddings before each spatial axis, strides and dilations. The
/// marker picks the reduction.
pub struct Pooling2D<M> {
    input_shape: Shape,
    output_shape: Shape,
    pool0: usize,
    pool1: usize,
    pad0: usize,
    pad1: usize,
    str0: usize,
    str1: usize,
    dil0: usize,
    dil1: usize,
    marker: M,
}

/// The one-shot backward context of an average pooling layer; the
/// window counts are part of the layer, so nothing is captured.
pub struct AvgPoolCtx {}

/// The one-shot backward context of a max pooling layer: the flat
/// input offset that won each window.
pub struct MaxPoolCtx {
    winners: Vec<usize>,
}

impl<M> Pooling2D<M> {
    /// The extents of the input: rows, columns, channels.
    pub closed spec fn input_dims(&self) -> Seq<usize> {
        self.input_shape.dims()
    }

    /// The extents of the output: rows, columns, channels.
    pub closed spec fn output_dims(&self) -> Seq<usize> {
        self.output_shape.dims()
    }

    /// The window geometry: extents, paddings, strides, dilations.
    pub closed spec fn geometry(&self) -> (usize, usize, usize, usize, usize, usize, usize, usize) {
        (self.pool0, self.pool1, self.pad0, self.pad1, self.str0, self.str1, self.dil0, self.dil1)
    }

    /// How many window iterations one output element reduces over.
    pub closed spec fn pq(&self) -> int {
        (self.pool0 as int) * (self.pool1 as int)
    }

    /// Shapes are consistent and every access the window can make
    /// stays inside the input.
    pub closed spec fn wf_base(&self) -> bool {
        &&& self.input_shape.wf()
        &&& self.output_shape.wf()
        &&& self.input_dims().len() == 3
        &&& self.output_dims().len() == 3
        &&& self.output_dims()[2] == self.input_dims()[2]
        &&& self.pq() <= usize::MAX
        &&& axis_ok(
            self.output_dims()[0] as int,
            self.pool0 as int,
            self.dil0 as int,
            self.str0 as int,
            self.pad0 as int,
            self.input_dims()[0] as int,
        )
        &&& axis_ok(
            self.output_dims()[1] as int,
            self.pool1 as int,
            self.dil1 as int,
            self.str1 as int,
            self.pad1 as int,
            self.input_dims()[1] as int,
        )
    }

    /// The output row a flat output offset addresses.
    pub open spec fn o0(&self, p: int) -> int {
        p / ((self.output_dims()[1] as int) * (self.output_dims()[2] as int))
    }

    /// The output column a flat output offset addresses.
    pub open spec fn o1(&self, p: int) -> int {
        (p / (self.output_dims()[2] as int)) % (self.output_dims()[1] as int)
    }

    /// The channel a flat output offset addresses.
    pub open spec fn o2(&self, p: int) -> int {
        p % (self.output_dims()[2] as int)
    }

    /// The window row of one window iteration.
    pub closed spec fn q0(&self, q: int) -> int {
        q / (self.pool1 as int)
    }

    /// The window column of one window iteration.
    pub closed spec fn q1(&self, q: int) -> int {
        q % (self.pool1 as int)
    }

    /// Whether one window iteration lands inside the input, given
    /// the paddings.
    pub closed spec fn tap_valid(&self, p: int, q: int) -> bool {
        &&& self.o0(p) * (self.dil0 as int) + self.q0(q) * (self.str0 as int) >= self.pad0 as int
        &&& self.o1(p) * (self.dil1 as int) + self.q1(q) * (self.str1 as int) >= self.pad1 as int
    }

    /// The flat input offset one window iteration reads.
    pub closed spec fn tap_input(&self, p: int, q: int) -> int {
        let i0 = self.o0(p) * (self.dil0 as int) + self.q0(q) * (self.str0 as int) - (self.pad0
            as int);
        let i1 = self.o1(p) * (self.dil1 as int) + self.q1(q) * (self.str1 as int) - (self.pad1
            as int);
        i0 * ((self.input_dims()[1] as int) * (self.input_dims()[2] as int)) + i1 * (
        self.input_dims()[2] as int) + self.o2(p)
    }

    /// How many of the first `q` window iterations of one output
    /// element land inside the input.
    pub open spec fn count_acc(&self, p: int, q: int) -> int
        decreases q,
    {
        if q <= 0 {
            0
        } else if self.tap_valid(p, q - 1) {
            self.count_acc(p, q - 1) + 1
        } else {
            self.count_acc(p, q - 1)
        }
    }

    /// The window sum of one output element over the first `q`
    /// window iterations, wrapping.
    pub open spec fn sum_acc(&self, x: Seq<i64>, p: int, q: int) -> i64
        decreases q,
    {
        if q <= 0 {
            0i64
        } else if self.tap_valid(p, q - 1) {
            wadd(self.sum_acc(x, p, q - 1), x[self.tap_input(p, q - 1)])
        } else {
            self.sum_acc(x, p, q - 1)
        }
    }

    /// The running maximum of one output element over the first `q`
    /// window iterations, seeded at zero, together with the flat
    /// input offset that reached it.
    pub open spec fn max_acc(&self, x: Seq<i64>, p: int, q: int) -> (i64, int)
        decreases q,
    {
        if q <= 0 {
            (0i64, 0int)
        } else {
            let prev = self.max_acc(x, p, q - 1);
            if self.tap_valid(p, q - 1) && x[self.tap_input(p, q - 1)] > prev.0 {
                (x[self.tap_input(p, q - 1)], self.tap_input(p, q - 1))
            } else {
                prev
            }
        }
    }

    /// The input shape the layer accepts.
    pub fn get_input_shape(&self) -> (s: &Shape)
        ensures
            s.dims() == self.input_dims(),
            self.wf_base() ==> s.wf(),
    {
        &self.input_shape
    }

    /// The output shape the layer produces.
    pub fn get_output_shape(&self) -> (s: &Shape)
        ensures
            s.dims() == self.output_dims(),
            self.wf_base() ==> s.wf(),
    {
        &self.output_shape
    }

    /// One window iteration's shape: whether it lands inside the
    /// input and, when it does, the flat input offset it touches.
    fn tap_at(&self, p: usize, q: usize) -> (r: (bool, usize))
        requires
            self.wf_base(),
            (p as int) < dims_product(self.output_dims()),
            (q as int) < self.pq(),
        ensures
            r.0 == self.tap_valid(p as int, q as int),
            r.0 ==> (r.1 as int) == self.tap_input(p as int, q as int) && (r.1 as int)
                < dims_product(self.input_dims()),
    {
        let out1 = self.output_shape.dim(1);
        let chn = self.output_shape.dim(2);
        let in0 = self.input_shape.dim(0);
        let in1 = self.input_shape.dim(1);
        let in2 = self.input_shape.dim(2);
        let ghost qs = q as int;
        let ghost o0s = self.o0(p as int);
        let ghost o1s = self.o1(p as int);
        let ghost o2s = self.o2(p as int);
        proof {
            lemma_product3(self.input_dims());
            lemma_product3(self.output_dims());
            crate::shape::lemma_shape_capacity_fits(&self.input_shape);
            crate::shape::lemma_shape_capacity_fits(&self.output_shape);
            assert(self.pool1 > 0) by (nonlinear_arith)
                requires
                    0 <= qs < (self.pool0 as int) * (self.pool1 as int) && (self.pool0 as int)
                        >= 0 && (self.pool1 as int) >= 0;
            assert(qs < (self.pool0 as int) * (self.pool1 as int));
            lemma_div_bound(qs, self.pool1 as int, self.pool0 as int);
            vstd::arithmetic::div_mod::lemma_mod_bound(qs, self.pool1 as int);
            vstd::arithmetic::div_mod::lemma_div_pos_is_pos(qs, self.pool1 as int);
        }
        let q0 = q / self.pool1;
        let q1 = q % self.pool1;
        proof {
            assert(dims_product(self.output_dims()) > 0);
            assert((self.output_dims()[0] as int) >= 1 && (out1 as int) * (chn as int) > 0 && (
            out1 as int) >= 1 && (chn as int) >= 1) by (nonlinear_arith)
                requires
                    dims_product(self.output_dims()) == (self.output_dims()[0] as int) * ((
                    out1 as int) * (chn as int)) && dims_product(self.output_dims()) > 0 && (
                    self.output_dims()[0] as int) >= 0 && (out1 as int) >= 0 && (chn as int)
                        >= 0;
            assert((out1 as int) * (chn as int) <= usize::MAX) by (nonlinear_arith)
                requires
                    dims_product(self.output_dims()) <= usize::MAX && dims_product(
                        self.output_dims(),
                    ) == (self.output_dims()[0] as int) * ((out1 as int) * (chn as int)) && (
                    self.output_dims()[0] as int) >= 1 && (out1 as int) * (chn as int) >= 0;
            assert((p as int) < (self.output_dims()[0] as int) * ((out1 as int) * (chn as int)));
            lemma_div_bound(p as int, (out1 as int) * (chn as int), self.output_dims()[0] as int);
            vstd::arithmetic::div_mod::lemma_mod_bound(p as int / (chn as int), out1 as int);
            vstd::arithmetic::div_mod::lemma_mod_bound(p as int, chn as int);
            vstd::arithmetic::div_mod::lemma_div_pos_is_pos(p as int, (out1 as int) * (
            chn as int));
            vstd::arithmetic::div_mod::lemma_div_pos_is_pos(p as int, chn as int);
            assert(0 <= o0s < self.output_dims()[0] as int);
            assert(0 <= o1s < out1 as int);
            assert(0 <= o2s < chn as int);
            assert(o0s * (self.dil0 as int) + (q0 as int) * (self.str0 as int) <= usize::MAX);
            assert(o1s * (self.dil1 as int) + (q1 as int) * (self.str1 as int) <= usize::MAX);
        }
        let o0v: usize = p / (out1 * chn);
        let o1v: usize = (p / chn) % out1;
        let o2v: usize = p % chn;
        let t0 = o0v * self.dil0 + q0 * self.str0;
        let t1 = o1v * self.dil1 + q1 * self.str1;
        if t0 >= self.pad0 && t1 >= self.pad1 {
            let i0 = t0 - self.pad0;
            let i1 = t1 - self.pad1;
            proof {
                assert(self.tap_valid(p as int, qs));
                assert((i0 as int) < in0 as int);
                assert((i1 as int) < in1 as int);
                assert((o2s as int) < in2 as int);
                assert((i1 as int) * (in2 as int) + o2s < (in1 as int) * (in2 as int))
                    by (nonlinear_arith)
                    requires
                        (i1 as int) < in1 as int && o2s < in2 as int && (i1 as int) >= 0 && o2s
                            >= 0 && (in2 as int) >= 0;
                assert((i0 as int) * ((in1 as int) * (in2 as int)) + ((in1 as int) * (in2 as int))
                    <= (in0 as int) * ((in1 as int) * (in2 as int))) by (nonlinear_arith)
                    requires (i0 as int) < in0 as int && (in1 as int) * (in2 as int) >= 0;
                assert((in1 as int) * (in2 as int) <= usize::MAX) by (nonlinear_arith)
                    requires
                        dims_product(self.input_dims()) <= usize::MAX && dims_product(
                            self.input_dims(),
                        ) == (in0 as int) * ((in1 as int) * (in2 as int)) && (i0 as int) < (
                        in0 as int) && (i0 as int) >= 0 && (in1 as int) * (in2 as int) >= 0;
            }
            let ii = i0 * (in1 * in2) + i1 * in2 + o2v;
            (true, ii)
        } else {
            proof {
                assert(!self.tap_valid(p as int, qs));
            }
            (false, 0)
        }
    }

    /// How many window iterations one output element reduces over.
    fn window_count(&self) -> (r: usize)
        requires
            self.wf_base(),
        ensures
            r as int == self.pq(),
    {
        self.pool0 * self.pool1
    }
}

/// A window's in-bounds position count is never negative.
pub proof fn lemma_count_nonneg<M>(layer: Pooling2D<M>, p: int, q: int)
    ensures
        layer.count_acc(p, q) >= 0,
    decreases q,
{
    if q > 0 {
        lemma_count_nonneg(layer, p, q - 1);
    }
}

/// One in-bounds window position makes the window's count positive.
pub proof fn lemma_count_pos<M>(layer: Pooling2D<M>, p: int, q: int, bound: int)
    requires
        0 <= q < bound,
        layer.tap_valid(p, q),
    ensures
        layer.count_acc(p, bound) > 0,
    decreases bound,
{
    if q < bound - 1 {
        lemma_count_pos(layer, p, q, bound - 1);
    } else {
        lemma_count_nonneg(layer, p, bound - 1);
    }
}

/// When both spatial axes are covered, every window holds at least
/// one in-bounds position.
pub proof fn lemma_window_covered<M>(layer: Pooling2D<M>, p: int)
    requires
        layer.wf_base(),
        0 <= p < dims_product(layer.output_dims()),
        axis_covered(
            layer.output_dims()[0] as int,
            layer.geometry().0 as int,
            layer.geometry().6 as int,
            layer.geometry().4 as int,
            layer.geometry().2 as int,
        ),
        axis_covered(
            layer.output_dims()[1] as int,
            layer.geometry().1 as int,
            layer.geometry().7 as int,
            layer.geometry().5 as int,
            layer.geometry().3 as int,
        ),
    ensures
        layer.count_acc(p, layer.pq()) > 0,
{
    lemma_product3(layer.output_dims());
    let out0 = layer.output_dims()[0] as int;
    let out1 = layer.output_dims()[1] as int;
    let ch = layer.output_dims()[2] as int;
    let pool0 = layer.geometry().0 as int;
    let pool1 = layer.geometry().1 as int;
    let pad0 = layer.geometry().2 as int;
    let pad1 = layer.geometry().3 as int;
    let str0 = layer.geometry().4 as int;
    let str1 = layer.geometry().5 as int;
    let dil0 = layer.geometry().6 as int;
    let dil1 = layer.geometry().7 as int;
    assert(dims_product(layer.output_dims()) > 0);
    assert(out0 >= 1 && out1 >= 1 && ch >= 1 && out1 * ch >= 1) by (nonlinear_arith)
        requires
            out0 * (out1 * ch) > 0 && out0 >= 0 && out1 >= 0 && ch >= 0;
    let o0 = layer.o0(p);
    let o1 = layer.o1(p);
    assert(p < out0 * (out1 * ch));
    lemma_div_bound(p, out1 * ch, out0);
    vstd::arithmetic::div_mod::lemma_mod_bound(p / ch, out1);
    vstd::arithmetic::div_mod::lemma_div_pos_is_pos(p, out1 * ch);
    vstd::arithmetic::div_mod::lemma_div_pos_is_pos(p, ch);
    assert(0 <= o0 < out0);
    assert(0 <= o1 < out1);
    assert(o0 * dil0 >= 0) by (nonlinear_arith)
        requires o0 >= 0 && dil0 >= 0;
    let k0 = choose|k: int| #![trigger k * str0]
        0 <= k < pool0 && o0 * dil0 + k * str0 >= pad0;
    assert(o1 * dil1 >= 0) by (nonlinear_arith)
        requires o1 >= 0 && dil1 >= 0;
    let k1 = choose|k: int| #![trigger k * str1]
        0 <= k < pool1 && o1 * dil1 + k * str1 >= pad1;
    let q = k0 * pool1 + k1;
    assert(0 <= q < pool0 * pool1) by (nonlinear_arith)
        requires 0 <= k0 < pool0 && 0 <= k1 < pool1 && q == k0 * pool1 + k1;
    vstd::arithmetic::div_mod::lemma_fundamental_div_mod_converse(q, pool1, k0, k1);
    assert(layer.q0(q) == k0);
    assert(layer.q1(q) == k1);
    assert(layer.tap_valid(p, q));
    lemma_count_pos(layer, p, q, layer.pq());
}

impl Pooling2D<Average> {
    /// Every window holds at least one in-bounds position, and a
    /// window's position count fits the element type.
    pub closed spec fn wf(&self) -> bool {
        &&& self.wf_base()
        &&& self.pq() <= i64::MAX
        &&& forall|p: int|
            0 <= p < dims_product(self.output_dims()) ==> #[trigger] self.count_acc(p, self.pq())
                > 0
    }

    /// What `feed_forward` returns: each window's sum divided by the
    /// number of in-bounds positions, rounded toward zero.
    pub open spec fn forward_spec(&self, x: Seq<i64>) -> Seq<i64> {
        Seq::new(
            dims_product(self.output_dims()),
            |p: int| tdiv(self.sum_acc(x, p, self.pq()) as int, self.count_acc(p, self.pq())) as i64,
        )
    }

    /// The input gradient after the first `t` scatter steps of the
    /// backward sweep: each in-bounds window position of output
    /// element `p` receives that element's gradient divided by the
    /// window's position count.
    pub open spec fn bwd_state(&self, g: Seq<i64>, id0: Seq<i64>, t: int) -> Seq<i64>
        decreases t,
    {
        if t <= 0 {
            id0
        } else {
            let prev = self.bwd_state(g, id0, t - 1);
            let p = (t - 1) / self.pq();
            let q = (t - 1) % self.pq();
            if self.tap_valid(p, q) {
                let ii = self.tap_input(p, q);
                let share = tdiv(g[p] as int, self.count_acc(p, self.pq())) as i64;
                prev.update(ii, wadd(prev[ii], share))
            } else {
                prev
            }
        }
    }

    /// Builds an average pooling layer, eagerly validating the whole
    /// window geometry: the build succeeds exactly when the geometry
    /// resolves, the window size fits the element type, and — where
    /// the output holds any element at all — every window holds at
    /// least one in-bounds position.
    pub fn new(
        input_shape: Shape,
        pool_size: (usize, usize),
        padding: (Padding, Padding),
        strides: (usize, usize),
        dilation: (usize, usize),
    ) -> (r: Option<Pooling2D<Average>>)
        requires
            input_shape.wf(),
        ensures
            r is Some <==> ({
                &&& pooling_geometry_ok(
                    input_shape.dims(),
                    (pool_size.0 as int, pool_size.1 as int),
                    (padding.0.resolve_spec().0 as int, padding.0.resolve_spec().1 as int),
                    (padding.1.resolve_spec().0 as int, padding.1.resolve_spec().1 as int),
                    strides.0 as int,
                    strides.1 as int,
                    dilation.0 as int,
                    dilation.1 as int,
                )
                &&& (pool_size.0 as int) * (pool_size.1 as int) <= i64::MAX
                &&& (input_shape.dims().len() == 3 && (input_shape.dims()[2] as int) >= 1 ==> {
                    &&& axis_covered(
                        axis_extent(
                            input_shape.dims()[0] as int,
                            padding.0.resolve_spec().0 as int,
                            padding.0.resolve_spec().1 as int,
                            dilation.0 as int,
                            pool_size.0 as int,
                            strides.0 as int,
                        ),
                        pool_size.0 as int,
                        dilation.0 as int,
                        strides.0 as int,
                        padding.0.resolve_spec().0 as int,
                    )
                    &&& axis_covered(
                        axis_extent(
                            input_shape.dims()[1] as int,
                            padding.1.resolve_spec().0 as int,
                            padding.1.resolve_spec().1 as int,
                            dilation.1 as int,
                            pool_size.1 as int,
                            strides.1 as int,
                        ),
                        pool_size.1 as int,
                        dilation.1 as int,
                        strides.1 as int,
                        padding.1.resolve_spec().0 as int,
                    )
                })
            }),
            r matches Some(l) ==> {
                &&& l.wf()
                &&& l.input_dims() == input_shape.dims()
                &&& l.output_dims() =~= seq![
                    axis_extent(
                        input_shape.dims()[0] as int,
                        padding.0.resolve_spec().0 as int,
                        padding.0.resolve_spec().1 as int,
                        dilation.0 as int,
                        pool_size.0 as int,
                        strides.0 as int,
                    ) as usize,
                    axis_extent(
                        input_shape.dims()[1] as int,
                        padding.1.resolve_spec().0 as int,
                        padding.1.resolve_spec().1 as int,
                        dilation.1 as int,
                        pool_size.1 as int,
                        strides.1 as int,
                    ) as usize,
                    input_shape.dims()[2],
                ]
                &&& l.geometry() == (
                    pool_size.0,
                    pool_size.1,
                    padding.0.resolve_spec().0,
                    padding.1.resolve_spec().0,
                    strides.0,
                    strides.1,
                    dilation.0,
                    dilation.1,
                )
            },
    {
        let g = match pooling_geometry(&input_shape, pool_size, padding, strides, dilation) {
            Some(g) => g,
            None => {
                return None;
            },
        };
        let prod = pool_size.0 * pool_size.1;
        if (prod as u64) > (i64::MAX as u64) {
            return None;
        }
        let in2 = input_shape.dim(2);
        let e0 = g.0.dim(0);
        let e1 = g.0.dim(1);
        if in2 > 0 {
            if !check_axis_covered(e0, pool_size.0, dilation.0, strides.0, g.1) {
                return None;
            }
            if !check_axis_covered(e1, pool_size.1, dilation.1, strides.1, g.2) {
                return None;
            }
        }
        let layer = Pooling2D {
            input_shape,
            output_shape: g.0,
            pool0: pool_size.0,
            pool1: pool_size.1,
            pad0: g.1,
            pad1: g.2,
            str0: strides.0,
            str1: strides.1,
            dil0: dilation.0,
            dil1: dilation.1,
            marker: Average {  },
        };
        proof {
            lemma_product3(layer.output_dims());
            if in2 == 0 {
                assert(dims_product(layer.output_dims()) == 0) by (nonlinear_arith)
                    requires
                        dims_product(layer.output_dims()) == (layer.output_dims()[0] as int) * ((
                        layer.output_dims()[1] as int) * (layer.output_dims()[2] as int))
                            && layer.output_dims()[2] == 0;
            }
            assert forall|p: int| 0 <= p < dims_product(layer.output_dims()) implies
                #[trigger] layer.count_acc(p, layer.pq()) > 0 by {
                lemma_window_covered(layer, p);
            }
        }
        Some(layer)
    }

    /// The pure forward evaluation: each output element is its
    /// window's average.
    pub fn feed_forward(&self, input: &Tensor<i64>) -> (r: Tensor<i64>)
        requires
            self.wf(),
            input.wf(),
            input.dims() == self.input_dims(),
        ensures
            r.wf(),
            r.dims() == self.output_dims(),
            r.data_seq() =~= self.forward_spec(input.data_seq()),
    {
        let ghost x = input.data_seq();
        proof {
            lemma_tensor_capacity_fits(*input);
            crate::shape::lemma_shape_capacity_fits(&self.output_shape);
        }
        let out_cap = self.output_shape.capacity();
        let pq = self.window_count();
        let mut out = Tensor::zero(self.output_shape.clone());
        let mut p: usize = 0;
        while p < out_cap
            invariant
                p <= out_cap,
                self.wf(),
                input.wf(),
                input.dims() == self.input_dims(),
                x == input.data_seq(),
                out_cap == dims_product(self.output_dims()),
                pq as int == self.pq(),
                input.data_seq().len() == dims_product(self.input_dims()),
                out.wf(),
                out.dims() == self.output_dims(),
                out.data_seq().len() == out_cap,
                forall|j: int|
                    0 <= j < p ==> out.data_seq()[j] == tdiv(
                        self.sum_acc(x, j, self.pq()) as int,
                        self.count_acc(j, self.pq()),
                    ) as i64,
            decreases out_cap - p,
        {
            let mut acc: i64 = 0;
            let mut n: usize = 0;
            let mut q: usize = 0;
            while q < pq
                invariant
                    q <= pq,
                    p < out_cap,
                    self.wf(),
                    input.wf(),
                    input.dims() == self.input_dims(),
                    x == input.data_seq(),
                    out_cap == dims_product(self.output_dims()),
                    pq as int == self.pq(),
                    input.data_seq().len() == dims_product(self.input_dims()),
                    acc == self.sum_acc(x, p as int, q as int),
                    n as int == self.count_acc(p as int, q as int),
                    n <= q,
                decreases pq - q,
            {
                let (valid, ii) = self.tap_at(p, q);
                if valid {
                    acc = acc.wrapping_add(*input.flat_get(ii));
                    n += 1;
                }
                q += 1;
            }
            proof {
                assert(self.count_acc(p as int, self.pq()) > 0);
                assert(n as int <= self.pq()) by {
                    lemma_count_le(*self, p as int, self.pq());
                }
                crate::tensor::lemma_tdiv_fits(acc as int, n as int);
            }
            let v: i64 = match acc.checked_div(n as i64) {
                Some(v) => v,
                None => {
                    proof {
                        assert(false);
                    }
                    0
                },
            };
            out.flat_set(p, v);
            p += 1;
        }
        out
    }

    /// Computes the same output as `feed_forward`; the window counts
    /// are part of the layer, so the backward context is empty.
    pub fn back_propagate(&self, input: &Tensor<i64>) -> (r: (Tensor<i64>, AvgPoolCtx))
        requires
            self.wf(),
            input.wf(),
            input.dims() == self.input_dims(),
        ensures
            r.0.wf(),
            r.0.dims() == self.output_dims(),
            r.0.data_seq() =~= self.forward_spec(input.data_seq()),
    {
        (self.feed_forward(input), AvgPoolCtx {  })
    }

    /// Consumes the backward context and the output gradient; each
    /// window position receives its share of the gradient. The layer
    /// has no parameters.
    pub fn backward(&self, _ctx: AvgPoolCtx, output_d: &Tensor<i64>) -> (r: Tensor<i64>)
        requires
            self.wf(),
            output_d.wf(),
            output_d.dims() == self.output_dims(),
        ensures
            r.wf(),
            r.dims() == self.input_dims(),
            r.data_seq() == self.bwd_state(
                output_d.data_seq(),
                Seq::new(dims_product(self.input_dims()), |i: int| 0i64),
                dims_product(self.output_dims()) * self.pq(),
            ),
    {
        let ghost g = output_d.data_seq();
        let ghost id0 = Seq::new(dims_product(self.input_dims()), |i: int| 0i64);
        proof {
            lemma_tensor_capacity_fits(*output_d);
            crate::shape::lemma_shape_capacity_fits(&self.input_shape);
        }
        let out_cap = self.output_shape.capacity();
        let pq = self.window_count();
        let mut input_d = Tensor::zero(self.input_shape.clone());
        proof {
            assert(input_d.data_seq() =~= id0);
        }
        let mut p: usize = 0;
        while p < out_cap
            invariant
                p <= out_cap,
                self.wf(),
                output_d.wf(),
                output_d.dims() == self.output_dims(),
                g == output_d.data_seq(),
                g.len() == out_cap,
                out_cap == dims_product(self.output_dims()),
                pq as int == self.pq(),
                id0 == Seq::new(dims_product(self.input_dims()), |i: int| 0i64),
                input_d.wf(),
                input_d.dims() == self.input_dims(),
                input_d.data_seq() == self.bwd_state(g, id0, (p as int) * (pq as int)),
            decreases out_cap - p,
        {
            proof {
                assert(self.count_acc(p as int, self.pq()) > 0);
                assert((pq as int) >= self.count_acc(p as int, self.pq())) by {
                    lemma_count_le(*self, p as int, self.pq());
                }
                crate::tensor::lemma_tdiv_fits(
                    output_d.data_seq()[p as int] as int,
                    self.count_acc(p as int, self.pq()),
                );
            }
            let mut n: usize = 0;
            let mut q0: usize = 0;
            while q0 < pq
                invariant
                    q0 <= pq,
                    p < out_cap,
                    self.wf(),
                    out_cap == dims_product(self.output_dims()),
                    pq as int == self.pq(),
                    n as int == self.count_acc(p as int, q0 as int),
                    n <= q0,
                decreases pq - q0,
            {
                let (valid, _ii) = self.tap_at(p, q0);
                if valid {
                    n += 1;
                }
                q0 += 1;
            }
            let share: i64 = match output_d.flat_get(p).checked_div(n as i64) {
                Some(v) => v,
                None => {
                    proof {
                        assert(false);
                    }
                    0
                },
            };
            let mut q: usize = 0;
            while q < pq
                invariant
                    q <= pq,
                    p < out_cap,
                    self.wf(),
                    output_d.wf(),
                    output_d.dims() == self.output_dims(),
                    g == output_d.data_seq(),
                    g.len() == out_cap,
                    out_cap == dims_product(self.output_dims()),
                    pq as int == self.pq(),
                    id0 == Seq::new(dims_product(self.input_dims()), |i: int| 0i64),
                    share as int == tdiv(
                        g[p as int] as int,
                        self.count_acc(p as int, self.pq()),
                    ),
                    input_d.wf(),
                    input_d.dims() == self.input_dims(),
                    input_d.data_seq() == self.bwd_state(
                        g,
                        id0,
                        (p as int) * (pq as int) + (q as int),
                    ),
                decreases pq - q,
            {
                let ghost t = (p as int) * (pq as int) + (q as int) + 1;
                proof {
                    lemma_tensor_capacity_fits(input_d);
                    vstd::arithmetic::div_mod::lemma_fundamental_div_mod_converse(
                        t - 1,
                        pq as int,
                        p as int,
                        q as int,
                    );
                }
                let (valid, ii) = self.tap_at(p, q);
                if valid {
                    let v = input_d.flat_get(ii).wrapping_add(share);
                    input_d.flat_set(ii, v);
                }
                proof {
                    assert(input_d.data_seq() == self.bwd_state(g, id0, t));
                }
                q += 1;
            }
            p += 1;
            proof {
                assert((p as int) * (pq as int) == ((p - 1) as int) * (pq as int) + (pq as int))
                    by (nonlinear_arith);
            }
        }
        proof {
            assert((out_cap as int) * (pq as int) == dims_product(self.output_dims()) * self.pq())
                by (nonlinear_arith)
                requires out_cap == dims_product(self.output_dims()) && pq as int == self.pq();
        }
        input_d
    }
}

impl Pooling2D<Max> {
    /// The input holds at least one element, so the default winner
    /// offset is always addressable.
    pub closed spec fn wf(&self) -> bool {
        &&& self.wf_base()
        &&& dims_product(self.input_dims()) > 0
    }

    /// What `feed_forward` returns: each window's running maximum,
    /// seeded at zero.
    pub open spec fn forward_spec(&self, x: Seq<i64>) -> Seq<i64> {
        Seq::new(
            dims_product(self.output_dims()),
            |p: int| self.max_acc(x, p, self.pq()).0,
        )
    }

    /// The input gradient after routing the first `t` output
    /// gradients back to their windows' winning offsets.
    pub open spec fn bwd_state(&self, g: Seq<i64>, winners: Seq<usize>, id0: Seq<i64>, t: int) -> Seq<
        i64,
    >
        decreases t,
    {
        if t <= 0 {
            id0
        } else {
            self.bwd_state(g, winners, id0, t - 1).update(winners[t - 1] as int, g[t - 1])
        }
    }

    /// The captured context routes every output element to an
    /// in-bounds winner offset.
    pub closed spec fn ctx_matches(&self, ctx: MaxPoolCtx) -> bool {
        &&& ctx.winners@.len() == dims_product(self.output_dims())
        &&& forall|p: int|
            0 <= p < ctx.winners@.len() ==> (#[trigger] ctx.winners@[p] as int) < dims_product(
                self.input_dims(),
            )
    }

    /// The winners a context holds.
    pub closed spec fn ctx_winners(&self, ctx: MaxPoolCtx) -> Seq<usize> {
        ctx.winners@
    }

    /// Builds a max pooling layer, eagerly validating the whole
    /// window geometry: the build succeeds exactly when the input
    /// holds at least one element and the geometry resolves.
    pub fn new(
        input_shape: Shape,
        pool_size: (usize, usize),
        padding: (Padding, Padding),
        strides: (usize, usize),
        dilation: (usize, usize),
    ) -> (r: Option<Pooling2D<Max>>)
        requires
            input_shape.wf(),
        ensures
            r is Some <==> dims_product(input_shape.dims()) > 0 && pooling_geometry_ok(
                input_shape.dims(),
                (pool_size.0 as int, pool_size.1 as int),
                (padding.0.resolve_spec().0 as int, padding.0.resolve_spec().1 as int),
                (padding.1.resolve_spec().0 as int, padding.1.resolve_spec().1 as int),
                strides.0 as int,
                strides.1 as int,
                dilation.0 as int,
                dilation.1 as int,
            ),
            r matches Some(l) ==> {
                &&& l.wf()
                &&& l.input_dims() == input_shape.dims()
                &&& l.output_dims() =~= seq![
                    axis_extent(
                        input_shape.dims()[0] as int,
                        padding.0.resolve_spec().0 as int,
                        padding.0.resolve_spec().1 as int,
                        dilation.0 as int,
                        pool_size.0 as int,
                        strides.0 as int,
                    ) as usize,
                    axis_extent(
                        input_shape.dims()[1] as int,
                        padding.1.resolve_spec().0 as int,
                        padding.1.resolve_spec().1 as int,
                        dilation.1 as int,
                        pool_size.1 as int,
                        strides.1 as int,
                    ) as usize,
                    input_shape.dims()[2],
                ]
                &&& l.geometry() == (
                    pool_size.0,
                    pool_size.1,
                    padding.0.resolve_spec().0,
                    padding.1.resolve_spec().0,
                    strides.0,
                    strides.1,
                    dilation.0,
                    dilation.1,
                )
            },
    {
        if input_shape.capacity() == 0 {
            return None;
        }
        let g = match pooling_geometry(&input_shape, pool_size, padding, strides, dilation) {
            Some(g) => g,
            None => {
                return None;
            },
        };
        Some(
            Pooling2D {
                input_shape,
                output_shape: g.0,
                pool0: pool_size.0,
                pool1: pool_size.1,
                pad0: g.1,
                pad1: g.2,
                str0: strides.0,
                str1: strides.1,
                dil0: dilation.0,
                dil1: dilation.1,
                marker: Max {  },
            },
        )
    }

    /// Each window's running maximum together with the flat input
    /// offset that won it.
    fn forward_parts(&self, input: &Tensor<i64>) -> (r: (Tensor<i64>, Vec<usize>))
        requires
            self.wf(),
            input.wf(),
            input.dims() == self.input_dims(),
        ensures
            r.0.wf(),
            r.0.dims() == self.output_dims(),
            r.0.data_seq() =~= self.forward_spec(input.data_seq()),
            r.1@.len() == dims_product(self.output_dims()),
            forall|p: int|
                0 <= p < r.1@.len() ==> (#[trigger] r.1@[p] as int) == self.max_acc(
                    input.data_seq(),
                    p,
                    self.pq(),
                ).1 && (r.1@[p] as int) < dims_product(self.input_dims()),
    {
        let ghost x = input.data_seq();
        proof {
            lemma_tensor_capacity_fits(*input);
            crate::shape::lemma_shape_capacity_fits(&self.output_shape);
        }
        let out_cap = self.output_shape.capacity();
        let pq = self.window_count();
        let mut out = Tensor::zero(self.output_shape.clone());
        let mut winners: Vec<usize> = Vec::new();
        let mut p: usize = 0;
        while p < out_cap
            invariant
                p <= out_cap,
                self.wf(),
                input.wf(),
                input.dims() == self.input_dims(),
                x == input.data_seq(),
                out_cap == dims_product(self.output_dims()),
                pq as int == self.pq(),
                input.data_seq().len() == dims_product(self.input_dims()),
                out.wf(),
                out.dims() == self.output_dims(),
                out.data_seq().len() == out_cap,
                winners@.len() == p,
                forall|j: int|
                    0 <= j < p ==> out.data_seq()[j] == self.max_acc(x, j, self.pq()).0,
                forall|j: int|
                    0 <= j < p ==> (#[trigger] winners@[j] as int) == self.max_acc(
                        x,
                        j,
                        self.pq(),
                    ).1 && (winners@[j] as int) < dims_product(self.input_dims()),
            decreases out_cap - p,
        {
            let mut best: i64 = 0;
            let mut win: usize = 0;
            let mut q: usize = 0;
            while q < pq
                invariant
                    q <= pq,
                    p < out_cap,
                    self.wf(),
                    input.wf(),
                    input.dims() == self.input_dims(),
                    x == input.data_seq(),
                    out_cap == dims_product(self.output_dims()),
                    pq as int == self.pq(),
                    input.data_seq().len() == dims_product(self.input_dims()),
                    best == self.max_acc(x, p as int, q as int).0,
                    win as int == self.max_acc(x, p as int, q as int).1,
                    (win as int) < dims_product(self.input_dims()),
                decreases pq - q,
            {
                let (valid, ii) = self.tap_at(p, q);
                if valid {
                    let v = *input.flat_get(ii);
                    if v > best {
                        best = v;
                        win = ii;
                    }
                }
                q += 1;
            }
            out.flat_set(p, best);
            winners.push(win);
            p += 1;
        }
        (out, winners)
    }

    /// The pure forward evaluation: each output element is its
    /// window's maximum, seeded at zero.
    pub fn feed_forward(&self, input: &Tensor<i64>) -> (r: Tensor<i64>)
        requires
            self.wf(),
            input.wf(),
            input.dims() == self.input_dims(),
        ensures
            r.wf(),
            r.dims() == self.output_dims(),
            r.data_seq() =~= self.forward_spec(input.data_seq()),
    {
        let (out, _winners) = self.forward_parts(input);
        out
    }

    /// Computes the same output as `feed_forward` and captures the
    /// winning offsets as the one-shot backward context.
    pub fn back_propagate(&self, input: &Tensor<i64>) -> (r: (Tensor<i64>, MaxPoolCtx))
        requires
            self.wf(),
            input.wf(),
            input.dims() == self.input_dims(),
        ensures
            r.0.wf(),
            r.0.dims() == self.output_dims(),
            r.0.data_seq() =~= self.forward_spec(input.data_seq()),
            self.ctx_matches(r.1),
            forall|p: int|
                0 <= p < dims_product(self.output_dims()) ==> (#[trigger] self.ctx_winners(
                    r.1,
                )[p] as int) == self.max_acc(input.data_seq(), p, self.pq()).1,
    {
        let (out, winners) = self.forward_parts(input);
        (out, MaxPoolCtx { winners })
    }

    /// Consumes the backward context and the output gradient; each
    /// output element's gradient is routed to the offset that won its
    /// window. The layer has no parameters.
    pub fn backward(&self, ctx: MaxPoolCtx, output_d: &Tensor<i64>) -> (r: Tensor<i64>)
        requires
            self.wf(),
            self.ctx_matches(ctx),
            output_d.wf(),
            output_d.dims() == self.output_dims(),
        ensures
            r.wf(),
            r.dims() == self.input_dims(),
            r.data_seq() == self.bwd_state(
                output_d.data_seq(),
                self.ctx_winners(ctx),
                Seq::new(dims_product(self.input_dims()), |i: int| 0i64),
                dims_product(self.output_dims()) as int,
            ),
    {
        let ghost g = output_d.data_seq();
        let ghost ws = ctx.winners@;
        let ghost id0 = Seq::new(dims_product(self.input_dims()), |i: int| 0i64);
        proof {
            lemma_tensor_capacity_fits(*output_d);
            crate::shape::lemma_shape_capacity_fits(&self.input_shape);
        }
        let out_cap = self.output_shape.capacity();
        let mut input_d = Tensor::zero(self.input_shape.clone());
        proof {
            assert(input_d.data_seq() =~= id0);
        }
        let mut p: usize = 0;
        while p < out_cap
            invariant
                p <= out_cap,
                self.wf(),
                self.ctx_matches(ctx),
                output_d.wf(),
                output_d.dims() == self.output_dims(),
                g == output_d.data_seq(),
                ws == ctx.winners@,
                g.len() == out_cap,
                out_cap == dims_product(self.output_dims()),
                id0 == Seq::new(dims_product(self.input_dims()), |i: int| 0i64),
                input_d.wf(),
                input_d.dims() == self.input_dims(),
                input_d.data_seq() == self.bwd_state(g, ws, id0, p as int),
            decreases out_cap - p,
        {
            proof {
                lemma_tensor_capacity_fits(input_d);
            }
            input_d.flat_set(ctx.winners[p], *output_d.flat_get(p));
            p += 1;
        }
        input_d
    }
}

/// A window's in-bounds position count never exceeds its size.
pub proof fn lemma_count_le<M>(layer: Pooling2D<M>, p: int, q: int)
    requires
        q >= 0,
    ensures
        layer.count_acc(p, q) <= q,
    decreases q,
{
    if q > 0 {
        lemma_count_le(layer, p, q - 1);
    }
}

/// Every output coordinate of one spatial axis has at least one
/// window position that is not cut off by the padding.
pub open spec fn axis_covered(out_n: int, k_n: int, dil: int, st: int, pad: int) -> bool {
    forall|o: int| #![trigger o * dil]
        0 <= o < out_n ==> exists|k: int| #![trigger k * st]
            0 <= k < k_n && o * dil + k * st >= pad
}

/// Checks one spatial axis's window coverage, coordinate by
/// coordinate.
pub fn check_axis_covered(out_n: usize, k_n: usize, dil: usize, st: usize, pad: usize) -> (r: bool)
    ensures
        r == axis_covered(out_n as int, k_n as int, dil as int, st as int, pad as int),
{
    let mut o: usize = 0;
    while o < out_n
        invariant
            o <= out_n,
            axis_covered(o as int, k_n as int, dil as int, st as int, pad as int),
        decreases out_n - o,
    {
        let mut k: usize = 0;
        let mut found = false;
        while k < k_n
            invariant
                k <= k_n,
                o < out_n,
                found ==> exists|kk: int| #![trigger kk * (st as int)]
                    0 <= kk < k_n && (o as int) * (dil as int) + kk * (st as int) >= pad,
                !found ==> forall|kk: int| #![trigger kk * (st as int)]
                    0 <= kk < k ==> (o as int) * (dil as int) + kk * (st as int) < pad,
            decreases k_n - k,
        {
            proof {
                assert((o as int) * (dil as int) >= 0) by (nonlinear_arith);
                assert((k as int) * (st as int) >= 0) by (nonlinear_arith);
            }
            let a = o.checked_mul(dil);
            let b = k.checked_mul(st);
            let t: Option<usize> = match (a, b) {
                (Some(av), Some(bv)) => av.checked_add(bv),
                _ => None,
            };
            match t {
                Some(tv) => {
                    if tv >= pad {
                        found = true;
                    }
                },
                None => {
                    // the mapped coordinate exceeds the machine, so it
                    // certainly clears the padding
                    proof {
                        assert((o as int) * (dil as int) + (k as int) * (st as int) > usize::MAX);
                    }
                    found = true;
                },
            }
            k += 1;
        }
        if !found {
            proof {
                assert(!axis_covered(out_n as int, k_n as int, dil as int, st as int, pad as int))
                    by {
                    if axis_covered(out_n as int, k_n as int, dil as int, st as int, pad as int) {
                        assert((o as int) * (dil as int) >= 0) by (nonlinear_arith);
                        let kw = choose|kk: int| #![trigger kk * (st as int)]
                            0 <= kk < k_n && (o as int) * (dil as int) + kk * (st as int) >= pad;
                        assert((o as int) * (dil as int) + kw * (st as int) < pad);
                    }
                }
            }
            return false;
        }
        proof {
            assert(axis_covered(o + 1, k_n as int, dil as int, st as int, pad as int)) by {
                assert forall|oo: int| #![trigger oo * (dil as int)]
                    0 <= oo < o + 1 implies exists|k: int| #![trigger k * (st as int)]
                    0 <= k < k_n && oo * (dil as int) + k * (st as int) >= pad by {
                    if oo < o as int {
                        assert(oo * (dil as int) >= 0) by (nonlinear_arith)
                            requires oo >= 0 && (dil as int) >= 0;
                    }
                }
            }
        }
        o += 1;
    }
    true
}

/// Everything the shared pooling construction validates: a
/// rank-three input, positive strides and window extents, both
/// output extents defined, the window size and the output capacity
/// fitting the machine, and every window access staying inside the
/// input.
pub open spec fn pooling_geometry_ok(
    input_dims: Seq<usize>,
    pool: (int, int),
    pad0: (int, int),
    pad1: (int, int),
    s0: int,
    s1: int,
    d0: int,
    d1: int,
) -> bool {
    &&& input_dims.len() == 3
    &&& s0 >= 1
    &&& s1 >= 1
    &&& pool.0 >= 1
    &&& pool.1 >= 1
    &&& ({
        let in0 = input_dims[0] as int;
        let in1 = input_dims[1] as int;
        let in2 = input_dims[2] as int;
        let e0 = axis_extent(in0, pad0.0, pad0.1, d0, pool.0, s0);
        let e1 = axis_extent(in1, pad1.0, pad1.1, d1, pool.1, s1);
        &&& axis_extent_ok(in0, pad0.0, pad0.1, d0, pool.0, s0)
        &&& axis_extent_ok(in1, pad1.0, pad1.1, d1, pool.1, s1)
        &&& pool.0 * pool.1 <= usize::MAX
        &&& e1 * in2 <= usize::MAX
        &&& e0 * (e1 * in2) <= usize::MAX
        &&& axis_ok(e0, pool.0, d0, s0, pad0.0, in0)
        &&& axis_ok(e1, pool.1, d1, s1, pad1.0, in1)
    })
}

/// The shared validated construction: resolves paddings, computes
/// the output extents, and checks every window access.
fn pooling_geometry(
    input_shape: &Shape,
    pool_size: (usize, usize),
    padding: (Padding, Padding),
    strides: (usize, usize),
    dilation: (usize, usize),
) -> (r: Option<(Shape, usize, usize)>)
    requires
        input_shape.wf(),
    ensures
        r is Some <==> pooling_geometry_ok(
            input_shape.dims(),
            (pool_size.0 as int, pool_size.1 as int),
            (padding.0.resolve_spec().0 as int, padding.0.resolve_spec().1 as int),
            (padding.1.resolve_spec().0 as int, padding.1.resolve_spec().1 as int),
            strides.0 as int,
            strides.1 as int,
            dilation.0 as int,
            dilation.1 as int,
        ),
        r matches Some(g) ==> g.0.dims() =~= seq![
            axis_extent(
                input_shape.dims()[0] as int,
                padding.0.resolve_spec().0 as int,
                padding.0.resolve_spec().1 as int,
                dilation.0 as int,
                pool_size.0 as int,
                strides.0 as int,
            ) as usize,
            axis_extent(
                input_shape.dims()[1] as int,
                padding.1.resolve_spec().0 as int,
                padding.1.resolve_spec().1 as int,
                dilation.1 as int,
                pool_size.1 as int,
                strides.1 as int,
            ) as usize,
            input_shape.dims()[2],
        ],
        r matches Some(g) ==> {
            &&& g.0.wf()
            &&& g.0.dims().len() == 3
            &&& input_shape.dims().len() == 3
            &&& g.0.dims()[2] == input_shape.dims()[2]
            &&& (pool_size.0 as int) * (pool_size.1 as int) <= usize::MAX
            &&& axis_ok(
                g.0.dims()[0] as int,
                pool_size.0 as int,
                dilation.0 as int,
                strides.0 as int,
                g.1 as int,
                input_shape.dims()[0] as int,
            )
            &&& axis_ok(
                g.0.dims()[1] as int,
                pool_size.1 as int,
                dilation.1 as int,
                strides.1 as int,
                g.2 as int,
                input_shape.dims()[1] as int,
            )
            &&& g.1 == padding.0.resolve_spec().0
            &&& g.2 == padding.1.resolve_spec().0
        },
{
    if input_shape.dimensions() != 3 {
        return None;
    }
    if strides.0 == 0 || strides.1 == 0 || pool_size.0 == 0 || pool_size.1 == 0 {
        return None;
    }
    let in0 = input_shape.dim(0);
    let in1 = input_shape.dim(1);
    let in2 = input_shape.dim(2);
    let p0 = padding.0.resolve();
    let p1 = padding.1.resolve();
    let out0 = match conv_out_extent(in0, p0.0, p0.1, dilation.0, pool_size.0, strides.0) {
        Some(v) => v,
        None => {
            return None;
        },
    };
    let out1 = match conv_out_extent(in1, p1.0, p1.1, dilation.1, pool_size.1, strides.1) {
        Some(v) => v,
        None => {
            return None;
        },
    };
    if pool_size.0.checked_mul(pool_size.1).is_none() {
        return None;
    }
    let output_shape = match crate::layers::conv2d::make_shape3(out0, out1, in2) {
        Some(s) => s,
        None => {
            return None;
        },
    };
    if !check_axis(out0, pool_size.0, dilation.0, strides.0, p0.0, in0) {
        return None;
    }
    if !check_axis(out1, pool_size.1, dilation.1, strides.1, p1.0, in1) {
        return None;
    }
    Some((output_shape, p0.0, p1.0))
}

} // verus!
