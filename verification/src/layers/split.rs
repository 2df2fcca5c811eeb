//! The split layer: fans one input out into several identical
//! outputs. Its backward pass sums the output gradients.

use vstd::prelude::*;

use crate::shape::Shape;
use crate::tensor::{sum_data, Tensor};

verus! {

/// Copies one input to `count` outputs.
pub struct Split {
    shape: Shape,
    count: usize,
}

/// The one-shot backward context of a split layer; the backward pass
/// needs nothing from the forward pass.
pub struct SplitCtx {}

impl Split {
    /// The shape the input and every output share.
    pub closed spec fn shape_dims(&self) -> Seq<usize> {
        self.shape.dims()
    }

    /// How many outputs come out.
    pub closed spec fn count_spec(&self) -> nat {
        self.count as nat
    }

    /// The held shape is well formed and at least one output goes
    /// out.
    pub closed spec fn wf(&self) -> bool {
        self.shape.wf() && self.count > 0
    }

    /// A split into `count` outputs of the given shape.
    pub fn new(shape: Shape, count: usize) -> (r: Split)
        requires
            shape.wf(),
            count > 0,
        ensures
            r.wf(),
            r.shape_dims() == shape.dims(),
            r.count_spec() == count,
    {
        Split { shape, count }
    }

    /// The shared input and output shape.
    pub fn get_input_shape(&self) -> (s: &Shape)
        ensures
            s.dims() == self.shape_dims(),
            self.wf() ==> s.wf(),
    {
        &self.shape
    }

    /// The output shape: the same as the input.
    pub fn get_output_shape(&self) -> (s: &Shape)
        ensures
            s.dims() == self.shape_dims(),
            self.wf() ==> s.wf(),
    {
        &self.shape
    }

    /// `count` copies of the input.
    pub fn feed_forward(&self, input: &Tensor<i64>) -> (r: Vec<Tensor<i64>>)
        requires
            self.wf(),
            input.wf(),
            input.dims() == self.shape_dims(),
        ensures
            r@.len() == self.count_spec(),
            forall|i: int|
                0 <= i < r@.len() ==> (#[trigger] r@[i]).wf() && r@[i].dims() == self.shape_dims()
                    && r@[i].data_seq() == input.data_seq(),
    {
        let n = self.count;
        let mut out: Vec<Tensor<i64>> = Vec::new();
        let mut i: usize = 0;
        while i < n
            invariant
                i <= n,
                input.wf(),
                input.dims() == self.shape_dims(),
                out@.len() == i,
                forall|j: int|
                    0 <= j < i ==> (#[trigger] out@[j]).wf() && out@[j].dims()
                        == self.shape_dims() && out@[j].data_seq() == input.data_seq(),
            decreases n - i,
        {
            out.push(input.clone());
            i += 1;
        }
        out
    }

    /// Computes the same outputs as `feed_forward`; the backward pass
    /// needs no captured state.
    pub fn back_propagate(&self, input: &Tensor<i64>) -> (r: (Vec<Tensor<i64>>, SplitCtx))
        requires
            self.wf(),
            input.wf(),
            input.dims() == self.shape_dims(),
        ensures
            r.0@.len() == self.count_spec(),
            forall|i: int|
                0 <= i < r.0@.len() ==> (#[trigger] r.0@[i]).wf() && r.0@[i].dims()
                    == self.shape_dims() && r.0@[i].data_seq() == input.data_seq(),
    {
        (self.feed_forward(input), SplitCtx {  })
    }

    /// Consumes the backward context and the per-output gradients;
    /// the input gradient is their elementwise sum. The layer has no
    /// parameters.
    pub fn backward(&self, _ctx: SplitCtx, output_ds: &Vec<Tensor<i64>>) -> (r: Tensor<i64>)
        requires
            self.wf(),
            output_ds@.len() == self.count_spec(),
            forall|i: int| 0 <= i < output_ds@.len() ==> (#[trigger] output_ds@[i]).wf(),
            forall|i: int|
                0 <= i < output_ds@.len() ==> (#[trigger] output_ds@[i]).dims()
                    == self.shape_dims(),
        ensures
            r.wf(),
            r.dims() == self.shape_dims(),
            r.data_seq() == sum_data(output_ds@),
    {
        let n = output_ds.len();
        let mut out = output_ds[0].clone();
        proof {
            assert(output_ds@.take(1).drop_last() =~= Seq::<Tensor<i64>>::empty());
            assert(output_ds@.take(1) =~= seq![output_ds@[0]]);
            assert(sum_data(output_ds@.take(1)) == output_ds@[0].data_seq());
        }
        let mut i: usize = 1;
        while i < n
            invariant
                1 <= i <= n,
                n == output_ds@.len(),
                forall|j: int| 0 <= j < n ==> (#[trigger] output_ds@[j]).wf(),
                forall|j: int|
                    0 <= j < n ==> (#[trigger] output_ds@[j]).dims() == self.shape_dims(),
                out.wf(),
                out.dims() == self.shape_dims(),
                out.data_seq() == sum_data(output_ds@.take(i as int)),
            decreases n - i,
        {
            out.add_assign(&output_ds[i]);
            i += 1;
            proof {
                let t = output_ds@.take(i as int);
                assert(t.drop_last() =~= output_ds@.take(i - 1));
                assert(t.last() == output_ds@[i - 1]);
            }
        }
        proof {
            assert(output_ds@.take(n as int) =~= output_ds@);
        }
        out
    }
}

} // verus!
