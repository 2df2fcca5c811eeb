//! The merge layer: sums several same-shaped inputs into one output.
//! Its backward pass hands the output gradient to every input.

use vstd::prelude::*;

use crate::shape::Shape;
use crate::tensor::{sum_data, Tensor};

verus! {

/// Sums `count` inputs of one shape elementwise.
pub struct Merge {
    shape: Shape,
    count: usize,
}

/// The one-shot backward context of a merge layer; the backward pass
/// needs nothing from the forward pass.
pub struct MergeCtx {}

impl Merge {
    /// The shape every input and the output share.
    pub closed spec fn shape_dims(&self) -> Seq<usize> {
        self.shape.dims()
    }

    /// How many inputs are merged.
    pub closed spec fn count_spec(&self) -> nat {
        self.count as nat
    }

    /// The held shape is well formed and at least one input comes in.
    pub closed spec fn wf(&self) -> bool {
        self.shape.wf() && self.count > 0
    }

    /// A merge of `count` inputs of the given shape.
    pub fn new(shape: Shape, count: usize) -> (r: Merge)
        requires
            shape.wf(),
            count > 0,
        ensures
            r.wf(),
            r.shape_dims() == shape.dims(),
            r.count_spec() == count,
    {
        Merge { shape, count }
    }

    /// The shared input and output shape.
    pub fn get_input_shape(&self) -> (s: &Shape)
        ensures
            s.dims() == self.shape_dims(),
            self.wf() ==> s.wf(),
    {
        &self.shape
    }

    /// The output shape: the same as each input.
    pub fn get_output_shape(&self) -> (s: &Shape)
        ensures
            s.dims() == self.shape_dims(),
            self.wf() ==> s.wf(),
    {
        &self.shape
    }

    /// The elementwise sum of the inputs, accumulated pairwise.
    pub fn feed_forward(&self, inputs: &Vec<Tensor<i64>>) -> (r: Tensor<i64>)
        requires
            self.wf(),
            inputs@.len() == self.count_spec(),
            forall|i: int| 0 <= i < inputs@.len() ==> (#[trigger] inputs@[i]).wf(),
            forall|i: int|
                0 <= i < inputs@.len() ==> (#[trigger] inputs@[i]).dims() == self.shape_dims(),
        ensures
            r.wf(),
            r.dims() == self.shape_dims(),
            r.data_seq() == sum_data(inputs@),
    {
        let n = inputs.len();
        let mut out = inputs[0].clone();
        proof {
            assert(inputs@.take(1).drop_last() =~= Seq::<Tensor<i64>>::empty());
            assert(inputs@.take(1) =~= seq![inputs@[0]]);
            assert(sum_data(inputs@.take(1)) == inputs@[0].data_seq());
        }
        let mut i: usize = 1;
        while i < n
            invariant
                1 <= i <= n,
                n == inputs@.len(),
                forall|j: int| 0 <= j < n ==> (#[trigger] inputs@[j]).wf(),
                forall|j: int| 0 <= j < n ==> (#[trigger] inputs@[j]).dims() == self.shape_dims(),
                out.wf(),
                out.dims() == self.shape_dims(),
                out.data_seq() == sum_data(inputs@.take(i as int)),
            decreases n - i,
        {
            out.add_assign(&inputs[i]);
            i += 1;
            proof {
                let t = inputs@.take(i as int);
                assert(t.drop_last() =~= inputs@.take(i - 1));
                assert(t.last() == inputs@[i - 1]);
            }
        }
        proof {
            assert(inputs@.take(n as int) =~= inputs@);
        }
        out
    }

    /// Computes the same output as `feed_forward`; the backward pass
    /// needs no captured state.
    pub fn back_propagate(&self, inputs: &Vec<Tensor<i64>>) -> (r: (Tensor<i64>, MergeCtx))
        requires
            self.wf(),
            inputs@.len() == self.count_spec(),
            forall|i: int| 0 <= i < inputs@.len() ==> (#[trigger] inputs@[i]).wf(),
            forall|i: int|
                0 <= i < inputs@.len() ==> (#[trigger] inputs@[i]).dims() == self.shape_dims(),
        ensures
            r.0.wf(),
            r.0.dims() == self.shape_dims(),
            r.0.data_seq() == sum_data(inputs@),
    {
        (self.feed_forward(inputs), MergeCtx {  })
    }

    /// Consumes the backward context and the output gradient; every
    /// input receives the whole output gradient. The layer has no
    /// parameters.
    pub fn backward(&self, _ctx: MergeCtx, output_d: &Tensor<i64>) -> (r: Vec<Tensor<i64>>)
        requires
            self.wf(),
            output_d.wf(),
            output_d.dims() == self.shape_dims(),
        ensures
            r@.len() == self.count_spec(),
            forall|i: int|
                0 <= i < r@.len() ==> (#[trigger] r@[i]).wf() && r@[i].dims() == self.shape_dims()
                    && r@[i].data_seq() == output_d.data_seq(),
    {
        let n = self.count;
        let mut out: Vec<Tensor<i64>> = Vec::new();
        let mut i: usize = 0;
        while i < n
            invariant
                i <= n,
                output_d.wf(),
                output_d.dims() == self.shape_dims(),
                out@.len() == i,
                forall|j: int|
                    0 <= j < i ==> (#[trigger] out@[j]).wf() && out@[j].dims()
                        == self.shape_dims() && out@[j].data_seq() == output_d.data_seq(),
            decreases n - i,
        {
            out.push(output_d.clone());
            i += 1;
        }
        out
    }
}

} // verus!
