//! The embedding layer: a lookup table of one learnable row per
//! index. Its input is a scalar index tensor; its output the selected
//! row. Only the selected row receives gradient.

use vstd::prelude::*;

use crate::constraints::Constraint;
use crate::regularizers::Regularization;
use crate::shape::{dims_product, Shape};
use crate::tensor::{lemma_tensor_capacity_fits, wadd, wsub, Tensor};

verus! {

/// A lookup table of `max_size` rows of `output_size` learnable
/// values each.
pub struct Embedding {
    output_shape: Shape,
    embedding: Tensor<i64>,
    regularizer: Regularization,
    constraint: Constraint,
}

/// The one-shot backward context of an embedding layer: the index the
/// forward pass selected and the regularization of the selected row.
pub struct EmbeddingCtx {
    index: usize,
    reg_row: Tensor<i64>,
}

impl EmbeddingCtx {
    /// The index the forward pass selected.
    pub closed spec fn index_spec(&self) -> nat {
        self.index as nat
    }
}

impl Embedding {
    /// How many rows the table holds.
    pub closed spec fn max_size(&self) -> nat {
        self.embedding.dims()[0] as nat
    }

    /// How many values one row holds.
    pub closed spec fn out_size(&self) -> nat {
        dims_product(self.output_shape.dims())
    }

    /// The table's elements, flat, row by row.
    pub closed spec fn table_data(&self) -> Seq<i64> {
        self.embedding.data_seq()
    }

    /// The regularizer applied to the selected row.
    pub closed spec fn regularizer_spec(&self) -> Regularization {
        self.regularizer
    }

    /// The constraint applied to the table after an update.
    pub closed spec fn constraint_spec(&self) -> Constraint {
        self.constraint
    }

    /// The output shape is one axis of the row width, and the table
    /// holds one row per index.
    pub closed spec fn wf(&self) -> bool {
        &&& self.output_shape.wf()
        &&& self.output_shape.dims().len() == 1
        &&& self.embedding.wf()
        &&& self.embedding.dims().len() == 2
        &&& self.embedding.dims()[1] == self.output_shape.dims()[0]
        &&& self.max_size() * self.out_size() <= usize::MAX
    }

    /// What `feed_forward` returns for a selected index: the row at
    /// that index.
    pub open spec fn row_spec(&self, idx: int) -> Seq<i64> {
        Seq::new(self.out_size(), |i: int| self.table_data()[idx * (self.out_size() as int) + i])
    }

    /// Builds the table with constant-initialized rows.
    pub fn new(
        max_size: usize,
        output_size: usize,
        initializer: i64,
        regularizer: Regularization,
        constraint: Constraint,
    ) -> (r: Embedding)
        requires
            max_size * output_size <= usize::MAX,
        ensures
            r.wf(),
            r.max_size() == max_size,
            r.out_size() == output_size,
            forall|p: int| 0 <= p < r.table_data().len() ==> r.table_data()[p] == initializer,
            r.table_data().len() == max_size * output_size,
    {
        let mut odims: Vec<usize> = Vec::new();
        odims.push(output_size);
        proof {
            reveal_with_fuel(dims_product, 3);
            assert(odims@ =~= seq![output_size]);
            assert(odims@.drop_first().len() == 0);
            assert(odims@.skip(1).len() == 0);
            assert(odims@.skip(0) =~= odims@);
            assert((output_size as nat) * 1 == output_size as nat) by (nonlinear_arith);
        }
        let output_shape = Shape::new(odims);
        let mut tdims: Vec<usize> = Vec::new();
        tdims.push(max_size);
        tdims.push(output_size);
        proof {
            reveal_with_fuel(dims_product, 3);
            assert(tdims@ =~= seq![max_size, output_size]);
            assert(tdims@.skip(2).len() == 0);
            assert(tdims@.skip(1) =~= seq![output_size]);
            assert(tdims@.skip(0) =~= tdims@);
            assert(seq![output_size].drop_first().len() == 0);
            assert(tdims@.drop_first() =~= seq![output_size]);
            assert(dims_product(seq![output_size]) == (output_size as nat) * 1);
            assert((output_size as nat) * 1 == output_size as nat) by (nonlinear_arith);
            assert(dims_product(tdims@) == (max_size as nat) * (output_size as nat));
        }
        let table_shape = Shape::new(tdims);
        let mut init: i64 = initializer;
        let embedding = crate::initializers::Initializer::initialize(&mut init, table_shape);
        proof {
            lemma_tensor_capacity_fits(embedding);
        }
        Embedding { output_shape, embedding, regularizer, constraint }
    }

    /// The output shape the layer produces.
    pub fn get_output_shape(&self) -> (s: &Shape)
        ensures
            s.dims().len() == 1 ==> s.dims()[0] as nat == dims_product(s.dims()),
            s.dims() == self.output_shape_dims(),
            self.wf() ==> s.wf(),
    {
        proof {
            if self.output_shape.dims().len() == 1 {
                reveal_with_fuel(dims_product, 3);
                let d = self.output_shape.dims();
                assert(d.drop_first().len() == 0);
                assert((d[0] as nat) * 1 == d[0] as nat) by (nonlinear_arith);
            }
        }
        &self.output_shape
    }

    /// The extents of the output shape.
    pub closed spec fn output_shape_dims(&self) -> Seq<usize> {
        self.output_shape.dims()
    }

    /// Looks the selected row up: the output is exactly the row at
    /// the scalar index held by the input tensor.
    pub fn feed_forward(&self, input: &Tensor<usize>) -> (r: Tensor<i64>)
        requires
            self.wf(),
            input.wf(),
            input.dims().len() == 0,
            (input.data_seq()[0] as nat) < self.max_size(),
        ensures
            r.wf(),
            r.dims() == self.output_shape_dims(),
            r.data_seq() =~= self.row_spec(input.data_seq()[0] as int),
    {
        let empty_idx: Vec<usize> = Vec::new();
        proof {
            assert(empty_idx@ =~= Seq::<usize>::empty());
            assert(crate::shape::index_in_bounds(input.dims(), empty_idx@));
            assert(crate::shape::flat_index(input.dims(), empty_idx@) == 0);
            lemma_tensor_capacity_fits(*input);
        }
        let index: usize = *input.get(&empty_idx);
        self.row_at(index)
    }

    /// The row at one index.
    fn row_at(&self, index: usize) -> (r: Tensor<i64>)
        requires
            self.wf(),
            (index as nat) < self.max_size(),
        ensures
            r.wf(),
            r.dims() == self.output_shape_dims(),
            r.data_seq() =~= self.row_spec(index as int),
    {
        let out_size = self.output_shape.capacity();
        proof {
            lemma_tensor_capacity_fits(self.embedding);
            reveal_with_fuel(dims_product, 3);
            let ed = self.embedding.dims();
            assert(ed.drop_first() =~= seq![ed[1]]);
            assert(seq![ed[1]].drop_first().len() == 0);
            assert((ed[1] as nat) * 1 == ed[1] as nat) by (nonlinear_arith);
            assert(self.embedding.data_seq().len() == (ed[0] as nat) * (ed[1] as nat));
        }
        let mut out = Tensor::zero(self.output_shape.clone());
        let mut i: usize = 0;
        proof {
            assert((index + 1) * (out_size as int) <= (self.max_size() as int) * (
            out_size as int)) by (nonlinear_arith)
                requires index + 1 <= self.max_size() as int && out_size as int >= 0;
            assert(index * (out_size as int) + out_size == (index + 1) * (out_size as int))
                by (nonlinear_arith);
        }
        while i < out_size
            invariant
                i <= out_size,
                self.wf(),
                (index as nat) < self.max_size(),
                out_size == self.out_size(),
                self.embedding.data_seq().len() == (self.max_size() as int) * (out_size as int),
                (index + 1) * (out_size as int) <= (self.max_size() as int) * (out_size as int),
                index * (out_size as int) + out_size == (index + 1) * (out_size as int),
                out.wf(),
                out.dims() == self.output_shape_dims(),
                out.data_seq().len() == out_size,
                forall|j: int|
                    0 <= j < i ==> out.data_seq()[j] == self.table_data()[index * (
                    out_size as int) + j],
            decreases out_size - i,
        {
            let v = *self.embedding.flat_get(index * out_size + i);
            out.flat_set(i, v);
            i += 1;
        }
        out
    }

    /// Computes the same output as `feed_forward` and captures the
    /// one-shot backward context: the selected index and the
    /// regularization of the selected row.
    pub fn back_propagate(&self, input: &Tensor<usize>) -> (r: (Tensor<i64>, EmbeddingCtx))
        requires
            self.wf(),
            input.wf(),
            input.dims().len() == 0,
            (input.data_seq()[0] as nat) < self.max_size(),
        ensures
            r.0.wf(),
            r.0.dims() == self.output_shape_dims(),
            r.0.data_seq() =~= self.row_spec(input.data_seq()[0] as int),
            self.ctx_matches(r.1),
            r.1.index_spec() == input.data_seq()[0] as nat,
    {
        let empty_idx: Vec<usize> = Vec::new();
        proof {
            assert(empty_idx@ =~= Seq::<usize>::empty());
            assert(crate::shape::index_in_bounds(input.dims(), empty_idx@));
            assert(crate::shape::flat_index(input.dims(), empty_idx@) == 0);
            lemma_tensor_capacity_fits(*input);
        }
        let index: usize = *input.get(&empty_idx);
        let out = self.row_at(index);
        let reg_row = self.regularizer.derive(&out);
        (out, EmbeddingCtx { index, reg_row })
    }

    /// The captured context selects a row of this table and holds the
    /// regularization of that row's output.
    pub closed spec fn ctx_matches(&self, ctx: EmbeddingCtx) -> bool {
        &&& (ctx.index as nat) < self.max_size()
        &&& ctx.reg_row.wf()
        &&& ctx.reg_row.dims() == self.output_shape_dims()
        &&& ctx.reg_row.data_seq() =~= Seq::new(
            self.out_size(),
            |i: int| self.regularizer_spec().derive_spec(self.row_spec(ctx.index as int)[i]),
        )
    }

    /// What the backward pass hands back for the table: zero
    /// everywhere but the selected row, which receives the output
    /// gradient plus the row's regularization.
    pub open spec fn table_grad_spec(&self, idx: int, g: Seq<i64>) -> Seq<i64> {
        Seq::new(
            self.max_size() * self.out_size(),
            |p: int|
                if idx * (self.out_size() as int) <= p < (idx + 1) * (self.out_size() as int) {
                    wadd(
                        g[p - idx * (self.out_size() as int)],
                        self.regularizer_spec().derive_spec(
                            self.row_spec(idx)[p - idx * (self.out_size() as int)],
                        ),
                    )
                } else {
                    0i64
                },
        )
    }

    /// Consumes a backward context and the gradient with respect to
    /// the output; returns, as the single update payload, the table
    /// gradient. The input is an index, so no input gradient comes
    /// back.
    pub fn backward(&self, ctx: EmbeddingCtx, output_d: &Tensor<i64>) -> (r: Vec<Tensor<i64>>)
        requires
            self.wf(),
            self.ctx_matches(ctx),
            output_d.wf(),
            output_d.dims() == self.output_shape_dims(),
        ensures
            r@.len() == 1,
            r@[0].wf(),
            r@[0].dims() == self.table_dims(),
            r@[0].data_seq() =~= self.table_grad_spec(ctx.index_spec() as int, output_d.data_seq()),
    {
        let out_size = self.output_shape.capacity();
        proof {
            lemma_tensor_capacity_fits(self.embedding);
            lemma_tensor_capacity_fits(*output_d);
            reveal_with_fuel(dims_product, 3);
            let ed = self.embedding.dims();
            assert(ed.drop_first() =~= seq![ed[1]]);
            assert(seq![ed[1]].drop_first().len() == 0);
            assert((ed[1] as nat) * 1 == ed[1] as nat) by (nonlinear_arith);
            assert(self.embedding.data_seq().len() == (ed[0] as nat) * (ed[1] as nat));
        }
        let mut table_d = Tensor::zero(self.embedding.get_shape().clone());
        let index = ctx.index;
        let mut i: usize = 0;
        proof {
            assert((index + 1) * (out_size as int) <= (self.max_size() as int) * (
            out_size as int)) by (nonlinear_arith)
                requires index + 1 <= self.max_size() as int && out_size as int >= 0;
            assert(index * (out_size as int) + out_size == (index + 1) * (out_size as int))
                by (nonlinear_arith);
            assert(index * (out_size as int) >= 0) by (nonlinear_arith)
                requires index >= 0 && out_size as int >= 0;
        }
        while i < out_size
            invariant
                i <= out_size,
                self.wf(),
                self.ctx_matches(ctx),
                index == ctx.index,
                output_d.wf(),
                output_d.data_seq().len() == out_size,
                out_size == self.out_size(),
                self.embedding.data_seq().len() == (self.max_size() as int) * (out_size as int),
                (index + 1) * (out_size as int) <= (self.max_size() as int) * (out_size as int),
                index * (out_size as int) + out_size == (index + 1) * (out_size as int),
                index * (out_size as int) >= 0,
                table_d.wf(),
                table_d.dims() == self.table_dims(),
                table_d.data_seq().len() == self.embedding.data_seq().len(),
                forall|j: int|
                    0 <= j < i ==> table_d.data_seq()[index * (out_size as int) + j] == wadd(
                        output_d.data_seq()[j],
                        ctx.reg_row.data_seq()[j],
                    ),
                forall|p: int|
                    0 <= p < table_d.data_seq().len() && !(index * (out_size as int) <= p < index
                        * (out_size as int) + i) ==> table_d.data_seq()[p] == 0i64,
            decreases out_size - i,
        {
            let v = output_d.flat_get(i).wrapping_add(*ctx.reg_row.flat_get(i));
            table_d.flat_set(index * out_size + i, v);
            i += 1;
        }
        let mut out: Vec<Tensor<i64>> = Vec::new();
        out.push(table_d);
        proof {
            assert(out@[0].data_seq() =~= self.table_grad_spec(
                ctx.index_spec() as int,
                output_d.data_seq(),
            ));
        }
        out
    }

    /// The extents of the lookup table.
    pub open spec fn table_dims(&self) -> Seq<usize> {
        seq![self.max_size() as usize, self.out_size() as usize]
    }

    /// Applies one optimizer step: subtracts the table delta, then
    /// re-applies the value constraint to every element. The only
    /// mutation path of the layer.
    pub fn update(&mut self, deltas: &Vec<Tensor<i64>>) -> (nothing: ())
        requires
            old(self).wf(),
            deltas@.len() == 1,
            deltas@[0].wf(),
            deltas@[0].dims() == old(self).table_dims(),
        ensures
            final(self).wf(),
            final(self).max_size() == old(self).max_size(),
            final(self).out_size() == old(self).out_size(),
            final(self).output_shape_dims() == old(self).output_shape_dims(),
            final(self).regularizer_spec() == old(self).regularizer_spec(),
            final(self).constraint_spec() == old(self).constraint_spec(),
            final(self).table_data() =~= Seq::new(
                old(self).table_data().len(),
                |p: int|
                    old(self).constraint_spec().constrain_spec(
                        wsub(old(self).table_data()[p], deltas@[0].data_seq()[p]),
                    ),
            ),
    {
        proof {
            lemma_tensor_capacity_fits(self.embedding);
            lemma_tensor_capacity_fits(deltas@[0]);
            reveal_with_fuel(dims_product, 3);
            let od = self.output_shape.dims();
            assert(od.drop_first().len() == 0);
            assert((od[0] as nat) * 1 == od[0] as nat) by (nonlinear_arith);
            assert(self.embedding.dims() =~= old(self).table_dims());
        }
        self.embedding.sub_assign(&deltas[0]);
        let n = self.embedding.len();
        let mut p: usize = 0;
        while p < n
            invariant
                p <= n,
                n == self.embedding.data_seq().len(),
                n == old(self).embedding.data_seq().len(),
                self.embedding.wf(),
                self.embedding.dims() == old(self).embedding.dims(),
                self.output_shape == old(self).output_shape,
                self.regularizer == old(self).regularizer,
                self.constraint == old(self).constraint,
                old(self).wf(),
                forall|j: int|
                    p <= j < n ==> self.embedding.data_seq()[j] == wsub(
                        old(self).embedding.data_seq()[j],
                        deltas@[0].data_seq()[j],
                    ),
                forall|j: int|
                    0 <= j < p ==> self.embedding.data_seq()[j]
                        == old(self).constraint.constrain_spec(
                        wsub(old(self).embedding.data_seq()[j], deltas@[0].data_seq()[j]),
                    ),
            decreases n - p,
        {
            let v = self.constraint.constrain(*self.embedding.flat_get(p));
            self.embedding.flat_set(p, v);
            p += 1;
        }
    }
}

} // verus!
