//! The differentiable decorator: it computes every operation with the
//! backend it wraps and records a node of the computation graph for it.
use crate::data::Data;
use crate::graph::{graph_ok, node_ok, NodeSpec, Op};
use crate::model::{
    arg_spec, cmp_scalar_spec, cmp_spec, embedding_dims, embedding_fit, embedding_spec, fill_spec,
    full_spec, index_assign_spec, index_spec, mask_fill_spec, matmul_dims, matmul_fit, matmul_spec,
    neg_spec, ranges_fit, region_dims, repeat_spec, reshape_spec, scalar_spec, sum_dim_spec,
    sum_spec, swap_dims_spec, transpose_spec, zip_spec, BinOp, CmpOp, TensorSpec,
};
use crate::ops::{
    copy_ranges, Backend, ModuleOps, TensorOps, TensorOpsAggregation, TensorOpsArg,
    TensorOpsMapComparison,
};
use crate::shape::{count, Shape};
use core::ops::Range;
use vstd::prelude::*;

verus! {

/// A node of the graph: the operation, the identities of its inputs and
/// the value that the wrapped backend computed.
pub struct Node<B: Backend> {
    pub op: Op,
    pub inputs: Vec<usize>,
    pub value: B::TensorPrimitive,
}

impl<B: Backend> View for Node<B> {
    type V = NodeSpec;

    open spec fn view(&self) -> NodeSpec {
        NodeSpec { op: self.op, inputs: self.inputs@, value: self.value@ }
    }
}

/// Handle on a tensor of the decorator: the identity of its node.
#[derive(Clone, Copy, Debug, PartialEq, Eq)]
pub struct ADTensor {
    pub id: usize,
}

/// A backend wrapped so that its operations are recorded.
pub struct ADBackendDecorator<B: Backend> {
    pub nodes: Vec<Node<B>>,
    pub device: B::Device,
}

impl<B: Backend> View for ADBackendDecorator<B> {
    type V = Seq<NodeSpec>;

    open spec fn view(&self) -> Seq<NodeSpec> {
        Seq::new(self.nodes@.len(), |i: int| self.nodes@[i]@)
    }
}

impl<B: Backend + TensorOps<B>> ADBackendDecorator<B> {
    /// Every recorded node is consistent with the nodes before it.
    pub open spec fn wf(&self) -> bool {
        graph_ok(self@)
    }

    /// `t` is a tensor of this decorator.
    pub open spec fn has(&self, t: ADTensor) -> bool {
        t.id < self@.len()
    }

    /// Value of the tensor `t`.
    pub open spec fn value_of(&self, t: ADTensor) -> TensorSpec {
        self@[t.id as int].value
    }

    /// The graph after one more node, with everything before it unchanged.
    pub open spec fn extended(&self, before: &Self, node: NodeSpec, r: ADTensor) -> bool {
        &&& self@ == before@.push(node)
        &&& self.device == before.device
        &&& r.id == before@.len()
        &&& self.wf()
    }

    /// The value of every tensor of a well-formed decorator is well formed.
    pub proof fn lemma_value_wf(&self, t: ADTensor)
        requires
            self.wf(),
            self.has(t),
        ensures
            self.value_of(t).wf(),
    {
        assert(node_ok(self@, t.id as int));
    }

    pub fn new(device: B::Device) -> (r: Self)
        ensures
            r@.len() == 0,
            r.device == device,
            r.wf(),
    {
        ADBackendDecorator { nodes: Vec::new(), device }
    }

    /// Number of tensors created so far, which is the next identity.
    pub fn len(&self) -> (r: usize)
        ensures
            r == self@.len(),
    {
        self.nodes.len()
    }

    fn record(&mut self, op: Op, inputs: Vec<usize>, value: B::TensorPrimitive) -> (r: ADTensor)
        requires
            old(self).wf(),
            node_ok(
                old(self)@.push(NodeSpec { op, inputs: inputs@, value: value@ }),
                old(self)@.len() as int,
            ),
        ensures
            final(self).extended(old(self), (NodeSpec { op, inputs: inputs@, value: value@ }), r),
    {
        let id = self.nodes.len();
        let ghost before = self@;
        let ghost node = NodeSpec { op, inputs: inputs@, value: value@ };
        self.nodes.push(Node { op, inputs, value });
        proof {
            assert(self@ =~= before.push(node));
            assert forall|i: int| 0 <= i < self@.len() implies #[trigger] node_ok(self@, i) by {
                if i < before.len() {
                    assert(node_ok(before, i));
                    assert(self@[i] == before[i]);
                    if before[i].inputs.len() > 0 {
                        assert(before[i].inputs[0] < i);
                    }
                    if before[i].inputs.len() > 1 {
                        assert(before[i].inputs[1] < i);
                    }
                }
            }
        }
        ADTensor { id }
    }

    /// A new input tensor holding `value`.
    pub fn from_primitive(&mut self, value: B::TensorPrimitive) -> (r: ADTensor)
        requires
            old(self).wf(),
            value@.wf(),
        ensures
            final(self).extended(
                old(self),
                (NodeSpec { op: Op::Leaf, inputs: Seq::empty(), value: value@ }),
                r,
            ),
    {
        let inputs: Vec<usize> = Vec::new();
        assert(inputs@ =~= Seq::<usize>::empty());
        self.record(Op::Leaf, inputs, value)
    }

    /// A new input tensor holding `data`.
    pub fn from_data(&mut self, data: Data<i64>) -> (r: ADTensor)
        requires
            old(self).wf(),
            data@.wf(),
        ensures
            final(self).extended(
                old(self),
                (NodeSpec { op: Op::Leaf, inputs: Seq::empty(), value: data@ }),
                r,
            ),
    {
        let value = B::from_data(data, self.device);
        self.from_primitive(value)
    }

    /// The value of a tensor, as the wrapped backend holds it.
    pub fn primitive(&self, t: ADTensor) -> (r: &B::TensorPrimitive)
        requires
            self.has(t),
        ensures
            r@ == self.value_of(t),
    {
        let r = &self.nodes[t.id].value;
        assert(r@ == self@[t.id as int].value);
        r
    }

    pub fn to_data(&self, t: ADTensor) -> (r: Data<i64>)
        requires
            self.wf(),
            self.has(t),
        ensures
            r@ == self.value_of(t),
    {
        assert(node_ok(self@, t.id as int));
        B::to_data(self.primitive(t))
    }

    pub fn shape(&self, t: ADTensor) -> (r: &Shape)
        requires
            self.has(t),
        ensures
            r@ == self.value_of(t).dims,
    {
        B::shape(self.primitive(t))
    }

    /// A fresh input tensor with the value of `t` and no history: no
    /// gradient flows from it to `t`.
    pub fn detach(&mut self, t: ADTensor) -> (r: ADTensor)
        requires
            old(self).wf(),
            old(self).has(t),
        ensures
            final(self).extended(
                old(self),
                (NodeSpec { op: Op::Leaf, inputs: Seq::empty(), value: old(self).value_of(t) }),
                r,
            ),
    {
        assert(node_ok(self@, t.id as int));
        let value = B::to_device(self.primitive(t), self.device);
        self.from_primitive(value)
    }

    fn unary(&mut self, op: Op, t: ADTensor, value: B::TensorPrimitive) -> (r: ADTensor)
        requires
            old(self).wf(),
            old(self).has(t),
            crate::graph::arity(op) == 1,
            value@.wf(),
            crate::graph::accepts(op, old(self).value_of(t), old(self).value_of(t), value@.dims),
            value@ == crate::graph::forward(
                op,
                old(self).value_of(t),
                old(self).value_of(t),
                value@.dims,
            ),
        ensures
            final(self).extended(old(self), (NodeSpec { op, inputs: seq![t.id], value: value@ }), r),
    {
        let mut inputs: Vec<usize> = Vec::new();
        inputs.push(t.id);
        assert(inputs@ =~= seq![t.id]);
        self.record(op, inputs, value)
    }

    fn binary(&mut self, op: Op, lhs: ADTensor, rhs: ADTensor, value: B::TensorPrimitive) -> (r:
        ADTensor)
        requires
            old(self).wf(),
            old(self).has(lhs),
            old(self).has(rhs),
            crate::graph::arity(op) == 2,
            value@.wf(),
            crate::graph::accepts(op, old(self).value_of(lhs), old(self).value_of(rhs), value@.dims),
            value@ == crate::graph::forward(
                op,
                old(self).value_of(lhs),
                old(self).value_of(rhs),
                value@.dims,
            ),
        ensures
            final(self).extended(
                old(self),
                (NodeSpec { op, inputs: seq![lhs.id, rhs.id], value: value@ }),
                r,
            ),
    {
        let mut inputs: Vec<usize> = Vec::new();
        inputs.push(lhs.id);
        inputs.push(rhs.id);
        assert(inputs@ =~= seq![lhs.id, rhs.id]);
        self.record(op, inputs, value)
    }

    pub fn add(&mut self, lhs: ADTensor, rhs: ADTensor) -> (r: ADTensor)
        requires
            old(self).wf(),
            old(self).has(lhs),
            old(self).has(rhs),
            old(self).value_of(lhs).dims == old(self).value_of(rhs).dims,
        ensures
            final(self).extended(
                old(self),
                (NodeSpec {
                    op: Op::Add,
                    inputs: seq![lhs.id, rhs.id],
                    value: zip_spec(BinOp::Add, old(self).value_of(lhs), old(self).value_of(rhs)),
                }),
                r,
            ),
    {
        assert(node_ok(self@, lhs.id as int) && node_ok(self@, rhs.id as int));
        let value = B::add(self.primitive(lhs), self.primitive(rhs));
        self.binary(Op::Add, lhs, rhs, value)
    }

    pub fn sub(&mut self, lhs: ADTensor, rhs: ADTensor) -> (r: ADTensor)
        requires
            old(self).wf(),
            old(self).has(lhs),
            old(self).has(rhs),
            old(self).value_of(lhs).dims == old(self).value_of(rhs).dims,
        ensures
            final(self).extended(
                old(self),
                (NodeSpec {
                    op: Op::Sub,
                    inputs: seq![lhs.id, rhs.id],
                    value: zip_spec(BinOp::Sub, old(self).value_of(lhs), old(self).value_of(rhs)),
                }),
                r,
            ),
    {
        assert(node_ok(self@, lhs.id as int) && node_ok(self@, rhs.id as int));
        let value = B::sub(self.primitive(lhs), self.primitive(rhs));
        self.binary(Op::Sub, lhs, rhs, value)
    }

    pub fn mul(&mut self, lhs: ADTensor, rhs: ADTensor) -> (r: ADTensor)
        requires
            old(self).wf(),
            old(self).has(lhs),
            old(self).has(rhs),
            old(self).value_of(lhs).dims == old(self).value_of(rhs).dims,
        ensures
            final(self).extended(
                old(self),
                (NodeSpec {
                    op: Op::Mul,
                    inputs: seq![lhs.id, rhs.id],
                    value: zip_spec(BinOp::Mul, old(self).value_of(lhs), old(self).value_of(rhs)),
                }),
                r,
            ),
    {
        assert(node_ok(self@, lhs.id as int) && node_ok(self@, rhs.id as int));
        let value = B::mul(self.primitive(lhs), self.primitive(rhs));
        self.binary(Op::Mul, lhs, rhs, value)
    }

    pub fn matmul(&mut self, lhs: ADTensor, rhs: ADTensor) -> (r: ADTensor)
        requires
            old(self).wf(),
            old(self).has(lhs),
            old(self).has(rhs),
            matmul_fit(old(self).value_of(lhs), old(self).value_of(rhs)),
            count(matmul_dims(old(self).value_of(lhs), old(self).value_of(rhs))) <= usize::MAX,
        ensures
            final(self).extended(
                old(self),
                (NodeSpec {
                    op: Op::Matmul,
                    inputs: seq![lhs.id, rhs.id],
                    value: matmul_spec(old(self).value_of(lhs), old(self).value_of(rhs)),
                }),
                r,
            ),
    {
        assert(node_ok(self@, lhs.id as int) && node_ok(self@, rhs.id as int));
        let value = B::matmul(self.primitive(lhs), self.primitive(rhs));
        self.binary(Op::Matmul, lhs, rhs, value)
    }

    pub fn neg(&mut self, t: ADTensor) -> (r: ADTensor)
        requires
            old(self).wf(),
            old(self).has(t),
        ensures
            final(self).extended(
                old(self),
                (NodeSpec { op: Op::Neg, inputs: seq![t.id], value: neg_spec(old(self).value_of(t)) }),
                r,
            ),
    {
        assert(node_ok(self@, t.id as int));
        let value = B::neg(self.primitive(t));
        self.unary(Op::Neg, t, value)
    }

    pub fn add_scalar(&mut self, t: ADTensor, s: i64) -> (r: ADTensor)
        requires
            old(self).wf(),
            old(self).has(t),
        ensures
            final(self).extended(
                old(self),
                (NodeSpec {
                    op: Op::AddScalar(s),
                    inputs: seq![t.id],
                    value: scalar_spec(BinOp::Add, old(self).value_of(t), s),
                }),
                r,
            ),
    {
        assert(node_ok(self@, t.id as int));
        let value = B::add_scalar(self.primitive(t), &s);
        self.unary(Op::AddScalar(s), t, value)
    }

    pub fn sub_scalar(&mut self, t: ADTensor, s: i64) -> (r: ADTensor)
        requires
            old(self).wf(),
            old(self).has(t),
        ensures
            final(self).extended(
                old(self),
                (NodeSpec {
                    op: Op::SubScalar(s),
                    inputs: seq![t.id],
                    value: scalar_spec(BinOp::Sub, old(self).value_of(t), s),
                }),
                r,
            ),
    {
        assert(node_ok(self@, t.id as int));
        let value = B::sub_scalar(self.primitive(t), &s);
        self.unary(Op::SubScalar(s), t, value)
    }

    pub fn mul_scalar(&mut self, t: ADTensor, s: i64) -> (r: ADTensor)
        requires
            old(self).wf(),
            old(self).has(t),
        ensures
            final(self).extended(
                old(self),
                (NodeSpec {
                    op: Op::MulScalar(s),
                    inputs: seq![t.id],
                    value: scalar_spec(BinOp::Mul, old(self).value_of(t), s),
                }),
                r,
            ),
    {
        assert(node_ok(self@, t.id as int));
        let value = B::mul_scalar(self.primitive(t), &s);
        self.unary(Op::MulScalar(s), t, value)
    }

    pub fn swap_dims(&mut self, t: ADTensor, dim1: usize, dim2: usize) -> (r: ADTensor)
        requires
            old(self).wf(),
            old(self).has(t),
            dim1 < old(self).value_of(t).dims.len(),
            dim2 < old(self).value_of(t).dims.len(),
        ensures
            final(self).extended(
                old(self),
                (NodeSpec {
                    op: Op::SwapDims(dim1, dim2),
                    inputs: seq![t.id],
                    value: swap_dims_spec(old(self).value_of(t), dim1 as int, dim2 as int),
                }),
                r,
            ),
    {
        assert(node_ok(self@, t.id as int));
        let value = B::swap_dims(self.primitive(t), dim1, dim2);
        self.unary(Op::SwapDims(dim1, dim2), t, value)
    }

    /// Swaps the last two dimensions.
    pub fn transpose(&mut self, t: ADTensor) -> (r: ADTensor)
        requires
            old(self).wf(),
            old(self).has(t),
            old(self).value_of(t).dims.len() >= 2,
        ensures
            final(self).extended(
                old(self),
                (NodeSpec {
                    op: Op::SwapDims(
                        (old(self).value_of(t).dims.len() - 2) as usize,
                        (old(self).value_of(t).dims.len() - 1) as usize,
                    ),
                    inputs: seq![t.id],
                    value: transpose_spec(old(self).value_of(t)),
                }),
                r,
            ),
    {
        let rank = self.shape(t).rank();
        self.swap_dims(t, rank - 2, rank - 1)
    }

    pub fn reshape(&mut self, t: ADTensor, shape: Shape) -> (r: ADTensor)
        requires
            old(self).wf(),
            old(self).has(t),
            count(shape@) == old(self).value_of(t).data.len(),
        ensures
            final(self).extended(
                old(self),
                (NodeSpec {
                    op: Op::Reshape,
                    inputs: seq![t.id],
                    value: reshape_spec(old(self).value_of(t), shape@),
                }),
                r,
            ),
    {
        assert(node_ok(self@, t.id as int));
        let value = B::reshape(self.primitive(t), shape);
        self.unary(Op::Reshape, t, value)
    }
}

impl<B> ADBackendDecorator<B> where
    B: Backend + TensorOps<B> + ModuleOps<B>,
    B::TensorPrimitive: TensorOpsAggregation<B>,
 {
    /// Sum of all elements, as a tensor of one element.
    pub fn sum(&mut self, t: ADTensor) -> (r: ADTensor)
        requires
            old(self).wf(),
            old(self).has(t),
        ensures
            final(self).extended(
                old(self),
                (NodeSpec { op: Op::Sum, inputs: seq![t.id], value: sum_spec(old(self).value_of(t)) }),
                r,
            ),
    {
        assert(node_ok(self@, t.id as int));
        let value = self.primitive(t).sum();
        self.unary(Op::Sum, t, value)
    }

    /// Sum along `dim`, which stays in the result with size one.
    pub fn sum_dim(&mut self, t: ADTensor, dim: usize) -> (r: ADTensor)
        requires
            old(self).wf(),
            old(self).has(t),
            dim < old(self).value_of(t).dims.len(),
            count(old(self).value_of(t).dims.update(dim as int, 1)) <= usize::MAX,
        ensures
            final(self).extended(
                old(self),
                (NodeSpec {
                    op: Op::SumDim(dim),
                    inputs: seq![t.id],
                    value: sum_dim_spec(old(self).value_of(t), dim as int),
                }),
                r,
            ),
    {
        assert(node_ok(self@, t.id as int));
        let value = self.primitive(t).sum_dim(dim);
        self.unary(Op::SumDim(dim), t, value)
    }

    /// Copies the single slice along `dim` into each of `times` positions.
    pub fn repeat(&mut self, t: ADTensor, dim: usize, times: usize) -> (r: ADTensor)
        requires
            old(self).wf(),
            old(self).has(t),
            dim < old(self).value_of(t).dims.len(),
            old(self).value_of(t).dims[dim as int] == 1,
            count(old(self).value_of(t).dims.update(dim as int, times)) <= usize::MAX,
        ensures
            final(self).extended(
                old(self),
                (NodeSpec {
                    op: Op::Repeat(dim, times),
                    inputs: seq![t.id],
                    value: repeat_spec(old(self).value_of(t), dim as int, times),
                }),
                r,
            ),
    {
        assert(node_ok(self@, t.id as int));
        let value = B::repeat(self.primitive(t), dim, times);
        self.unary(Op::Repeat(dim, times), t, value)
    }

    /// The rectangular region that `indexes` selects.
    pub fn index(&mut self, t: ADTensor, indexes: Vec<Range<usize>>) -> (r: ADTensor)
        requires
            old(self).wf(),
            old(self).has(t),
            ranges_fit(old(self).value_of(t).dims, indexes@),
        ensures
            final(self).extended(
                old(self),
                (NodeSpec {
                    op: Op::Index(indexes),
                    inputs: seq![t.id],
                    value: index_spec(old(self).value_of(t), indexes@),
                }),
                r,
            ),
    {
        assert(node_ok(self@, t.id as int));
        let value = B::index(self.primitive(t), copy_ranges(&indexes));
        self.unary(Op::Index(indexes), t, value)
    }

    /// A new tensor equal to `t` outside the region and to `value` inside.
    pub fn index_assign(&mut self, t: ADTensor, indexes: Vec<Range<usize>>, value: ADTensor) -> (r:
        ADTensor)
        requires
            old(self).wf(),
            old(self).has(t),
            old(self).has(value),
            ranges_fit(old(self).value_of(t).dims, indexes@),
            old(self).value_of(value).dims == region_dims(old(self).value_of(t).dims, indexes@),
        ensures
            final(self).extended(
                old(self),
                (NodeSpec {
                    op: Op::IndexAssign(indexes),
                    inputs: seq![t.id, value.id],
                    value: index_assign_spec(
                        old(self).value_of(t),
                        indexes@,
                        old(self).value_of(value),
                    ),
                }),
                r,
            ),
    {
        assert(node_ok(self@, t.id as int) && node_ok(self@, value.id as int));
        let result = B::index_assign(
            self.primitive(t),
            copy_ranges(&indexes),
            self.primitive(value),
        );
        self.binary(Op::IndexAssign(indexes), t, value, result)
    }

    /// `t` with `value` wherever `mask` holds. The mask enters the graph as
    /// an input tensor of its own, one where the mask does not hold and
    /// zero where it does; the result is recorded right after it.
    pub fn mask_fill(&mut self, t: ADTensor, mask: &B::BoolTensorPrimitive, value: i64) -> (r:
        ADTensor)
        requires
            old(self).wf(),
            old(self).has(t),
            mask@.wf(),
            mask@.dims == old(self).value_of(t).dims,
            old(self)@.len() < usize::MAX,
        ensures
            final(self)@ == old(self)@.push(
                NodeSpec {
                    op: Op::Leaf,
                    inputs: Seq::empty(),
                    value: mask_fill_spec(full_spec(old(self).value_of(t).dims, 1), mask@, 0),
                },
            ).push(
                NodeSpec {
                    op: Op::MaskFill(value),
                    inputs: seq![t.id, old(self)@.len() as usize],
                    value: mask_fill_spec(old(self).value_of(t), mask@, value),
                },
            ),
            final(self).device == old(self).device,
            final(self).wf(),
            r.id == old(self)@.len() + 1,
    {
        assert(node_ok(self@, t.id as int));
        let ghost a = self.value_of(t);
        let zero = B::mul_scalar(self.primitive(t), &0);
        let ones = B::add_scalar(&zero, &1);
        assert(ones@.data =~= full_spec(a.dims, 1).data);
        let keep_value = B::mask_fill(&ones, mask, 0);
        let result = B::mask_fill(self.primitive(t), mask, value);
        let keep = self.from_primitive(keep_value);
        assert(result@.data =~= fill_spec(a, self.value_of(keep), value).data);
        self.binary(Op::MaskFill(value), t, keep, result)
    }

    /// One row of `weights` per entry of `indexes`. The gradient flows to
    /// `weights` alone.
    pub fn embedding(&mut self, weights: ADTensor, indexes: ADTensor) -> (r: ADTensor)
        requires
            old(self).wf(),
            old(self).has(weights),
            old(self).has(indexes),
            embedding_fit(old(self).value_of(weights), old(self).value_of(indexes)),
            count(embedding_dims(old(self).value_of(weights), old(self).value_of(indexes)))
                <= usize::MAX,
        ensures
            final(self).extended(
                old(self),
                (NodeSpec {
                    op: Op::Embedding,
                    inputs: seq![weights.id, indexes.id],
                    value: embedding_spec(
                        old(self).value_of(weights),
                        old(self).value_of(indexes),
                    ),
                }),
                r,
            ),
    {
        let value = B::embedding(self.primitive(weights), self.primitive(indexes));
        self.binary(Op::Embedding, weights, indexes, value)
    }
}

/// Comparisons and positions of extremes have no gradient: the decorator
/// computes them with the wrapped backend and records nothing.
impl<B> ADBackendDecorator<B> where
    B: Backend + TensorOps<B>,
    B::TensorPrimitive: TensorOpsMapComparison<B> + TensorOpsArg<B>,
 {
    /// Elementwise comparison of two tensors of the same shape.
    pub fn compare(&self, op: CmpOp, lhs: ADTensor, rhs: ADTensor) -> (r: B::BoolTensorPrimitive)
        requires
            self.wf(),
            self.has(lhs),
            self.has(rhs),
            self.value_of(lhs).dims == self.value_of(rhs).dims,
        ensures
            r@ == cmp_spec(op, self.value_of(lhs), self.value_of(rhs)),
            r@.wf(),
    {
        proof {
            self.lemma_value_wf(lhs);
            self.lemma_value_wf(rhs);
        }
        let a = self.primitive(lhs);
        let b = self.primitive(rhs);
        match op {
            CmpOp::Equal => a.equal(b),
            CmpOp::Greater => a.greater(b),
            CmpOp::GreaterEqual => a.greater_equal(b),
            CmpOp::Lower => a.lower(b),
            CmpOp::LowerEqual => a.lower_equal(b),
        }
    }

    /// Elementwise comparison of a tensor with a scalar.
    pub fn compare_scalar(&self, op: CmpOp, lhs: ADTensor, rhs: i64) -> (r: B::BoolTensorPrimitive)
        requires
            self.wf(),
            self.has(lhs),
        ensures
            r@ == cmp_scalar_spec(op, self.value_of(lhs), rhs),
            r@.wf(),
    {
        proof {
            self.lemma_value_wf(lhs);
        }
        let a = self.primitive(lhs);
        match op {
            CmpOp::Equal => a.equal_scalar(&rhs),
            CmpOp::Greater => a.greater_scalar(&rhs),
            CmpOp::GreaterEqual => a.greater_equal_scalar(&rhs),
            CmpOp::Lower => a.lower_scalar(&rhs),
            CmpOp::LowerEqual => a.lower_equal_scalar(&rhs),
        }
    }

    /// Position of the first greatest element along `dim`.
    pub fn argmax(&self, t: ADTensor, dim: usize) -> (r: B::TensorPrimitive)
        requires
            self.wf(),
            self.has(t),
            dim < self.value_of(t).dims.len(),
            self.value_of(t).dims[dim as int] > 0,
        ensures
            r@ == arg_spec(self.value_of(t), dim as int, true),
            r@.wf(),
    {
        assert(node_ok(self@, t.id as int));
        self.primitive(t).argmax(dim)
    }

    /// Position of the first least element along `dim`.
    pub fn argmin(&self, t: ADTensor, dim: usize) -> (r: B::TensorPrimitive)
        requires
            self.wf(),
            self.has(t),
            dim < self.value_of(t).dims.len(),
            self.value_of(t).dims[dim as int] > 0,
        ensures
            r@ == arg_spec(self.value_of(t), dim as int, false),
            r@.wf(),
    {
        assert(node_ok(self@, t.id as int));
        self.primitive(t).argmin(dim)
    }
}

} // verus!
