//! The computation graph: an arena of nodes, one per differentiable
//! operation, each naming its inputs by their position in the arena.
//!
//! A node's identity is its position. Identities grow with every operation
//! and are never handed out twice; inputs always have smaller identities
//! than the node that consumes them, so the arena in decreasing order is a
//! reverse topological order of the graph.
use crate::model::{
    embedding_backward_spec, embedding_dims, embedding_fit, embedding_spec, fill_spec, full_spec,
    index_assign_spec, index_spec, matmul_fit, matmul_spec, neg_spec, ranges_fit,
    region_dims, repeat_spec, reshape_spec, scalar_spec, sum_dim_spec, sum_spec, swap_dims_spec,
    transpose_spec, zip_spec, BinOp, TensorSpec,
};
use crate::shape::count;
use core::ops::Range;
use vstd::prelude::*;

verus! {

/// The kind of operation that produced a node, with the parameters that its
/// backward rule needs beyond the values of its inputs.
#[derive(Debug, PartialEq, Eq)]
pub enum Op {
    /// An input, a parameter or a detached tensor: nothing flows past it.
    Leaf,
    Add,
    Sub,
    Mul,
    Neg,
    AddScalar(i64),
    SubScalar(i64),
    MulScalar(i64),
    Matmul,
    SwapDims(usize, usize),
    Reshape,
    /// Sum of all elements.
    Sum,
    /// Sum along the dimension.
    SumDim(usize),
    /// The dimension repeated, and how many times.
    Repeat(usize, usize),
    /// The region read.
    Index(Vec<Range<usize>>),
    /// The region overwritten with the second input.
    IndexAssign(Vec<Range<usize>>),
    /// Rows of the first input looked up by the numbers in the second.
    Embedding,
    /// The first input with the given value wherever the second is zero.
    MaskFill(i64),
}

/// A node of the graph, as the proofs see it.
pub struct NodeSpec {
    pub op: Op,
    pub inputs: Seq<usize>,
    pub value: TensorSpec,
}

/// Number of inputs of an operation.
pub open spec fn arity(op: Op) -> nat {
    match op {
        Op::Leaf => 0,
        Op::Add | Op::Sub | Op::Mul | Op::Matmul | Op::IndexAssign(_) | Op::Embedding | Op::MaskFill(
            _,
        ) => 2,
        _ => 1,
    }
}

/// Value of input `slot` of node `i`.
pub open spec fn input_value(g: Seq<NodeSpec>, i: int, slot: int) -> TensorSpec {
    g[g[i].inputs[slot] as int].value
}

/// The value that operation `op` computes from the inputs `a` and `b`
/// (`b` is ignored by operations of one input).
pub open spec fn forward(op: Op, a: TensorSpec, b: TensorSpec, dims: Seq<usize>) -> TensorSpec {
    match op {
        Op::Leaf => a,
        Op::Add => zip_spec(BinOp::Add, a, b),
        Op::Sub => zip_spec(BinOp::Sub, a, b),
        Op::Mul => zip_spec(BinOp::Mul, a, b),
        Op::Neg => neg_spec(a),
        Op::AddScalar(s) => scalar_spec(BinOp::Add, a, s),
        Op::SubScalar(s) => scalar_spec(BinOp::Sub, a, s),
        Op::MulScalar(s) => scalar_spec(BinOp::Mul, a, s),
        Op::Matmul => matmul_spec(a, b),
        Op::SwapDims(d1, d2) => swap_dims_spec(a, d1 as int, d2 as int),
        Op::Reshape => reshape_spec(a, dims),
        Op::Sum => sum_spec(a),
        Op::SumDim(dim) => sum_dim_spec(a, dim as int),
        Op::Repeat(dim, times) => repeat_spec(a, dim as int, times),
        Op::Index(ranges) => index_spec(a, ranges@),
        Op::IndexAssign(ranges) => index_assign_spec(a, ranges@, b),
        Op::Embedding => embedding_spec(a, b),
        Op::MaskFill(s) => fill_spec(a, b, s),
    }
}

/// The inputs `a` and `b` are acceptable to operation `op`.
pub open spec fn accepts(op: Op, a: TensorSpec, b: TensorSpec, dims: Seq<usize>) -> bool {
    match op {
        Op::Leaf => true,
        Op::Add | Op::Sub | Op::Mul | Op::MaskFill(_) => a.dims == b.dims,
        Op::Matmul => matmul_fit(a, b),
        Op::SwapDims(d1, d2) => d1 < a.dims.len() && d2 < a.dims.len(),
        Op::Reshape => count(dims) == a.data.len(),
        Op::SumDim(dim) => dim < a.dims.len() && count(a.dims.update(dim as int, 1)) <= usize::MAX,
        Op::Repeat(dim, times) => dim < a.dims.len() && a.dims[dim as int] == 1 && count(
            a.dims.update(dim as int, times),
        ) <= usize::MAX,
        Op::Index(ranges) => ranges_fit(a.dims, ranges@),
        Op::IndexAssign(ranges) => ranges_fit(a.dims, ranges@) && b.dims == region_dims(
            a.dims,
            ranges@,
        ),
        Op::Embedding => embedding_fit(a, b) && count(embedding_dims(a, b)) <= usize::MAX,
        _ => true,
    }
}

/// Whether a gradient flows from a node to its input `slot`. The numbers
/// that an embedding looks up are not differentiated, nor is a mask.
pub open spec fn flows(op: Op, slot: int) -> bool {
    match op {
        Op::Embedding | Op::MaskFill(_) => slot == 0,
        _ => true,
    }
}

/// Node `i` is the record of one operation on earlier nodes: its inputs
/// have smaller identities, and its value is what the operation gives on
/// the values of its inputs.
pub open spec fn node_ok(g: Seq<NodeSpec>, i: int) -> bool {
    let node = g[i];
    let a = input_value(g, i, 0);
    let b = input_value(g, i, 1);
    &&& node.value.wf()
    &&& node.inputs.len() == arity(node.op)
    &&& forall|k: int| 0 <= k < node.inputs.len() ==> (#[trigger] node.inputs[k]) < i
    &&& accepts(node.op, a, b, node.value.dims)
    &&& node.op != Op::Leaf ==> node.value == forward(node.op, a, b, node.value.dims)
}

/// Every node of the graph is well recorded.
pub open spec fn graph_ok(g: Seq<NodeSpec>) -> bool {
    forall|i: int| 0 <= i < g.len() ==> #[trigger] node_ok(g, i)
}

/// The gradient that node `c` hands to its input `slot` when it has itself
/// received the gradient `up`.
pub open spec fn contribution(g: Seq<NodeSpec>, c: int, slot: int, up: TensorSpec) -> TensorSpec {
    let a = input_value(g, c, 0);
    let b = input_value(g, c, 1);
    match g[c].op {
        Op::Leaf => up,
        Op::Add => up,
        Op::Sub => if slot == 0 {
            up
        } else {
            neg_spec(up)
        },
        Op::Mul => if slot == 0 {
            zip_spec(BinOp::Mul, up, b)
        } else {
            zip_spec(BinOp::Mul, up, a)
        },
        Op::Neg => neg_spec(up),
        Op::AddScalar(_) => up,
        Op::SubScalar(_) => up,
        Op::MulScalar(s) => scalar_spec(BinOp::Mul, up, s),
        Op::Matmul => if slot == 0 {
            matmul_spec(up, transpose_spec(b))
        } else {
            matmul_spec(transpose_spec(a), up)
        },
        Op::SwapDims(d1, d2) => swap_dims_spec(up, d1 as int, d2 as int),
        Op::Reshape => reshape_spec(up, a.dims),
        Op::Sum => full_spec(a.dims, up.data[0]),
        Op::SumDim(dim) => repeat_spec(up, dim as int, a.dims[dim as int]),
        Op::Repeat(dim, _) => sum_dim_spec(up, dim as int),
        Op::Index(ranges) => index_assign_spec(full_spec(a.dims, 0), ranges@, up),
        Op::IndexAssign(ranges) => if slot == 0 {
            index_assign_spec(up, ranges@, full_spec(b.dims, 0))
        } else {
            index_spec(up, ranges@)
        },
        Op::Embedding => embedding_backward_spec(a, up, b),
        Op::MaskFill(_) => zip_spec(BinOp::Mul, up, b),
    }
}

} // verus!
