//! What holds of the library as a whole, proved from the contracts and
//! models of the other modules.
use crate::autodiff::{ADBackendDecorator, ADTensor};
use crate::backward::{accumulate, deliver, received, total_gradient};
use crate::data::Data;
use crate::dense_gather::{lemma_count_three, lemma_count_two, lemma_row_bound, lemma_split};
use crate::graph::{contribution, graph_ok, node_ok, NodeSpec, Op};
use crate::model::{
    embedding_backward_spec, embedding_fit, embedding_spec, full_spec, index_spec, region_to_whole,
    repeat_spec, scatter_total, zip_spec, BinOp, TensorSpec,
};
use crate::ops::{selects_slice, Backend, TensorOps};
use crate::shape::{
    count, in_bounds, lemma_count_unit_update, lemma_offset_bound, lemma_offset_unravel,
    lemma_unravel_in_bounds, lemma_unravel_offset, offset, unravel,
};
use core::ops::Range;
use vstd::prelude::*;

verus! {

/// Materialising one tensor twice gives the same buffer and the same
/// shape, whatever the backend.
pub proof fn lemma_to_data_idempotent<B: Backend + TensorOps<B>>(
    tensor: B::TensorPrimitive,
    first: Data<i64>,
    second: Data<i64>,
)
    requires
        tensor@.wf(),
        call_ensures(B::to_data, (&tensor,), first),
        call_ensures(B::to_data, (&tensor,), second),
    ensures
        first.value@ == second.value@,
        first.shape@ == second.shape@,
{
}

// ---------------------------------------------------------------------
// Repeating a dimension
// ---------------------------------------------------------------------

/// Repeating a dimension of size one `times` times gives a tensor of
/// size `times` along it whose element at every position is the element
/// of the repeated tensor at the same position of its single slice.
pub proof fn lemma_repeat_elements(t: TensorSpec, dim: int, times: usize, idx: Seq<usize>)
    requires
        t.wf(),
        0 <= dim < t.dims.len(),
        t.dims[dim] == 1,
        in_bounds(t.dims.update(dim, times), idx),
    ensures
        repeat_spec(t, dim, times).dims == t.dims.update(dim, times),
        repeat_spec(t, dim, times).data.len() == count(t.dims) * times,
        repeat_spec(t, dim, times).at(idx) == t.at(idx.update(dim, 0)),
{
    let dims = t.dims.update(dim, times);
    lemma_count_unit_update(t.dims, dim, times);
    lemma_offset_bound(dims, idx);
    lemma_unravel_offset(dims, idx);
}

/// Every slice along the repeated dimension is the tensor that was repeated.
pub proof fn lemma_repeat_slices(
    t: TensorSpec,
    dim: int,
    times: usize,
    i: usize,
    ranges: Seq<Range<usize>>,
)
    requires
        t.wf(),
        0 <= dim < t.dims.len(),
        t.dims[dim] == 1,
        i < times,
        selects_slice(ranges, t.dims.update(dim, times), dim, i),
    ensures
        index_spec(repeat_spec(t, dim, times), ranges) == t,
{
    let dims = t.dims.update(dim, times);
    let r = repeat_spec(t, dim, times);
    let s = index_spec(r, ranges);
    assert(s.dims =~= t.dims);
    assert forall|p: int| 0 <= p < s.data.len() implies s.data[p] == t.data[p] by {
        let idx = unravel(t.dims, p as nat);
        lemma_unravel_in_bounds(t.dims, p as nat);
        lemma_offset_unravel(t.dims, p as nat);
        assert(idx[dim] < t.dims[dim]);
        let whole = region_to_whole(idx, ranges);
        assert(whole =~= idx.update(dim, i));
        assert forall|j: int| 0 <= j < dims.len() implies (#[trigger] whole[j]) < dims[j] by {
            assert(idx[j] < t.dims[j]);
        }
        lemma_repeat_elements(t, dim, times, whole);
        assert(whole.update(dim, 0) =~= idx);
    }
    assert(s.data =~= t.data);
}

// ---------------------------------------------------------------------
// Embedding lookup and its gradient
// ---------------------------------------------------------------------

/// Number of occurrences of `row` among the first `k` entries of `indexes`.
pub open spec fn occurrences(indexes: Seq<i64>, row: int, k: nat) -> nat
    decreases k,
{
    if k == 0 {
        0
    } else {
        occurrences(indexes, row, (k - 1) as nat) + if indexes[k - 1] == row {
            1nat
        } else {
            0nat
        }
    }
}

proof fn lemma_scatter_of_ones(grad: Seq<i64>, indexes: Seq<i64>, d: int, row: int, col: int, k: nat)
    requires
        0 <= col < d,
        k <= indexes.len(),
        k <= i64::MAX,
        grad.len() == indexes.len() * d,
        forall|p: int| 0 <= p < grad.len() ==> grad[p] == 1,
    ensures
        scatter_total(grad, indexes, d, row, col, k) == occurrences(indexes, row, k),
        occurrences(indexes, row, k) <= k,
    decreases k,
{
    if k > 0 {
        lemma_scatter_of_ones(grad, indexes, d, row, col, (k - 1) as nat);
        lemma_row_bound(k - 1, col, d, indexes.len() as int);
    }
}

/// The gradient of an embedding table under an upstream gradient of ones
/// holds, in every entry of a row, the number of times that the row was
/// looked up.
pub proof fn lemma_embedding_round_trip(weights: TensorSpec, indexes: TensorSpec, row: int, col: int)
    requires
        embedding_fit(weights, indexes),
        indexes.data.len() <= i64::MAX,
        0 <= row < weights.dims[0],
        0 <= col < weights.dims[1],
    ensures
        embedding_backward_spec(
            weights,
            full_spec(embedding_spec(weights, indexes).dims, 1),
            indexes,
        ).at(seq![row as usize, col as usize]) == occurrences(
            indexes.data,
            row,
            indexes.data.len(),
        ),
{
    let d = weights.dims[1] as int;
    let out = embedding_spec(weights, indexes);
    let ones = full_spec(out.dims, 1);
    let grad = embedding_backward_spec(weights, ones, indexes);
    lemma_count_two(weights.dims);
    lemma_count_two(indexes.dims);
    lemma_count_three(out.dims);
    lemma_row_bound(row, col, d, weights.dims[0] as int);
    lemma_split(row, col, d);
    let idx = seq![row as usize, col as usize];
    assert(offset(weights.dims, idx) == row * d + col) by {
        assert(idx.drop_last() =~= seq![row as usize]);
        assert(weights.dims.drop_last() =~= seq![weights.dims[0]]);
        assert(idx.drop_last().drop_last() =~= Seq::<usize>::empty());
        assert(weights.dims.drop_last().drop_last() =~= Seq::<usize>::empty());
        assert(offset(weights.dims.drop_last(), idx.drop_last()) == row) by {
            assert(offset(weights.dims.drop_last().drop_last(), idx.drop_last().drop_last()) == 0);
        }
    }
    assert(ones.data.len() == indexes.data.len() * d) by {
        assert(indexes.dims[0] * indexes.dims[1] * weights.dims[1] == indexes.data.len() * d);
    }
    lemma_scatter_of_ones(ones.data, indexes.data, d, row, col, indexes.data.len());
}

// ---------------------------------------------------------------------
// Gradients of a tensor with several consumers
// ---------------------------------------------------------------------

/// Node `c` takes node `n` as one of its inputs.
pub open spec fn consumes(g: Seq<NodeSpec>, c: int, n: int) -> bool {
    exists|k: int| 0 <= k < g[c].inputs.len() && #[trigger] g[c].inputs[k] == n
}

/// Consumers that do not take a node as input leave what it has received
/// unchanged.
pub proof fn lemma_no_consumer(g: Seq<NodeSpec>, root: int, seed: TensorSpec, n: int, lo: int, hi: int)
    requires
        n < lo <= hi <= root + 1,
        forall|c: int| lo <= c < hi ==> !consumes(g, c, n),
    ensures
        received(g, root, seed, n, lo) == received(g, root, seed, n, hi),
    decreases hi - lo,
{
    if lo < hi {
        lemma_no_consumer(g, root, seed, n, lo + 1, hi);
        assert(!consumes(g, lo, n));
        if g[lo].inputs.len() > 0 {
            assert(g[lo].inputs[0] != n);
        }
        if g[lo].inputs.len() > 1 {
            assert(g[lo].inputs[1] != n);
        }
    }
}

/// A tensor `t` with exactly the consumers `a` and `b` on the way to the
/// root receives what both hand to it, the later consumer's share first.
pub proof fn lemma_fan_out(
    g: Seq<NodeSpec>,
    root: int,
    seed: TensorSpec,
    t: int,
    a: int,
    b: int,
    grad_a: TensorSpec,
    grad_b: TensorSpec,
)
    requires
        0 <= t < a < b <= root,
        forall|c: int| t < c <= root && c != a && c != b ==> !consumes(g, c, t),
        total_gradient(g, root, seed, a) == Some(grad_a),
        total_gradient(g, root, seed, b) == Some(grad_b),
    ensures
        total_gradient(g, root, seed, t) == deliver(
            g,
            a,
            grad_a,
            t,
            deliver(g, b, grad_b, t, None),
        ),
{
    lemma_no_consumer(g, root, seed, t, t + 1, a);
    lemma_no_consumer(g, root, seed, t, a + 1, b);
    lemma_no_consumer(g, root, seed, t, b + 1, root + 1);
}

/// Where each of the two consumers takes `t` as its only input, the
/// gradient of `t` is the sum of the two contributions.
pub proof fn lemma_fan_out_sum(
    g: Seq<NodeSpec>,
    root: int,
    seed: TensorSpec,
    t: int,
    a: int,
    b: int,
    grad_a: TensorSpec,
    grad_b: TensorSpec,
)
    requires
        0 <= t < a < b <= root,
        forall|c: int| t < c <= root && c != a && c != b ==> !consumes(g, c, t),
        g[a].inputs.len() == 1 && g[a].inputs[0] == t,
        g[b].inputs.len() == 1 && g[b].inputs[0] == t,
        total_gradient(g, root, seed, a) == Some(grad_a),
        total_gradient(g, root, seed, b) == Some(grad_b),
    ensures
        total_gradient(g, root, seed, t) == Some(
            zip_spec(BinOp::Add, contribution(g, b, 0, grad_b), contribution(g, a, 0, grad_a)),
        ),
{
    lemma_fan_out(g, root, seed, t, a, b, grad_a, grad_b);
}

// ---------------------------------------------------------------------
// Detached tensors
// ---------------------------------------------------------------------

/// There is a path along inputs from node `from` to node `to`.
pub open spec fn reaches(g: Seq<NodeSpec>, from: int, to: int) -> bool
    decreases from,
{
    from == to || (from > 0 && {
        let inputs = g[from].inputs;
        ||| inputs.len() > 0 && inputs[0] < from && reaches(g, inputs[0] as int, to)
        ||| inputs.len() > 1 && inputs[1] < from && reaches(g, inputs[1] as int, to)
    })
}

/// Node `n` is computed from node `d` alone: every path along inputs
/// from `n` ends in `d`.
pub open spec fn only_from(g: Seq<NodeSpec>, n: int, d: int) -> bool
    decreases n,
{
    n == d || (n > 0 && {
        let inputs = g[n].inputs;
        &&& inputs.len() > 0
        &&& inputs[0] < n && only_from(g, inputs[0] as int, d)
        &&& inputs.len() > 1 ==> inputs[1] < n && only_from(g, inputs[1] as int, d)
    })
}

proof fn lemma_reaches_step(g: Seq<NodeSpec>, from: int, mid: int, slot: int, to: int)
    requires
        graph_ok(g),
        0 <= from < g.len(),
        reaches(g, from, mid),
        0 <= mid < g.len(),
        0 <= slot < g[mid].inputs.len(),
        g[mid].inputs[slot] == to,
    ensures
        reaches(g, from, to),
    decreases from,
{
    assert(node_ok(g, mid));
    assert(g[mid].inputs[slot] < mid);
    if from == mid {
        assert(reaches(g, to, to));
    } else {
        let inputs = g[from].inputs;
        assert(node_ok(g, from));
        if inputs.len() > 0 && inputs[0] < from && reaches(g, inputs[0] as int, mid) {
            lemma_reaches_step(g, inputs[0] as int, mid, slot, to);
        } else {
            assert(inputs[1] < from);
            lemma_reaches_step(g, inputs[1] as int, mid, slot, to);
        }
    }
}

/// A gradient reaches a node only along a path of inputs from the root.
pub proof fn lemma_gradient_follows_inputs(
    g: Seq<NodeSpec>,
    root: int,
    seed: TensorSpec,
    n: int,
    from: int,
)
    requires
        graph_ok(g),
        0 <= root < g.len(),
        0 <= n <= root,
        received(g, root, seed, n, from) is Some,
    ensures
        reaches(g, root, n),
    decreases root - n, root + 1 - from,
{
    if from > root || from <= n {
    } else {
        if received(g, root, seed, n, from + 1) is Some {
            lemma_gradient_follows_inputs(g, root, seed, n, from + 1);
        } else {
            let up = received(g, root, seed, from, from + 1);
            assert(up is Some);
            lemma_gradient_follows_inputs(g, root, seed, from, from + 1);
            let node = g[from];
            if node.inputs.len() > 0 && node.inputs[0] == n {
                lemma_reaches_step(g, root, from, 0, n);
            } else {
                lemma_reaches_step(g, root, from, 1, n);
            }
        }
    }
}

/// No path along inputs leaves an input, a parameter or a detached tensor.
pub proof fn lemma_nothing_past_leaf(g: Seq<NodeSpec>, d: int, n: int)
    requires
        graph_ok(g),
        0 <= d < g.len(),
        g[d].op == Op::Leaf,
        reaches(g, d, n),
    ensures
        n == d,
{
    assert(node_ok(g, d));
}

proof fn lemma_only_from_later(g: Seq<NodeSpec>, n: int, d: int, x: int)
    requires
        graph_ok(g),
        0 <= d < g.len(),
        0 <= n < g.len(),
        g[d].op == Op::Leaf,
        only_from(g, n, d),
        reaches(g, n, x),
    ensures
        x >= d,
    decreases n,
{
    if n == d {
        lemma_nothing_past_leaf(g, d, x);
    } else {
        let inputs = g[n].inputs;
        lemma_only_from_later(g, inputs[0] as int, d, inputs[0] as int);
        if x != n {
            if inputs.len() > 0 && inputs[0] < n && reaches(g, inputs[0] as int, x) {
                lemma_only_from_later(g, inputs[0] as int, d, x);
            } else {
                lemma_only_from_later(g, inputs[1] as int, d, x);
            }
        }
    }
}

/// Gradients do not flow through a detached tensor: in a pass from a root
/// that is computed from the detached tensor `d` alone, no tensor older
/// than `d` receives anything, in particular not the tensor that `d` was
/// detached from.
pub proof fn lemma_detach_cuts_history(g: Seq<NodeSpec>, root: int, seed: TensorSpec, d: int, x: int)
    requires
        graph_ok(g),
        0 <= d <= root < g.len(),
        g[d].op == Op::Leaf,
        only_from(g, root, d),
        0 <= x < d,
    ensures
        total_gradient(g, root, seed, x) == None::<TensorSpec>,
{
    if total_gradient(g, root, seed, x) is Some {
        lemma_gradient_follows_inputs(g, root, seed, x, x + 1);
        lemma_only_from_later(g, root, d, x);
    }
}

// ---------------------------------------------------------------------
// Identities
// ---------------------------------------------------------------------

/// Recording an operation gives its result an identity that no earlier
/// tensor has, and leaves every earlier tensor as it was.
pub proof fn lemma_recording_keeps_earlier_tensors<B: Backend + TensorOps<B>>(
    before: &ADBackendDecorator<B>,
    after: &ADBackendDecorator<B>,
    node: NodeSpec,
    result: ADTensor,
    earlier: ADTensor,
)
    requires
        after.extended(before, node, result),
        before.has(earlier),
    ensures
        !before.has(result),
        after.has(result),
        earlier.id < result.id,
        after.has(earlier),
        after@[earlier.id as int] == before@[earlier.id as int],
{
}

// ---------------------------------------------------------------------
// Order of accumulation
// ---------------------------------------------------------------------

/// Adding two contributions gives the same whichever comes first.
pub proof fn lemma_add_commutes(a: TensorSpec, b: TensorSpec)
    requires
        a.wf(),
        b.wf(),
        a.dims == b.dims,
    ensures
        zip_spec(BinOp::Add, a, b) == zip_spec(BinOp::Add, b, a),
{
    assert(zip_spec(BinOp::Add, a, b).data =~= zip_spec(BinOp::Add, b, a).data);
}

/// Adding three contributions gives the same however they are grouped.
pub proof fn lemma_add_associates(a: TensorSpec, b: TensorSpec, c: TensorSpec)
    requires
        a.wf(),
        b.wf(),
        c.wf(),
        a.dims == b.dims,
        b.dims == c.dims,
    ensures
        zip_spec(BinOp::Add, zip_spec(BinOp::Add, a, b), c) == zip_spec(
            BinOp::Add,
            a,
            zip_spec(BinOp::Add, b, c),
        ),
{
    assert(zip_spec(BinOp::Add, zip_spec(BinOp::Add, a, b), c).data =~= zip_spec(
        BinOp::Add,
        a,
        zip_spec(BinOp::Add, b, c),
    ).data);
}

/// The order in which two consumers hand their shares to a tensor does
/// not change what the tensor receives.
pub proof fn lemma_accumulation_order(acc: Option<TensorSpec>, x: TensorSpec, y: TensorSpec)
    requires
        x.wf(),
        y.wf(),
        x.dims == y.dims,
        acc matches Some(t) ==> t.wf() && t.dims == x.dims,
    ensures
        accumulate(accumulate(acc, x), y) == accumulate(accumulate(acc, y), x),
{
    match acc {
        None => {
            lemma_add_commutes(x, y);
        },
        Some(t) => {
            lemma_add_associates(t, x, y);
            lemma_add_commutes(x, y);
            lemma_add_associates(t, y, x);
        },
    }
}

} // verus!
