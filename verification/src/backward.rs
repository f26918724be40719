//! The backward pass: what gradient every node receives, and the engine
//! that computes it.
//!
//! The gradient of a node is the seed, if the node is the root, plus the
//! contributions of all its consumers up to the root, added in the order in
//! which the engine meets them: consumers by decreasing identity, and the
//! inputs of one consumer from first to last. A node that no contribution
//! reaches has no gradient.
use crate::autodiff::{ADBackendDecorator, ADTensor};
use crate::graph::{contribution, flows, graph_ok, input_value, node_ok, NodeSpec, Op};
use crate::model::{
    full_spec, matmul_dims, matmul_fit, swap, transpose_spec, zip_spec, BinOp, TensorSpec,
};
use crate::ops::{copy_ranges, Backend, ModuleOps, TensorOps, TensorOpsAggregation};
use crate::shape::{
    copy_dims, lemma_count_le, lemma_count_one, lemma_count_swap, Shape,
};
use vstd::prelude::*;

verus! {

/// The sum so far, with one more contribution.
pub open spec fn accumulate(acc: Option<TensorSpec>, t: TensorSpec) -> Option<TensorSpec> {
    match acc {
        None => Some(t),
        Some(a) => Some(zip_spec(BinOp::Add, a, t)),
    }
}

/// What node `n` has received once consumer `c`, whose own gradient is
/// `up`, has handed its contributions on; `acc` is what `n` had before.
pub open spec fn deliver(
    g: Seq<NodeSpec>,
    c: int,
    up: TensorSpec,
    n: int,
    acc: Option<TensorSpec>,
) -> Option<TensorSpec> {
    let node = g[c];
    let first = if node.inputs.len() > 0 && node.inputs[0] == n && flows(node.op, 0) {
        accumulate(acc, contribution(g, c, 0, up))
    } else {
        acc
    };
    if node.inputs.len() > 1 && node.inputs[1] == n && flows(node.op, 1) {
        accumulate(first, contribution(g, c, 1, up))
    } else {
        first
    }
}

/// What node `n` has received from the seed and from the consumers with
/// identities from `from` up to `root`, in a pass from `root` seeded with
/// `seed`.
pub open spec fn received(
    g: Seq<NodeSpec>,
    root: int,
    seed: TensorSpec,
    n: int,
    from: int,
) -> Option<TensorSpec>
    decreases root - n, root + 1 - from,
{
    if from > root || from <= n {
        if n == root {
            Some(seed)
        } else {
            None
        }
    } else {
        let later = received(g, root, seed, n, from + 1);
        match received(g, root, seed, from, from + 1) {
            None => later,
            Some(up) => deliver(g, from, up, n, later),
        }
    }
}

/// The whole gradient of node `n`: the seed and every consumer counted.
pub open spec fn total_gradient(g: Seq<NodeSpec>, root: int, seed: TensorSpec, n: int) -> Option<
    TensorSpec,
> {
    received(g, root, seed, n, n + 1)
}

/// The gradient that the pass reports for node `n`: that of an input,
/// parameter or detached tensor which the pass has reached.
pub open spec fn gradient(g: Seq<NodeSpec>, root: int, seed: TensorSpec, n: int) -> Option<
    TensorSpec,
> {
    if 0 <= n <= root && g[n].op == Op::Leaf {
        total_gradient(g, root, seed, n)
    } else {
        None
    }
}

/// A gradient, where there is one, has the shape of the value it belongs to.
pub open spec fn shaped_like(t: Option<TensorSpec>, v: TensorSpec) -> bool {
    t matches Some(x) ==> x.wf() && x.dims == v.dims
}

/// The transposed operands that the backward rule of a matrix product
/// multiplies fit together, and give the shapes of the two inputs.
pub proof fn lemma_matmul_backward_fit(a: TensorSpec, b: TensorSpec, up: TensorSpec)
    requires
        a.wf(),
        b.wf(),
        matmul_fit(a, b),
        up.wf(),
        up.dims == matmul_dims(a, b),
    ensures
        transpose_spec(b).wf(),
        matmul_fit(up, transpose_spec(b)),
        matmul_dims(up, transpose_spec(b)) == a.dims,
        transpose_spec(a).wf(),
        matmul_fit(transpose_spec(a), up),
        matmul_dims(transpose_spec(a), up) == b.dims,
{
    let n = a.dims.len() as int;
    let bt = transpose_spec(b);
    let at = transpose_spec(a);
    lemma_count_swap(b.dims, n - 2, n - 1);
    lemma_count_swap(a.dims, n - 2, n - 1);
    assert(bt.dims == swap(b.dims, n - 2, n - 1));
    assert(at.dims == swap(a.dims, n - 2, n - 1));
    assert forall|i: int| 0 <= i < n - 2 implies a.dims[i] == b.dims[i] by {
        assert(a.dims.take(n - 2)[i] == b.dims.take(n - 2)[i]);
    }
    assert(up.dims.take(n - 2) =~= bt.dims.take(n - 2));
    assert(at.dims.take(n - 2) =~= up.dims.take(n - 2));
    assert(matmul_dims(up, bt) =~= a.dims);
    assert(matmul_dims(at, up) =~= b.dims);
}

/// Every contribution has the shape of the input it is handed to.
pub proof fn lemma_contribution_shape(g: Seq<NodeSpec>, c: int, slot: int, up: TensorSpec)
    requires
        graph_ok(g),
        0 <= c < g.len(),
        0 <= slot < g[c].inputs.len(),
        flows(g[c].op, slot),
        up.wf(),
        up.dims == g[c].value.dims,
    ensures
        contribution(g, c, slot, up).wf(),
        contribution(g, c, slot, up).dims == input_value(g, c, slot).dims,
{
    assert(node_ok(g, c));
    let node = g[c];
    assert(node.inputs[0] < c);
    assert(node_ok(g, node.inputs[0] as int));
    let a = input_value(g, c, 0);
    if node.inputs.len() > 1 {
        assert(node.inputs[1] < c);
        assert(node_ok(g, node.inputs[1] as int));
    }
    let b = input_value(g, c, 1);
    match node.op {
        Op::Matmul => {
            lemma_matmul_backward_fit(a, b, up);
            lemma_count_swap(a.dims, a.dims.len() - 2, a.dims.len() - 1);
        },
        Op::SwapDims(d1, d2) => {
            lemma_count_swap(a.dims, d1 as int, d2 as int);
            assert(swap(swap(a.dims, d1 as int, d2 as int), d1 as int, d2 as int) =~= a.dims);
        },
        Op::SumDim(dim) => {
            assert(up.dims.update(dim as int, a.dims[dim as int]) =~= a.dims);
        },
        Op::Repeat(dim, times) => {
            assert(up.dims.update(dim as int, 1) =~= a.dims);
        },
        Op::IndexAssign(ranges) => {
            if slot == 1 {
                assert forall|i: int| 0 <= i < b.dims.len() implies (#[trigger] b.dims[i])
                    <= a.dims[i] by {
                    if i < ranges@.len() {
                        assert(ranges@[i].start <= ranges@[i].end <= a.dims[i]);
                    }
                }
                lemma_count_le(b.dims, a.dims);
            }
        },
        _ => {},
    }
}

/// What a node receives has the shape of its value.
pub proof fn lemma_deliver_shape(
    g: Seq<NodeSpec>,
    c: int,
    up: TensorSpec,
    n: int,
    acc: Option<TensorSpec>,
)
    requires
        graph_ok(g),
        0 <= n < c < g.len(),
        up.wf(),
        up.dims == g[c].value.dims,
        shaped_like(acc, g[n].value),
    ensures
        shaped_like(deliver(g, c, up, n, acc), g[n].value),
{
    let node = g[c];
    if node.inputs.len() > 0 && flows(node.op, 0) {
        lemma_contribution_shape(g, c, 0, up);
    }
    if node.inputs.len() > 1 && flows(node.op, 1) {
        lemma_contribution_shape(g, c, 1, up);
    }
    assert(node_ok(g, n));
}

/// In a pass whose seed has the shape of the root, every gradient has the
/// shape of the value it belongs to.
pub proof fn lemma_received_shape(g: Seq<NodeSpec>, root: int, seed: TensorSpec, n: int, from: int)
    requires
        graph_ok(g),
        0 <= root < g.len(),
        seed.wf(),
        seed.dims == g[root].value.dims,
        0 <= n <= root,
    ensures
        shaped_like(received(g, root, seed, n, from), g[n].value),
    decreases root - n, root + 1 - from,
{
    if from > root || from <= n {
    } else {
        lemma_received_shape(g, root, seed, n, from + 1);
        lemma_received_shape(g, root, seed, from, from + 1);
        match received(g, root, seed, from, from + 1) {
            None => {},
            Some(up) => {
                lemma_deliver_shape(g, from, up, n, received(g, root, seed, n, from + 1));
            },
        }
    }
}

/// The view of a tensor that may be absent.
pub open spec fn opt_view<T: View<V = TensorSpec>>(o: Option<T>) -> Option<TensorSpec> {
    match o {
        Some(t) => Some(t@),
        None => None,
    }
}

/// The gradients of one backward pass, by the identity of the tensor they
/// belong to.
pub struct Gradients<B: Backend> {
    /// The tensor the pass started from.
    pub root: usize,
    /// The gradient of node `root - k` stands at position `k`.
    pub entries: Vec<Option<B::TensorPrimitive>>,
}

impl<B: Backend> Gradients<B> {
    /// The gradient held for node `n`, if any.
    pub open spec fn get(&self, n: int) -> Option<TensorSpec> {
        if 0 <= n <= self.root && self.root - n < self.entries@.len() {
            opt_view(self.entries@[self.root - n])
        } else {
            None
        }
    }

    /// The gradient of tensor `t`, or `None` where the pass gave it none:
    /// the tensor took no part in what was differentiated, or is not an
    /// input, parameter or detached tensor.
    pub fn grad(&self, t: ADTensor) -> (r: Option<&B::TensorPrimitive>)
        ensures
            match r {
                Some(x) => self.get(t.id as int) == Some(x@),
                None => self.get(t.id as int) == None::<TensorSpec>,
            },
    {
        if t.id > self.root {
            return None;
        }
        let k = self.root - t.id;
        if k >= self.entries.len() {
            return None;
        }
        match &self.entries[k] {
            Some(x) => Some(x),
            None => None,
        }
    }
}

impl<B> ADBackendDecorator<B> where
    B: Backend + TensorOps<B> + ModuleOps<B>,
    B::TensorPrimitive: TensorOpsAggregation<B>,
 {
    /// Adds the contribution `t` to what node `i` has received so far.
    fn accumulate_at(&self, pending: &mut Vec<Option<B::TensorPrimitive>>, i: usize, t:
        &B::TensorPrimitive)
        requires
            i < old(pending)@.len(),
            t@.wf(),
            opt_view(old(pending)@[i as int]) matches Some(p) ==> p.wf() && p.dims == t@.dims,
        ensures
            final(pending)@.len() == old(pending)@.len(),
            opt_view(final(pending)@[i as int]) == accumulate(
                opt_view(old(pending)@[i as int]),
                t@,
            ),
            forall|j: int|
                0 <= j < old(pending)@.len() && j != i ==> final(pending)@[j] == old(pending)@[j],
    {
        let merged = match &pending[i] {
            Some(p) => B::add(p, t),
            None => B::to_device(t, self.device),
        };
        pending.set(i, Some(merged));
    }

    /// Hands the contributions of node `c`, whose gradient is `up`, to its inputs.
    fn propagate(&self, c: usize, up: &B::TensorPrimitive, pending: &mut Vec<
        Option<B::TensorPrimitive>,
    >)
        requires
            self.wf(),
            c < self@.len(),
            old(pending)@.len() == c,
            up@.wf(),
            up@.dims == self@[c as int].value.dims,
            self@[c as int].op != Op::Leaf,
            forall|n: int|
                0 <= n < c ==> shaped_like(opt_view(#[trigger] old(pending)@[n]), self@[n].value),
        ensures
            final(pending)@.len() == c,
            forall|n: int|
                0 <= n < c ==> opt_view(#[trigger] final(pending)@[n]) == deliver(
                    self@,
                    c as int,
                    up@,
                    n,
                    opt_view(old(pending)@[n]),
                ),
    {
        let ghost g = self@;
        let node = &self.nodes[c];
        proof {
            assert(node@ == g[c as int]);
            assert(node_ok(g, c as int));
            assert(node.inputs@[0] < c);
            assert(node_ok(g, node.inputs@[0] as int));
            lemma_contribution_shape(g, c as int, 0, up@);
            if node.inputs@.len() > 1 {
                assert(node.inputs@[1] < c);
                assert(node_ok(g, node.inputs@[1] as int));
                if flows(g[c as int].op, 1) {
                    lemma_contribution_shape(g, c as int, 1, up@);
                }
            }
        }
        let first = node.inputs[0];
        let a = &self.nodes[first].value;
        assert(a@ == input_value(g, c as int, 0));
        match &node.op {
            Op::Leaf => {},
            Op::Add => {
                let second = node.inputs[1];
                self.accumulate_at(pending, first, up);
                self.accumulate_at(pending, second, up);
            },
            Op::Sub => {
                let second = node.inputs[1];
                let t = B::neg(up);
                self.accumulate_at(pending, first, up);
                self.accumulate_at(pending, second, &t);
            },
            Op::Mul => {
                let second = node.inputs[1];
                let b = &self.nodes[second].value;
                assert(b@ == input_value(g, c as int, 1));
                let t0 = B::mul(up, b);
                let t1 = B::mul(up, a);
                self.accumulate_at(pending, first, &t0);
                self.accumulate_at(pending, second, &t1);
            },
            Op::Neg => {
                let t = B::neg(up);
                self.accumulate_at(pending, first, &t);
            },
            Op::AddScalar(_) => {
                self.accumulate_at(pending, first, up);
            },
            Op::SubScalar(_) => {
                self.accumulate_at(pending, first, up);
            },
            Op::MulScalar(s) => {
                let t = B::mul_scalar(up, s);
                self.accumulate_at(pending, first, &t);
            },
            Op::Matmul => {
                let second = node.inputs[1];
                let b = &self.nodes[second].value;
                assert(b@ == input_value(g, c as int, 1));
                proof {
                    lemma_matmul_backward_fit(a@, b@, up@);
                }
                let bt = B::transpose(b);
                let t0 = B::matmul(up, &bt);
                let at = B::transpose(a);
                let t1 = B::matmul(&at, up);
                self.accumulate_at(pending, first, &t0);
                self.accumulate_at(pending, second, &t1);
            },
            Op::SwapDims(d1, d2) => {
                let t = B::swap_dims(up, *d1, *d2);
                self.accumulate_at(pending, first, &t);
            },
            Op::Reshape => {
                let t = B::reshape(up, Shape::new(copy_dims(&B::shape(a).dims)));
                self.accumulate_at(pending, first, &t);
            },
            Op::Sum => {
                let data = B::to_data(up);
                proof {
                    lemma_count_one(1);
                }
                let v = data.value[0];
                let zero = B::mul_scalar(a, &0);
                let t = B::add_scalar(&zero, &v);
                assert(t@.data =~= full_spec(a@.dims, v).data);
                self.accumulate_at(pending, first, &t);
            },
            Op::SumDim(dim) => {
                let times = B::shape(a).dims[*dim];
                assert(up@.dims.update(*dim as int, times) =~= a@.dims);
                let t = B::repeat(up, *dim, times);
                self.accumulate_at(pending, first, &t);
            },
            Op::Repeat(dim, times) => {
                assert(up@.dims.update(*dim as int, 1) =~= a@.dims);
                let t = up.sum_dim(*dim);
                self.accumulate_at(pending, first, &t);
            },
            Op::Index(ranges) => {
                let zero = B::mul_scalar(a, &0);
                assert(zero@.data =~= full_spec(a@.dims, 0).data);
                let t = B::index_assign(&zero, copy_ranges(ranges), up);
                self.accumulate_at(pending, first, &t);
            },
            Op::IndexAssign(ranges) => {
                let second = node.inputs[1];
                let b = &self.nodes[second].value;
                assert(b@ == input_value(g, c as int, 1));
                let zero = B::mul_scalar(b, &0);
                assert(zero@.data =~= full_spec(b@.dims, 0).data);
                let t0 = B::index_assign(up, copy_ranges(ranges), &zero);
                let t1 = B::index(up, copy_ranges(ranges));
                self.accumulate_at(pending, first, &t0);
                self.accumulate_at(pending, second, &t1);
            },
            Op::Embedding => {
                let second = node.inputs[1];
                let b = &self.nodes[second].value;
                assert(b@ == input_value(g, c as int, 1));
                let t = B::embedding_backward(a, up, b);
                self.accumulate_at(pending, first, &t);
            },
            Op::MaskFill(_) => {
                let second = node.inputs[1];
                let b = &self.nodes[second].value;
                assert(b@ == input_value(g, c as int, 1));
                let t = B::mul(up, b);
                self.accumulate_at(pending, first, &t);
            },
        }
    }

    /// The backward pass from `root` with the gradient `seed` for `root`.
    pub fn backward_with_seed(&self, root: ADTensor, seed: B::TensorPrimitive) -> (grads: Gradients<
        B,
    >)
        requires
            self.wf(),
            self.has(root),
            seed@.wf(),
            seed@.dims == self.value_of(root).dims,
        ensures
            forall|n: int| grads.get(n) == gradient(self@, root.id as int, seed@, n),
    {
        let ghost g = self@;
        let ghost r = root.id as int;
        let ghost s = seed@;
        let recorded = self.nodes.len();
        assert(root.id < recorded);
        let mut pending: Vec<Option<B::TensorPrimitive>> = Vec::new();
        let mut i: usize = 0;
        while i < root.id
            invariant
                i <= root.id,
                pending.len() == i,
                forall|n: int| 0 <= n < i ==> opt_view(#[trigger] pending@[n]) == None::<TensorSpec>,
            decreases root.id - i,
        {
            pending.push(None);
            i += 1;
        }
        pending.push(Some(seed));
        let mut entries: Vec<Option<B::TensorPrimitive>> = Vec::new();
        let mut c: usize = root.id + 1;
        while c > 0
            invariant
                self.wf(),
                g == self@,
                r == root.id,
                0 <= r < g.len(),
                s.wf(),
                s.dims == g[r].value.dims,
                c <= root.id + 1,
                pending.len() == c,
                entries.len() == root.id + 1 - c,
                forall|n: int|
                    0 <= n < c ==> opt_view(#[trigger] pending@[n]) == received(g, r, s, n, c as int),
                forall|k: int|
                    0 <= k < entries.len() ==> opt_view(#[trigger] entries@[k]) == gradient(
                        g,
                        r,
                        s,
                        r - k,
                    ),
            decreases c,
        {
            c = c - 1;
            let ghost before = pending@;
            let up = pending.pop().unwrap();
            assert(opt_view(up) == total_gradient(g, r, s, c as int));
            assert forall|n: int| 0 <= n < c implies shaped_like(
                opt_view(#[trigger] pending@[n]),
                g[n].value,
            ) by {
                assert(pending@[n] == before[n]);
                lemma_received_shape(g, r, s, n, c + 1);
            }
            proof {
                lemma_received_shape(g, r, s, c as int, c + 1);
                assert(node_ok(g, c as int));
            }
            let ghost mid = pending@;
            match up {
                None => {
                    entries.push(None);
                },
                Some(u) => {
                    let is_leaf = match self.nodes[c].op {
                        Op::Leaf => true,
                        _ => false,
                    };
                    assert(self.nodes@[c as int]@ == g[c as int]);
                    if is_leaf {
                        entries.push(Some(u));
                    } else {
                        self.propagate(c, &u, &mut pending);
                        entries.push(None);
                    }
                },
            }
            proof {
                assert forall|n: int| 0 <= n < c implies opt_view(#[trigger] pending@[n])
                    == received(g, r, s, n, c as int) by {
                    assert(mid[n] == before[n]);
                    assert(opt_view(before[n]) == received(g, r, s, n, c + 1));
                }
            }
        }
        let grads = Gradients { root: root.id, entries };
        proof {
            assert forall|n: int| grads.get(n) == gradient(g, r, s, n) by {
                if 0 <= n <= r {
                    assert(opt_view(grads.entries@[r - n]) == gradient(g, r, s, r - (r - n)));
                }
            }
        }
        grads
    }

    /// The backward pass from `root`, seeded with ones in the shape of `root`.
    pub fn backward(&self, root: ADTensor) -> (grads: Gradients<B>)
        requires
            self.wf(),
            self.has(root),
        ensures
            forall|n: int|
                grads.get(n) == gradient(
                    self@,
                    root.id as int,
                    full_spec(self.value_of(root).dims, 1),
                    n,
                ),
    {
        assert(node_ok(self@, root.id as int));
        let value = self.primitive(root);
        let zero = B::mul_scalar(value, &0);
        let seed = B::add_scalar(&zero, &1);
        assert(seed@.data =~= full_spec(value@.dims, 1).data);
        self.backward_with_seed(root, seed)
    }

    /// The gradient of `t` in the pass that gave `grads`.
    pub fn grad<'a>(&self, t: ADTensor, grads: &'a Gradients<B>) -> (r: Option<
        &'a B::TensorPrimitive,
    >)
        ensures
            match r {
                Some(x) => grads.get(t.id as int) == Some(x@),
                None => grads.get(t.id as int) == None::<TensorSpec>,
            },
    {
        grads.grad(t)
    }
}

} // verus!
