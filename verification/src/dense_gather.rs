//! Kernels of the reference engine for table lookup and concatenation.
use crate::dense::DenseTensor;
use crate::model::{
    cat_at, cat_dims, cat_extent, cat_fit, cat_spec, embedding_backward_spec, embedding_dims,
    embedding_fit, embedding_spec, scatter_total, TensorSpec,
};
use crate::ops::views;
use crate::shape::{
    checked_count, copy_dims, count, flatten, in_bounds, unflatten, unravel, Shape,
};
use vstd::arithmetic::div_mod::{lemma_fundamental_div_mod, lemma_fundamental_div_mod_converse};
use vstd::prelude::*;

verus! {

pub proof fn lemma_count_two(dims: Seq<usize>)
    requires
        dims.len() == 2,
    ensures
        count(dims) == dims[0] * dims[1],
{
    let a = dims.drop_last();
    assert(a.drop_last() =~= Seq::<usize>::empty());
    assert(count(a.drop_last()) == 1);
    assert(count(a) == count(a.drop_last()) * (a.last() as nat));
    assert(count(dims) == count(a) * (dims.last() as nat));
}

pub proof fn lemma_count_three(dims: Seq<usize>)
    requires
        dims.len() == 3,
    ensures
        count(dims) == dims[0] * dims[1] * dims[2],
{
    lemma_count_two(dims.drop_last());
    assert(count(dims) == count(dims.drop_last()) * (dims.last() as nat));
}

/// Position `q * d + c` splits back into row `q` and column `c`.
pub proof fn lemma_split(q: int, c: int, d: int)
    requires
        0 <= q,
        0 <= c < d,
    ensures
        (q * d + c) / d == q,
        (q * d + c) % d == c,
        q * d + c >= 0,
{
    assert(q * d == d * q) by (nonlinear_arith);
    assert(q * d >= 0) by (nonlinear_arith)
        requires
            q >= 0,
            d > 0,
    ;
    lemma_fundamental_div_mod_converse(q * d + c, d, q, c);
}

/// A position below `rows * d` lies in a row below `rows`.
pub proof fn lemma_row_bound(q: int, c: int, d: int, rows: int)
    requires
        0 <= q < rows,
        0 <= c < d,
    ensures
        0 <= q * d + c < rows * d,
{
    assert(0 <= q * d + c < rows * d) by (nonlinear_arith)
        requires
            0 <= q < rows,
            0 <= c < d,
    ;
}

impl DenseTensor {
    /// One row of `weights` per entry of `indexes`.
    pub fn embedding(weights: &DenseTensor, indexes: &DenseTensor) -> (r: DenseTensor)
        requires
            embedding_fit(weights@, indexes@),
            count(embedding_dims(weights@, indexes@)) <= usize::MAX,
        ensures
            r@ == embedding_spec(weights@, indexes@),
            r@.wf(),
    {
        let rows = weights.shape.dims[0];
        let d = weights.shape.dims[1];
        let m = indexes.data.len();
        let mut dims: Vec<usize> = Vec::new();
        dims.push(indexes.shape.dims[0]);
        dims.push(indexes.shape.dims[1]);
        dims.push(d);
        proof {
            assert(dims@ =~= embedding_dims(weights@, indexes@));
            lemma_count_two(weights@.dims);
            lemma_count_two(indexes@.dims);
            lemma_count_three(dims@);
        }
        let mut out: Vec<i64> = Vec::new();
        let mut q: usize = 0;
        while q < m
            invariant
                q <= m,
                m == indexes@.data.len(),
                embedding_fit(weights@, indexes@),
                rows == weights@.dims[0],
                d == weights@.dims[1],
                weights@.data.len() == rows * d,
                rows * d <= usize::MAX,
                m * d <= usize::MAX,
                out.len() == q * d,
                forall|p: int|
                    0 <= p < out.len() ==> out@[p] == weights@.data[indexes@.data[p / (d as int)] * d
                        + p % (d as int)],
            decreases m - q,
        {
            let entry = indexes.data[q];
            assert(0 <= indexes@.data[q as int] < rows);
            let row = entry as usize;
            let mut c: usize = 0;
            while c < d
                invariant
                    c <= d,
                    q < m,
                    row < rows,
                    m == indexes@.data.len(),
                    d == weights@.dims[1],
                    row == indexes@.data[q as int],
                    weights@.data.len() == rows * d,
                    rows * d <= usize::MAX,
                    m * d <= usize::MAX,
                    out.len() == q * d + c,
                    forall|p: int|
                        0 <= p < out.len() ==> out@[p] == weights@.data[indexes@.data[p / (
                        d as int)] * d + p % (d as int)],
                decreases d - c,
            {
                proof {
                    lemma_row_bound(row as int, c as int, d as int, rows as int);
                    lemma_row_bound(q as int, c as int, d as int, m as int);
                    lemma_split(q as int, c as int, d as int);
                }
                out.push(weights.data[row * d + c]);
                c += 1;
            }
            proof {
                assert((q + 1) * d == q * d + d) by (nonlinear_arith);
            }
            q += 1;
        }
        let r = DenseTensor { shape: Shape::new(dims), data: out };
        assert(r@.data =~= embedding_spec(weights@, indexes@).data);
        r
    }

    /// For every row of `weights`, the sum of the rows of `output` at the
    /// occurrences of its number in `indexes`.
    pub fn embedding_backward(
        weights: &DenseTensor,
        output: &DenseTensor,
        indexes: &DenseTensor,
    ) -> (r: DenseTensor)
        requires
            embedding_fit(weights@, indexes@),
            output@.wf(),
            output@.dims == embedding_dims(weights@, indexes@),
        ensures
            r@ == embedding_backward_spec(weights@, output@, indexes@),
            r@.wf(),
    {
        let rows = weights.shape.dims[0];
        let d = weights.shape.dims[1];
        let m = indexes.data.len();
        let n = weights.data.len();
        proof {
            lemma_count_two(weights@.dims);
            lemma_count_two(indexes@.dims);
            lemma_count_three(output@.dims);
        }
        let mut grad: Vec<i64> = Vec::new();
        let mut i: usize = 0;
        while i < n
            invariant
                i <= n,
                grad.len() == i,
                forall|p: int| 0 <= p < i ==> grad@[p] == 0,
            decreases n - i,
        {
            grad.push(0);
            i += 1;
        }
        let ghost og = output@.data;
        let ghost ix = indexes@.data;
        let mut q: usize = 0;
        while q < m
            invariant
                q <= m,
                m == ix.len(),
                og == output@.data,
                ix == indexes@.data,
                embedding_fit(weights@, indexes@),
                rows == weights@.dims[0],
                d == weights@.dims[1],
                n == rows * d,
                og.len() == m * d,
                m * d <= usize::MAX,
                grad.len() == n,
                forall|p: int|
                    0 <= p < n ==> grad@[p] == scatter_total(
                        og,
                        ix,
                        d as int,
                        p / (d as int),
                        p % (d as int),
                        q as nat,
                    ),
            decreases m - q,
        {
            let entry = indexes.data[q];
            assert(0 <= ix[q as int] < rows);
            let row = entry as usize;
            let mut c: usize = 0;
            while c < d
                invariant
                    c <= d,
                    q < m,
                    row < rows,
                    m == ix.len(),
                    row == ix[q as int],
                    og == output@.data,
                    n == rows * d,
                    og.len() == m * d,
                    m * d <= usize::MAX,
                    grad.len() == n,
                    forall|p: int|
                        0 <= p < n ==> grad@[p] == (if p / (d as int) == row && p % (d as int) < c {
                            scatter_total(
                                og,
                                ix,
                                d as int,
                                p / (d as int),
                                p % (d as int),
                                (q + 1) as nat,
                            )
                        } else {
                            scatter_total(og, ix, d as int, p / (d as int), p % (d as int), q as nat)
                        }),
                decreases d - c,
            {
                proof {
                    lemma_row_bound(row as int, c as int, d as int, rows as int);
                    lemma_row_bound(q as int, c as int, d as int, m as int);
                    lemma_split(row as int, c as int, d as int);
                }
                let t = row * d + c;
                let ghost before = grad@;
                let sum = grad[t].wrapping_add(output.data[q * d + c]);
                grad.set(t, sum);
                proof {
                    assert forall|p: int| 0 <= p < n implies grad@[p] == (if p / (d as int) == row
                        && p % (d as int) < c + 1 {
                        scatter_total(
                            og,
                            ix,
                            d as int,
                            p / (d as int),
                            p % (d as int),
                            (q + 1) as nat,
                        )
                    } else {
                        scatter_total(og, ix, d as int, p / (d as int), p % (d as int), q as nat)
                    }) by {
                        if p != t {
                            assert(grad@[p] == before[p]);
                            if p / (d as int) == row && p % (d as int) == c {
                                lemma_fundamental_div_mod(p, d as int);
                                assert(d * (p / (d as int)) == row * d) by (nonlinear_arith)
                                    requires
                                        p / (d as int) == row,
                                ;
                            }
                        }
                    }
                }
                c += 1;
            }
            q += 1;
        }
        let r = DenseTensor { shape: weights.shape.clone(), data: grad };
        assert(r@.data =~= embedding_backward_spec(weights@, output@, indexes@).data);
        r
    }
}

/// The combined extent of a prefix never exceeds that of a longer prefix.
pub proof fn lemma_extent_monotone(ts: Seq<TensorSpec>, dim: int, k: nat, n: nat)
    requires
        k <= n,
    ensures
        cat_extent(ts, dim, k) <= cat_extent(ts, dim, n),
    decreases n - k,
{
    if k < n {
        lemma_extent_monotone(ts, dim, k, (n - 1) as nat);
    }
}

/// For each tensor the combined extent along `dim` of those before it, and
/// the combined extent of all.
pub fn extents(tensors: &Vec<&DenseTensor>, dim: usize) -> (r: (Vec<usize>, usize))
    requires
        cat_fit(views(tensors@), dim as int),
        cat_extent(views(tensors@), dim as int, tensors@.len()) <= usize::MAX,
    ensures
        r.0.len() == tensors.len(),
        forall|k: int|
            0 <= k < tensors.len() ==> r.0@[k] == cat_extent(views(tensors@), dim as int, k as nat),
        r.1 == cat_extent(views(tensors@), dim as int, tensors@.len()),
{
    let ghost ts = views(tensors@);
    let mut starts: Vec<usize> = Vec::new();
    let mut acc: usize = 0;
    let mut k: usize = 0;
    while k < tensors.len()
        invariant
            k <= tensors.len(),
            ts == views(tensors@),
            cat_fit(ts, dim as int),
            cat_extent(ts, dim as int, tensors@.len()) <= usize::MAX,
            starts.len() == k,
            acc == cat_extent(ts, dim as int, k as nat),
            forall|j: int| 0 <= j < k ==> starts@[j] == cat_extent(ts, dim as int, j as nat),
        decreases tensors.len() - k,
    {
        proof {
            lemma_extent_monotone(ts, dim as int, (k + 1) as nat, tensors@.len());
            assert(ts[k as int].dims.len() == ts[0].dims.len());
            assert(ts[k as int] == tensors@[k as int]@);
        }
        starts.push(acc);
        acc = acc + tensors[k].shape.dims[dim];
        k += 1;
    }
    (starts, acc)
}

/// The element of the concatenation at position `idx`.
pub fn pick(tensors: &Vec<&DenseTensor>, starts: &Vec<usize>, dim: usize, idx: &Vec<usize>) -> (r:
    i64)
    requires
        cat_fit(views(tensors@), dim as int),
        cat_extent(views(tensors@), dim as int, tensors@.len()) <= usize::MAX,
        in_bounds(cat_dims(views(tensors@), dim as int), idx@),
        starts.len() == tensors.len(),
        forall|k: int|
            0 <= k < tensors.len() ==> starts@[k] == cat_extent(
                views(tensors@),
                dim as int,
                k as nat,
            ),
    ensures
        r == cat_at(views(tensors@), dim as int, idx@, tensors@.len()),
{
    let ghost ts = views(tensors@);
    let mut k: usize = tensors.len();
    assert(idx@[dim as int] < cat_dims(ts, dim as int)[dim as int]);
    while k > 0
        invariant
            k <= tensors.len(),
            ts == views(tensors@),
            cat_fit(ts, dim as int),
            in_bounds(cat_dims(ts, dim as int), idx@),
            starts.len() == tensors.len(),
            forall|j: int|
                0 <= j < tensors.len() ==> starts@[j] == cat_extent(ts, dim as int, j as nat),
            idx@[dim as int] < cat_extent(ts, dim as int, k as nat),
            cat_at(ts, dim as int, idx@, tensors@.len()) == cat_at(ts, dim as int, idx@, k as nat),
        decreases k,
    {
        let before = starts[k - 1];
        if idx[dim] >= before {
            let piece = tensors[k - 1];
            let mut src = copy_dims(idx);
            src.set(dim, idx[dim] - before);
            proof {
                assert(ts[k - 1] == piece@);
                assert(piece@.wf());
                assert(src@ =~= idx@.update(dim as int, (idx@[dim as int] - before) as usize));
                assert forall|i: int| 0 <= i < piece@.dims.len() implies (#[trigger] src@[i])
                    < piece@.dims[i] by {
                    if i != dim {
                        assert(idx@[i] < cat_dims(ts, dim as int)[i]);
                        assert(ts[k - 1].dims.update(dim as int, 0)[i] == ts[0].dims.update(
                            dim as int,
                            0,
                        )[i]);
                    }
                }
            }
            return piece.data[flatten(&piece.shape.dims, &src)];
        }
        k -= 1;
    }
    0
}

impl DenseTensor {
    /// The tensors of `tensors` one after the other along `dim`.
    pub fn concatenate(tensors: &Vec<&DenseTensor>, dim: usize) -> (r: DenseTensor)
        requires
            cat_fit(views(tensors@), dim as int),
            cat_extent(views(tensors@), dim as int, tensors@.len()) <= usize::MAX,
            count(cat_dims(views(tensors@), dim as int)) <= usize::MAX,
        ensures
            r@ == cat_spec(views(tensors@), dim as int),
            r@.wf(),
    {
        let ghost ts = views(tensors@);
        let (starts, extent) = extents(tensors, dim);
        assert(ts[0] == tensors@[0]@);
        let mut dims = copy_dims(&tensors[0].shape.dims);
        dims.set(dim, extent);
        assert(dims@ =~= cat_dims(ts, dim as int));
        let n = match checked_count(&dims) {
            Some(n) => n,
            None => 0,
        };
        let mut out: Vec<i64> = Vec::new();
        let mut p: usize = 0;
        while p < n
            invariant
                p <= n,
                n == count(dims@),
                ts == views(tensors@),
                cat_fit(ts, dim as int),
                cat_extent(ts, dim as int, tensors@.len()) <= usize::MAX,
                dims@ == cat_dims(ts, dim as int),
                starts.len() == tensors.len(),
                forall|k: int|
                    0 <= k < tensors.len() ==> starts@[k] == cat_extent(ts, dim as int, k as nat),
                out.len() == p,
                forall|q: int|
                    0 <= q < p ==> out@[q] == cat_at(
                        ts,
                        dim as int,
                        unravel(dims@, q as nat),
                        tensors@.len(),
                    ),
            decreases n - p,
        {
            let idx = unflatten(&dims, p);
            out.push(pick(tensors, &starts, dim, &idx));
            p += 1;
        }
        let r = DenseTensor { shape: Shape::new(dims), data: out };
        assert(r@.data =~= cat_spec(ts, dim as int).data);
        r
    }
}

} // verus!
