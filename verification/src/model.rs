//! Mathematical model of dense tensors and of every tensor operation.
//!
//! A tensor is its list of dimension sizes together with its row-major
//! buffer. Element arithmetic wraps around in two's complement, so every
//! operation is total on well-formed tensors of matching shape.
use crate::shape::{count, offset, unravel};
use core::ops::Range;
use vstd::prelude::*;
use vstd::wrapping::i64_specs::{wrapping_add, wrapping_mul, wrapping_sub};

verus! {

/// A dense tensor of integers.
pub struct TensorSpec {
    pub dims: Seq<usize>,
    pub data: Seq<i64>,
}

/// A dense tensor of booleans, as produced by comparisons.
pub struct MaskSpec {
    pub dims: Seq<usize>,
    pub data: Seq<bool>,
}

impl TensorSpec {
    /// The buffer holds exactly one element per position, and is no longer
    /// than a buffer in memory can be.
    pub open spec fn wf(self) -> bool {
        self.data.len() == count(self.dims) && self.data.len() <= usize::MAX
    }

    /// Element at a multi-index.
    pub open spec fn at(self, idx: Seq<usize>) -> i64 {
        self.data[offset(self.dims, idx) as int]
    }

    pub open spec fn rank(self) -> nat {
        self.dims.len()
    }
}

impl MaskSpec {
    pub open spec fn wf(self) -> bool {
        self.data.len() == count(self.dims) && self.data.len() <= usize::MAX
    }

    pub open spec fn at(self, idx: Seq<usize>) -> bool {
        self.data[offset(self.dims, idx) as int]
    }
}

/// The four elementwise arithmetic operations.
#[derive(Clone, Copy, PartialEq, Eq, Structural, Debug)]
pub enum BinOp {
    Add,
    Sub,
    Mul,
    Div,
}

/// The five elementwise comparisons.
#[derive(Clone, Copy, PartialEq, Eq, Structural, Debug)]
pub enum CmpOp {
    Equal,
    Greater,
    GreaterEqual,
    Lower,
    LowerEqual,
}

pub open spec fn elem_neg(a: i64) -> i64 {
    wrapping_sub(0, a)
}

/// Division truncating toward zero; the one overflowing quotient wraps.
pub open spec fn elem_div(a: i64, b: i64) -> i64 {
    if a == i64::MIN && b == -1 {
        i64::MIN
    } else if a >= 0 {
        ((a as int) / (b as int)) as i64
    } else {
        (-((-(a as int)) / (b as int))) as i64
    }
}

pub open spec fn elem_bin(op: BinOp, a: i64, b: i64) -> i64 {
    match op {
        BinOp::Add => wrapping_add(a, b),
        BinOp::Sub => wrapping_sub(a, b),
        BinOp::Mul => wrapping_mul(a, b),
        BinOp::Div => elem_div(a, b),
    }
}

pub open spec fn elem_cmp(op: CmpOp, a: i64, b: i64) -> bool {
    match op {
        CmpOp::Equal => a == b,
        CmpOp::Greater => a > b,
        CmpOp::GreaterEqual => a >= b,
        CmpOp::Lower => a < b,
        CmpOp::LowerEqual => a <= b,
    }
}

/// No element of the divisor is zero.
pub open spec fn nonzero(t: TensorSpec) -> bool {
    forall|i: int| 0 <= i < t.data.len() ==> (#[trigger] t.data[i]) != 0
}

pub open spec fn zip_spec(op: BinOp, a: TensorSpec, b: TensorSpec) -> TensorSpec {
    TensorSpec {
        dims: a.dims,
        data: Seq::new(a.data.len(), |i: int| elem_bin(op, a.data[i], b.data[i])),
    }
}

pub open spec fn scalar_spec(op: BinOp, a: TensorSpec, s: i64) -> TensorSpec {
    TensorSpec { dims: a.dims, data: Seq::new(a.data.len(), |i: int| elem_bin(op, a.data[i], s)) }
}

pub open spec fn neg_spec(a: TensorSpec) -> TensorSpec {
    TensorSpec { dims: a.dims, data: Seq::new(a.data.len(), |i: int| elem_neg(a.data[i])) }
}

pub open spec fn cmp_spec(op: CmpOp, a: TensorSpec, b: TensorSpec) -> MaskSpec {
    MaskSpec {
        dims: a.dims,
        data: Seq::new(a.data.len(), |i: int| elem_cmp(op, a.data[i], b.data[i])),
    }
}

pub open spec fn cmp_scalar_spec(op: CmpOp, a: TensorSpec, s: i64) -> MaskSpec {
    MaskSpec { dims: a.dims, data: Seq::new(a.data.len(), |i: int| elem_cmp(op, a.data[i], s)) }
}

pub open spec fn mask_fill_spec(a: TensorSpec, mask: MaskSpec, value: i64) -> TensorSpec {
    TensorSpec {
        dims: a.dims,
        data: Seq::new(
            a.data.len(),
            |i: int|
                if mask.data[i] {
                    value
                } else {
                    a.data[i]
                },
        ),
    }
}

/// `a` with `value` wherever `keep` is zero.
pub open spec fn fill_spec(a: TensorSpec, keep: TensorSpec, value: i64) -> TensorSpec {
    TensorSpec {
        dims: a.dims,
        data: Seq::new(
            a.data.len(),
            |i: int|
                if keep.data[i] == 0 {
                    value
                } else {
                    a.data[i]
                },
        ),
    }
}

/// A tensor with every element equal to `value`.
pub open spec fn full_spec(dims: Seq<usize>, value: i64) -> TensorSpec {
    TensorSpec { dims, data: Seq::new(count(dims), |i: int| value) }
}

pub open spec fn reshape_spec(a: TensorSpec, dims: Seq<usize>) -> TensorSpec {
    TensorSpec { dims, data: a.data }
}

/// The consecutive integers of `start..end`, as a rank-1 tensor.
pub open spec fn arange_spec(start: usize, end: usize) -> TensorSpec {
    TensorSpec {
        dims: seq![(end - start) as usize],
        data: Seq::new((end - start) as nat, |i: int| #[verifier::truncate] ((start + i) as i64)),
    }
}

// ---------------------------------------------------------------------
// Operations that move elements between positions
// ---------------------------------------------------------------------

pub open spec fn swap(s: Seq<usize>, i: int, j: int) -> Seq<usize> {
    s.update(i, s[j]).update(j, s[i])
}

pub open spec fn swap_dims_spec(a: TensorSpec, dim1: int, dim2: int) -> TensorSpec {
    let dims = swap(a.dims, dim1, dim2);
    TensorSpec {
        dims,
        data: Seq::new(count(dims), |p: int| a.at(swap(unravel(dims, p as nat), dim1, dim2))),
    }
}

pub open spec fn transpose_spec(a: TensorSpec) -> TensorSpec {
    swap_dims_spec(a, a.dims.len() - 2, a.dims.len() - 1)
}

/// One half-open range per leading dimension, each inside the dimension.
pub open spec fn ranges_fit(dims: Seq<usize>, ranges: Seq<Range<usize>>) -> bool {
    &&& ranges.len() <= dims.len()
    &&& forall|i: int|
        0 <= i < ranges.len() ==> (#[trigger] ranges[i]).start <= ranges[i].end && ranges[i].end
            <= dims[i]
}

/// Dimension sizes of the region that `ranges` selects.
pub open spec fn region_dims(dims: Seq<usize>, ranges: Seq<Range<usize>>) -> Seq<usize> {
    Seq::new(
        dims.len(),
        |i: int|
            if i < ranges.len() {
                (ranges[i].end - ranges[i].start) as usize
            } else {
                dims[i]
            },
    )
}

/// Position in the whole tensor of a position given relative to the region.
pub open spec fn region_to_whole(idx: Seq<usize>, ranges: Seq<Range<usize>>) -> Seq<usize> {
    Seq::new(
        idx.len(),
        |i: int|
            if i < ranges.len() {
                (idx[i] + ranges[i].start) as usize
            } else {
                idx[i]
            },
    )
}

/// Position relative to the region of a position in the whole tensor.
pub open spec fn whole_to_region(idx: Seq<usize>, ranges: Seq<Range<usize>>) -> Seq<usize> {
    Seq::new(
        idx.len(),
        |i: int|
            if i < ranges.len() {
                (idx[i] - ranges[i].start) as usize
            } else {
                idx[i]
            },
    )
}

pub open spec fn in_region(idx: Seq<usize>, ranges: Seq<Range<usize>>) -> bool {
    forall|i: int|
        0 <= i < ranges.len() && i < idx.len() ==> (#[trigger] ranges[i]).start <= idx[i] < ranges[i].end
}

pub open spec fn index_spec(a: TensorSpec, ranges: Seq<Range<usize>>) -> TensorSpec {
    let dims = region_dims(a.dims, ranges);
    TensorSpec {
        dims,
        data: Seq::new(count(dims), |p: int| a.at(region_to_whole(unravel(dims, p as nat), ranges))),
    }
}

pub open spec fn index_assign_spec(
    a: TensorSpec,
    ranges: Seq<Range<usize>>,
    value: TensorSpec,
) -> TensorSpec {
    TensorSpec {
        dims: a.dims,
        data: Seq::new(
            a.data.len(),
            |p: int|
                {
                    let idx = unravel(a.dims, p as nat);
                    if in_region(idx, ranges) {
                        value.at(whole_to_region(idx, ranges))
                    } else {
                        a.data[p]
                    }
                },
        ),
    }
}

pub open spec fn repeat_spec(a: TensorSpec, dim: int, times: usize) -> TensorSpec {
    let dims = a.dims.update(dim, times);
    TensorSpec {
        dims,
        data: Seq::new(count(dims), |p: int| a.at(unravel(dims, p as nat).update(dim, 0))),
    }
}

// ---------------------------------------------------------------------
// Matrix product
// ---------------------------------------------------------------------

/// Both operands have the same rank of at least two, the same leading
/// (batch) dimensions, and inner dimensions that agree.
pub open spec fn matmul_fit(a: TensorSpec, b: TensorSpec) -> bool {
    let n = a.dims.len() as int;
    &&& n >= 2
    &&& b.dims.len() == n
    &&& a.dims.take(n - 2) == b.dims.take(n - 2)
    &&& a.dims[n - 1] == b.dims[n - 2]
}

pub open spec fn matmul_dims(a: TensorSpec, b: TensorSpec) -> Seq<usize> {
    a.dims.update(a.dims.len() - 1, b.dims[b.dims.len() - 1])
}

/// Sum of the first `k` products along row `idx` of `a` and column `idx` of `b`.
pub open spec fn dot(a: TensorSpec, b: TensorSpec, idx: Seq<usize>, k: nat) -> i64
    decreases k,
{
    if k == 0 {
        0
    } else {
        let n = a.dims.len() as int;
        let j = (k - 1) as usize;
        wrapping_add(
            dot(a, b, idx, (k - 1) as nat),
            wrapping_mul(a.at(idx.update(n - 1, j)), b.at(idx.update(n - 2, j))),
        )
    }
}

pub open spec fn matmul_spec(a: TensorSpec, b: TensorSpec) -> TensorSpec {
    let dims = matmul_dims(a, b);
    TensorSpec {
        dims,
        data: Seq::new(
            count(dims),
            |p: int| dot(a, b, unravel(dims, p as nat), a.dims[a.dims.len() - 1] as nat),
        ),
    }
}

// ---------------------------------------------------------------------
// Reductions
// ---------------------------------------------------------------------

/// Wrapping sum of the first `k` elements of a buffer.
pub open spec fn total(data: Seq<i64>, k: nat) -> i64
    decreases k,
{
    if k == 0 {
        0
    } else {
        wrapping_add(total(data, (k - 1) as nat), data[k - 1])
    }
}

pub open spec fn sum_spec(a: TensorSpec) -> TensorSpec {
    TensorSpec { dims: seq![1usize], data: seq![total(a.data, a.data.len())] }
}

pub open spec fn mean_spec(a: TensorSpec) -> TensorSpec {
    TensorSpec {
        dims: seq![1usize],
        data: seq![elem_div(total(a.data, a.data.len()), a.data.len() as i64)],
    }
}

/// Wrapping sum of the first `k` elements of the line through `idx` along `dim`.
pub open spec fn line_total(a: TensorSpec, idx: Seq<usize>, dim: int, k: nat) -> i64
    decreases k,
{
    if k == 0 {
        0
    } else {
        wrapping_add(
            line_total(a, idx, dim, (k - 1) as nat),
            a.at(idx.update(dim, (k - 1) as usize)),
        )
    }
}

/// Sum along one dimension; the reduced dimension stays, with size one.
pub open spec fn sum_dim_spec(a: TensorSpec, dim: int) -> TensorSpec {
    let dims = a.dims.update(dim, 1);
    TensorSpec {
        dims,
        data: Seq::new(
            count(dims),
            |p: int| line_total(a, unravel(dims, p as nat), dim, a.dims[dim] as nat),
        ),
    }
}

/// Mean along one dimension; the reduced dimension stays, with size one.
pub open spec fn mean_dim_spec(a: TensorSpec, dim: int) -> TensorSpec {
    let dims = a.dims.update(dim, 1);
    TensorSpec {
        dims,
        data: Seq::new(
            count(dims),
            |p: int|
                elem_div(
                    line_total(a, unravel(dims, p as nat), dim, a.dims[dim] as nat),
                    a.dims[dim] as i64,
                ),
        ),
    }
}

/// Position, among the first `k` elements of the line through `idx` along
/// `dim`, of the first greatest (or, with `largest` false, first least) one.
pub open spec fn line_best(a: TensorSpec, idx: Seq<usize>, dim: int, k: nat, largest: bool) -> usize
    decreases k,
{
    if k <= 1 {
        0
    } else {
        let prev = line_best(a, idx, dim, (k - 1) as nat, largest);
        let cand = a.at(idx.update(dim, (k - 1) as usize));
        let best = a.at(idx.update(dim, prev));
        if (largest && cand > best) || (!largest && cand < best) {
            (k - 1) as usize
        } else {
            prev
        }
    }
}

pub open spec fn arg_spec(a: TensorSpec, dim: int, largest: bool) -> TensorSpec {
    let dims = a.dims.update(dim, 1);
    TensorSpec {
        dims,
        data: Seq::new(
            count(dims),
            |p: int|
                #[verifier::truncate] (line_best(a, unravel(dims, p as nat), dim, a.dims[dim] as nat, largest) as i64),
        ),
    }
}

// ---------------------------------------------------------------------
// Concatenation
// ---------------------------------------------------------------------

/// All tensors have the rank of the first and agree with it on every
/// dimension but `dim`.
pub open spec fn cat_fit(ts: Seq<TensorSpec>, dim: int) -> bool {
    &&& ts.len() > 0
    &&& 0 <= dim < ts[0].dims.len()
    &&& forall|k: int|
        0 <= k < ts.len() ==> (#[trigger] ts[k]).wf() && ts[k].dims.len() == ts[0].dims.len()
            && ts[k].dims.update(dim, 0) == ts[0].dims.update(dim, 0)
}

/// Combined extent along `dim` of the first `k` tensors.
pub open spec fn cat_extent(ts: Seq<TensorSpec>, dim: int, k: nat) -> nat
    decreases k,
{
    if k == 0 {
        0
    } else {
        cat_extent(ts, dim, (k - 1) as nat) + ts[k - 1].dims[dim] as nat
    }
}

/// Element of the concatenation at `idx`, looked for among the first `k` tensors.
pub open spec fn cat_at(ts: Seq<TensorSpec>, dim: int, idx: Seq<usize>, k: nat) -> i64
    decreases k,
{
    if k == 0 {
        0
    } else {
        let before = cat_extent(ts, dim, (k - 1) as nat);
        if idx[dim] >= before {
            ts[k - 1].at(idx.update(dim, (idx[dim] - before) as usize))
        } else {
            cat_at(ts, dim, idx, (k - 1) as nat)
        }
    }
}

pub open spec fn cat_dims(ts: Seq<TensorSpec>, dim: int) -> Seq<usize> {
    ts[0].dims.update(dim, cat_extent(ts, dim, ts.len()) as usize)
}

pub open spec fn cat_spec(ts: Seq<TensorSpec>, dim: int) -> TensorSpec {
    let dims = cat_dims(ts, dim);
    TensorSpec {
        dims,
        data: Seq::new(count(dims), |p: int| cat_at(ts, dim, unravel(dims, p as nat), ts.len())),
    }
}

// ---------------------------------------------------------------------
// Embedding lookup
// ---------------------------------------------------------------------

/// `weights` is a table of row vectors and `indexes` a rank-2 tensor of
/// row numbers of that table.
pub open spec fn embedding_fit(weights: TensorSpec, indexes: TensorSpec) -> bool {
    &&& weights.wf()
    &&& indexes.wf()
    &&& weights.dims.len() == 2
    &&& indexes.dims.len() == 2
    &&& forall|q: int|
        0 <= q < indexes.data.len() ==> 0 <= (#[trigger] indexes.data[q]) < weights.dims[0]
}

pub open spec fn embedding_dims(weights: TensorSpec, indexes: TensorSpec) -> Seq<usize> {
    seq![indexes.dims[0], indexes.dims[1], weights.dims[1]]
}

/// One row of the table per index, batched by the two dimensions of `indexes`.
pub open spec fn embedding_spec(weights: TensorSpec, indexes: TensorSpec) -> TensorSpec {
    let d = weights.dims[1] as int;
    TensorSpec {
        dims: embedding_dims(weights, indexes),
        data: Seq::new(
            indexes.data.len() * (d as nat),
            |p: int| weights.data[indexes.data[p / d] * d + p % d],
        ),
    }
}

/// Wrapping sum, over the first `k` index occurrences that name `row`, of
/// column `col` of the matching rows of `grad`.
pub open spec fn scatter_total(
    grad: Seq<i64>,
    indexes: Seq<i64>,
    d: int,
    row: int,
    col: int,
    k: nat,
) -> i64
    decreases k,
{
    if k == 0 {
        0
    } else {
        let prev = scatter_total(grad, indexes, d, row, col, (k - 1) as nat);
        if indexes[k - 1] == row {
            wrapping_add(prev, grad[(k - 1) * d + col])
        } else {
            prev
        }
    }
}

/// Gradient of the table: every row receives the sum of the gradient rows
/// of all occurrences of its number in `indexes`.
pub open spec fn embedding_backward_spec(
    weights: TensorSpec,
    output: TensorSpec,
    indexes: TensorSpec,
) -> TensorSpec {
    let d = weights.dims[1] as int;
    TensorSpec {
        dims: weights.dims,
        data: Seq::new(
            weights.data.len(),
            |p: int| scatter_total(output.data, indexes.data, d, p / d, p % d, indexes.data.len()),
        ),
    }
}

} // verus!
