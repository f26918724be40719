//! Kernels of the reference engine that combine several elements into one.
use crate::dense::{apply_bin, DenseTensor};
use crate::model::{
    arg_spec, dot, line_best, line_total, matmul_dims, matmul_fit, matmul_spec, mean_dim_spec,
    mean_spec, sum_dim_spec, sum_spec, total, BinOp,
};
use crate::shape::{
    checked_count, copy_dims, count, flatten, in_bounds, lemma_count_le, lemma_count_one, unflatten,
    unravel, Shape,
};
use vstd::prelude::*;

verus! {

impl DenseTensor {
    pub fn matmul(&self, rhs: &DenseTensor) -> (r: DenseTensor)
        requires
            self@.wf(),
            rhs@.wf(),
            matmul_fit(self@, rhs@),
            count(matmul_dims(self@, rhs@)) <= usize::MAX,
        ensures
            r@ == matmul_spec(self@, rhs@),
            r@.wf(),
    {
        let rank = self.shape.dims.len();
        let inner = self.shape.dims[rank - 1];
        let mut dims = copy_dims(&self.shape.dims);
        dims.set(rank - 1, rhs.shape.dims[rank - 1]);
        assert(dims@ =~= matmul_dims(self@, rhs@));
        let n = match checked_count(&dims) {
            Some(n) => n,
            None => 0,
        };
        let mut out: Vec<i64> = Vec::new();
        let mut p: usize = 0;
        while p < n
            invariant
                p <= n,
                n == count(dims@),
                self@.wf(),
                rhs@.wf(),
                count(self@.dims) <= usize::MAX,
                count(rhs@.dims) <= usize::MAX,
                matmul_fit(self@, rhs@),
                rank == self@.dims.len(),
                inner == self@.dims[rank - 1],
                dims@ == matmul_dims(self@, rhs@),
                out.len() == p,
                forall|q: int|
                    0 <= q < p ==> out@[q] == dot(self@, rhs@, unravel(dims@, q as nat), inner as nat),
            decreases n - p,
        {
            let idx = unflatten(&dims, p);
            let mut row = copy_dims(&idx);
            let mut col = copy_dims(&idx);
            let mut acc: i64 = 0;
            let mut j: usize = 0;
            while j < inner
                invariant
                    j <= inner,
                    self@.wf(),
                    rhs@.wf(),
                    count(self@.dims) <= usize::MAX,
                    count(rhs@.dims) <= usize::MAX,
                    matmul_fit(self@, rhs@),
                    rank == self@.dims.len(),
                    inner == self@.dims[rank - 1],
                    dims@ == matmul_dims(self@, rhs@),
                    in_bounds(dims@, idx@),
                    row.len() == rank,
                    col.len() == rank,
                    forall|i: int| 0 <= i < rank && i != rank - 1 ==> row@[i] == idx@[i],
                    forall|i: int| 0 <= i < rank && i != rank - 2 ==> col@[i] == idx@[i],
                    acc == dot(self@, rhs@, idx@, j as nat),
                decreases inner - j,
            {
                row.set(rank - 1, j);
                col.set(rank - 2, j);
                proof {
                    assert(row@ =~= idx@.update(rank - 1, j));
                    assert(col@ =~= idx@.update(rank - 2, j));
                    assert forall|i: int| 0 <= i < rank implies (#[trigger] row@[i])
                        < self@.dims[i] by {
                        assert(idx@[i] < dims@[i]);
                    }
                    assert forall|i: int| 0 <= i < rank implies (#[trigger] col@[i])
                        < rhs@.dims[i] by {
                        assert(idx@[i] < dims@[i]);
                        if i < rank - 2 {
                            assert(self@.dims.take(rank - 2)[i] == rhs@.dims.take(rank - 2)[i]);
                        }
                    }
                }
                let a = self.data[flatten(&self.shape.dims, &row)];
                let b = rhs.data[flatten(&rhs.shape.dims, &col)];
                acc = acc.wrapping_add(a.wrapping_mul(b));
                j += 1;
            }
            out.push(acc);
            p += 1;
        }
        let r = DenseTensor { shape: Shape::new(dims), data: out };
        assert(r@.data =~= matmul_spec(self@, rhs@).data);
        r
    }

    /// Wrapping sum of all elements, as a tensor of one element.
    pub fn sum_all(&self) -> (r: DenseTensor)
        requires
            self@.wf(),
        ensures
            r@ == sum_spec(self@),
            r@.wf(),
    {
        let acc = self.total_value();
        let mut dims: Vec<usize> = Vec::new();
        dims.push(1);
        let mut data: Vec<i64> = Vec::new();
        data.push(acc);
        let r = DenseTensor { shape: Shape::new(dims), data };
        assert(r@.dims =~= sum_spec(self@).dims);
        proof {
            lemma_count_one(1);
        }
        assert(r@.data =~= sum_spec(self@).data);
        r
    }

    /// Wrapping sum of all elements.
    pub fn total_value(&self) -> (r: i64)
        ensures
            r == total(self@.data, self@.data.len()),
    {
        let n = self.data.len();
        let mut acc: i64 = 0;
        let mut i: usize = 0;
        while i < n
            invariant
                i <= n,
                n == self.data.len(),
                acc == total(self@.data, i as nat),
            decreases n - i,
        {
            acc = acc.wrapping_add(self.data[i]);
            i += 1;
        }
        acc
    }

    /// Wrapping sum of the line through `idx` along `dim`.
    pub fn line_sum(&self, idx: &Vec<usize>, dim: usize) -> (r: i64)
        requires
            self@.wf(),
            dim < self@.dims.len(),
            idx.len() == self@.dims.len(),
            forall|i: int| 0 <= i < idx.len() && i != dim ==> idx@[i] < self@.dims[i],
        ensures
            r == line_total(self@, idx@, dim as int, self@.dims[dim as int] as nat),
    {
        let extent = self.shape.dims[dim];
        let mut cur = copy_dims(idx);
        let mut acc: i64 = 0;
        let mut j: usize = 0;
        while j < extent
            invariant
                j <= extent,
                self@.wf(),
                count(self@.dims) <= usize::MAX,
                dim < self@.dims.len(),
                extent == self@.dims[dim as int],
                idx.len() == self@.dims.len(),
                cur.len() == idx.len(),
                forall|i: int| 0 <= i < idx.len() && i != dim ==> idx@[i] < self@.dims[i],
                forall|i: int| 0 <= i < idx.len() && i != dim ==> cur@[i] == idx@[i],
                acc == line_total(self@, idx@, dim as int, j as nat),
            decreases extent - j,
        {
            cur.set(dim, j);
            proof {
                assert(cur@ =~= idx@.update(dim as int, j));
                assert forall|i: int| 0 <= i < self@.dims.len() implies (#[trigger] cur@[i])
                    < self@.dims[i] by {
                    if i != dim {
                        assert(idx@[i] < self@.dims[i]);
                    }
                }
            }
            acc = acc.wrapping_add(self.data[flatten(&self.shape.dims, &cur)]);
            j += 1;
        }
        acc
    }

    /// Sum along `dim`, which stays in the result with size one.
    pub fn sum_along(&self, dim: usize) -> (r: DenseTensor)
        requires
            self@.wf(),
            dim < self@.dims.len(),
            count(self@.dims.update(dim as int, 1)) <= usize::MAX,
        ensures
            r@ == sum_dim_spec(self@, dim as int),
            r@.wf(),
    {
        let mut dims = copy_dims(&self.shape.dims);
        dims.set(dim, 1);
        let n = match checked_count(&dims) {
            Some(n) => n,
            None => 0,
        };
        let mut out: Vec<i64> = Vec::new();
        let mut p: usize = 0;
        while p < n
            invariant
                p <= n,
                n == count(dims@),
                self@.wf(),
                dim < self@.dims.len(),
                dims@ == self@.dims.update(dim as int, 1),
                out.len() == p,
                forall|q: int|
                    0 <= q < p ==> out@[q] == line_total(
                        self@,
                        unravel(dims@, q as nat),
                        dim as int,
                        self@.dims[dim as int] as nat,
                    ),
            decreases n - p,
        {
            let idx = unflatten(&dims, p);
            proof {
                assert forall|i: int| 0 <= i < idx.len() && i != dim implies idx@[i]
                    < self@.dims[i] by {
                    assert(idx@[i] < dims@[i]);
                }
            }
            out.push(self.line_sum(&idx, dim));
            p += 1;
        }
        let r = DenseTensor { shape: Shape::new(dims), data: out };
        assert(r@.data =~= sum_dim_spec(self@, dim as int).data);
        r
    }
    /// Mean of all elements, truncated toward zero, as a tensor of one element.
    pub fn mean_all(&self) -> (r: DenseTensor)
        requires
            self@.wf(),
            0 < self@.data.len() <= i64::MAX,
        ensures
            r@ == mean_spec(self@),
            r@.wf(),
    {
        let acc = self.total_value();
        let n = self.data.len() as i64;
        let mut dims: Vec<usize> = Vec::new();
        dims.push(1);
        let mut data: Vec<i64> = Vec::new();
        data.push(apply_bin(BinOp::Div, acc, n));
        let r = DenseTensor { shape: Shape::new(dims), data };
        assert(r@.dims =~= mean_spec(self@).dims);
        proof {
            lemma_count_one(1);
        }
        assert(r@.data =~= mean_spec(self@).data);
        r
    }

    /// Mean along `dim`, which stays in the result with size one.
    pub fn mean_along(&self, dim: usize) -> (r: DenseTensor)
        requires
            self@.wf(),
            dim < self@.dims.len(),
            0 < self@.dims[dim as int] <= i64::MAX,
        ensures
            r@ == mean_dim_spec(self@, dim as int),
            r@.wf(),
    {
        let extent = self.shape.dims[dim];
        let mut dims = copy_dims(&self.shape.dims);
        dims.set(dim, 1);
        proof {
            assert forall|i: int| 0 <= i < dims@.len() implies (#[trigger] dims@[i])
                <= self@.dims[i] by {}
            lemma_count_le(dims@, self@.dims);
        }
        let n = match checked_count(&dims) {
            Some(n) => n,
            None => 0,
        };
        let mut out: Vec<i64> = Vec::new();
        let mut p: usize = 0;
        while p < n
            invariant
                p <= n,
                n == count(dims@),
                self@.wf(),
                dim < self@.dims.len(),
                extent == self@.dims[dim as int],
                0 < extent <= i64::MAX,
                dims@ == self@.dims.update(dim as int, 1),
                out.len() == p,
                forall|q: int|
                    0 <= q < p ==> out@[q] == mean_dim_spec(self@, dim as int).data[q],
            decreases n - p,
        {
            let idx = unflatten(&dims, p);
            proof {
                assert forall|i: int| 0 <= i < idx.len() && i != dim implies idx@[i]
                    < self@.dims[i] by {
                    assert(idx@[i] < dims@[i]);
                }
            }
            out.push(apply_bin(BinOp::Div, self.line_sum(&idx, dim), extent as i64));
            p += 1;
        }
        let r = DenseTensor { shape: Shape::new(dims), data: out };
        assert(r@.data =~= mean_dim_spec(self@, dim as int).data);
        r
    }

    /// Position of the first greatest (or first least) element of the line
    /// through `idx` along `dim`.
    pub fn line_arg(&self, idx: &Vec<usize>, dim: usize, largest: bool) -> (r: usize)
        requires
            self@.wf(),
            dim < self@.dims.len(),
            self@.dims[dim as int] > 0,
            idx.len() == self@.dims.len(),
            forall|i: int| 0 <= i < idx.len() && i != dim ==> idx@[i] < self@.dims[i],
        ensures
            r == line_best(self@, idx@, dim as int, self@.dims[dim as int] as nat, largest),
            r < self@.dims[dim as int],
    {
        let extent = self.shape.dims[dim];
        let mut cur = copy_dims(idx);
        cur.set(dim, 0);
        proof {
            assert(cur@ =~= idx@.update(dim as int, 0));
            assert forall|i: int| 0 <= i < self@.dims.len() implies (#[trigger] cur@[i])
                < self@.dims[i] by {
                if i != dim {
                    assert(idx@[i] < self@.dims[i]);
                }
            }
        }
        let mut best: usize = 0;
        let mut best_value: i64 = self.data[flatten(&self.shape.dims, &cur)];
        let mut j: usize = 1;
        while j < extent
            invariant
                1 <= j <= extent,
                self@.wf(),
                count(self@.dims) <= usize::MAX,
                dim < self@.dims.len(),
                extent == self@.dims[dim as int],
                idx.len() == self@.dims.len(),
                cur.len() == idx.len(),
                forall|i: int| 0 <= i < idx.len() && i != dim ==> idx@[i] < self@.dims[i],
                forall|i: int| 0 <= i < idx.len() && i != dim ==> cur@[i] == idx@[i],
                best == line_best(self@, idx@, dim as int, j as nat, largest),
                best < extent,
                best_value == self@.at(idx@.update(dim as int, best)),
            decreases extent - j,
        {
            cur.set(dim, j);
            proof {
                assert(cur@ =~= idx@.update(dim as int, j));
                assert forall|i: int| 0 <= i < self@.dims.len() implies (#[trigger] cur@[i])
                    < self@.dims[i] by {
                    if i != dim {
                        assert(idx@[i] < self@.dims[i]);
                    }
                }
            }
            let cand = self.data[flatten(&self.shape.dims, &cur)];
            if (largest && cand > best_value) || (!largest && cand < best_value) {
                best = j;
                best_value = cand;
            }
            j += 1;
        }
        best
    }

    /// Along `dim`, the position of the first greatest (or first least)
    /// element; `dim` stays in the result with size one.
    pub fn arg_along(&self, dim: usize, largest: bool) -> (r: DenseTensor)
        requires
            self@.wf(),
            dim < self@.dims.len(),
            self@.dims[dim as int] > 0,
        ensures
            r@ == arg_spec(self@, dim as int, largest),
            r@.wf(),
    {
        let mut dims = copy_dims(&self.shape.dims);
        dims.set(dim, 1);
        proof {
            assert forall|i: int| 0 <= i < dims@.len() implies (#[trigger] dims@[i])
                <= self@.dims[i] by {}
            lemma_count_le(dims@, self@.dims);
        }
        let n = match checked_count(&dims) {
            Some(n) => n,
            None => 0,
        };
        let mut out: Vec<i64> = Vec::new();
        let mut p: usize = 0;
        while p < n
            invariant
                p <= n,
                n == count(dims@),
                self@.wf(),
                dim < self@.dims.len(),
                self@.dims[dim as int] > 0,
                dims@ == self@.dims.update(dim as int, 1),
                out.len() == p,
                forall|q: int| 0 <= q < p ==> out@[q] == arg_spec(self@, dim as int, largest).data[q],
            decreases n - p,
        {
            let idx = unflatten(&dims, p);
            proof {
                assert forall|i: int| 0 <= i < idx.len() && i != dim implies idx@[i]
                    < self@.dims[i] by {
                    assert(idx@[i] < dims@[i]);
                }
            }
            let best = self.line_arg(&idx, dim, largest);
            out.push(#[verifier::truncate] (best as i64));
            p += 1;
        }
        let r = DenseTensor { shape: Shape::new(dims), data: out };
        assert(r@.data =~= arg_spec(self@, dim as int, largest).data);
        r
    }
}

} // verus!
