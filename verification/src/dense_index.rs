//! Kernels of the reference engine that move elements between positions.
use crate::dense::DenseTensor;
use crate::model::{
    in_region, index_assign_spec, index_spec, ranges_fit, region_dims, region_to_whole, swap,
    swap_dims_spec, whole_to_region,
};
use crate::shape::{
    checked_count, copy_dims, count, flatten, in_bounds, lemma_count_le, lemma_count_swap, unflatten,
    unravel, Shape,
};
use core::ops::Range;
use vstd::prelude::*;

verus! {

/// A copy of `v` with the entries at `i` and `j` exchanged.
pub fn swap_entries(v: &Vec<usize>, i: usize, j: usize) -> (r: Vec<usize>)
    requires
        i < v.len(),
        j < v.len(),
    ensures
        r@ == swap(v@, i as int, j as int),
{
    let mut out = copy_dims(v);
    let a = v[i];
    let b = v[j];
    out.set(i, b);
    out.set(j, a);
    out
}

/// Dimension sizes of the region that `ranges` selects.
pub fn region_shape(dims: &Vec<usize>, ranges: &Vec<Range<usize>>) -> (r: Vec<usize>)
    requires
        ranges_fit(dims@, ranges@),
    ensures
        r@ == region_dims(dims@, ranges@),
{
    let mut out: Vec<usize> = Vec::new();
    let mut i: usize = 0;
    while i < dims.len()
        invariant
            i <= dims.len(),
            ranges_fit(dims@, ranges@),
            out.len() == i,
            forall|j: int| 0 <= j < i ==> out@[j] == region_dims(dims@, ranges@)[j],
        decreases dims.len() - i,
    {
        if i < ranges.len() {
            assert(ranges@[i as int].start <= ranges@[i as int].end);
            out.push(ranges[i].end - ranges[i].start);
        } else {
            out.push(dims[i]);
        }
        i += 1;
    }
    assert(out@ =~= region_dims(dims@, ranges@));
    out
}

/// Whether a position of the whole tensor lies inside the region.
pub fn inside(idx: &Vec<usize>, ranges: &Vec<Range<usize>>) -> (r: bool)
    requires
        ranges.len() <= idx.len(),
    ensures
        r == in_region(idx@, ranges@),
{
    let mut i: usize = 0;
    while i < ranges.len()
        invariant
            i <= ranges.len(),
            ranges.len() <= idx.len(),
            forall|j: int| 0 <= j < i ==> (#[trigger] ranges@[j]).start <= idx@[j] < ranges@[j].end,
        decreases ranges.len() - i,
    {
        if idx[i] < ranges[i].start || idx[i] >= ranges[i].end {
            assert(!((#[trigger] ranges@[i as int]).start <= idx@[i as int] < ranges@[i as int].end));
            return false;
        }
        i += 1;
    }
    true
}

/// Position in the whole tensor of a position given relative to the region.
pub fn to_whole(idx: &Vec<usize>, ranges: &Vec<Range<usize>>) -> (r: Vec<usize>)
    requires
        forall|i: int|
            0 <= i < ranges.len() && i < idx.len() ==> idx@[i] + (#[trigger] ranges@[i]).start
                <= usize::MAX,
    ensures
        r@ == region_to_whole(idx@, ranges@),
{
    let mut out: Vec<usize> = Vec::new();
    let mut i: usize = 0;
    while i < idx.len()
        invariant
            i <= idx.len(),
            forall|k: int|
                0 <= k < ranges.len() && k < idx.len() ==> idx@[k] + (#[trigger] ranges@[k]).start
                    <= usize::MAX,
            out.len() == i,
            forall|j: int| 0 <= j < i ==> out@[j] == region_to_whole(idx@, ranges@)[j],
        decreases idx.len() - i,
    {
        if i < ranges.len() {
            assert(idx@[i as int] + ranges@[i as int].start <= usize::MAX);
            out.push(idx[i] + ranges[i].start);
        } else {
            out.push(idx[i]);
        }
        i += 1;
    }
    assert(out@ =~= region_to_whole(idx@, ranges@));
    out
}

/// Position relative to the region of a position in the whole tensor.
pub fn to_region(idx: &Vec<usize>, ranges: &Vec<Range<usize>>) -> (r: Vec<usize>)
    requires
        in_region(idx@, ranges@),
    ensures
        r@ == whole_to_region(idx@, ranges@),
{
    let mut out: Vec<usize> = Vec::new();
    let mut i: usize = 0;
    while i < idx.len()
        invariant
            i <= idx.len(),
            in_region(idx@, ranges@),
            out.len() == i,
            forall|j: int| 0 <= j < i ==> out@[j] == whole_to_region(idx@, ranges@)[j],
        decreases idx.len() - i,
    {
        if i < ranges.len() {
            assert(ranges@[i as int].start <= idx@[i as int]);
            out.push(idx[i] - ranges[i].start);
        } else {
            out.push(idx[i]);
        }
        i += 1;
    }
    assert(out@ =~= whole_to_region(idx@, ranges@));
    out
}

impl DenseTensor {
    pub fn swap_dims(&self, dim1: usize, dim2: usize) -> (r: DenseTensor)
        requires
            self@.wf(),
            dim1 < self@.dims.len(),
            dim2 < self@.dims.len(),
        ensures
            r@ == swap_dims_spec(self@, dim1 as int, dim2 as int),
            r@.wf(),
    {
        let dims = swap_entries(&self.shape.dims, dim1, dim2);
        proof {
            lemma_count_swap(self@.dims, dim1 as int, dim2 as int);
        }
        let n = self.data.len();
        let mut out: Vec<i64> = Vec::new();
        let mut p: usize = 0;
        while p < n
            invariant
                p <= n,
                n == self.data.len(),
                n == count(dims@),
                self@.wf(),
                dim1 < self@.dims.len(),
                dim2 < self@.dims.len(),
                dims@ == swap(self@.dims, dim1 as int, dim2 as int),
                out.len() == p,
                forall|q: int|
                    0 <= q < p ==> out@[q] == self@.at(
                        swap(unravel(dims@, q as nat), dim1 as int, dim2 as int),
                    ),
            decreases n - p,
        {
            let idx = unflatten(&dims, p);
            let src = swap_entries(&idx, dim1, dim2);
            proof {
                assert forall|i: int| 0 <= i < self@.dims.len() implies (#[trigger] src@[i])
                    < self@.dims[i] by {
                    assert(idx@[i] < dims@[i]);
                    assert(idx@[dim1 as int] < dims@[dim1 as int]);
                    assert(idx@[dim2 as int] < dims@[dim2 as int]);
                }
            }
            let o = flatten(&self.shape.dims, &src);
            out.push(self.data[o]);
            p += 1;
        }
        let r = DenseTensor { shape: Shape::new(dims), data: out };
        assert(r@.data =~= swap_dims_spec(self@, dim1 as int, dim2 as int).data);
        r
    }

    pub fn index(&self, indexes: &Vec<Range<usize>>) -> (r: DenseTensor)
        requires
            self@.wf(),
            ranges_fit(self@.dims, indexes@),
        ensures
            r@ == index_spec(self@, indexes@),
            r@.wf(),
    {
        let dims = region_shape(&self.shape.dims, indexes);
        proof {
            assert forall|i: int| 0 <= i < dims@.len() implies (#[trigger] dims@[i])
                <= self@.dims[i] by {
                if i < indexes@.len() {
                    assert(indexes@[i].start <= indexes@[i].end <= self@.dims[i]);
                }
            }
            lemma_count_le(dims@, self@.dims);
        }
        let n = match checked_count(&dims) {
            Some(n) => n,
            None => 0,
        };
        let mut out: Vec<i64> = Vec::new();
        let mut p: usize = 0;
        while p < n
            invariant
                p <= n,
                n == count(dims@),
                self@.wf(),
                count(self@.dims) <= usize::MAX,
                ranges_fit(self@.dims, indexes@),
                dims@ == region_dims(self@.dims, indexes@),
                out.len() == p,
                forall|q: int|
                    0 <= q < p ==> out@[q] == self@.at(
                        region_to_whole(unravel(dims@, q as nat), indexes@),
                    ),
            decreases n - p,
        {
            let idx = unflatten(&dims, p);
            proof {
                assert forall|i: int| 0 <= i < indexes@.len() && i < idx@.len() implies idx@[i] + (
                #[trigger] indexes@[i]).start <= usize::MAX by {
                    assert(idx@[i] < dims@[i]);
                    assert(indexes@[i].start <= indexes@[i].end <= self@.dims[i]);
                }
            }
            let src = to_whole(&idx, indexes);
            proof {
                assert forall|i: int| 0 <= i < self@.dims.len() implies (#[trigger] src@[i])
                    < self@.dims[i] by {
                    assert(idx@[i] < dims@[i]);
                    if i < indexes@.len() {
                        assert(indexes@[i].start <= indexes@[i].end <= self@.dims[i]);
                    }
                }
            }
            let o = flatten(&self.shape.dims, &src);
            out.push(self.data[o]);
            p += 1;
        }
        let r = DenseTensor { shape: Shape::new(dims), data: out };
        assert(r@.data =~= index_spec(self@, indexes@).data);
        r
    }

    pub fn index_assign(&self, indexes: &Vec<Range<usize>>, value: &DenseTensor) -> (r:
        DenseTensor)
        requires
            self@.wf(),
            value@.wf(),
            ranges_fit(self@.dims, indexes@),
            value@.dims == region_dims(self@.dims, indexes@),
        ensures
            r@ == index_assign_spec(self@, indexes@, value@),
            r@.wf(),
    {
        let n = self.data.len();
        let mut out: Vec<i64> = Vec::new();
        let mut p: usize = 0;
        while p < n
            invariant
                p <= n,
                n == self.data.len(),
                self@.wf(),
                value@.wf(),
                count(value@.dims) <= usize::MAX,
                ranges_fit(self@.dims, indexes@),
                value@.dims == region_dims(self@.dims, indexes@),
                out.len() == p,
                forall|q: int|
                    0 <= q < p ==> out@[q] == index_assign_spec(self@, indexes@, value@).data[q],
            decreases n - p,
        {
            let idx = unflatten(&self.shape.dims, p);
            if inside(&idx, indexes) {
                let rel = to_region(&idx, indexes);
                proof {
                    assert forall|i: int| 0 <= i < value@.dims.len() implies (#[trigger] rel@[i])
                        < value@.dims[i] by {
                        assert(idx@[i] < self@.dims[i]);
                        if i < indexes@.len() {
                            assert(indexes@[i].start <= idx@[i] < indexes@[i].end);
                        }
                    }
                    assert(in_bounds(value@.dims, rel@));
                }
                let o = flatten(&value.shape.dims, &rel);
                out.push(value.data[o]);
            } else {
                out.push(self.data[p]);
            }
            p += 1;
        }
        let r = DenseTensor { shape: self.shape.clone(), data: out };
        assert(r@.data =~= index_assign_spec(self@, indexes@, value@).data);
        r
    }
}

} // verus!
