//! The capability interface that every compute engine implements.
//!
//! A backend owns its tensor handles; all that the rest of the library knows
//! of a handle is its view, a [`TensorSpec`]. Every operation states its
//! result as a function of the views of its arguments, so any two backends
//! that implement these traits compute the same tensors.
use crate::data::Data;
use crate::model::{
    arange_spec, arg_spec, cat_dims, cat_extent, cat_fit, cat_spec, cmp_scalar_spec, cmp_spec,
    embedding_backward_spec, embedding_dims, embedding_fit, embedding_spec, full_spec, in_region,
    index_assign_spec, index_spec, mask_fill_spec, matmul_dims, matmul_fit, matmul_spec,
    mean_dim_spec, mean_spec, neg_spec, nonzero, ranges_fit, region_dims, repeat_spec,
    reshape_spec, scalar_spec, sum_dim_spec, sum_spec, swap_dims_spec, transpose_spec,
    whole_to_region, zip_spec, BinOp, CmpOp, MaskSpec, TensorSpec,
};
use crate::shape::{copy_dims, count, lemma_count_one, lemma_unravel_in_bounds, unravel, Shape};
use core::ops::Range;
use vstd::prelude::*;

verus! {

/// A compute engine: its device identifier, its handle types, and the way
/// host data enters it.
pub trait Backend: Sized {
    type Device: Copy;

    type TensorPrimitive: View<V = TensorSpec>;

    type BoolTensorPrimitive: View<V = MaskSpec>;

    /// The device that holds a tensor.
    spec fn device_of(tensor: &Self::TensorPrimitive) -> Self::Device;

    fn from_data(data: Data<i64>, device: Self::Device) -> (r: Self::TensorPrimitive)
        requires
            data@.wf(),
        ensures
            r@ == data@,
            r@.wf(),
            Self::device_of(&r) == device,
    ;

    fn from_data_bool(data: Data<bool>, device: Self::Device) -> (r: Self::BoolTensorPrimitive)
        requires
            data@.wf(),
        ensures
            r@ == data@,
            r@.wf(),
    ;
}

/// Row lookup in a table of vectors, and the matching scatter-add.
pub trait ModuleOps<B: Backend> {
    fn embedding(weights: &B::TensorPrimitive, indexes: &B::TensorPrimitive) -> (r:
        B::TensorPrimitive)
        requires
            embedding_fit(weights@, indexes@),
            count(embedding_dims(weights@, indexes@)) <= usize::MAX,
        ensures
            r@ == embedding_spec(weights@, indexes@),
            r@.wf(),
    ;

    fn embedding_backward(
        weights: &B::TensorPrimitive,
        output: &B::TensorPrimitive,
        indexes: &B::TensorPrimitive,
    ) -> (r: B::TensorPrimitive)
        requires
            embedding_fit(weights@, indexes@),
            output@.wf(),
            output@.dims == embedding_dims(weights@, indexes@),
        ensures
            r@ == embedding_backward_spec(weights@, output@, indexes@),
            r@.wf(),
    ;
}

/// All ranges of `ranges` select their whole dimension, but the one at
/// `dim`, which selects position `i` alone.
pub open spec fn selects_slice(
    ranges: Seq<Range<usize>>,
    dims: Seq<usize>,
    dim: int,
    i: usize,
) -> bool {
    &&& ranges.len() == dims.len()
    &&& forall|j: int|
        0 <= j < dims.len() ==> (#[trigger] ranges[j]).start == (if j == dim {
            i
        } else {
            0
        }) && ranges[j].end == (if j == dim {
            (i + 1) as usize
        } else {
            dims[j]
        })
}

/// The ranges that select position `i` along `dim` and everything along
/// the other dimensions.
pub fn slice_ranges(dims: &Vec<usize>, dim: usize, i: usize) -> (r: Vec<Range<usize>>)
    requires
        dim < dims.len(),
        i < dims[dim as int],
    ensures
        selects_slice(r@, dims@, dim as int, i),
{
    let mut out: Vec<Range<usize>> = Vec::new();
    let mut j: usize = 0;
    while j < dims.len()
        invariant
            j <= dims.len(),
            dim < dims.len(),
            i < dims[dim as int],
            out.len() == j,
            forall|k: int|
                0 <= k < j ==> (#[trigger] out@[k]).start == (if k == dim {
                    i
                } else {
                    0
                }) && out@[k].end == (if k == dim {
                    (i + 1) as usize
                } else {
                    dims@[k]
                }),
        decreases dims.len() - j,
    {
        if j == dim {
            out.push(i..i + 1);
        } else {
            out.push(0..dims[j]);
        }
        j += 1;
    }
    out
}

/// A copy of a list of ranges.
pub fn copy_ranges(ranges: &Vec<Range<usize>>) -> (r: Vec<Range<usize>>)
    ensures
        r@ == ranges@,
{
    let mut out: Vec<Range<usize>> = Vec::new();
    let mut i: usize = 0;
    while i < ranges.len()
        invariant
            i <= ranges.len(),
            out.len() == i,
            forall|j: int| 0 <= j < i ==> out@[j] == ranges@[j],
        decreases ranges.len() - i,
    {
        out.push(ranges[i].start..ranges[i].end);
        i += 1;
    }
    assert(out@ =~= ranges@);
    out
}

/// The primitive tensor operations, and the composite ones built from them.
pub trait TensorOps<B: Backend> {
    fn shape(tensor: &B::TensorPrimitive) -> (r: &Shape)
        ensures
            r@ == tensor@.dims,
    ;

    fn to_data(tensor: &B::TensorPrimitive) -> (r: Data<i64>)
        requires
            tensor@.wf(),
        ensures
            r@ == tensor@,
            r@.wf(),
    ;

    fn into_data(tensor: B::TensorPrimitive) -> (r: Data<i64>)
        requires
            tensor@.wf(),
        ensures
            r@ == tensor@,
            r@.wf(),
    ;

    fn bool_shape(tensor: &B::BoolTensorPrimitive) -> (r: &Shape)
        ensures
            r@ == tensor@.dims,
    ;

    fn bool_to_data(tensor: &B::BoolTensorPrimitive) -> (r: Data<bool>)
        requires
            tensor@.wf(),
        ensures
            r@ == tensor@,
            r@.wf(),
    ;

    fn bool_into_data(tensor: B::BoolTensorPrimitive) -> (r: Data<bool>)
        requires
            tensor@.wf(),
        ensures
            r@ == tensor@,
            r@.wf(),
    ;

    fn device(tensor: &B::TensorPrimitive) -> (r: B::Device)
        ensures
            r == B::device_of(tensor),
    ;

    /// The same value, held by `device`.
    fn to_device(tensor: &B::TensorPrimitive, device: B::Device) -> (r: B::TensorPrimitive)
        requires
            tensor@.wf(),
        ensures
            r@ == tensor@,
            r@.wf(),
            B::device_of(&r) == device,
    ;

    /// The integers of `range`, in order, as a rank-1 tensor.
    fn arange(range: Range<usize>, device: B::Device) -> (r: B::TensorPrimitive)
        requires
            range.start <= range.end,
        ensures
            r@ == arange_spec(range.start, range.end),
            r@.wf(),
            B::device_of(&r) == device,
    {
        let n = range.end - range.start;
        let mut dims: Vec<usize> = Vec::new();
        dims.push(n);
        let shape = Shape::new(dims);
        let mut value: Vec<i64> = Vec::new();
        let mut i: usize = range.start;
        while i < range.end
            invariant
                range.start <= i <= range.end,
                value.len() == i - range.start,
                forall|k: int| 0 <= k < value.len() ==> (#[trigger] value@[k]) == #[verifier::truncate] ((range.start + k) as i64),
            decreases range.end - i,
        {
            value.push(#[verifier::truncate] (i as i64));
            i += 1;
        }
        let data = Data::new(value, shape);
        proof {
            assert(data@.dims =~= seq![n]);
            lemma_count_one(n);
            assert(data@.data =~= arange_spec(range.start, range.end).data);
            assert(data@.dims =~= arange_spec(range.start, range.end).dims);
        }
        B::from_data(data, device)
    }

    /// A tensor of the given shape whose elements are unspecified.
    fn empty(shape: Shape, device: B::Device) -> (r: B::TensorPrimitive)
        requires
            count(shape@) <= usize::MAX,
        ensures
            r@.dims == shape@,
            r@.wf(),
            B::device_of(&r) == device,
    ;

    /// Copies the single slice along `dim` into each of `times` positions.
    fn repeat(tensor: &B::TensorPrimitive, dim: usize, times: usize) -> (r: B::TensorPrimitive)
        requires
            tensor@.wf(),
            dim < tensor@.dims.len(),
            tensor@.dims[dim as int] == 1,
            count(tensor@.dims.update(dim as int, times)) <= usize::MAX,
        ensures
            r@ == repeat_spec(tensor@, dim as int, times),
            r@.wf(),
    {
        let mut dims = copy_dims(&Self::shape(tensor).dims);
        dims.set(dim, times);
        let ghost target = tensor@.dims.update(dim as int, times);
        assert(dims@ =~= target);
        let mut tensor_output = Self::empty(Shape::new(copy_dims(&dims)), Self::device(tensor));
        let mut i: usize = 0;
        while i < times
            invariant
                i <= times,
                dim < tensor@.dims.len(),
                tensor@.dims[dim as int] == 1,
                tensor@.wf(),
                dims@ == target,
                target == tensor@.dims.update(dim as int, times),
                tensor_output@.dims == target,
                tensor_output@.wf(),
                forall|p: int|
                    0 <= p < count(target) && unravel(target, p as nat)[dim as int] < i
                        ==> #[trigger] tensor_output@.data[p] == tensor@.at(
                        unravel(target, p as nat).update(dim as int, 0),
                    ),
            decreases times - i,
        {
            let indexes = slice_ranges(&dims, dim, i);
            let ghost before = tensor_output@;
            proof {
                assert(region_dims(target, indexes@) =~= tensor@.dims);
            }
            tensor_output = Self::index_assign(&tensor_output, indexes, tensor);
            proof {
                assert forall|p: int|
                    0 <= p < count(target) && unravel(target, p as nat)[dim as int] < i + 1
                        implies #[trigger] tensor_output@.data[p] == tensor@.at(
                    unravel(target, p as nat).update(dim as int, 0),
                ) by {
                    let idx = unravel(target, p as nat);
                    lemma_unravel_in_bounds(target, p as nat);
                    if idx[dim as int] == i {
                        assert forall|j: int|
                            0 <= j < indexes@.len() && j < idx.len() implies (
                        #[trigger] indexes@[j]).start <= idx[j] < indexes@[j].end by {
                            assert(idx[j] < target[j]);
                        }
                        assert(in_region(idx, indexes@));
                        assert(whole_to_region(idx, indexes@) =~= idx.update(dim as int, 0));
                    } else {
                        assert(!(indexes@[dim as int].start <= idx[dim as int]
                            < indexes@[dim as int].end));
                        assert(!in_region(idx, indexes@));
                        assert(tensor_output@.data[p] == before.data[p]);
                    }
                }
            }
            i += 1;
        }
        proof {
            assert forall|p: int| 0 <= p < count(target) implies #[trigger] tensor_output@.data[p]
                == repeat_spec(tensor@, dim as int, times).data[p] by {
                lemma_unravel_in_bounds(target, p as nat);
                assert(unravel(target, p as nat)[dim as int] < target[dim as int]);
            }
            assert(tensor_output@.data =~= repeat_spec(tensor@, dim as int, times).data);
        }
        tensor_output
    }

    fn add(lhs: &B::TensorPrimitive, rhs: &B::TensorPrimitive) -> (r: B::TensorPrimitive)
        requires
            lhs@.wf(),
            rhs@.wf(),
            lhs@.dims == rhs@.dims,
        ensures
            r@ == zip_spec(BinOp::Add, lhs@, rhs@),
            r@.wf(),
    ;

    fn add_scalar(lhs: &B::TensorPrimitive, rhs: &i64) -> (r: B::TensorPrimitive)
        requires
            lhs@.wf(),
        ensures
            r@ == scalar_spec(BinOp::Add, lhs@, *rhs),
            r@.wf(),
    ;

    fn sub(lhs: &B::TensorPrimitive, rhs: &B::TensorPrimitive) -> (r: B::TensorPrimitive)
        requires
            lhs@.wf(),
            rhs@.wf(),
            lhs@.dims == rhs@.dims,
        ensures
            r@ == zip_spec(BinOp::Sub, lhs@, rhs@),
            r@.wf(),
    ;

    fn sub_scalar(lhs: &B::TensorPrimitive, rhs: &i64) -> (r: B::TensorPrimitive)
        requires
            lhs@.wf(),
        ensures
            r@ == scalar_spec(BinOp::Sub, lhs@, *rhs),
            r@.wf(),
    ;

    fn mul(lhs: &B::TensorPrimitive, rhs: &B::TensorPrimitive) -> (r: B::TensorPrimitive)
        requires
            lhs@.wf(),
            rhs@.wf(),
            lhs@.dims == rhs@.dims,
        ensures
            r@ == zip_spec(BinOp::Mul, lhs@, rhs@),
            r@.wf(),
    ;

    fn mul_scalar(lhs: &B::TensorPrimitive, rhs: &i64) -> (r: B::TensorPrimitive)
        requires
            lhs@.wf(),
        ensures
            r@ == scalar_spec(BinOp::Mul, lhs@, *rhs),
            r@.wf(),
    ;

    /// Elementwise quotient, truncated toward zero.
    fn div(lhs: &B::TensorPrimitive, rhs: &B::TensorPrimitive) -> (r: B::TensorPrimitive)
        requires
            lhs@.wf(),
            rhs@.wf(),
            lhs@.dims == rhs@.dims,
            nonzero(rhs@),
        ensures
            r@ == zip_spec(BinOp::Div, lhs@, rhs@),
            r@.wf(),
    ;

    fn div_scalar(lhs: &B::TensorPrimitive, rhs: &i64) -> (r: B::TensorPrimitive)
        requires
            lhs@.wf(),
            *rhs != 0,
        ensures
            r@ == scalar_spec(BinOp::Div, lhs@, *rhs),
            r@.wf(),
    ;

    /// Matrix product over the last two dimensions, batched over the others.
    fn matmul(lhs: &B::TensorPrimitive, rhs: &B::TensorPrimitive) -> (r: B::TensorPrimitive)
        requires
            lhs@.wf(),
            rhs@.wf(),
            matmul_fit(lhs@, rhs@),
            count(matmul_dims(lhs@, rhs@)) <= usize::MAX,
        ensures
            r@ == matmul_spec(lhs@, rhs@),
            r@.wf(),
    ;

    fn neg(tensor: &B::TensorPrimitive) -> (r: B::TensorPrimitive)
        requires
            tensor@.wf(),
        ensures
            r@ == neg_spec(tensor@),
            r@.wf(),
    ;

    /// Swaps the last two dimensions.
    fn transpose(tensor: &B::TensorPrimitive) -> (r: B::TensorPrimitive)
        requires
            tensor@.wf(),
            tensor@.dims.len() >= 2,
        ensures
            r@ == transpose_spec(tensor@),
            r@.wf(),
    {
        let rank = Self::shape(tensor).rank();
        Self::swap_dims(tensor, rank - 2, rank - 1)
    }

    fn swap_dims(tensor: &B::TensorPrimitive, dim1: usize, dim2: usize) -> (r: B::TensorPrimitive)
        requires
            tensor@.wf(),
            dim1 < tensor@.dims.len(),
            dim2 < tensor@.dims.len(),
        ensures
            r@ == swap_dims_spec(tensor@, dim1 as int, dim2 as int),
            r@.wf(),
    ;

    /// The same buffer under another shape with as many elements.
    fn reshape(tensor: &B::TensorPrimitive, shape: Shape) -> (r: B::TensorPrimitive)
        requires
            tensor@.wf(),
            count(shape@) == tensor@.data.len(),
        ensures
            r@ == reshape_spec(tensor@, shape@),
            r@.wf(),
    ;

    /// The rectangular region that `indexes` selects.
    fn index(tensor: &B::TensorPrimitive, indexes: Vec<Range<usize>>) -> (r: B::TensorPrimitive)
        requires
            tensor@.wf(),
            ranges_fit(tensor@.dims, indexes@),
        ensures
            r@ == index_spec(tensor@, indexes@),
            r@.wf(),
    ;

    /// A new tensor equal to `tensor` outside the region and to `value` inside.
    fn index_assign(
        tensor: &B::TensorPrimitive,
        indexes: Vec<Range<usize>>,
        value: &B::TensorPrimitive,
    ) -> (r: B::TensorPrimitive)
        requires
            tensor@.wf(),
            value@.wf(),
            ranges_fit(tensor@.dims, indexes@),
            value@.dims == region_dims(tensor@.dims, indexes@),
        ensures
            r@ == index_assign_spec(tensor@, indexes@, value@),
            r@.wf(),
    ;

    fn mask_fill(tensor: &B::TensorPrimitive, mask: &B::BoolTensorPrimitive, value: i64) -> (r:
        B::TensorPrimitive)
        requires
            tensor@.wf(),
            mask@.wf(),
            mask@.dims == tensor@.dims,
        ensures
            r@ == mask_fill_spec(tensor@, mask@, value),
            r@.wf(),
    ;
}

/// Elementwise comparisons, against a tensor of the same shape or a scalar.
pub trait TensorOpsMapComparison<B: Backend>: View<V = TensorSpec> + Sized {
    fn equal(&self, other: &Self) -> (r: B::BoolTensorPrimitive)
        requires
            self@.wf(),
            other@.wf(),
            self@.dims == other@.dims,
        ensures
            r@ == cmp_spec(CmpOp::Equal, self@, other@),
            r@.wf(),
    ;

    fn equal_scalar(&self, other: &i64) -> (r: B::BoolTensorPrimitive)
        requires
            self@.wf(),
        ensures
            r@ == cmp_scalar_spec(CmpOp::Equal, self@, *other),
            r@.wf(),
    ;

    fn greater(&self, other: &Self) -> (r: B::BoolTensorPrimitive)
        requires
            self@.wf(),
            other@.wf(),
            self@.dims == other@.dims,
        ensures
            r@ == cmp_spec(CmpOp::Greater, self@, other@),
            r@.wf(),
    ;

    fn greater_scalar(&self, other: &i64) -> (r: B::BoolTensorPrimitive)
        requires
            self@.wf(),
        ensures
            r@ == cmp_scalar_spec(CmpOp::Greater, self@, *other),
            r@.wf(),
    ;

    fn greater_equal(&self, other: &Self) -> (r: B::BoolTensorPrimitive)
        requires
            self@.wf(),
            other@.wf(),
            self@.dims == other@.dims,
        ensures
            r@ == cmp_spec(CmpOp::GreaterEqual, self@, other@),
            r@.wf(),
    ;

    fn greater_equal_scalar(&self, other: &i64) -> (r: B::BoolTensorPrimitive)
        requires
            self@.wf(),
        ensures
            r@ == cmp_scalar_spec(CmpOp::GreaterEqual, self@, *other),
            r@.wf(),
    ;

    fn lower(&self, other: &Self) -> (r: B::BoolTensorPrimitive)
        requires
            self@.wf(),
            other@.wf(),
            self@.dims == other@.dims,
        ensures
            r@ == cmp_spec(CmpOp::Lower, self@, other@),
            r@.wf(),
    ;

    fn lower_scalar(&self, other: &i64) -> (r: B::BoolTensorPrimitive)
        requires
            self@.wf(),
        ensures
            r@ == cmp_scalar_spec(CmpOp::Lower, self@, *other),
            r@.wf(),
    ;

    fn lower_equal(&self, other: &Self) -> (r: B::BoolTensorPrimitive)
        requires
            self@.wf(),
            other@.wf(),
            self@.dims == other@.dims,
        ensures
            r@ == cmp_spec(CmpOp::LowerEqual, self@, other@),
            r@.wf(),
    ;

    fn lower_equal_scalar(&self, other: &i64) -> (r: B::BoolTensorPrimitive)
        requires
            self@.wf(),
        ensures
            r@ == cmp_scalar_spec(CmpOp::LowerEqual, self@, *other),
            r@.wf(),
    ;
}

/// Reductions over the whole tensor, or along one dimension, which then
/// stays in the result with size one.
pub trait TensorOpsAggregation<B: Backend>: View<V = TensorSpec> + Sized {
    fn mean(&self) -> (r: B::TensorPrimitive)
        requires
            self@.wf(),
            0 < self@.data.len() <= i64::MAX,
        ensures
            r@ == mean_spec(self@),
            r@.wf(),
    ;

    fn sum(&self) -> (r: B::TensorPrimitive)
        requires
            self@.wf(),
        ensures
            r@ == sum_spec(self@),
            r@.wf(),
    ;

    fn mean_dim(&self, dim: usize) -> (r: B::TensorPrimitive)
        requires
            self@.wf(),
            dim < self@.dims.len(),
            0 < self@.dims[dim as int] <= i64::MAX,
        ensures
            r@ == mean_dim_spec(self@, dim as int),
            r@.wf(),
    ;

    fn sum_dim(&self, dim: usize) -> (r: B::TensorPrimitive)
        requires
            self@.wf(),
            dim < self@.dims.len(),
            count(self@.dims.update(dim as int, 1)) <= usize::MAX,
        ensures
            r@ == sum_dim_spec(self@, dim as int),
            r@.wf(),
    ;
}

/// Conversion to and from the precision in which sensitive sums are kept.
/// Integer elements are already exact, so both directions keep every value.
pub trait TensorOpsPrecision<B: Backend>: View<V = TensorSpec> + Sized {
    fn to_full_precision(&self) -> (r: B::TensorPrimitive)
        requires
            self@.wf(),
        ensures
            r@ == self@,
            r@.wf(),
    ;

    fn from_full_precision(tensor: B::TensorPrimitive) -> (r: B::TensorPrimitive)
        requires
            tensor@.wf(),
        ensures
            r@ == tensor@,
            r@.wf(),
    ;
}

/// Position of the first greatest, or first least, element along a dimension.
pub trait TensorOpsArg<B: Backend>: View<V = TensorSpec> + Sized {
    fn argmax(&self, dim: usize) -> (r: B::TensorPrimitive)
        requires
            self@.wf(),
            dim < self@.dims.len(),
            self@.dims[dim as int] > 0,
        ensures
            r@ == arg_spec(self@, dim as int, true),
            r@.wf(),
    ;

    fn argmin(&self, dim: usize) -> (r: B::TensorPrimitive)
        requires
            self@.wf(),
            dim < self@.dims.len(),
            self@.dims[dim as int] > 0,
        ensures
            r@ == arg_spec(self@, dim as int, false),
            r@.wf(),
    ;
}

/// Elementwise exponential; its values are the backend's own.
pub trait TensorOpsExp<E>: View<V = TensorSpec> + Sized {
    fn exp(&self) -> (r: Self)
        requires
            self@.wf(),
        ensures
            r@.dims == self@.dims,
            r@.wf(),
    ;
}

/// The views of a list of borrowed tensors.
pub open spec fn views<T: View<V = TensorSpec>>(tensors: Seq<&T>) -> Seq<TensorSpec> {
    Seq::new(tensors.len(), |k: int| tensors[k]@)
}

/// Concatenation along one dimension.
pub trait TensorOpsCat<E>: View<V = TensorSpec> + Sized {
    fn cat(tensors: Vec<&Self>, dim: usize) -> (r: Self)
        requires
            cat_fit(views(tensors@), dim as int),
            cat_extent(views(tensors@), dim as int, tensors@.len()) <= usize::MAX,
            count(cat_dims(views(tensors@), dim as int)) <= usize::MAX,
        ensures
            r@ == cat_spec(views(tensors@), dim as int),
            r@.wf(),
    ;
}

/// Elementwise natural logarithm; its values are the backend's own.
pub trait TensorOpsLog<E>: View<V = TensorSpec> + Sized {
    fn log(&self) -> (r: Self)
        requires
            self@.wf(),
        ensures
            r@.dims == self@.dims,
            r@.wf(),
    ;
}

/// Severs a tensor from whatever history its handle carries; the value stays.
pub trait TensorOpsDetach<E>: View<V = TensorSpec> + Sized {
    fn detach(self) -> (r: Self)
        ensures
            r@ == self@,
    ;
}

/// Elementwise error function; its values are the backend's own.
pub trait TensorOpsErf<E>: View<V = TensorSpec> + Sized {
    fn erf(&self) -> (r: Self)
        requires
            self@.wf(),
        ensures
            r@.dims == self@.dims,
            r@.wf(),
    ;
}

/// A tensor of zeros shaped like `self`.
pub trait Zeros<T: View<V = TensorSpec>>: View<V = TensorSpec> {
    fn zeros(&self) -> (r: T)
        requires
            self@.wf(),
        ensures
            r@ == full_spec(self@.dims, 0),
            r@.wf(),
    ;
}

/// A tensor of ones shaped like `self`.
pub trait Ones<T: View<V = TensorSpec>>: View<V = TensorSpec> {
    fn ones(&self) -> (r: T)
        requires
            self@.wf(),
        ensures
            r@ == full_spec(self@.dims, 1),
            r@.wf(),
    ;
}

} // verus!
