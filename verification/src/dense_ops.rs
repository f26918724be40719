//! The reference engine as an implementation of the capability interface.
use crate::data::Data;
use crate::dense::{copy_vec, DenseBackend, DenseBoolTensor, DenseDevice, DenseTensor};
use crate::model::{BinOp, CmpOp};
use crate::ops::{
    ModuleOps, Ones, TensorOps, TensorOpsAggregation, TensorOpsArg, TensorOpsCat, TensorOpsDetach,
    TensorOpsMapComparison, TensorOpsPrecision, Zeros,
};
use crate::shape::Shape;
use core::ops::Range;
use vstd::prelude::*;

verus! {

impl ModuleOps<DenseBackend> for DenseBackend {
    fn embedding(weights: &DenseTensor, indexes: &DenseTensor) -> (r: DenseTensor) {
        DenseTensor::embedding(weights, indexes)
    }

    fn embedding_backward(weights: &DenseTensor, output: &DenseTensor, indexes: &DenseTensor) -> (r:
        DenseTensor) {
        DenseTensor::embedding_backward(weights, output, indexes)
    }
}

impl TensorOps<DenseBackend> for DenseBackend {
    fn shape(tensor: &DenseTensor) -> (r: &Shape) {
        let r = &tensor.shape;
        assert(r@ == tensor@.dims);
        r
    }

    fn to_data(tensor: &DenseTensor) -> (r: Data<i64>) {
        Data::new(copy_vec(&tensor.data), tensor.shape.clone())
    }

    fn into_data(tensor: DenseTensor) -> (r: Data<i64>) {
        Data::new(tensor.data, tensor.shape)
    }

    fn bool_shape(tensor: &DenseBoolTensor) -> (r: &Shape) {
        &tensor.shape
    }

    fn bool_to_data(tensor: &DenseBoolTensor) -> (r: Data<bool>) {
        Data::new(copy_vec(&tensor.data), tensor.shape.clone())
    }

    fn bool_into_data(tensor: DenseBoolTensor) -> (r: Data<bool>) {
        Data::new(tensor.data, tensor.shape)
    }

    fn device(tensor: &DenseTensor) -> (r: DenseDevice) {
        DenseDevice
    }

    fn to_device(tensor: &DenseTensor, device: DenseDevice) -> (r: DenseTensor) {
        tensor.duplicate()
    }

    fn empty(shape: Shape, device: DenseDevice) -> (r: DenseTensor) {
        DenseTensor::full(shape, 0)
    }

    fn add(lhs: &DenseTensor, rhs: &DenseTensor) -> (r: DenseTensor) {
        DenseTensor::zip(BinOp::Add, lhs, rhs)
    }

    fn add_scalar(lhs: &DenseTensor, rhs: &i64) -> (r: DenseTensor) {
        DenseTensor::scalar(BinOp::Add, lhs, *rhs)
    }

    fn sub(lhs: &DenseTensor, rhs: &DenseTensor) -> (r: DenseTensor) {
        DenseTensor::zip(BinOp::Sub, lhs, rhs)
    }

    fn sub_scalar(lhs: &DenseTensor, rhs: &i64) -> (r: DenseTensor) {
        DenseTensor::scalar(BinOp::Sub, lhs, *rhs)
    }

    fn mul(lhs: &DenseTensor, rhs: &DenseTensor) -> (r: DenseTensor) {
        DenseTensor::zip(BinOp::Mul, lhs, rhs)
    }

    fn mul_scalar(lhs: &DenseTensor, rhs: &i64) -> (r: DenseTensor) {
        DenseTensor::scalar(BinOp::Mul, lhs, *rhs)
    }

    fn div(lhs: &DenseTensor, rhs: &DenseTensor) -> (r: DenseTensor) {
        DenseTensor::zip(BinOp::Div, lhs, rhs)
    }

    fn div_scalar(lhs: &DenseTensor, rhs: &i64) -> (r: DenseTensor) {
        DenseTensor::scalar(BinOp::Div, lhs, *rhs)
    }

    fn matmul(lhs: &DenseTensor, rhs: &DenseTensor) -> (r: DenseTensor) {
        lhs.matmul(rhs)
    }

    fn neg(tensor: &DenseTensor) -> (r: DenseTensor) {
        tensor.negate()
    }

    fn swap_dims(tensor: &DenseTensor, dim1: usize, dim2: usize) -> (r: DenseTensor) {
        tensor.swap_dims(dim1, dim2)
    }

    fn reshape(tensor: &DenseTensor, shape: Shape) -> (r: DenseTensor) {
        DenseTensor { shape, data: copy_vec(&tensor.data) }
    }

    fn index(tensor: &DenseTensor, indexes: Vec<Range<usize>>) -> (r: DenseTensor) {
        tensor.index(&indexes)
    }

    fn index_assign(tensor: &DenseTensor, indexes: Vec<Range<usize>>, value: &DenseTensor) -> (r:
        DenseTensor) {
        tensor.index_assign(&indexes, value)
    }

    fn mask_fill(tensor: &DenseTensor, mask: &DenseBoolTensor, value: i64) -> (r: DenseTensor) {
        tensor.fill_where(mask, value)
    }
}

impl TensorOpsMapComparison<DenseBackend> for DenseTensor {
    fn equal(&self, other: &Self) -> (r: DenseBoolTensor) {
        DenseTensor::compare(CmpOp::Equal, self, other)
    }

    fn equal_scalar(&self, other: &i64) -> (r: DenseBoolTensor) {
        DenseTensor::compare_scalar(CmpOp::Equal, self, *other)
    }

    fn greater(&self, other: &Self) -> (r: DenseBoolTensor) {
        DenseTensor::compare(CmpOp::Greater, self, other)
    }

    fn greater_scalar(&self, other: &i64) -> (r: DenseBoolTensor) {
        DenseTensor::compare_scalar(CmpOp::Greater, self, *other)
    }

    fn greater_equal(&self, other: &Self) -> (r: DenseBoolTensor) {
        DenseTensor::compare(CmpOp::GreaterEqual, self, other)
    }

    fn greater_equal_scalar(&self, other: &i64) -> (r: DenseBoolTensor) {
        DenseTensor::compare_scalar(CmpOp::GreaterEqual, self, *other)
    }

    fn lower(&self, other: &Self) -> (r: DenseBoolTensor) {
        DenseTensor::compare(CmpOp::Lower, self, other)
    }

    fn lower_scalar(&self, other: &i64) -> (r: DenseBoolTensor) {
        DenseTensor::compare_scalar(CmpOp::Lower, self, *other)
    }

    fn lower_equal(&self, other: &Self) -> (r: DenseBoolTensor) {
        DenseTensor::compare(CmpOp::LowerEqual, self, other)
    }

    fn lower_equal_scalar(&self, other: &i64) -> (r: DenseBoolTensor) {
        DenseTensor::compare_scalar(CmpOp::LowerEqual, self, *other)
    }
}

impl TensorOpsAggregation<DenseBackend> for DenseTensor {
    fn mean(&self) -> (r: DenseTensor) {
        self.mean_all()
    }

    fn sum(&self) -> (r: DenseTensor) {
        self.sum_all()
    }

    fn mean_dim(&self, dim: usize) -> (r: DenseTensor) {
        self.mean_along(dim)
    }

    fn sum_dim(&self, dim: usize) -> (r: DenseTensor) {
        self.sum_along(dim)
    }
}

impl TensorOpsPrecision<DenseBackend> for DenseTensor {
    fn to_full_precision(&self) -> (r: DenseTensor) {
        self.duplicate()
    }

    fn from_full_precision(tensor: DenseTensor) -> (r: DenseTensor) {
        tensor
    }
}

impl TensorOpsArg<DenseBackend> for DenseTensor {
    fn argmax(&self, dim: usize) -> (r: DenseTensor) {
        self.arg_along(dim, true)
    }

    fn argmin(&self, dim: usize) -> (r: DenseTensor) {
        self.arg_along(dim, false)
    }
}

impl TensorOpsCat<i64> for DenseTensor {
    fn cat(tensors: Vec<&Self>, dim: usize) -> (r: Self) {
        DenseTensor::concatenate(&tensors, dim)
    }
}

impl TensorOpsDetach<i64> for DenseTensor {
    fn detach(self) -> (r: Self) {
        self
    }
}

impl Zeros<DenseTensor> for DenseTensor {
    fn zeros(&self) -> (r: DenseTensor) {
        DenseTensor::full(self.shape.clone(), 0)
    }
}

impl Ones<DenseTensor> for DenseTensor {
    fn ones(&self) -> (r: DenseTensor) {
        DenseTensor::full(self.shape.clone(), 1)
    }
}

} // verus!
