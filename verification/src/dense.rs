//! The reference compute engine: dense row-major buffers on the host.
use crate::data::Data;
use crate::model::{
    cmp_scalar_spec, cmp_spec, elem_bin, elem_cmp, elem_neg, full_spec, mask_fill_spec, neg_spec,
    nonzero, scalar_spec, zip_spec, BinOp, CmpOp, MaskSpec, TensorSpec,
};
use crate::ops::Backend;
use crate::shape::{count, Shape};
use vstd::prelude::*;

verus! {

/// The host is the only device of the reference engine.
#[derive(Clone, Copy, Debug, PartialEq, Eq)]
pub struct DenseDevice;

/// A tensor of integers held as a row-major buffer.
#[derive(Debug)]
pub struct DenseTensor {
    pub shape: Shape,
    pub data: Vec<i64>,
}

/// A tensor of booleans held as a row-major buffer.
#[derive(Debug)]
pub struct DenseBoolTensor {
    pub shape: Shape,
    pub data: Vec<bool>,
}

/// The reference engine.
#[derive(Clone, Copy, Debug)]
pub struct DenseBackend;

impl View for DenseTensor {
    type V = TensorSpec;

    open spec fn view(&self) -> TensorSpec {
        TensorSpec { dims: self.shape@, data: self.data@ }
    }
}

impl View for DenseBoolTensor {
    type V = MaskSpec;

    open spec fn view(&self) -> MaskSpec {
        MaskSpec { dims: self.shape@, data: self.data@ }
    }
}

impl Backend for DenseBackend {
    type Device = DenseDevice;

    type TensorPrimitive = DenseTensor;

    type BoolTensorPrimitive = DenseBoolTensor;

    open spec fn device_of(tensor: &DenseTensor) -> DenseDevice {
        DenseDevice
    }

    fn from_data(data: Data<i64>, device: DenseDevice) -> (r: DenseTensor) {
        DenseTensor { shape: data.shape, data: data.value }
    }

    fn from_data_bool(data: Data<bool>, device: DenseDevice) -> (r: DenseBoolTensor) {
        DenseBoolTensor { shape: data.shape, data: data.value }
    }
}

pub fn copy_vec<T: Copy>(v: &Vec<T>) -> (r: Vec<T>)
    ensures
        r@ == v@,
{
    let mut out: Vec<T> = Vec::new();
    let mut i: usize = 0;
    while i < v.len()
        invariant
            i <= v.len(),
            out.len() == i,
            forall|j: int| 0 <= j < i ==> out@[j] == v@[j],
        decreases v.len() - i,
    {
        out.push(v[i]);
        i += 1;
    }
    assert(out@ =~= v@);
    out
}

/// One arithmetic operation on two elements.
pub fn apply_bin(op: BinOp, a: i64, b: i64) -> (r: i64)
    requires
        op == BinOp::Div ==> b != 0,
    ensures
        r == elem_bin(op, a, b),
{
    match op {
        BinOp::Add => a.wrapping_add(b),
        BinOp::Sub => a.wrapping_sub(b),
        BinOp::Mul => a.wrapping_mul(b),
        BinOp::Div => {
            if a == i64::MIN && b == -1 {
                i64::MIN
            } else {
                a / b
            }
        },
    }
}

/// One comparison of two elements.
pub fn apply_cmp(op: CmpOp, a: i64, b: i64) -> (r: bool)
    ensures
        r == elem_cmp(op, a, b),
{
    match op {
        CmpOp::Equal => a == b,
        CmpOp::Greater => a > b,
        CmpOp::GreaterEqual => a >= b,
        CmpOp::Lower => a < b,
        CmpOp::LowerEqual => a <= b,
    }
}

impl DenseTensor {
    /// A tensor with every element equal to `value`.
    pub fn full(shape: Shape, value: i64) -> (r: DenseTensor)
        requires
            count(shape@) <= usize::MAX,
        ensures
            r@ == full_spec(shape@, value),
            r@.wf(),
    {
        let n = shape.num_elements();
        let mut out: Vec<i64> = Vec::new();
        let mut i: usize = 0;
        while i < n
            invariant
                i <= n,
                out.len() == i,
                forall|j: int| 0 <= j < i ==> out@[j] == value,
            decreases n - i,
        {
            out.push(value);
            i += 1;
        }
        let r = DenseTensor { shape, data: out };
        assert(r@.data =~= full_spec(shape@, value).data);
        r
    }

    /// Elementwise arithmetic on two tensors of the same shape.
    pub fn zip(op: BinOp, lhs: &DenseTensor, rhs: &DenseTensor) -> (r: DenseTensor)
        requires
            lhs@.wf(),
            rhs@.wf(),
            lhs@.dims == rhs@.dims,
            op == BinOp::Div ==> nonzero(rhs@),
        ensures
            r@ == zip_spec(op, lhs@, rhs@),
            r@.wf(),
    {
        let n = lhs.data.len();
        let mut out: Vec<i64> = Vec::new();
        let mut i: usize = 0;
        while i < n
            invariant
                i <= n,
                n == lhs.data.len(),
                n == rhs.data.len(),
                op == BinOp::Div ==> nonzero(rhs@),
                out.len() == i,
                forall|j: int| 0 <= j < i ==> out@[j] == elem_bin(op, lhs.data@[j], rhs.data@[j]),
            decreases n - i,
        {
            assert(op == BinOp::Div ==> rhs@.data[i as int] != 0);
            out.push(apply_bin(op, lhs.data[i], rhs.data[i]));
            i += 1;
        }
        let r = DenseTensor { shape: lhs.shape.clone(), data: out };
        assert(r@.data =~= zip_spec(op, lhs@, rhs@).data);
        r
    }

    /// Elementwise arithmetic with a scalar on the right.
    pub fn scalar(op: BinOp, lhs: &DenseTensor, rhs: i64) -> (r: DenseTensor)
        requires
            lhs@.wf(),
            op == BinOp::Div ==> rhs != 0,
        ensures
            r@ == scalar_spec(op, lhs@, rhs),
            r@.wf(),
    {
        let n = lhs.data.len();
        let mut out: Vec<i64> = Vec::new();
        let mut i: usize = 0;
        while i < n
            invariant
                i <= n,
                n == lhs.data.len(),
                op == BinOp::Div ==> rhs != 0,
                out.len() == i,
                forall|j: int| 0 <= j < i ==> out@[j] == elem_bin(op, lhs.data@[j], rhs),
            decreases n - i,
        {
            out.push(apply_bin(op, lhs.data[i], rhs));
            i += 1;
        }
        let r = DenseTensor { shape: lhs.shape.clone(), data: out };
        assert(r@.data =~= scalar_spec(op, lhs@, rhs).data);
        r
    }

    pub fn negate(&self) -> (r: DenseTensor)
        requires
            self@.wf(),
        ensures
            r@ == neg_spec(self@),
            r@.wf(),
    {
        let n = self.data.len();
        let mut out: Vec<i64> = Vec::new();
        let mut i: usize = 0;
        while i < n
            invariant
                i <= n,
                n == self.data.len(),
                out.len() == i,
                forall|j: int| 0 <= j < i ==> out@[j] == elem_neg(self.data@[j]),
            decreases n - i,
        {
            out.push(0i64.wrapping_sub(self.data[i]));
            i += 1;
        }
        let r = DenseTensor { shape: self.shape.clone(), data: out };
        assert(r@.data =~= neg_spec(self@).data);
        r
    }

    /// Elementwise comparison of two tensors of the same shape.
    pub fn compare(op: CmpOp, lhs: &DenseTensor, rhs: &DenseTensor) -> (r: DenseBoolTensor)
        requires
            lhs@.wf(),
            rhs@.wf(),
            lhs@.dims == rhs@.dims,
        ensures
            r@ == cmp_spec(op, lhs@, rhs@),
            r@.wf(),
    {
        let n = lhs.data.len();
        let mut out: Vec<bool> = Vec::new();
        let mut i: usize = 0;
        while i < n
            invariant
                i <= n,
                n == lhs.data.len(),
                n == rhs.data.len(),
                out.len() == i,
                forall|j: int| 0 <= j < i ==> out@[j] == elem_cmp(op, lhs.data@[j], rhs.data@[j]),
            decreases n - i,
        {
            out.push(apply_cmp(op, lhs.data[i], rhs.data[i]));
            i += 1;
        }
        let r = DenseBoolTensor { shape: lhs.shape.clone(), data: out };
        assert(r@.data =~= cmp_spec(op, lhs@, rhs@).data);
        r
    }

    /// Elementwise comparison with a scalar on the right.
    pub fn compare_scalar(op: CmpOp, lhs: &DenseTensor, rhs: i64) -> (r: DenseBoolTensor)
        requires
            lhs@.wf(),
        ensures
            r@ == cmp_scalar_spec(op, lhs@, rhs),
            r@.wf(),
    {
        let n = lhs.data.len();
        let mut out: Vec<bool> = Vec::new();
        let mut i: usize = 0;
        while i < n
            invariant
                i <= n,
                n == lhs.data.len(),
                out.len() == i,
                forall|j: int| 0 <= j < i ==> out@[j] == elem_cmp(op, lhs.data@[j], rhs),
            decreases n - i,
        {
            out.push(apply_cmp(op, lhs.data[i], rhs));
            i += 1;
        }
        let r = DenseBoolTensor { shape: lhs.shape.clone(), data: out };
        assert(r@.data =~= cmp_scalar_spec(op, lhs@, rhs).data);
        r
    }

    /// Replaces by `value` every element whose mask entry is true.
    pub fn fill_where(&self, mask: &DenseBoolTensor, value: i64) -> (r: DenseTensor)
        requires
            self@.wf(),
            mask@.wf(),
            mask@.dims == self@.dims,
        ensures
            r@ == mask_fill_spec(self@, mask@, value),
            r@.wf(),
    {
        let n = self.data.len();
        let mut out: Vec<i64> = Vec::new();
        let mut i: usize = 0;
        while i < n
            invariant
                i <= n,
                n == self.data.len(),
                n == mask.data.len(),
                out.len() == i,
                forall|j: int|
                    0 <= j < i ==> out@[j] == (if mask.data@[j] {
                        value
                    } else {
                        self.data@[j]
                    }),
            decreases n - i,
        {
            if mask.data[i] {
                out.push(value);
            } else {
                out.push(self.data[i]);
            }
            i += 1;
        }
        let r = DenseTensor { shape: self.shape.clone(), data: out };
        assert(r@.data =~= mask_fill_spec(self@, mask@, value).data);
        r
    }

    /// A second handle on the same value.
    pub fn duplicate(&self) -> (r: DenseTensor)
        ensures
            r@ == self@,
    {
        DenseTensor { shape: self.shape.clone(), data: copy_vec(&self.data) }
    }
}

} // verus!
