//! Host-side materialisation of a tensor: a row-major buffer and its shape.
use crate::model::{MaskSpec, TensorSpec};
use crate::shape::Shape;
use vstd::prelude::*;

verus! {

/// A flattened row-major buffer paired with the shape it is laid out in.
#[derive(Debug, PartialEq, Eq)]
pub struct Data<E> {
    pub value: Vec<E>,
    pub shape: Shape,
}

impl<E> Data<E> {
    pub fn new(value: Vec<E>, shape: Shape) -> (r: Self)
        ensures
            r.value@ == value@,
            r.shape@ == shape@,
    {
        Data { value, shape }
    }
}

impl View for Data<i64> {
    type V = TensorSpec;

    open spec fn view(&self) -> TensorSpec {
        TensorSpec { dims: self.shape@, data: self.value@ }
    }
}

impl View for Data<bool> {
    type V = MaskSpec;

    open spec fn view(&self) -> MaskSpec {
        MaskSpec { dims: self.shape@, data: self.value@ }
    }
}

} // verus!
