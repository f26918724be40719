//! What layers are made of: parameters, and the interface of a module
//! whose parameters can be detached.
use crate::model::TensorSpec;
use vstd::prelude::*;

verus! {

/// A tensor that a module learns.
pub struct Param<T> {
    pub value: T,
}

impl<T> Param<T> {
    pub fn new(value: T) -> (r: Self)
        ensures
            r.value == value,
    {
        Param { value }
    }
}

/// A module whose parameters can be cut loose from recorded history.
pub trait ADModule: Sized {
    /// The values of the parameters, in a fixed order.
    spec fn params(&self) -> Seq<TensorSpec>;

    /// The same module with every parameter detached; no value changes.
    fn detach(self) -> (r: Self)
        ensures
            r.params() == self.params(),
    ;
}

} // verus!
