//! A lookup table that stores a fixed number of vectors.
use crate::data::Data;
use crate::model::{embedding_dims, embedding_fit, embedding_spec, TensorSpec};
use crate::module::{ADModule, Param};
use crate::ops::{Backend, ModuleOps, TensorOpsDetach};
use crate::shape::count;
use vstd::prelude::*;

verus! {

/// Configuration to create an [`Embedding`] layer.
#[derive(Clone, Copy, Debug, PartialEq, Eq)]
pub struct EmbeddingConfig {
    /// The number of embedding vectors.
    pub n_embedding: usize,
    /// The size of each vector.
    pub d_model: usize,
}

impl EmbeddingConfig {
    pub fn new(n_embedding: usize, d_model: usize) -> (r: Self)
        ensures
            r.n_embedding == n_embedding,
            r.d_model == d_model,
    {
        EmbeddingConfig { n_embedding, d_model }
    }

    /// Shape of the table: one row of `d_model` entries per vector.
    pub open spec fn dims(&self) -> Seq<usize> {
        seq![self.n_embedding, self.d_model]
    }
}

/// Lookup table to store a fixed number of vectors.
pub struct Embedding<B: Backend> {
    pub weight: Param<B::TensorPrimitive>,
}

impl<B: Backend + ModuleOps<B>> Embedding<B> {
    /// The table as the proofs see it.
    pub open spec fn table(&self) -> TensorSpec {
        self.weight.value@
    }

    /// A table of the configured shape that starts from the values `init`.
    pub fn new(config: &EmbeddingConfig, init: Data<i64>, device: B::Device) -> (r: Self)
        requires
            init@.wf(),
            init@.dims == config.dims(),
        ensures
            r.table() == init@,
    {
        Embedding { weight: Param::new(B::from_data(init, device)) }
    }

    /// The vectors that `input` names, batched as `input` is.
    pub fn forward(&self, input: &B::TensorPrimitive) -> (r: B::TensorPrimitive)
        requires
            embedding_fit(self.table(), input@),
            count(embedding_dims(self.table(), input@)) <= usize::MAX,
        ensures
            r@ == embedding_spec(self.table(), input@),
            r@.wf(),
    {
        B::embedding(&self.weight.value, input)
    }
}

impl<B: Backend> ADModule for Embedding<B> where B::TensorPrimitive: TensorOpsDetach<i64> {
    open spec fn params(&self) -> Seq<TensorSpec> {
        seq![self.weight.value@]
    }

    /// The table is detached by the backend's own `detach`, so whatever
    /// the backend promises of a detached tensor holds of the new table.
    fn detach(self) -> (r: Self)
        ensures
            call_ensures(
                <B::TensorPrimitive as TensorOpsDetach<i64>>::detach,
                (self.weight.value,),
                r.weight.value,
            ),
    {
        Embedding { weight: Param::new(self.weight.value.detach()) }
    }
}

} // verus!
