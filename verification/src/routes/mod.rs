//! The query endpoints' parameters and the computations behind their answers.
pub mod query;
pub mod rebase;
pub mod rustcc;
