//! The computations behind the rustcc endpoints: the same as for rebase.
pub use crate::routes::query::ListAllItemsQuery;
pub use crate::routes::rebase::{distinct_authors, list_authors_response};
