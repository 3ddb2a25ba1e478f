//! The stored news record and the views served from it.
pub mod rebase_daily;
pub mod response;
