//! The rebase daily feed: its API records and what is computed from them.
pub mod display_notion;
pub mod episodes;
pub mod types;
