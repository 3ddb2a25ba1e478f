//! News aggregation core: the data model of daily news episodes, the
//! rules that turn scraped pages and API answers into those records, and
//! the small computations behind the query endpoints.
pub mod aion;
pub mod clock;
pub mod digest;
pub mod errors;
pub mod json;
pub mod pattern;
pub mod rebase;
pub mod routes;
pub mod rustcc;
pub mod scrape;
pub mod startup;
pub mod tag;
pub mod tasks;
pub mod templates;
pub mod text;
pub mod web;
