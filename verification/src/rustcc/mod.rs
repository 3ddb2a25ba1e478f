//! The rustcc daily: section pages, articles and their news items.
pub mod article;
pub mod article_page;
pub mod display_notion;
pub mod message;
pub mod section_link;
