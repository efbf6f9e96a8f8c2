//! Best-effort extraction of recipe drafts from static HTML pages.

pub mod document;
pub mod draft;
pub mod lists;
pub mod metadata;
pub mod model;
pub mod scraping;
pub mod security;
pub mod text;
pub mod timings;
pub mod web;
