//! Menu tables scraped from cafeteria pages: a verified grid parser for the
//! first HTML table of a page, a bounded retry policy for fetching pages, and
//! the assembly of one table per source.

pub mod document;
pub mod fetch;
pub mod grid;
pub mod pipeline;
