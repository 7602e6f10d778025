//! A small line-oriented text search: pick the lines of a document that
//! contain a query, with or without regard to case, and mark the match.

pub mod config;
pub mod filtering;
pub mod highlight;
pub mod search;
pub mod text;
