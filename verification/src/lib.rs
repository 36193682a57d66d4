//! Queries over parsed HTML documents: CSS selectors pick elements, and
//! each match is handed out as an owned snapshot of its tag, normalised
//! text, inner markup and attributes.
//!
//! Parsing, selector matching and serialisation are `scraper`'s; what this
//! library adds is proved: which elements a query returns and in which
//! order, and how a snapshot is made from what the tree records.

pub mod document;
pub mod dom;
pub mod element;
pub mod error;
pub mod repr;
pub mod selector;
pub mod syntax;
pub mod text;
