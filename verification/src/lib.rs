//! Lookups over a line-oriented corpus of classical poems.
//!
//! Each corpus line holds one poem as `title|dynasty|author|sentence|...`.
//! The library splits such lines into records, assembles the search pattern
//! for a set of optional field filters, runs it over the corpus, and picks
//! records at random.

pub mod corpus;
pub mod error;
pub mod pattern;
pub mod record;
pub mod search;
pub mod select;
pub mod text;

pub use error::PoetryError;
pub use record::Poetry;
