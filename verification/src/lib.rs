//! A pattern-based line search engine: given a regular-expression pattern and
//! a target path, it reports every matching line, walking directories while
//! honouring ignore rules, and isolating per-file failures so that one
//! unreadable path never suppresses results found elsewhere.

pub mod record;
pub mod lines;
pub mod pattern;
pub mod scan;
pub mod walk;
pub mod engine;
