//! Resolves slash-separated query paths against a hierarchical, alias-aware
//! configuration tree, delivered to the resolver as a flat event stream, and
//! merges several resolved results into one consolidated configuration.
//!
//! The crate also carries the small verified building blocks that grew around
//! the resolver in the same code base: a little-endian binary reader, an
//! index-to-name table, a bit-packed musical note, and a JSON value model.

pub mod blueprint;
pub mod error;
pub mod input;
pub mod json;
pub mod laws;
pub mod names;
pub mod note;
pub mod parsed_element;
pub mod parser;
pub mod path_node;
pub mod reader;
pub mod resolver;
pub mod result;
pub mod strutil;
pub mod target;
