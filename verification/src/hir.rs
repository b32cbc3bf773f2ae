//! The checked form of a format description, and the Rust code generated from it.
pub mod attr;
pub mod builtin;
pub mod doc;
pub mod lower;
pub mod meta;
pub mod model;
pub mod pattern;
pub mod ty;
