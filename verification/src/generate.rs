//! The four generators, each a function from a schema to an artifact that
//! holds source text, and the assembler of their artifacts.

pub mod accessor;
pub mod artifact;
pub mod builder;
pub mod factory;
pub mod query;
