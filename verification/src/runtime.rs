//! What the generated operations do when they are used, as executable
//! operations on records: the accessors and the full constructor
//! ([`record`]), the factory ([`factory`]), the builder ([`builder`]) and the
//! query operation ([`query`]).

pub mod builder;
pub mod factory;
pub mod query;
pub mod record;
