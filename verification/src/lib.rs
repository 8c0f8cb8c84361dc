//! A registry that stores values of any type under string keys, each type in
//! a keyspace of its own.
//!
//! [`registry::Stuff`] is the registry. It keeps one [`shelf::Shelf`] for each
//! value type that was stored, and finds the shelf by the type. What a shelf
//! does is stated and proved over a mapping from keys to values; [`laws`]
//! holds what follows for any order of calls. Of the registry as a whole the
//! contracts follow the keys that it holds, over all types together.

pub mod laws;
pub mod registry;
pub mod shelf;

pub use crate::registry::Stuff;
pub use crate::shelf::Shelf;
