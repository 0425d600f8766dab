//! A map whose storage engine is compiled once and stores keys and values of
//! any registered type as type-erased cells, driven by runtime type
//! descriptors.

pub mod layout;
pub mod erased;
pub mod erased_hashmap;
pub mod storable;
pub mod facet_hashmap;
pub mod semantics;
pub mod shape;
