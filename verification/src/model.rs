//! The persistence layer: entity types, their canonical keys and byte
//! encodings, and the typed store built over an ordered key-value engine.

pub mod convert;
pub mod fresh;
pub mod store;
pub mod task;
pub mod task_entry;
