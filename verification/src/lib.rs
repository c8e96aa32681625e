//! packrat: a habit tracker built around an ordered key-value store.
//!
//! The crate is organised around two verified subsystems: the persistence
//! layer (`model`), which gives every entity a canonical key and an exact
//! byte encoding and proves the round trips, and the view-stack navigation
//! engine (`ui`), a state machine that maps keyboard events to transitions
//! over a stack of view states.

pub mod cli;
pub mod codec;
pub mod keys;
pub mod model;
pub mod ui;
