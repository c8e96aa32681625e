//! The view-stack navigation engine: per-view state, the keyboard
//! controllers, and the stack of views with its transition machine.

pub mod control;
pub mod state;
pub mod terminal;
pub mod view;
pub mod widgets;
