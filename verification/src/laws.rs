//! What the operations of the library are for, as relations between their inputs and results.

pub mod calls;
pub mod commands;
pub mod discovery;
pub mod drawing;
pub mod overlay;
pub mod screen;
pub mod store;
pub mod text;
