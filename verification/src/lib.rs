//! A bounded-grid simulation of Conway's Game of Life.
//!
//! The heart of the crate is [`universe::Universe`]: an immutable snapshot of
//! one generation, advanced by [`universe::Universe::tick`].

pub mod display;
pub mod error;
pub mod opt;
pub mod universe;
