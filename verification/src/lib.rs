//! An in-memory frame buffer: pixel writes are collected in an owned,
//! row-major store and can later be replayed, slot by slot, onto a display.

pub mod color;
pub mod display;
pub mod geometry;
pub mod laws;

pub use display::InMemoryDisplay;
pub use geometry::{Pixel, Point, Size};
