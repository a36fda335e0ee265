//! A generative sketch: a grid of coloured cells, each carrying a random
//! letter, that covers a window and reacts to pointer movement.
//!
//! The library holds the grid arithmetic, the repaint rule and the reaction
//! to pointer events. A frame is produced as a list of drawing commands; the
//! windowing toolkit that executes them lives outside this crate.

pub mod chance;
pub mod color;
pub mod draw;
pub mod laws;
pub mod layout;
pub mod sketch;
