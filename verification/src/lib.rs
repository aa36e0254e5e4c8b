//! Conway's Game of Life on a torus.
//!
//! The crate holds the simulation itself: the grid of cells, the rule that
//! takes one generation to the next, and the history that makes every step
//! undoable. Each executable function carries a contract over a mathematical
//! model of its data, and the contracts are proved.

pub mod engine;
pub mod grid;
pub mod history;
pub mod layout;
pub mod patterns;
pub mod session;
pub mod world;

pub use engine::{step, step_forward};
pub use grid::Grid;
pub use history::{History, Timeline};
pub use layout::{grid_line_segments, live_cell_rects, PixelLine, PixelRect};
pub use session::{Command, Frame, Session, Signal};
pub use world::{World, GRID_SIZE, WINDOW_SIZE};
