//! A character-grid drawing surface: every cell of a fixed-size grid holds
//! one mark, overlapping marks are merged by a fixed priority ladder, and the
//! grid renders as lines of text.

pub mod canvas;
pub mod cell;

pub use canvas::{HPos, TextDrawingBackend, VPos};
pub use cell::{PixelState, FILLED_CHAR};
