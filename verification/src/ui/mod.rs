//! Text drawing support.
pub mod font;
pub mod painter;
