//! Text editing support.
pub mod cursor;
