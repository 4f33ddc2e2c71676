//! Built-in widgets: their state and the logic that does not depend on
//! pixel geometry.
pub mod checkbox;
pub mod switch;
pub mod text;
pub mod text_input;
pub mod toast;
