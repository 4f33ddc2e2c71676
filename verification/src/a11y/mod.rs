//! Accessibility data model: WAI-ARIA roles, an accessible node tree and
//! keyboard focus management.
pub mod role;
pub mod node;
pub mod tree;
pub mod focus;
pub mod laws;
