//! Developer tools: recording and inspecting atom state over time.
pub mod atom_inspector;
