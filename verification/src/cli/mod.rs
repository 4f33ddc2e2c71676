//! The `tzr` command-line tool: project scaffolding.
pub mod new;
