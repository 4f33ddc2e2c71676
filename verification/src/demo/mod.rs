//! Logic of the example applications that does not draw: spring preset
//! names, hover colors and command summaries.
pub mod command;
pub mod presets;
