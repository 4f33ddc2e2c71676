//! Windowing support: application configuration, input event kinds and the
//! conversion of rendered frames to the window's pixel format.
pub mod app;
pub mod event;
