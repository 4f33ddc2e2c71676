//! Component model: the element tree, framework errors and the application
//! root.
pub mod app;
pub mod element;
pub mod error;
pub mod render_object;
