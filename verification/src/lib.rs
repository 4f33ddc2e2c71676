use vstd::prelude::*;

pub mod color;
pub mod textfmt;
pub mod a11y;
pub mod sorting;
pub mod text;
pub mod devtools;
pub mod cli;
pub mod component;
pub mod widgets;
pub mod platform;
pub mod render;
pub mod demo;
