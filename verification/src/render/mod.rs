//! Pixel work of the CPU renderer: compositing RGBA images into a canvas.
pub mod blit;
