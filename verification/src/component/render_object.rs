use vstd::prelude::*;

verus! {

/// Placeholder canvas of the component model; the pixel canvas lives with
/// the renderer.
pub struct Canvas;

} // verus!
