use vstd::prelude::*;

verus! {

/// The checked / unchecked / indeterminate state of a checkbox.
#[derive(Debug, Clone, Copy, PartialEq, Eq, Structural)]
pub enum CheckState {
    Unchecked,
    Checked,
    Indeterminate,
}

} // verus!
