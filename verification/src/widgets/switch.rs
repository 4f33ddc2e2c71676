use vstd::prelude::*;

verus! {

/// A pill-shaped toggle switch.
pub struct Switch {
    pub on: bool,
    pub disabled: bool,
}

impl Switch {
    /// A switch in the off position, enabled.
    pub fn new() -> (s: Switch)
        ensures
            !s.on,
            !s.disabled,
    {
        Switch { on: false, disabled: false }
    }

    /// Sets whether the switch is on.
    pub fn on(self, v: bool) -> (s: Switch)
        ensures
            s.on == v,
            s.disabled == self.disabled,
    {
        Switch { on: v, ..self }
    }

    /// Sets whether the switch is disabled (muted, non-interactive).
    pub fn disabled(self, d: bool) -> (s: Switch)
        ensures
            s.on == self.on,
            s.disabled == d,
    {
        Switch { disabled: d, ..self }
    }
}

impl Default for Switch {
    fn default() -> (s: Switch)
        ensures
            !s.on,
            !s.disabled,
    {
        Switch::new()
    }
}

} // verus!
