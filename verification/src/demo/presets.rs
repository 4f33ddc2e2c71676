use vstd::prelude::*;
use crate::color::Color;

verus! {

/// The spring presets of the animated counter example.
#[derive(Debug, Clone, Copy, PartialEq, Eq, Structural)]
pub enum SpringPreset {
    Gentle,
    Bouncy,
    Stiff,
    Slow,
}

/// The display name of a preset.
pub open spec fn preset_label(p: SpringPreset) -> Seq<char> {
    match p {
        SpringPreset::Gentle => "Gentle"@,
        SpringPreset::Bouncy => "Bouncy"@,
        SpringPreset::Stiff => "Stiff"@,
        SpringPreset::Slow => "Slow"@,
    }
}

impl SpringPreset {
    /// The display name of this preset.
    pub fn label(self) -> (s: &'static str)
        ensures
            s@ == preset_label(self),
    {
        match self {
            SpringPreset::Gentle => "Gentle",
            SpringPreset::Bouncy => "Bouncy",
            SpringPreset::Stiff => "Stiff",
            SpringPreset::Slow => "Slow",
        }
    }
}

/// A channel shifted by `shift` and clamped to 0–255.
pub open spec fn shifted_channel(c: u8, shift: i16) -> u8 {
    let v = c as int + shift as int;
    if v < 0 { 0 } else if v > 255 { 255 } else { v as u8 }
}

fn shift_channel(c: u8, shift: i16) -> (r: u8)
    requires
        c as int + shift as int <= i16::MAX,
    ensures
        r == shifted_channel(c, shift),
{
    let v: i16 = c as i16 + shift;
    if v < 0 {
        0
    } else if v > 255 {
        255
    } else {
        v as u8
    }
}

/// The color of a button: the base color with every channel shifted by
/// `hover_shift` (clamped to 0–255) while hovered, the base color otherwise.
pub fn btn_color(is_hov: bool, base: Color, hover_shift: i16) -> (c: Color)
    requires
        is_hov ==> base.r as int + hover_shift as int <= i16::MAX,
        is_hov ==> base.g as int + hover_shift as int <= i16::MAX,
        is_hov ==> base.b as int + hover_shift as int <= i16::MAX,
    ensures
        is_hov ==> c == (Color {
            r: shifted_channel(base.r, hover_shift),
            g: shifted_channel(base.g, hover_shift),
            b: shifted_channel(base.b, hover_shift),
            a: 255,
        }),
        !is_hov ==> c == base,
{
    if is_hov {
        Color::rgb(
            shift_channel(base.r, hover_shift),
            shift_channel(base.g, hover_shift),
            shift_channel(base.b, hover_shift),
        )
    } else {
        base
    }
}

} // verus!
