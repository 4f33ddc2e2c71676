use vstd::prelude::*;
use vstd::string::*;
use crate::color::Color;
use crate::textfmt::push_char;

verus! {

broadcast use vstd::string::group_string_axioms;

/// The text a single-line input shows and its color: the placeholder in a
/// muted color when the value is empty, otherwise the value, or one bullet
/// per character of it when the input is obscured, in the text color.
pub open spec fn shown_text(value: Seq<char>, placeholder: Seq<char>, obscure: bool) -> (Seq<char>, Color) {
    if value.len() == 0 {
        (placeholder, Color { r: 140, g: 145, b: 175, a: 160 })
    } else if obscure {
        (Seq::new(value.len(), |i: int| '\u{2022}'), Color { r: 240, g: 242, b: 255, a: 255 })
    } else {
        (value, Color { r: 240, g: 242, b: 255, a: 255 })
    }
}

/// The string a text input displays (after obscuring) and its color.
pub fn display_text(value: &str, placeholder: &str, obscure: bool) -> (r: (String, Color))
    ensures
        r.0@ == shown_text(value@, placeholder@, obscure).0,
        r.1 == shown_text(value@, placeholder@, obscure).1,
{
    if value.is_empty() {
        (placeholder.to_owned(), Color::rgba(140, 145, 175, 160))
    } else if obscure {
        let n = value.unicode_len();
        let mut s = String::new();
        let mut i: usize = 0;
        while i < n
            invariant
                i <= n,
                s@ == Seq::new(i as nat, |k: int| '\u{2022}'),
            decreases n - i,
        {
            push_char(&mut s, '\u{2022}');
            proof {
                assert(Seq::new((i + 1) as nat, |k: int| '\u{2022}') =~= Seq::new(i as nat, |k: int| '\u{2022}').push('\u{2022}'));
            }
            i = i + 1;
        }
        (s, Color::rgb(240, 242, 255))
    } else {
        (value.to_owned(), Color::rgb(240, 242, 255))
    }
}

} // verus!
