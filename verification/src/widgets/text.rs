use vstd::prelude::*;
use vstd::string::*;
use crate::color::Color;
use crate::component::element::{Element, TextElement};

verus! {

/// A size in whole logical pixels.
#[derive(Debug, Clone, Copy, PartialEq, Eq, Structural)]
pub struct TextSize {
    pub width: u64,
    pub height: u64,
}

/// A widget that displays a string of text, approximated as 8 px per
/// character and 16 px tall.
pub struct Text {
    content: String,
    color: Color,
}

impl View for Text {
    type V = (Seq<char>, Color);

    closed spec fn view(&self) -> (Seq<char>, Color) {
        (self.content@, self.color)
    }
}

impl Text {
    /// A text widget with the given content, drawn in black.
    pub fn new(content: &str) -> (t: Text)
        ensures
            t@.0 == content@,
            t@.1 == (Color { r: 0, g: 0, b: 0, a: 255 }),
    {
        Text { content: content.to_owned(), color: Color::rgb(0, 0, 0) }
    }

    /// Sets the color of the text.
    pub fn color(self, c: Color) -> (t: Text)
        ensures
            t@.0 == self@.0,
            t@.1 == c,
    {
        Text { color: c, ..self }
    }

    /// The natural size: 8 px per character of content wide, 16 px tall.
    pub fn natural_size(&self) -> (s: TextSize)
        requires
            self@.0.len() * 8 <= u64::MAX,
        ensures
            s.width == self@.0.len() * 8,
            s.height == 16,
    {
        let n = self.content.as_str().unicode_len();
        TextSize { width: (n as u64) * 8, height: 16 }
    }

    /// The content of the text.
    pub fn content(&self) -> (s: &str)
        ensures
            s@ == self@.0,
    {
        self.content.as_str()
    }

    /// The color the text is drawn in.
    pub fn current_color(&self) -> (c: Color)
        ensures
            c == self@.1,
    {
        self.color
    }
}

impl From<Text> for Element {
    fn from(t: Text) -> (e: Element)
    {
        Element::Text(TextElement { content: t.content })
    }
}

impl vstd::std_specs::convert::FromSpecImpl<Text> for Element {
    open spec fn obeys_from_spec() -> bool {
        true
    }

    /// A text widget becomes a text leaf with its content.
    open spec fn from_spec(t: Text) -> Element {
        text_leaf(t)
    }
}

/// The text leaf element that carries a text widget's content.
pub closed spec fn text_leaf(t: Text) -> Element {
    Element::Text(TextElement { content: t.content })
}

/// The leaf made from a text widget holds exactly the widget's content.
pub proof fn lemma_text_leaf(t: Text)
    ensures
        text_leaf(t) matches Element::Text(x) && x.content@ == t@.0,
{
}

} // verus!
