use vstd::prelude::*;
use vstd::string::*;

verus! {

broadcast use vstd::string::group_string_axioms;

/// A mouse button.
#[derive(Debug, Clone, Copy, PartialEq, Eq, Structural)]
pub enum MouseButton {
    Left,
    Right,
    Middle,
}

/// A keyboard key.
#[derive(Debug, Clone, Copy, PartialEq, Eq, Structural)]
pub enum Key {
    Enter,
    Escape,
    Space,
    Backspace,
    Tab,
    ArrowUp,
    ArrowDown,
    ArrowLeft,
    ArrowRight,
    Char(char),
}

/// What the application hears of the keyboard.
#[derive(Debug, Clone, Copy, PartialEq, Eq, Structural)]
pub enum KeyboardEvent {
    KeyDown { key: Key },
    KeyUp { key: Key },
    Text { character: char },
}

/// The key a physical key stands for: its name when it has one, else the
/// first character it typed; none when it has no name and typed nothing.
pub open spec fn key_for(named: Option<Key>, text: Option<Seq<char>>) -> Option<Key> {
    match named {
        Some(k) => Some(k),
        None => match text {
            Some(t) => if t.len() > 0 { Some(Key::Char(t[0])) } else { None },
            None => None,
        },
    }
}

/// One `Text` event per character of `t`.
pub open spec fn text_events(t: Seq<char>) -> Seq<KeyboardEvent>
    decreases t.len(),
{
    if t.len() == 0 {
        Seq::empty()
    } else {
        text_events(t.drop_last()).push(KeyboardEvent::Text { character: t.last() })
    }
}

/// The events of one key press (`pressed`) or release: `KeyDown` or `KeyUp`
/// for the key, then, on a press, the characters it typed; nothing for a key
/// that stands for none.
pub open spec fn key_input_events(named: Option<Key>, text: Option<Seq<char>>, pressed: bool) -> Seq<KeyboardEvent> {
    match key_for(named, text) {
        None => Seq::empty(),
        Some(k) => {
            let first = if pressed { KeyboardEvent::KeyDown { key: k } } else { KeyboardEvent::KeyUp { key: k } };
            match text {
                Some(t) => if pressed { seq![first] + text_events(t) } else { seq![first] },
                None => seq![first],
            }
        },
    }
}

/// The view of an optional string.
pub open spec fn opt_text(text: Option<&str>) -> Option<Seq<char>> {
    match text {
        Some(t) => Some(t@),
        None => None,
    }
}

/// Translates one physical key press or release into the application's
/// keyboard events; `named` is the key's name, if it has one, and `text`
/// what the key typed.
pub fn keyboard_events(named: Option<Key>, text: Option<&str>, pressed: bool) -> (events: Vec<KeyboardEvent>)
    ensures
        events@ == key_input_events(named, opt_text(text), pressed),
{
    let key = match named {
        Some(k) => k,
        None => match text {
            Some(t) => {
                if t.unicode_len() > 0 {
                    Key::Char(t.get_char(0))
                } else {
                    return Vec::new();
                }
            },
            None => {
                return Vec::new();
            },
        },
    };
    let mut events: Vec<KeyboardEvent> = Vec::new();
    if pressed {
        events.push(KeyboardEvent::KeyDown { key });
    } else {
        events.push(KeyboardEvent::KeyUp { key });
    }
    if pressed {
        if let Some(t) = text {
            let n = t.unicode_len();
            let mut i: usize = 0;
            assert(t@.take(0).len() == 0);
            assert(events@ =~= seq![KeyboardEvent::KeyDown { key }] + text_events(t@.take(0)));
            while i < n
                invariant
                    n == t@.len(),
                    i <= n,
                    events@ == seq![KeyboardEvent::KeyDown { key }] + text_events(t@.take(i as int)),
                decreases n - i,
            {
                let c = t.get_char(i);
                events.push(KeyboardEvent::Text { character: c });
                proof {
                    let prev = t@.take(i as int);
                    let next = t@.take(i as int + 1);
                    assert(next.drop_last() =~= prev);
                }
                i = i + 1;
                assert(events@ =~= seq![KeyboardEvent::KeyDown { key }] + text_events(t@.take(i as int)));
            }
            assert(t@.take(n as int) =~= t@);
        }
    }
    events
}

} // verus!
