use vstd::prelude::*;
use vstd::string::*;
use crate::a11y::role::{Role, aria_role_of, aria_level_of};
use crate::textfmt::{dec_digits, write_decimal, push_char};

verus! {

broadcast use vstd::string::group_string_axioms;

/// A single accessibility node in the tree.
///
/// The numeric range of a range input (slider, progress bar) is held as the
/// decimal text of its current value, minimum and maximum, which is what the
/// node's JSON output carries.
#[derive(Debug, Clone)]
pub struct A11yNode {
    /// Unique ID within the tree (assigned by `A11yTree::add`).
    pub id: u64,
    pub role: Role,
    /// Short accessible label (e.g. button text, image alt text).
    pub label: String,
    /// Longer description (optional).
    pub description: Option<String>,
    /// Whether this node can receive keyboard focus.
    pub focusable: bool,
    /// Whether this node currently has focus.
    pub focused: bool,
    /// Whether this node is disabled (not interactive).
    pub disabled: bool,
    /// Current value of a range input, as decimal text.
    pub value: Option<String>,
    /// Minimum of a range input, as decimal text.
    pub value_min: Option<String>,
    /// Maximum of a range input, as decimal text.
    pub value_max: Option<String>,
    /// Checked state for Checkbox/Switch (None = not applicable).
    pub checked: Option<bool>,
    /// Child node IDs.
    pub children: Vec<u64>,
}

/// JSON escaping of one character: backslash, double quote and newline are
/// escaped with a backslash, every other character stands for itself.
pub open spec fn escape_char(c: char) -> Seq<char> {
    if c == '\\' {
        seq!['\\', '\\']
    } else if c == '"' {
        seq!['\\', '"']
    } else if c == '\n' {
        seq!['\\', 'n']
    } else {
        seq![c]
    }
}

/// JSON escaping of a character sequence, character by character.
pub open spec fn escape_seq(s: Seq<char>) -> Seq<char>
    decreases s.len(),
{
    if s.len() == 0 {
        Seq::empty()
    } else {
        escape_seq(s.drop_last()) + escape_char(s.last())
    }
}

/// The JSON text of a boolean.
pub open spec fn bool_text(b: bool) -> Seq<char> {
    if b { "true"@ } else { "false"@ }
}

/// The optional `"description"` member of a node's JSON object.
pub open spec fn desc_part(d: Option<String>) -> Seq<char> {
    match d {
        Some(t) => ",\"description\":\""@ + escape_seq(t@) + "\""@,
        None => Seq::empty(),
    }
}

/// The optional range members of a node's JSON object: present when a current
/// value is set, with a minimum of 0 and a maximum of 1 when those are unset.
pub open spec fn value_part(v: Option<String>, lo: Option<String>, hi: Option<String>) -> Seq<char> {
    match v {
        Some(now) => ",\"aria-valuenow\":"@ + now@ + ",\"aria-valuemin\":"@ + (match lo {
            Some(t) => t@,
            None => "0"@,
        }) + ",\"aria-valuemax\":"@ + (match hi {
            Some(t) => t@,
            None => "1"@,
        }),
        None => Seq::empty(),
    }
}

/// The optional `"aria-checked"` member.
pub open spec fn checked_part(c: Option<bool>) -> Seq<char> {
    match c {
        Some(b) => ",\"aria-checked\":"@ + bool_text(b),
        None => Seq::empty(),
    }
}

/// The optional `"aria-level"` member.
pub open spec fn level_part(l: Option<u8>) -> Seq<char> {
    match l {
        Some(v) => ",\"aria-level\":"@ + dec_digits(v as nat),
        None => Seq::empty(),
    }
}

/// The optional `"aria-disabled"` member.
pub open spec fn disabled_part(d: bool) -> Seq<char> {
    if d { ",\"aria-disabled\":true"@ } else { Seq::empty() }
}

/// The JSON object that describes a node.
pub open spec fn node_json(n: A11yNode) -> Seq<char> {
    "{\"id\":"@ + dec_digits(n.id as nat) + ",\"role\":\""@ + aria_role_of(n.role)
        + "\",\"aria-label\":\""@ + escape_seq(n.label@) + "\",\"focusable\":"@
        + bool_text(n.focusable) + desc_part(n.description)
        + value_part(n.value, n.value_min, n.value_max) + checked_part(n.checked)
        + level_part(aria_level_of(n.role)) + disabled_part(n.disabled) + "}"@
}

/// Appends the JSON-escaped form of `s` to `out`.
pub fn write_escaped(out: &mut String, s: &str)
    ensures
        final(out)@ == old(out)@ + escape_seq(s@),
{
    let ghost start = out@;
    let n = s.unicode_len();
    let mut i: usize = 0;
    while i < n
        invariant
            n == s@.len(),
            i <= n,
            out@ == start + escape_seq(s@.take(i as int)),
        decreases n - i,
    {
        let c = s.get_char(i);
        proof {
            assert(s@.take(i + 1).drop_last() =~= s@.take(i as int));
        }
        if c == '\\' {
            push_char(out, '\\');
            push_char(out, '\\');
        } else if c == '"' {
            push_char(out, '\\');
            push_char(out, '"');
        } else if c == '\n' {
            push_char(out, '\\');
            push_char(out, 'n');
        } else {
            push_char(out, c);
        }
        i = i + 1;
    }
    proof {
        assert(s@.take(n as int) =~= s@);
    }
}

/// JSON string escaping: backslashes, double quotes and newlines are escaped.
pub fn escape_json(s: &str) -> (r: String)
    ensures
        r@ == escape_seq(s@),
{
    let mut out = String::new();
    write_escaped(&mut out, s);
    proof { assert(out@ =~= escape_seq(s@)); }
    out
}

fn write_bool(out: &mut String, b: bool)
    ensures
        final(out)@ == old(out)@ + bool_text(b),
{
    if b {
        out.append("true");
    } else {
        out.append("false");
    }
}

impl A11yNode {
    /// A node with the given role and label; every other attribute is unset.
    pub fn new(role: Role, label: &str) -> (n: A11yNode)
        ensures
            n.id == 0,
            n.role == role,
            n.label@ == label@,
            n.description is None,
            !n.focusable,
            !n.focused,
            !n.disabled,
            n.value is None,
            n.value_min is None,
            n.value_max is None,
            n.checked is None,
            n.children@.len() == 0,
    {
        A11yNode {
            id: 0,
            role,
            label: label.to_owned(),
            description: None,
            focusable: false,
            focused: false,
            disabled: false,
            value: None,
            value_min: None,
            value_max: None,
            checked: None,
            children: Vec::new(),
        }
    }

    /// Sets whether the node can receive keyboard focus.
    pub fn focusable(self, f: bool) -> (n: A11yNode)
        ensures
            n == (A11yNode { focusable: f, ..self }),
    {
        A11yNode { focusable: f, ..self }
    }

    /// Sets whether the node is disabled.
    pub fn disabled(self, d: bool) -> (n: A11yNode)
        ensures
            n == (A11yNode { disabled: d, ..self }),
    {
        A11yNode { disabled: d, ..self }
    }

    /// Sets the longer description.
    pub fn description(self, d: &str) -> (n: A11yNode)
        ensures
            n.description is Some,
            n.description.unwrap()@ == d@,
            n == (A11yNode { description: n.description, ..self }),
    {
        A11yNode { description: Some(d.to_owned()), ..self }
    }

    /// Sets the range of a range input: current value, minimum and maximum,
    /// each given as its decimal text.
    pub fn value(self, now: &str, min: &str, max: &str) -> (n: A11yNode)
        ensures
            n.value is Some && n.value.unwrap()@ == now@,
            n.value_min is Some && n.value_min.unwrap()@ == min@,
            n.value_max is Some && n.value_max.unwrap()@ == max@,
            n == (A11yNode { value: n.value, value_min: n.value_min, value_max: n.value_max, ..self }),
    {
        A11yNode {
            value: Some(now.to_owned()),
            value_min: Some(min.to_owned()),
            value_max: Some(max.to_owned()),
            ..self
        }
    }

    /// Sets the checked state.
    pub fn checked(self, c: bool) -> (n: A11yNode)
        ensures
            n == (A11yNode { checked: Some(c), ..self }),
    {
        A11yNode { checked: Some(c), ..self }
    }

    /// Appends a child node ID.
    pub fn child(self, id: u64) -> (n: A11yNode)
        ensures
            n.children@ == self.children@.push(id),
            n == (A11yNode { children: n.children, ..self }),
    {
        let mut n = self;
        n.children.push(id);
        n
    }

    /// This node as a JSON object.
    pub fn to_json(&self) -> (s: String)
        ensures
            s@ == node_json(*self),
    {
        let mut out = String::new();
        self.write_head(&mut out);
        write_desc_part(&mut out, &self.description);
        write_value_part(&mut out, &self.value, &self.value_min, &self.value_max);
        write_checked_part(&mut out, self.checked);
        write_level_part(&mut out, self.role.aria_level());
        if self.disabled {
            out.append(",\"aria-disabled\":true");
        }
        out.append("}");
        assert(out@ =~= node_json(*self));
        out
    }

    fn write_head(&self, out: &mut String)
        ensures
            final(out)@ == old(out)@ + ("{\"id\":"@ + dec_digits(self.id as nat) + ",\"role\":\""@
                + aria_role_of(self.role) + "\",\"aria-label\":\""@ + escape_seq(self.label@)
                + "\",\"focusable\":"@ + bool_text(self.focusable)),
    {
        let ghost start = out@;
        out.append("{\"id\":");
        write_decimal(out, self.id);
        out.append(",\"role\":\"");
        out.append(self.role.aria_role());
        out.append("\",\"aria-label\":\"");
        write_escaped(out, self.label.as_str());
        out.append("\",\"focusable\":");
        write_bool(out, self.focusable);
        assert(out@ =~= start + ("{\"id\":"@ + dec_digits(self.id as nat) + ",\"role\":\""@
                + aria_role_of(self.role) + "\",\"aria-label\":\""@ + escape_seq(self.label@)
                + "\",\"focusable\":"@ + bool_text(self.focusable)));
    }
}

fn write_desc_part(out: &mut String, d: &Option<String>)
    ensures
        final(out)@ == old(out)@ + desc_part(*d),
{
    let ghost start = out@;
    match d {
        Some(t) => {
            out.append(",\"description\":\"");
            write_escaped(out, t.as_str());
            out.append("\"");
        },
        None => {},
    }
    assert(out@ =~= start + desc_part(*d));
}

fn write_value_part(out: &mut String, v: &Option<String>, lo: &Option<String>, hi: &Option<String>)
    ensures
        final(out)@ == old(out)@ + value_part(*v, *lo, *hi),
{
    let ghost start = out@;
    match v {
        Some(now) => {
            out.append(",\"aria-valuenow\":");
            out.append(now.as_str());
            out.append(",\"aria-valuemin\":");
            match lo {
                Some(t) => out.append(t.as_str()),
                None => out.append("0"),
            }
            out.append(",\"aria-valuemax\":");
            match hi {
                Some(t) => out.append(t.as_str()),
                None => out.append("1"),
            }
        },
        None => {},
    }
    assert(out@ =~= start + value_part(*v, *lo, *hi));
}

fn write_checked_part(out: &mut String, c: Option<bool>)
    ensures
        final(out)@ == old(out)@ + checked_part(c),
{
    let ghost start = out@;
    match c {
        Some(b) => {
            out.append(",\"aria-checked\":");
            write_bool(out, b);
        },
        None => {},
    }
    assert(out@ =~= start + checked_part(c));
}

fn write_level_part(out: &mut String, l: Option<u8>)
    ensures
        final(out)@ == old(out)@ + level_part(l),
{
    let ghost start = out@;
    match l {
        Some(v) => {
            out.append(",\"aria-level\":");
            write_decimal(out, v as u64);
        },
        None => {},
    }
    assert(out@ =~= start + level_part(l));
}

/// The JSON object of a node whose checked state is `b` carries the member
/// `"aria-checked"` with the value `b` itself: `true` when checked, `false`
/// when unchecked.
pub proof fn law_checked_member(n: A11yNode, b: bool)
    requires
        n.checked == Some(b),
    ensures
        b ==> exists|i: int|
            0 <= i && i + 20 <= node_json(n).len() && #[trigger] node_json(n).subrange(i, i + 20)
                == ",\"aria-checked\":true"@,
        !b ==> exists|i: int|
            0 <= i && i + 21 <= node_json(n).len() && #[trigger] node_json(n).subrange(i, i + 21)
                == ",\"aria-checked\":false"@,
{
    reveal_strlit(",\"aria-checked\":true");
    reveal_strlit(",\"aria-checked\":false");
    reveal_strlit(",\"aria-checked\":");
    reveal_strlit("true");
    reveal_strlit("false");
    let head = "{\"id\":"@ + dec_digits(n.id as nat) + ",\"role\":\""@ + aria_role_of(n.role)
        + "\",\"aria-label\":\""@ + escape_seq(n.label@) + "\",\"focusable\":"@
        + bool_text(n.focusable) + desc_part(n.description)
        + value_part(n.value, n.value_min, n.value_max);
    let part = checked_part(n.checked);
    let tail = level_part(aria_level_of(n.role)) + disabled_part(n.disabled) + "}"@;
    assert(node_json(n) =~= head + part + tail);
    let i = head.len() as int;
    if b {
        assert(part =~= ",\"aria-checked\":true"@);
        assert(node_json(n).subrange(i, i + 20) =~= ",\"aria-checked\":true"@);
    } else {
        assert(part =~= ",\"aria-checked\":false"@);
        assert(node_json(n).subrange(i, i + 21) =~= ",\"aria-checked\":false"@);
    }
}

/// The JSON object of a node carries the member `"focusable"` with the
/// node's own focusable flag, and, when the node is disabled, the member
/// `"aria-disabled":true`.
pub proof fn law_flag_members(n: A11yNode)
    ensures
        n.focusable ==> exists|i: int|
            0 <= i && i + 17 <= node_json(n).len() && #[trigger] node_json(n).subrange(i, i + 17)
                == ",\"focusable\":true"@,
        !n.focusable ==> exists|i: int|
            0 <= i && i + 18 <= node_json(n).len() && #[trigger] node_json(n).subrange(i, i + 18)
                == ",\"focusable\":false"@,
        n.disabled ==> exists|i: int|
            0 <= i && i + 21 <= node_json(n).len() && #[trigger] node_json(n).subrange(i, i + 21)
                == ",\"aria-disabled\":true"@,
{
    reveal_strlit(",\"focusable\":true");
    reveal_strlit(",\"focusable\":false");
    reveal_strlit(",\"aria-disabled\":true");
    reveal_strlit("\",\"focusable\":");
    reveal_strlit("true");
    reveal_strlit("false");
    let a = "{\"id\":"@ + dec_digits(n.id as nat) + ",\"role\":\""@ + aria_role_of(n.role)
        + "\",\"aria-label\":\""@ + escape_seq(n.label@);
    let f = "\",\"focusable\":"@ + bool_text(n.focusable);
    let b = desc_part(n.description) + value_part(n.value, n.value_min, n.value_max)
        + checked_part(n.checked) + level_part(aria_level_of(n.role));
    let d = disabled_part(n.disabled);
    assert(node_json(n) =~= a + f + b + d + "}"@);
    let i = a.len() as int + 1;
    if n.focusable {
        assert(node_json(n).subrange(i, i + 17) =~= ",\"focusable\":true"@);
    } else {
        assert(node_json(n).subrange(i, i + 18) =~= ",\"focusable\":false"@);
    }
    if n.disabled {
        let j = (a + f + b).len() as int;
        assert(node_json(n).subrange(j, j + 21) =~= ",\"aria-disabled\":true"@);
    }
}

} // verus!
