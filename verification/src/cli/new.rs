use vstd::prelude::*;
use vstd::string::*;
use crate::textfmt::{dec_digits};

verus! {

broadcast use vstd::string::group_string_axioms;

/// Options of the `tzr new` command.
pub struct NewOptions {
    pub name: String,
}

/// Whether `c` is alphabetic or numeric (`char::is_alphanumeric`).
pub uninterp spec fn is_alphanumeric_char(c: char) -> bool;

/// The upper-case mapping of a string (`str::to_uppercase`).
pub uninterp spec fn uppercase_text(s: Seq<char>) -> Seq<char>;

/// `char::is_alphanumeric`: the result is the named property of `c`; the
/// Unicode classification itself is not restated here.
#[verifier::external_body]
fn char_is_alphanumeric(c: char) -> (b: bool)
    ensures
        b == is_alphanumeric_char(c),
{
    c.is_alphanumeric()
}

/// `str::to_uppercase`: the result is the named upper-case mapping of `s`;
/// the Unicode case tables themselves are not restated here.
#[verifier::external_body]
fn to_uppercase(s: &str) -> (r: String)
    ensures
        r@ == uppercase_text(s@),
{
    s.to_uppercase()
}

/// A character allowed in a project name, given whether it is alphanumeric:
/// alphanumeric characters, `_` and `-`.
pub open spec fn name_char_ok(c: char, alphanumeric: bool) -> bool {
    alphanumeric || c == '_' || c == '-'
}

/// A valid project name: every character is alphanumeric, `_` or `-`.
pub open spec fn valid_project_name(s: Seq<char>) -> bool {
    forall|i: int| 0 <= i < s.len() ==> name_char_ok(#[trigger] s[i], is_alphanumeric_char(s[i]))
}

/// Whether a character is allowed in a project name, given whether it is
/// alphanumeric.
pub fn name_char_allowed(c: char, alphanumeric: bool) -> (b: bool)
    ensures
        b == name_char_ok(c, alphanumeric),
{
    alphanumeric || c == '_' || c == '-'
}

/// The message for a missing project name.
pub open spec fn usage_message() -> Seq<char> {
    "usage: tzr new <name>"@
}

/// The message for a project name with characters that are not allowed.
pub open spec fn invalid_name_message(name: Seq<char>) -> Seq<char> {
    "invalid project name '"@ + name + "': use letters, numbers, - or _"@
}

impl NewOptions {
    /// Parses the arguments of `tzr new`: the first argument is the project
    /// name, which may hold only alphanumeric characters, `_` and `-`.
    pub fn from_args(args: &[String]) -> (r: Result<NewOptions, String>)
        ensures
            args@.len() == 0 ==> (r matches Err(e) && e@ == usage_message()),
            args@.len() > 0 && !valid_project_name(args@[0]@) ==> (r matches Err(e) && e@ == invalid_name_message(args@[0]@)),
            args@.len() > 0 && valid_project_name(args@[0]@) ==> (r matches Ok(o) && o.name@ == args@[0]@),
    {
        if args.len() == 0 {
            return Err(String::from_str("usage: tzr new <name>"));
        }
        let name = args[0].clone();
        let n = name.as_str().unicode_len();
        let mut i: usize = 0;
        while i < n
            invariant
                n == name@.len(),
                args@.len() > 0,
                name@ == args@[0]@,
                i <= n,
                forall|k: int| 0 <= k < i ==> name_char_ok(#[trigger] name@[k], is_alphanumeric_char(name@[k])),
            decreases n - i,
        {
            let c = name.as_str().get_char(i);
            if !name_char_allowed(c, char_is_alphanumeric(c)) {
                let mut msg = String::from_str("invalid project name '");
                msg.append(name.as_str());
                msg.append("': use letters, numbers, - or _");
                return Err(msg);
            }
            i = i + 1;
        }
        Ok(NewOptions { name })
    }
}

/// The manifest of a new project named `name`.
pub open spec fn cargo_toml_text(name: Seq<char>) -> Seq<char> {
    "[package]\nname = \""@ + name + "\"\nversion = \"0.1.0\"\nedition = \"2021\"\n\n[[bin]]\nname = \""@ + name + "\"\npath = \"src/main.rs\"\n\n[dependencies]\ntezzera-core     = { git = \"https://github.com/tezzera-ui/tezzera\" }\ntezzera-layout   = { git = \"https://github.com/tezzera-ui/tezzera\" }\ntezzera-render   = { git = \"https://github.com/tezzera-ui/tezzera\" }\ntezzera-state    = { git = \"https://github.com/tezzera-ui/tezzera\" }\ntezzera-platform = { git = \"https://github.com/tezzera-ui/tezzera\" }\ntezzera-theme    = { git = \"https://github.com/tezzera-ui/tezzera\" }\ntezzera-widgets  = { git = \"https://github.com/tezzera-ui/tezzera\" }\ntezzera-animate  = { git = \"https://github.com/tezzera-ui/tezzera\" }\n"@
}

/// The `Cargo.toml` of a new project named `name`.
pub fn cargo_toml(name: &str) -> (s: String)
    ensures
        s@ == cargo_toml_text(name@),
{
    let mut out = String::from_str("[package]\nname = \"");
    out.append(name);
    out.append("\"\nversion = \"0.1.0\"\nedition = \"2021\"\n\n[[bin]]\nname = \"");
    out.append(name);
    out.append("\"\npath = \"src/main.rs\"\n\n[dependencies]\ntezzera-core     = { git = \"https://github.com/tezzera-ui/tezzera\" }\ntezzera-layout   = { git = \"https://github.com/tezzera-ui/tezzera\" }\ntezzera-render   = { git = \"https://github.com/tezzera-ui/tezzera\" }\ntezzera-state    = { git = \"https://github.com/tezzera-ui/tezzera\" }\ntezzera-platform = { git = \"https://github.com/tezzera-ui/tezzera\" }\ntezzera-theme    = { git = \"https://github.com/tezzera-ui/tezzera\" }\ntezzera-widgets  = { git = \"https://github.com/tezzera-ui/tezzera\" }\ntezzera-animate  = { git = \"https://github.com/tezzera-ui/tezzera\" }\n");
    out
}

/// The `src/main.rs` of a new project whose upper-cased name is `title`:
/// the title is shown at the top of the window, centred by its byte length.
pub open spec fn main_rs_text(title: Seq<char>, title_len: nat) -> Seq<char> {
    "use tezzera_core::types::{Point, Rect, Size};\nuse tezzera_platform::{InputEvent, MouseButton, TezzeraApp};\nuse tezzera_render::{Color, FontCache, SkiaCanvas};\nuse tezzera_state::use_atom;\n\nconst W: u32 = 480;\nconst H: u32 = 320;\n\nconst BG:     Color = Color::rgb(18, 18, 28);\nconst ACCENT: Color = Color::rgb(103, 80, 164);\nconst TEXT:   Color = Color::rgb(230, 225, 229);\n\nfn main() {\n    let font = FontCache::system_mono().expect(\"no system font found\");\n    let count = use_atom(0_i32);\n    let mut mx = 0.0_f32;\n    let mut my = 0.0_f32;\n\n    TezzeraApp::new()\n        .title(\""@ + title + " — TEZZERA\")\n        .size(W, H)\n        .run(move |canvas: &mut SkiaCanvas, events: &[InputEvent]| {\n            for ev in events {\n                match ev {\n                    InputEvent::MouseDown { x, y, button: MouseButton::Left } => {\n                        let bx = W as f32 / 2.0 - 60.0;\n                        let by = H as f32 / 2.0 + 20.0;\n                        if *x >= bx && *x <= bx + 120.0 && *y >= by && *y <= by + 40.0 {\n                            count.update(|n| n + 1);\n                        }\n                    }\n                    InputEvent::MouseMove { x, y } => { mx = *x; my = *y; }\n                    _ => {}\n                }\n            }\n\n            canvas.clear(BG);\n\n            canvas.draw_text(\n                \""@ + title + "\",\n                Point { x: W as f32 / 2.0 - "@ + dec_digits(title_len) + ".0 * 9.0 / 2.0, y: 40.0 },\n                TEXT, &font, 18.0,\n            );\n\n            let label = format!(\"{}\", count.get());\n            canvas.draw_text(\n                &label,\n                Point { x: W as f32 / 2.0 - label.len() as f32 * 12.0 / 2.0, y: H as f32 / 2.0 - 20.0 },\n                ACCENT, &font, 36.0,\n            );\n\n            let bx = W as f32 / 2.0 - 60.0;\n            let by = H as f32 / 2.0 + 20.0;\n            let hovered = mx >= bx && mx <= bx + 120.0 && my >= by && my <= by + 40.0;\n            let btn_color = if hovered { Color::rgb(130, 100, 200) } else { ACCENT };\n            canvas.fill_rect(\n                Rect { origin: Point { x: bx, y: by }, size: Size { width: 120.0, height: 40.0 } },\n                btn_color,\n            );\n            canvas.draw_text(\"Click me\", Point { x: bx + 18.0, y: by + 12.0 }, Color::WHITE, &font, 14.0);\n        });\n}\n"@
}

/// The `src/main.rs` of a new project named `name`: the template filled in
/// with the upper-cased name.
pub fn main_rs(name: &str) -> (s: String)
    ensures
        s@ == main_rs_text(uppercase_text(name@), encode_utf8_len(uppercase_text(name@))),
{
    let title = to_uppercase(name);
    main_rs_for_title(title.as_str())
}

/// The `src/main.rs` template filled in with the window title `title`.
pub fn main_rs_for_title(title: &str) -> (s: String)
    ensures
        s@ == main_rs_text(title@, encode_utf8_len(title@)),
{
    let title_len = title.len();
    let mut out = String::from_str("use tezzera_core::types::{Point, Rect, Size};\nuse tezzera_platform::{InputEvent, MouseButton, TezzeraApp};\nuse tezzera_render::{Color, FontCache, SkiaCanvas};\nuse tezzera_state::use_atom;\n\nconst W: u32 = 480;\nconst H: u32 = 320;\n\nconst BG:     Color = Color::rgb(18, 18, 28);\nconst ACCENT: Color = Color::rgb(103, 80, 164);\nconst TEXT:   Color = Color::rgb(230, 225, 229);\n\nfn main() {\n    let font = FontCache::system_mono().expect(\"no system font found\");\n    let count = use_atom(0_i32);\n    let mut mx = 0.0_f32;\n    let mut my = 0.0_f32;\n\n    TezzeraApp::new()\n        .title(\"");
    out.append(title);
    out.append(" — TEZZERA\")\n        .size(W, H)\n        .run(move |canvas: &mut SkiaCanvas, events: &[InputEvent]| {\n            for ev in events {\n                match ev {\n                    InputEvent::MouseDown { x, y, button: MouseButton::Left } => {\n                        let bx = W as f32 / 2.0 - 60.0;\n                        let by = H as f32 / 2.0 + 20.0;\n                        if *x >= bx && *x <= bx + 120.0 && *y >= by && *y <= by + 40.0 {\n                            count.update(|n| n + 1);\n                        }\n                    }\n                    InputEvent::MouseMove { x, y } => { mx = *x; my = *y; }\n                    _ => {}\n                }\n            }\n\n            canvas.clear(BG);\n\n            canvas.draw_text(\n                \"");
    out.append(title);
    out.append("\",\n                Point { x: W as f32 / 2.0 - ");
    crate::textfmt::write_decimal(&mut out, title_len as u64);
    out.append(".0 * 9.0 / 2.0, y: 40.0 },\n                TEXT, &font, 18.0,\n            );\n\n            let label = format!(\"{}\", count.get());\n            canvas.draw_text(\n                &label,\n                Point { x: W as f32 / 2.0 - label.len() as f32 * 12.0 / 2.0, y: H as f32 / 2.0 - 20.0 },\n                ACCENT, &font, 36.0,\n            );\n\n            let bx = W as f32 / 2.0 - 60.0;\n            let by = H as f32 / 2.0 + 20.0;\n            let hovered = mx >= bx && mx <= bx + 120.0 && my >= by && my <= by + 40.0;\n            let btn_color = if hovered { Color::rgb(130, 100, 200) } else { ACCENT };\n            canvas.fill_rect(\n                Rect { origin: Point { x: bx, y: by }, size: Size { width: 120.0, height: 40.0 } },\n                btn_color,\n            );\n            canvas.draw_text(\"Click me\", Point { x: bx + 18.0, y: by + 12.0 }, Color::WHITE, &font, 14.0);\n        });\n}\n");
    out
}

/// The length in bytes of the UTF-8 encoding of a string (as `str::len`
/// reports it).
pub open spec fn encode_utf8_len(s: Seq<char>) -> nat {
    (vstd::utf8::encode_utf8(s).len() as usize) as nat
}

/// A character is allowed in a project name exactly when it is
/// alphanumeric, `_` or `-`: every alphanumeric character is allowed, in
/// either case.
pub proof fn law_name_char_allowed(c: char, alphanumeric: bool)
    ensures
        name_char_ok(c, alphanumeric) <==> (alphanumeric || c == '_' || c == '-'),
        alphanumeric ==> name_char_ok(c, alphanumeric),
{
}

/// A project name is accepted exactly when each of its characters is
/// alphanumeric, `_` or `-`.
pub proof fn law_valid_name_chars(s: Seq<char>)
    ensures
        valid_project_name(s) <==> forall|i: int|
            0 <= i < s.len() ==> #[trigger] is_alphanumeric_char(s[i]) || s[i] == '_' || s[i] == '-',
{
}

} // verus!
