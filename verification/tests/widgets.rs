use tezzera::color::Color;
use tezzera::component::element::Element;
use tezzera::widgets::checkbox::CheckState;
use tezzera::widgets::switch::Switch;
use tezzera::widgets::text::Text;
use tezzera::widgets::text_input::display_text;

#[test]
fn text_natural_size_scales_with_content() {
    let short = Text::new("Hi").natural_size();
    let long = Text::new("Hello World").natural_size();
    assert!(long.width > short.width);
}

#[test]
fn text_natural_size_values() {
    let s = Text::new("Hello").natural_size();
    assert_eq!(s.width, 40);
    assert_eq!(s.height, 16);
    assert_eq!(Text::new("é").natural_size().width, 8);
    assert_eq!(Text::new("héllo").natural_size().width, 40);
    assert_eq!(Text::new("Hello World").natural_size().width, 88);
    assert_eq!(Text::new("Hi").natural_size().width, 16);
}

#[test]
fn text_color_and_element() {
    let t = Text::new("x").color(Color::rgb(1, 2, 3));
    assert_eq!(t.current_color(), Color::rgba(1, 2, 3, 255));
    assert_eq!(Text::new("y").current_color(), Color::rgb(0, 0, 0));
    match Element::from(t) {
        Element::Text(e) => assert_eq!(e.content, "x"),
        _ => panic!("expected a text element"),
    }
}

#[test]
fn switch_default_is_off() {
    let sw = Switch::new();
    assert!(!sw.on);
}

#[test]
fn switch_on_changes_state() {
    let sw = Switch::new().on(true);
    assert!(sw.on);
}

#[test]
fn switch_off_after_on() {
    let sw = Switch::new().on(true).on(false);
    assert!(!sw.on);
}

#[test]
fn switch_disabled_setter() {
    let sw = Switch::new().disabled(true);
    assert!(sw.disabled);
}

#[test]
fn switch_default_not_disabled() {
    let sw = Switch::default();
    assert!(!sw.disabled);
}

#[test]
fn check_state_equality() {
    assert_eq!(CheckState::Checked, CheckState::Checked);
    assert_ne!(CheckState::Checked, CheckState::Indeterminate);
}

#[test]
fn display_text_obscure_shows_bullets() {
    let (display, color) = display_text("abc", "Type here\u{2026}", true);
    assert_eq!(display, "\u{2022}\u{2022}\u{2022}");
    assert!(!display.contains('a'));
    assert_eq!(color, Color::rgb(240, 242, 255));
}

#[test]
fn display_text_shows_value_or_placeholder() {
    let (display, _) = display_text("hello", "p", false);
    assert_eq!(display, "hello");
    let (display, color) = display_text("", "Enter name", true);
    assert_eq!(display, "Enter name");
    assert_eq!(color, Color::rgba(140, 145, 175, 160));
    let (display, _) = display_text("né", "p", true);
    assert_eq!(display, "\u{2022}\u{2022}");
}

#[test]
fn text_input_obscure_shows_bullets() {
    // value "abc", obscured, default placeholder
    let (display, _) = display_text("abc", "Type here\u{2026}", true);
    assert_eq!(display, "\u{2022}\u{2022}\u{2022}");
    assert!(!display.contains('a'));
}

#[test]
fn text_input_no_obscure_shows_value() {
    let (display, _) = display_text("hello", "Type here\u{2026}", false);
    assert_eq!(display, "hello");
}

#[test]
fn text_input_empty_shows_placeholder() {
    // empty value, placeholder "Enter name", not obscured
    let (display, _) = display_text("", "Enter name", false);
    assert_eq!(display, "Enter name");
}
