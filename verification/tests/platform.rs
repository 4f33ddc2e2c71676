use tezzera::color::Color;
use tezzera::demo::command::CommandResult;
use tezzera::demo::presets::{btn_color, SpringPreset};
use tezzera::platform::app::{pack_rgb, TezzeraApp};
use tezzera::platform::event::{keyboard_events, Key, KeyboardEvent, MouseButton};

#[test]
fn app_config_defaults_and_builders() {
    let c = TezzeraApp::new().into_config();
    assert_eq!(c.title, "Tezzera");
    assert_eq!((c.width, c.height), (800, 600));
    let c = TezzeraApp::default().title("Demo").size(320, 200).into_config();
    assert_eq!(c.title, "Demo");
    assert_eq!((c.width, c.height), (320, 200));
}

#[test]
fn pack_rgb_drops_alpha() {
    let rgba = [0x12, 0x34, 0x56, 0xff, 0xff, 0x00, 0x01, 0x00, 9, 9, 9];
    assert_eq!(pack_rgb(&rgba, 2), vec![0x0012_3456, 0x00ff_0001]);
    assert!(pack_rgb(&rgba, 0).is_empty());
}

#[test]
fn event_kinds_compare() {
    assert_eq!(Key::Char('a'), Key::Char('a'));
    assert_ne!(Key::Char('a'), Key::Enter);
    assert_ne!(MouseButton::Left, MouseButton::Right);
}

#[test]
fn spring_preset_labels() {
    assert_eq!(SpringPreset::Gentle.label(), "Gentle");
    assert_eq!(SpringPreset::Bouncy.label(), "Bouncy");
    assert_eq!(SpringPreset::Stiff.label(), "Stiff");
    assert_eq!(SpringPreset::Slow.label(), "Slow");
}

#[test]
fn btn_color_shifts_and_clamps_when_hovered() {
    let base = Color::rgba(10, 250, 128, 40);
    assert_eq!(btn_color(false, base, 20), base);
    assert_eq!(btn_color(true, base, 20), Color::rgb(30, 255, 148));
    assert_eq!(btn_color(true, base, -20), Color::rgb(0, 230, 108));
}

#[test]
fn command_summary_success_and_failure() {
    let ok = CommandResult::mock("tzr check", 0, 412);
    assert!(ok.success);
    assert_eq!(ok.summary(), "tzr check \u{2713} 412ms");
    let bad = CommandResult::mock("tzr test", -3, 5);
    assert!(!bad.success);
    assert_eq!(bad.summary(), "tzr test \u{2717} exit -3");
    let min = CommandResult::mock("x", i32::MIN, 0);
    assert_eq!(min.summary(), "x \u{2717} exit -2147483648");
}

#[test]
fn named_key_press_and_release() {
    assert_eq!(keyboard_events(Some(Key::Enter), None, true), vec![KeyboardEvent::KeyDown { key: Key::Enter }]);
    assert_eq!(keyboard_events(Some(Key::Tab), Some("\t"), false), vec![KeyboardEvent::KeyUp { key: Key::Tab }]);
}

#[test]
fn typed_key_press_reports_key_and_text() {
    assert_eq!(
        keyboard_events(None, Some("é!"), true),
        vec![
            KeyboardEvent::KeyDown { key: Key::Char('é') },
            KeyboardEvent::Text { character: 'é' },
            KeyboardEvent::Text { character: '!' },
        ]
    );
    assert_eq!(
        keyboard_events(Some(Key::Space), Some(" "), true),
        vec![KeyboardEvent::KeyDown { key: Key::Space }, KeyboardEvent::Text { character: ' ' }]
    );
    assert_eq!(keyboard_events(None, Some("a"), false), vec![KeyboardEvent::KeyUp { key: Key::Char('a') }]);
}

#[test]
fn unnamed_key_without_text_gives_nothing() {
    assert!(keyboard_events(None, None, true).is_empty());
    assert!(keyboard_events(None, Some(""), true).is_empty());
}
