use tezzera::cli::new::{cargo_toml, main_rs, main_rs_for_title, NewOptions};

#[test]
fn new_opts_parses_name() {
    let args = vec!["my_app".to_string()];
    let opts = NewOptions::from_args(&args).unwrap();
    assert_eq!(opts.name, "my_app");
}

#[test]
fn new_opts_errors_on_missing_name() {
    assert!(NewOptions::from_args(&[]).is_err());
}

#[test]
fn new_opts_rejects_invalid_chars() {
    let args = vec!["my app!".to_string()];
    assert!(NewOptions::from_args(&args).is_err());
}

#[test]
fn cargo_toml_contains_name() {
    let toml = cargo_toml("hello_world");
    assert!(toml.contains("hello_world"));
    assert!(toml.contains("tezzera-platform"));
}

#[test]
fn main_rs_contains_title() {
    let src = main_rs("my_app");
    assert!(src.contains("MY_APP"));
    assert!(src.contains("use_atom"));
}

#[test]
fn new_opts_error_messages() {
    match NewOptions::from_args(&[]) {
        Err(e) => assert_eq!(e, "usage: tzr new <name>"),
        Ok(_) => panic!("expected an error"),
    }
    match NewOptions::from_args(&["a b".to_string()]) {
        Err(e) => assert_eq!(e, "invalid project name 'a b': use letters, numbers, - or _"),
        Ok(_) => panic!("expected an error"),
    }
}

#[test]
fn new_opts_accepts_hyphen_digits_and_unicode_letters() {
    let opts = NewOptions::from_args(&["app-2_x".to_string(), "ignored".to_string()]).unwrap();
    assert_eq!(opts.name, "app-2_x");
    assert!(NewOptions::from_args(&["café".to_string()]).is_ok());
}

#[test]
fn cargo_toml_starts_with_package_header() {
    let toml = cargo_toml("demo");
    assert!(toml.starts_with("[package]\nname = \"demo\"\n"));
    assert!(toml.contains("[[bin]]\nname = \"demo\"\npath = \"src/main.rs\"\n"));
    assert!(toml.ends_with("tezzera-animate  = { git = \"https://github.com/tezzera-ui/tezzera\" }\n"));
}

#[test]
fn main_rs_centres_title_by_its_length() {
    let src = main_rs("ab");
    assert!(src.contains(".title(\"AB — TEZZERA\")"));
    assert!(src.contains("W as f32 / 2.0 - 2.0 * 9.0 / 2.0"));
    assert!(src.contains("format!(\"{}\", count.get())"));
}

#[test]
fn main_rs_for_title_centres_by_byte_length() {
    let src = main_rs_for_title("ÉTÉ");
    assert!(src.contains(".title(\"ÉTÉ — TEZZERA\")"));
    assert!(src.contains("W as f32 / 2.0 - 5.0 * 9.0 / 2.0"));
    assert_eq!(main_rs("été"), src);
    assert!(main_rs_for_title("X").contains("- 1.0 * 9.0 / 2.0"));
}
