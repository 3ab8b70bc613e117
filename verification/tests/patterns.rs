use colorrs::patterns::{
    make_escape_code, print_pattern, print_toml_pattern, Loaded, Pattern, PatternError,
    PatternErrorType, PatternKind,
};

#[test]
fn escape_code_wraps_the_rendition() {
    assert_eq!(make_escape_code("31"), "\x1b[31m");
    assert_eq!(make_escape_code("0"), "\x1b[0m");
    assert_eq!(make_escape_code(""), "\x1b[m");
    assert_eq!(make_escape_code("1;32"), "\x1b[1;32m");
}

#[test]
fn draw_without_colors_replaces_resets() {
    let pattern = Pattern::new("plain {reset} text{reset}".to_string());
    assert_eq!(pattern.draw(), "plain \x1b[0m text\x1b[0m");
    assert_eq!(Pattern::new(String::new()).draw(), "");
    assert_eq!(Pattern::new("{red}".to_string()).draw(), "{red}");
}

#[test]
fn draw_paints_every_placeholder() {
    let pattern = Pattern::new("{red}a{green}b{red}c{reset}\n".to_string())
        .with_color("red".to_string(), "31".to_string())
        .with_color("green".to_string(), "32".to_string());
    assert_eq!(pattern.draw(), "\x1b[31ma\x1b[32mb\x1b[31mc\x1b[0m\n");
}

#[test]
fn draw_keeps_unknown_placeholders_and_braces() {
    let pattern = Pattern::new("{blue}{ red }{red{red}}".to_string())
        .with_color("red".to_string(), "31".to_string());
    assert_eq!(pattern.draw(), "{blue}{ red }{red\x1b[31m}");
}

#[test]
fn draw_paints_colors_in_order() {
    let pattern = Pattern::new("{a}".to_string())
        .with_color("a".to_string(), "{b}".to_string())
        .with_color("b".to_string(), "7".to_string());
    assert_eq!(pattern.draw(), "\x1b[\x1b[7mm");
    let pattern = Pattern::new("{a}".to_string())
        .with_color("b".to_string(), "7".to_string())
        .with_color("a".to_string(), "{b}".to_string());
    assert_eq!(pattern.draw(), "\x1b[{b}m");
}

#[test]
fn color_named_reset_wins_over_the_reset() {
    let pattern = Pattern::new("{reset}x".to_string())
        .with_color("reset".to_string(), "5".to_string());
    assert_eq!(pattern.draw(), "\x1b[5mx");
}

#[test]
fn setting_a_color_twice_keeps_the_last_value() {
    let pattern = Pattern::new("{a}{b}".to_string())
        .with_color("a".to_string(), "1".to_string())
        .with_color("b".to_string(), "2".to_string())
        .with_color("a".to_string(), "3".to_string());
    assert_eq!(pattern.draw(), "\x1b[3m\x1b[2m");
}

#[test]
fn error_is_described_with_its_kind() {
    let e = PatternError::new(PatternErrorType::InvalidTOML, "bad key");
    assert_eq!(e.e_type(), PatternErrorType::InvalidTOML);
    assert_eq!(e.message(), "bad key");
    assert_eq!(e.describe(), "InvalidTOML: bad key");
    let e = PatternError::new(PatternErrorType::FileDoesNotExist, "");
    assert_eq!(e.describe(), "FileDoesNotExist: ");
    let e = PatternError::new(PatternErrorType::IOError, "x");
    assert_eq!(e.describe(), "IOError: x");
}

#[test]
fn error_kinds_have_names() {
    assert_eq!(PatternErrorType::InvalidTOML.name(), "InvalidTOML");
    assert_eq!(PatternErrorType::FileDoesNotExist.name(), "FileDoesNotExist");
    assert_eq!(PatternErrorType::IOError.name(), "IOError");
}

#[test]
fn toml_files_are_drawn_and_others_run() {
    assert_eq!(print_pattern("/home/u/.config/colorrs/foo.toml", true).unwrap(), PatternKind::Toml);
    assert_eq!(print_pattern("foo.toml", true).unwrap(), PatternKind::Toml);
    assert_eq!(print_pattern("foo.sh", true).unwrap(), PatternKind::Shell);
    assert_eq!(print_pattern("/home/u/.config/colorrs/foo", true).unwrap(), PatternKind::Shell);
    assert_eq!(print_pattern("dir.toml/foo", true).unwrap(), PatternKind::Shell);
    assert_eq!(print_pattern(".toml", true).unwrap(), PatternKind::Shell);
    assert_eq!(print_pattern("a.toml.bak", true).unwrap(), PatternKind::Shell);
    assert_eq!(print_pattern("a.b.toml", true).unwrap(), PatternKind::Toml);
    assert_eq!(print_pattern("a.TOML", true).unwrap(), PatternKind::Shell);
}

#[test]
fn what_is_no_file_is_not_shown() {
    let e = print_pattern("/tmp/foo.toml", false).unwrap_err();
    assert_eq!(e.e_type(), PatternErrorType::FileDoesNotExist);
    assert_eq!(e.message(), "Provided path /tmp/foo.toml is not a file");
    assert_eq!(e.describe(), "FileDoesNotExist: Provided path /tmp/foo.toml is not a file");
}

#[test]
fn toml_output_is_the_drawn_pattern() {
    let pattern = Pattern::new("{c}hi{reset}".to_string())
        .with_color("c".to_string(), "36".to_string());
    let text = print_toml_pattern("p.toml", Loaded::Parsed(pattern)).unwrap();
    assert_eq!(text, "\x1b[36mhi\x1b[0m");
}

#[test]
fn toml_failures_name_the_file() {
    let e = print_toml_pattern("p.toml", Loaded::Unreadable("denied".to_string())).unwrap_err();
    assert_eq!(e.e_type(), PatternErrorType::IOError);
    assert_eq!(e.message(), "Error denied reading p.toml");
    let e = print_toml_pattern("p.toml", Loaded::Invalid("missing field".to_string()))
        .unwrap_err();
    assert_eq!(e.e_type(), PatternErrorType::InvalidTOML);
    assert_eq!(e.message(), "TOML file p.toml invalid. Error: missing field");
}

#[test]
fn pattern_hands_out_text_and_colors() {
    let pattern = Pattern::new("{a}{b}".to_string())
        .with_color("a".to_string(), "1".to_string())
        .with_color("b".to_string(), "2".to_string())
        .with_color("a".to_string(), "3".to_string());
    assert_eq!(pattern.pattern(), "{a}{b}");
    assert_eq!(
        pattern.colors(),
        &vec![("a".to_string(), "3".to_string()), ("b".to_string(), "2".to_string())]
    );
    assert!(Pattern::new(String::new()).colors().is_empty());
}
