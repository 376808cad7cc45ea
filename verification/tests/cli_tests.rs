use clipway::cli::{
    activation_token_from_env, copied_message, entry_copy_request, help_text, list_line,
    not_found_message, parse_command, preview_text, version_text, Command, CommandError,
    DEFAULT_LIST_LIMIT,
};
use clipway::storage::{ClipboardEntry, ClipboardEntryKind};
use clipway::text::IntProblem;

fn args(a: &[&str]) -> Vec<String> {
    a.iter().map(|s| s.to_string()).collect()
}

fn entry(kind: ClipboardEntryKind, content: &str, binary: Option<Vec<u8>>) -> ClipboardEntry {
    ClipboardEntry {
        id: 42,
        kind,
        content: content.to_string(),
        content_type: String::from("image/png"),
        binary_content: binary,
        created_at: String::from("2024-05-06 07:08:09"),
    }
}

#[test]
fn no_arguments_open_the_gui_with_the_env_token() {
    match parse_command(&args(&[]), Some(String::from("tok"))) {
        Ok(Command::Gui { activation_token }) => assert_eq!(activation_token.as_deref(), Some("tok")),
        other => panic!("unexpected {other:?}"),
    }
}

#[test]
fn gui_token_option_overrides_env() {
    match parse_command(&args(&["gui", "--activation-token", "abc"]), Some(String::from("env"))) {
        Ok(Command::Gui { activation_token }) => assert_eq!(activation_token.as_deref(), Some("abc")),
        other => panic!("unexpected {other:?}"),
    }
    match parse_command(&args(&["gui"]), None) {
        Ok(Command::Gui { activation_token }) => assert!(activation_token.is_none()),
        other => panic!("unexpected {other:?}"),
    }
}

#[test]
fn gui_option_errors() {
    let e = parse_command(&args(&["gui", "--activation-token"]), None).unwrap_err();
    assert!(matches!(e, CommandError::MissingTokenValue));
    assert_eq!(e.message(), "--activation-token requires a value");
    let e = parse_command(&args(&["gui", "--x"]), None).unwrap_err();
    assert_eq!(e.message(), "unknown gui option: --x");
}

#[test]
fn simple_commands() {
    assert!(matches!(parse_command(&args(&["daemon"]), None), Ok(Command::Daemon)));
    assert!(matches!(parse_command(&args(&["tray"]), None), Ok(Command::Tray)));
    assert!(matches!(parse_command(&args(&["clear"]), None), Ok(Command::Clear)));
    for h in ["help", "--help", "-h"] {
        assert!(matches!(parse_command(&args(&[h]), None), Ok(Command::Help)));
    }
    for v in ["--version", "-V"] {
        assert!(matches!(parse_command(&args(&[v]), None), Ok(Command::Version)));
    }
}

#[test]
fn list_limit_defaults_to_twenty() {
    assert!(matches!(parse_command(&args(&["list"]), None), Ok(Command::List { limit: 20 })));
    assert_eq!(DEFAULT_LIST_LIMIT, 20);
    assert!(matches!(parse_command(&args(&["list", "5"]), None), Ok(Command::List { limit: 5 })));
}

#[test]
fn list_limit_must_be_a_number() {
    let e = parse_command(&args(&["list", "x"]), None).unwrap_err();
    assert!(matches!(e, CommandError::InvalidListLimit(_, IntProblem::InvalidDigit)));
    assert_eq!(e.message(), "invalid list limit: x: invalid digit found in string");
}

#[test]
fn copy_needs_an_integer_id() {
    assert!(matches!(parse_command(&args(&["copy", "-3"]), None), Ok(Command::Copy { id: -3 })));
    let e = parse_command(&args(&["copy"]), None).unwrap_err();
    assert_eq!(e.message(), "copy requires an item id, for example: clipway copy 42");
    let e = parse_command(&args(&["copy", ""]), None).unwrap_err();
    assert_eq!(e.message(), "copy id must be an integer: cannot parse integer from empty string");
}

#[test]
fn unknown_commands_are_refused() {
    let e = parse_command(&args(&["frob"]), None).unwrap_err();
    assert_eq!(
        e.message(),
        "unknown command: frob\n\nRun `clipway help` to see supported commands."
    );
}

#[test]
fn env_token_preference() {
    assert_eq!(
        activation_token_from_env(Some(String::from("a")), Some(String::from("b"))).as_deref(),
        Some("a")
    );
    assert_eq!(activation_token_from_env(None, Some(String::from("b"))).as_deref(), Some("b"));
    assert_eq!(activation_token_from_env(None, None), None);
}

#[test]
fn cli_preview() {
    assert_eq!(preview_text("  hello \n  world  "), "hello world");
    assert_eq!(preview_text(" \n\t "), "[whitespace only]");
    let long = "x".repeat(81);
    assert_eq!(preview_text(&long), format!("{}...", "x".repeat(80)));
    assert_eq!(preview_text(&"y".repeat(80)), "y".repeat(80));
}

#[test]
fn list_lines() {
    assert_eq!(
        list_line(&entry(ClipboardEntryKind::Text, " a  b ", None)),
        "42\t2024-05-06 07:08:09\ta b"
    );
    assert_eq!(
        list_line(&entry(ClipboardEntryKind::Image, "PNG image | 1 B", Some(vec![1]))),
        "42\t2024-05-06 07:08:09\tPNG image | 1 B"
    );
}

#[test]
fn copy_requests_for_entries() {
    let r = entry_copy_request(&entry(ClipboardEntryKind::Text, "hey", None)).unwrap();
    assert_eq!(r.content_type, "text/plain");
    assert_eq!(r.bytes, b"hey");
    let r = entry_copy_request(&entry(ClipboardEntryKind::Image, "s", Some(vec![5, 6]))).unwrap();
    assert_eq!(r.content_type, "image/png");
    assert_eq!(r.bytes, vec![5, 6]);
    assert_eq!(
        entry_copy_request(&entry(ClipboardEntryKind::Image, "s", None)).unwrap_err(),
        "image payload was missing"
    );
}

#[test]
fn messages() {
    assert_eq!(not_found_message(9), "clipboard item 9 was not found");
    assert_eq!(copied_message(-1), "copied item -1 back to the clipboard");
    assert_eq!(version_text("0.1.0"), "clipway 0.1.0");
    let h = help_text("1.2.3");
    assert!(h.starts_with("Clipway 1.2.3\n\nUsage:\n  clipway  "));
    assert!(h.ends_with("  clipway help           Show this help\n"));
}
