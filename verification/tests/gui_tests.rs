use clipway::gui::{
    activation_token_from_message, contains_chars, database_tooltip, filter_entries,
    hides_on_focus_change, kind_badge_class, kind_badge_label, matches_query, needs_reload,
    normalize_query, preview_text, row_copy_request, row_subtitle, row_title, status_text,
    toggle_hides, ViewSnapshot, HISTORY_PAGE_SIZE,
};
use clipway::gui::{toggle_request_step, ConnectError, ToggleRequest};
use clipway::storage::{ClipboardEntry, ClipboardEntryKind, HistorySignature};

fn entry(id: i64, kind: ClipboardEntryKind, content: &str, binary: Option<Vec<u8>>) -> ClipboardEntry {
    ClipboardEntry {
        id,
        kind,
        content: content.to_string(),
        content_type: String::from("image/png"),
        binary_content: binary,
        created_at: String::from("t0"),
    }
}

fn snapshot(count: i64, max_id: i64, query: &str, running: bool) -> ViewSnapshot {
    ViewSnapshot {
        signature: HistorySignature { count, max_id },
        query: query.to_string(),
        daemon_running: running,
    }
}

#[test]
fn search_is_case_insensitive_and_trimmed() {
    assert_eq!(normalize_query("  HeLLo "), "hello");
    let e = entry(1, ClipboardEntryKind::Text, "Say Hello World", None);
    assert!(matches_query(&e, "hello"));
    assert!(!matches_query(&e, "bye"));
    assert!(matches_query(&e, ""));
}

#[test]
fn filter_keeps_order_of_matches() {
    let entries = vec![
        entry(3, ClipboardEntryKind::Text, "apple pie", None),
        entry(2, ClipboardEntryKind::Text, "banana", None),
        entry(1, ClipboardEntryKind::Text, "APPLE juice", None),
    ];
    let ids: Vec<i64> = filter_entries(entries, " Apple ").iter().map(|e| e.id).collect();
    assert_eq!(ids, vec![3, 1]);
}

#[test]
fn empty_search_keeps_everything() {
    let entries = vec![
        entry(2, ClipboardEntryKind::Text, "x", None),
        entry(1, ClipboardEntryKind::Image, "PNG image | 1 B", Some(vec![0])),
    ];
    assert_eq!(filter_entries(entries, "   ").len(), 2);
}

#[test]
fn substring_search() {
    let h: Vec<char> = "abcabd".chars().collect();
    let n: Vec<char> = "abd".chars().collect();
    assert!(contains_chars(&h, &n));
    let n: Vec<char> = "abe".chars().collect();
    assert!(!contains_chars(&h, &n));
    assert!(contains_chars(&h, &Vec::new()));
}

#[test]
fn gui_preview_limit_is_one_hundred() {
    assert_eq!(preview_text(&"z".repeat(101)), format!("{}...", "z".repeat(100)));
    assert_eq!(preview_text("\n"), "[仅空白字符]");
}

#[test]
fn row_texts() {
    let t = entry(5, ClipboardEntryKind::Text, "a\nb", None);
    assert_eq!(row_title(&t), "a b");
    assert_eq!(row_subtitle(&t, None), "#5 · t0 · 文本");
    let i = entry(6, ClipboardEntryKind::Image, "PNG image | 2.0 KB", Some(vec![0; 2048]));
    assert_eq!(row_title(&i), "PNG image | 2.0 KB");
    assert_eq!(row_subtitle(&i, Some((640, 480))), "#6 · t0 · 640x480 · 2.0 KB");
    assert_eq!(row_subtitle(&i, None), "#6 · t0 · 2.0 KB");
    let m = entry(7, ClipboardEntryKind::Image, "s", None);
    assert_eq!(row_subtitle(&m, None), "#7 · t0 · 大小未知");
}

#[test]
fn badges() {
    assert_eq!(kind_badge_label(&ClipboardEntryKind::Text), "文本");
    assert_eq!(kind_badge_label(&ClipboardEntryKind::Image), "图片");
    assert_eq!(kind_badge_class(&ClipboardEntryKind::Text), "clipway-kind-badge-text");
    assert_eq!(kind_badge_class(&ClipboardEntryKind::Image), "clipway-kind-badge-image");
}

#[test]
fn reload_when_forced_or_changed() {
    let a = snapshot(1, 1, "q", true);
    assert!(needs_reload(true, &a, &a.clone()));
    assert!(!needs_reload(false, &a, &a.clone()));
    assert!(needs_reload(false, &a, &snapshot(2, 2, "q", true)));
    assert!(needs_reload(false, &a, &snapshot(1, 1, "r", true)));
    assert!(needs_reload(false, &a, &snapshot(1, 1, "q", false)));
}

#[test]
fn status_line() {
    assert_eq!(
        status_text(&snapshot(3, 9, "  ", true)),
        "正在监听剪切板 · 共 3 条 · 全部记录 · Esc 收起"
    );
    assert_eq!(
        status_text(&snapshot(0, 0, " foo ", false)),
        "后台监听未运行 · 共 0 条 · 筛选：foo · Esc 收起"
    );
    assert_eq!(database_tooltip("/d/c.sqlite3"), "数据库位置：/d/c.sqlite3");
}

#[test]
fn window_visibility_decisions() {
    assert!(toggle_hides(true, true));
    assert!(!toggle_hides(true, false));
    assert!(!toggle_hides(false, false));
    assert!(hides_on_focus_change(true, false));
    assert!(!hides_on_focus_change(true, true));
    assert!(!hides_on_focus_change(false, false));
}

#[test]
fn control_messages_carry_tokens() {
    assert_eq!(activation_token_from_message(" tok\n").as_deref(), Some("tok"));
    assert_eq!(activation_token_from_message("tok"), Some(String::from("tok")));
    assert_eq!(activation_token_from_message(""), None);
    assert_eq!(activation_token_from_message(" \n"), None);
}

#[test]
fn row_activation_copies() {
    let r = row_copy_request(&entry(1, ClipboardEntryKind::Text, "é", None));
    assert_eq!(r.content_type, "text/plain");
    assert_eq!(r.bytes, "é".as_bytes());
    let r = row_copy_request(&entry(1, ClipboardEntryKind::Image, "s", None));
    assert_eq!(r.content_type, "image/png");
    assert!(r.bytes.is_empty());
}

#[test]
fn page_size() {
    assert_eq!(HISTORY_PAGE_SIZE, 500);
}

#[test]
fn search_lowercases_beyond_ascii() {
    assert_eq!(normalize_query(" ÄPFEL "), "äpfel");
    let e = entry(1, ClipboardEntryKind::Text, "Grüne ÄPFEL", None);
    assert!(matches_query(&e, "äpfel"));
}

#[test]
fn toggle_request_decisions() {
    match toggle_request_step(Ok(()), Some(String::from("tok"))) {
        ToggleRequest::Deliver(t) => assert_eq!(t.as_deref(), Some("tok")),
        other => panic!("unexpected {other:?}"),
    }
    assert!(matches!(toggle_request_step(Err(ConnectError::NotFound), None), ToggleRequest::NoPanel));
    for e in [ConnectError::ConnectionRefused, ConnectError::ConnectionAborted, ConnectError::ConnectionReset] {
        assert!(matches!(toggle_request_step(Err(e), None), ToggleRequest::RemoveStaleSocket));
    }
    match toggle_request_step(Err(ConnectError::Other(String::from("x"))), None) {
        ToggleRequest::Fail(m) => assert_eq!(m, "x"),
        other => panic!("unexpected {other:?}"),
    }
}
