use clipway::storage::{
    ensure_column, entry_from_row, hash_bytes, human_size, image_record, image_summary, kind_name,
    parse_kind, table_info_statement, text_record, ClipboardEntryKind, HISTORY_RETENTION_LIMIT,
};

/// The formula that the size text follows, written with floating point.
fn float_size(bytes: u64) -> String {
    const UNITS: [&str; 4] = ["B", "KB", "MB", "GB"];
    let mut value = bytes as f64;
    let mut unit = 0usize;
    while value >= 1024.0 && unit < UNITS.len() - 1 {
        value /= 1024.0;
        unit += 1;
    }
    if unit == 0 {
        format!("{} {}", bytes, UNITS[unit])
    } else {
        format!("{value:.1} {}", UNITS[unit])
    }
}

#[test]
fn human_size_small_counts_are_exact() {
    assert_eq!(human_size(0), "0 B");
    assert_eq!(human_size(1), "1 B");
    assert_eq!(human_size(1023), "1023 B");
}

#[test]
fn human_size_units() {
    assert_eq!(human_size(1024), "1.0 KB");
    assert_eq!(human_size(1536), "1.5 KB");
    assert_eq!(human_size(1048575), "1024.0 KB");
    assert_eq!(human_size(1048576), "1.0 MB");
    assert_eq!(human_size(5 * 1024 * 1024 * 1024), "5.0 GB");
    assert_eq!(human_size(3 * 1024 * 1024 * 1024 * 1024), "3072.0 GB");
}

#[test]
fn human_size_rounds_ties_to_even() {
    // 1280 bytes are exactly 1.25 KB.
    assert_eq!(human_size(1280), float_size(1280));
    assert_eq!(human_size(1280), "1.2 KB");
    // 1331 bytes are 1.2998 KB.
    assert_eq!(human_size(1331), "1.3 KB");
}

#[test]
fn human_size_agrees_with_float_formula() {
    let mut values: Vec<u64> = Vec::new();
    for i in 0..5000u64 {
        values.push(i);
        values.push(i * 257);
        values.push(i * 104_857 + 13);
        values.push(i.wrapping_mul(0x9e37_79b9_7f4a_7c15));
    }
    for shift in 0..64u32 {
        let p = 1u64 << shift;
        for d in 0..4u64 {
            values.push(p.wrapping_add(d));
            values.push(p.wrapping_sub(d));
        }
    }
    values.push(u64::MAX);
    values.push(u64::MAX - 1);
    values.push((1u64 << 53) + 1);
    values.push((1u64 << 54) + 2);
    values.push((1u64 << 54) + 6);
    for v in values {
        assert_eq!(human_size(v), float_size(v), "size of {v}");
    }
}

#[test]
fn kind_names_read_back() {
    assert_eq!(kind_name(&ClipboardEntryKind::Text), "text");
    assert_eq!(kind_name(&ClipboardEntryKind::Image), "image");
    assert_eq!(parse_kind(kind_name(&ClipboardEntryKind::Text).to_string()), ClipboardEntryKind::Text);
    assert_eq!(parse_kind(kind_name(&ClipboardEntryKind::Image).to_string()), ClipboardEntryKind::Image);
}

#[test]
fn unknown_kind_reads_as_text() {
    assert_eq!(parse_kind(String::from("IMAGE")), ClipboardEntryKind::Text);
    assert_eq!(parse_kind(String::new()), ClipboardEntryKind::Text);
    assert_eq!(parse_kind(String::from("images")), ClipboardEntryKind::Text);
}

#[test]
fn hash_is_sha256_in_hex() {
    assert_eq!(
        hash_bytes(b"abc"),
        "ba7816bf8f01cfea414140de5dae2223b00361a396177a9cb410ff61f20015ad"
    );
    assert_eq!(
        hash_bytes(b""),
        "e3b0c44298fc1c149afbf4c8996fb92427ae41e4649b934ca495991b7852b855"
    );
}

#[test]
fn image_summary_names_format_and_size() {
    assert_eq!(image_summary("image/png", 1536), "PNG image | 1.5 KB");
    assert_eq!(image_summary("image/jpeg", 10), "JPEG image | 10 B");
    assert_eq!(image_summary("application/x-thing", 2048), "APPLICATION/X-THING image | 2.0 KB");
    assert_eq!(image_summary("image/", 0), " image | 0 B");
}

#[test]
fn empty_text_is_not_stored() {
    assert!(text_record("").is_none());
}

#[test]
fn text_record_keeps_content_and_hash() {
    let e = text_record("hello").unwrap();
    assert_eq!(e.kind, ClipboardEntryKind::Text);
    assert_eq!(e.content, "hello");
    assert_eq!(e.content_type, "text/plain");
    assert!(e.binary_content.is_none());
    assert_eq!(e.content_hash, hash_bytes(b"hello"));
}

#[test]
fn empty_image_is_not_stored() {
    assert!(image_record("image/png", &[]).is_none());
}

#[test]
fn image_record_keeps_bytes_and_summary() {
    let bytes = vec![1u8; 2048];
    let e = image_record("image/png", &bytes).unwrap();
    assert_eq!(e.kind, ClipboardEntryKind::Image);
    assert_eq!(e.content, "PNG image | 2.0 KB");
    assert_eq!(e.content_type, "image/png");
    assert_eq!(e.binary_content.as_deref(), Some(&bytes[..]));
    assert_eq!(e.content_hash, hash_bytes(&bytes));
}

#[test]
fn rows_become_entries() {
    let e = entry_from_row(
        7,
        String::from("image"),
        String::from("PNG image | 1 B"),
        String::from("image/png"),
        Some(vec![9]),
        String::from("2024-01-01 10:00:00"),
    );
    assert_eq!(e.id, 7);
    assert_eq!(e.kind, ClipboardEntryKind::Image);
    assert_eq!(e.binary_content, Some(vec![9]));
    assert_eq!(e.created_at, "2024-01-01 10:00:00");
}

#[test]
fn missing_columns_are_added() {
    let existing = vec![String::from("id"), String::from("content")];
    assert_eq!(
        ensure_column(&existing, "clipboard_entries", "kind", "TEXT NOT NULL DEFAULT 'text'"),
        Some(String::from(
            "ALTER TABLE clipboard_entries ADD COLUMN kind TEXT NOT NULL DEFAULT 'text'"
        ))
    );
    assert_eq!(ensure_column(&existing, "clipboard_entries", "content", "TEXT"), None);
    assert_eq!(
        table_info_statement("clipboard_entries"),
        "PRAGMA table_info(clipboard_entries)"
    );
}

#[test]
fn retention_limit_is_five_hundred() {
    assert_eq!(HISTORY_RETENTION_LIMIT, 500);
}
