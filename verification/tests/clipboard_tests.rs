use clipway::clipboard::{
    copy_image, copy_text, ensure_wayland, image_event, image_watcher_step, text_watcher_step,
    watcher_error_event, ClipboardEvent, FrameRead, ImageWatcherStep, SizeLineRead, WatcherStep,
};

#[test]
fn copy_text_sends_plain_text_bytes() {
    let r = copy_text("héllo");
    assert_eq!(r.content_type, "text/plain");
    assert_eq!(r.bytes, "héllo".as_bytes());
}

#[test]
fn copy_image_sends_bytes_unchanged() {
    let r = copy_image("image/png", &[1, 2, 3]);
    assert_eq!(r.content_type, "image/png");
    assert_eq!(r.bytes, vec![1, 2, 3]);
}

#[test]
fn text_frames_become_text_events() {
    match text_watcher_step(FrameRead::Frame(b"hi there\0".to_vec())) {
        WatcherStep::Emit(ClipboardEvent::TextCopied(t)) => assert_eq!(t, "hi there"),
        other => panic!("unexpected {other:?}"),
    }
    match text_watcher_step(FrameRead::Frame(b"no nul".to_vec())) {
        WatcherStep::Emit(ClipboardEvent::TextCopied(t)) => assert_eq!(t, "no nul"),
        other => panic!("unexpected {other:?}"),
    }
}

#[test]
fn invalid_utf8_is_replaced() {
    match text_watcher_step(FrameRead::Frame(vec![b'a', 0xff, b'b', 0])) {
        WatcherStep::Emit(ClipboardEvent::TextCopied(t)) => assert_eq!(t, "a\u{fffd}b"),
        other => panic!("unexpected {other:?}"),
    }
}

#[test]
fn empty_text_frames_are_skipped() {
    assert!(matches!(text_watcher_step(FrameRead::Frame(vec![0])), WatcherStep::Skip));
    assert!(matches!(text_watcher_step(FrameRead::Frame(vec![])), WatcherStep::Skip));
}

#[test]
fn text_watcher_stops_on_end_or_error() {
    match text_watcher_step(FrameRead::Eof) {
        WatcherStep::Stop(m) => assert_eq!(m, "wl-paste text watcher stopped unexpectedly"),
        other => panic!("unexpected {other:?}"),
    }
    match text_watcher_step(FrameRead::Failed(String::from("broken pipe"))) {
        WatcherStep::Stop(m) => assert_eq!(m, "broken pipe"),
        other => panic!("unexpected {other:?}"),
    }
}

#[test]
fn captured_text_restores_the_same_bytes() {
    let copied = "naïve ✓ text".as_bytes().to_vec();
    let mut frame = copied.clone();
    frame.push(0);
    match text_watcher_step(FrameRead::Frame(frame)) {
        WatcherStep::Emit(ClipboardEvent::TextCopied(t)) => assert_eq!(copy_text(&t).bytes, copied),
        other => panic!("unexpected {other:?}"),
    }
}

#[test]
fn image_size_lines() {
    assert!(matches!(
        image_watcher_step(SizeLineRead::Line(String::from("1234\n"))),
        ImageWatcherStep::ReadImage(1234)
    ));
    assert!(matches!(
        image_watcher_step(SizeLineRead::Line(String::from("0\n"))),
        ImageWatcherStep::Skip
    ));
    match image_watcher_step(SizeLineRead::Line(String::from(" abc \n"))) {
        ImageWatcherStep::Stop(m) => assert_eq!(m, "invalid image frame size: abc"),
        other => panic!("unexpected {other:?}"),
    }
    match image_watcher_step(SizeLineRead::Eof) {
        ImageWatcherStep::Stop(m) => assert_eq!(m, "wl-paste image watcher stopped unexpectedly"),
        other => panic!("unexpected {other:?}"),
    }
    match image_watcher_step(SizeLineRead::Failed(String::from("eof"))) {
        ImageWatcherStep::Stop(m) => assert_eq!(m, "eof"),
        other => panic!("unexpected {other:?}"),
    }
}

#[test]
fn image_events_are_png() {
    match image_event(vec![7, 8]) {
        ClipboardEvent::ImageCopied { content_type, bytes } => {
            assert_eq!(content_type, "image/png");
            assert_eq!(bytes, vec![7, 8]);
        }
        other => panic!("unexpected {other:?}"),
    }
}

#[test]
fn watcher_errors_name_the_watcher() {
    match watcher_error_event("image", "no display") {
        ClipboardEvent::Error(m) => assert_eq!(m, "image clipboard watcher failed: no display"),
        other => panic!("unexpected {other:?}"),
    }
}

#[test]
fn wayland_is_required() {
    assert!(ensure_wayland(true).is_ok());
    assert_eq!(
        ensure_wayland(false).unwrap_err(),
        "WAYLAND_DISPLAY is not set. Clipway currently only supports Wayland."
    );
}
