use clipway::clipboard::ClipboardEvent;
use clipway::daemon::{
    acquire_lock, daemon_step, ensure_running, is_running, pid_text, read_lock_pid, DaemonAction,
    DaemonError, LockAttempt, LockProbe, Received,
};

#[test]
fn running_means_the_lock_is_held() {
    assert!(matches!(is_running(LockProbe::Held), Ok(true)));
    assert!(matches!(is_running(LockProbe::Free { unlock_error: None }), Ok(false)));
}

#[test]
fn probe_errors_are_reported() {
    let e = is_running(LockProbe::Failed(String::from("denied"))).unwrap_err();
    assert_eq!(e.message(), "failed to inspect daemon lock state: denied");
    let e = is_running(LockProbe::Free { unlock_error: Some(String::from("io")) }).unwrap_err();
    assert_eq!(e.message(), "failed to unlock daemon lock probe file: io");
}

#[test]
fn daemon_is_started_only_when_absent() {
    assert_eq!(ensure_running(true), None);
    assert_eq!(ensure_running(false), Some("daemon"));
}

#[test]
fn second_daemon_is_refused() {
    assert!(acquire_lock(LockAttempt::Acquired).is_ok());
    let e = acquire_lock(LockAttempt::Held).unwrap_err();
    assert!(matches!(e, DaemonError::AlreadyRunning));
    assert_eq!(e.message(), "Clipway daemon is already running");
    let e = acquire_lock(LockAttempt::Failed(String::from("x"))).unwrap_err();
    assert_eq!(e.message(), "failed to acquire daemon lock: x");
}

#[test]
fn pid_round_trips_through_the_lock_file() {
    for pid in [0u32, 1, 42, 31337, u32::MAX] {
        assert_eq!(read_lock_pid(&pid_text(pid)), Some(pid));
    }
    assert_eq!(pid_text(4711), "4711");
}

#[test]
fn lock_file_contents() {
    assert_eq!(read_lock_pid(" 123\n"), Some(123));
    assert_eq!(read_lock_pid(""), None);
    assert_eq!(read_lock_pid("abc"), None);
    assert_eq!(read_lock_pid("4294967296"), None);
}

#[test]
fn daemon_stores_events_and_restarts_watchers() {
    match daemon_step(Received::Event(ClipboardEvent::TextCopied(String::from("t")))) {
        DaemonAction::StoreText(t) => assert_eq!(t, "t"),
        other => panic!("unexpected {other:?}"),
    }
    match daemon_step(Received::Event(ClipboardEvent::ImageCopied {
        content_type: String::from("image/png"),
        bytes: vec![1],
    })) {
        DaemonAction::StoreImage { content_type, bytes } => {
            assert_eq!(content_type, "image/png");
            assert_eq!(bytes, vec![1]);
        }
        other => panic!("unexpected {other:?}"),
    }
    match daemon_step(Received::Event(ClipboardEvent::Error(String::from("boom")))) {
        DaemonAction::Restart(m) => assert_eq!(m, "boom"),
        other => panic!("unexpected {other:?}"),
    }
    assert!(matches!(daemon_step(Received::Timeout), DaemonAction::Wait));
    match daemon_step(Received::Disconnected) {
        DaemonAction::Restart(m) => assert_eq!(m, "clipboard watcher disconnected"),
        other => panic!("unexpected {other:?}"),
    }
}
