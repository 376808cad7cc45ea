//! The background daemon's decisions: whether it runs (from its lock file),
//! what its lock file holds, and what it does with each clipboard event.

use vstd::prelude::*;
use crate::clipboard::ClipboardEvent;
use crate::text::{dec_nat, parse_unsigned, parse_unsigned_chars, push_str, push_u64, to_chars, trim, trim_chars};

verus! {

/// Why a daemon operation failed.
#[derive(Debug)]
pub enum DaemonError {
    /// The lock probe could not be released.
    UnlockFailed(String),
    /// The lock file could not be probed.
    InspectFailed(String),
    /// Another daemon holds the lock.
    AlreadyRunning,
    /// The lock could not be taken.
    AcquireFailed(String),
}

impl DaemonError {
    /// The error as the command line prints it: the context, then the cause.
    pub fn message(&self) -> (r: String)
        ensures
            r@ == match self {
                DaemonError::UnlockFailed(e) => "failed to unlock daemon lock probe file: "@ + e@,
                DaemonError::InspectFailed(e) => "failed to inspect daemon lock state: "@ + e@,
                DaemonError::AlreadyRunning => "Clipway daemon is already running"@,
                DaemonError::AcquireFailed(e) => "failed to acquire daemon lock: "@ + e@,
            },
    {
        match self {
            DaemonError::UnlockFailed(e) => {
                let mut r = "failed to unlock daemon lock probe file: ".to_owned();
                push_str(&mut r, e.as_str());
                r
            },
            DaemonError::InspectFailed(e) => {
                let mut r = "failed to inspect daemon lock state: ".to_owned();
                push_str(&mut r, e.as_str());
                r
            },
            DaemonError::AlreadyRunning => "Clipway daemon is already running".to_owned(),
            DaemonError::AcquireFailed(e) => {
                let mut r = "failed to acquire daemon lock: ".to_owned();
                push_str(&mut r, e.as_str());
                r
            },
        }
    }
}

/// What probing the daemon's lock (trying to take it without waiting) gave.
pub enum LockProbe {
    /// The lock was free and was taken; `unlock_error` tells whether
    /// releasing it again failed.
    Free { unlock_error: Option<String> },
    /// Another process holds the lock.
    Held,
    /// The probe failed for another reason.
    Failed(String),
}

/// Whether the daemon runs, from a probe of its lock: it runs exactly when
/// another process holds the lock.
pub fn is_running(probe: LockProbe) -> (r: Result<bool, DaemonError>)
    ensures
        match probe {
            LockProbe::Free { unlock_error: None } => r == Ok::<bool, DaemonError>(false),
            LockProbe::Free { unlock_error: Some(e) } => r matches Err(
                DaemonError::UnlockFailed(m),
            ) && m == e,
            LockProbe::Held => r == Ok::<bool, DaemonError>(true),
            LockProbe::Failed(e) => r matches Err(DaemonError::InspectFailed(m)) && m == e,
        },
{
    match probe {
        LockProbe::Free { unlock_error: None } => Ok(false),
        LockProbe::Free { unlock_error: Some(e) } => Err(DaemonError::UnlockFailed(e)),
        LockProbe::Held => Ok(true),
        LockProbe::Failed(e) => Err(DaemonError::InspectFailed(e)),
    }
}

/// The subcommand to start detached so that the daemon runs: `daemon`
/// unless it already runs, in which case nothing is started.
pub fn ensure_running(running: bool) -> (spawn: Option<&'static str>)
    ensures
        running <==> spawn is None,
        spawn matches Some(s) ==> s@ == "daemon"@,
{
    if running {
        None
    } else {
        Some("daemon")
    }
}

/// What trying to take the daemon's lock for good gave.
pub enum LockAttempt {
    Acquired,
    Held,
    Failed(String),
}

/// Whether the daemon may start: only when it took the lock.
pub fn acquire_lock(attempt: LockAttempt) -> (r: Result<(), DaemonError>)
    ensures
        match attempt {
            LockAttempt::Acquired => r is Ok,
            LockAttempt::Held => r matches Err(DaemonError::AlreadyRunning),
            LockAttempt::Failed(e) => r matches Err(DaemonError::AcquireFailed(m)) && m == e,
        },
{
    match attempt {
        LockAttempt::Acquired => Ok(()),
        LockAttempt::Held => Err(DaemonError::AlreadyRunning),
        LockAttempt::Failed(e) => Err(DaemonError::AcquireFailed(e)),
    }
}

/// What the daemon writes into its lock file: its process id in decimal.
pub fn pid_text(pid: u32) -> (r: String)
    ensures
        r@ == dec_nat(pid as nat),
{
    let mut r = String::new();
    push_u64(&mut r, pid as u64);
    r
}

/// The process id recorded in the lock file, if its contents (white space
/// aside) are one.
pub fn read_lock_pid(contents: &str) -> (r: Option<u32>)
    ensures
        match r {
            Some(p) => parse_unsigned(trim(contents@), u32::MAX as nat) == Some(p as nat),
            None => parse_unsigned(trim(contents@), u32::MAX as nat) is None,
        },
{
    let trimmed = trim_chars(&to_chars(contents));
    match parse_unsigned_chars(&trimmed, u32::MAX as u64) {
        Ok(v) => Some(v as u32),
        Err(_) => None,
    }
}

/// What the daemon received while waiting for clipboard events.
pub enum Received {
    Event(ClipboardEvent),
    /// Nothing arrived in time.
    Timeout,
    /// Both watchers are gone.
    Disconnected,
}

/// What the daemon does next.
#[derive(Debug)]
pub enum DaemonAction {
    /// Store a copied text.
    StoreText(String),
    /// Store a copied image.
    StoreImage { content_type: String, bytes: Vec<u8> },
    /// Keep waiting.
    Wait,
    /// Print this message, pause, and start the watchers again.
    Restart(String),
}

/// One turn of the daemon's loop: copied items are stored, a watcher
/// failure or the loss of both watchers restarts them.
pub fn daemon_step(received: Received) -> (r: DaemonAction)
    ensures
        match received {
            Received::Event(ClipboardEvent::TextCopied(t)) => r matches DaemonAction::StoreText(s)
                && s == t,
            Received::Event(ClipboardEvent::ImageCopied { content_type, bytes }) => r matches DaemonAction::StoreImage { content_type: c, bytes: b } && c == content_type && b == bytes,
            Received::Event(ClipboardEvent::Error(m)) => r matches DaemonAction::Restart(s)
                && s == m,
            Received::Timeout => r is Wait,
            Received::Disconnected => r matches DaemonAction::Restart(s)
                && s@ == "clipboard watcher disconnected"@,
        },
{
    match received {
        Received::Event(ClipboardEvent::TextCopied(t)) => DaemonAction::StoreText(t),
        Received::Event(ClipboardEvent::ImageCopied { content_type, bytes }) => {
            DaemonAction::StoreImage { content_type, bytes }
        },
        Received::Event(ClipboardEvent::Error(m)) => DaemonAction::Restart(m),
        Received::Timeout => DaemonAction::Wait,
        Received::Disconnected => DaemonAction::Restart("clipboard watcher disconnected".to_owned()),
    }
}


/// The process id that the daemon writes into its lock file is the one
/// read back from it.
pub proof fn lemma_lock_pid_round_trip(pid: u32)
    ensures
        parse_unsigned(trim(dec_nat(pid as nat)), u32::MAX as nat) == Some(pid as nat),
{
    crate::text::lemma_parse_dec_round_trip(pid as nat, u32::MAX as nat);
}

} // verus!
