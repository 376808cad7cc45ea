//! The tray entry: its title, icon and menu, and what its loop does with
//! each menu command.

use vstd::prelude::*;
use crate::text::{dec_int, push_i64, push_str};

verus! {

/// What the tray menu asks for.
#[derive(Clone, Copy, Debug, PartialEq, Eq, Structural)]
pub enum TrayCommand {
    OpenWindow,
    StartCapture,
    StopCapture,
    ClearHistory,
    QuitTray,
}

/// What the tray loop received while waiting for a menu command.
pub enum TrayReceived {
    Command(TrayCommand),
    /// Nothing arrived in time.
    Timeout,
    /// The menu is gone.
    Disconnected,
}

/// What the tray loop does next.
#[derive(Debug, PartialEq, Eq)]
pub enum TrayAction {
    /// Start this subcommand detached.
    SpawnSubcommand(&'static str),
    /// Start the daemon unless it runs.
    EnsureDaemon,
    /// Stop the daemon.
    StopDaemon,
    /// Delete the whole history.
    ClearHistory,
    /// Only refresh the tray's state.
    Refresh,
    /// Leave the loop and shut the tray down.
    Quit,
}

/// One turn of the tray loop: each menu command becomes its action; after
/// any action but quitting, the loop refreshes the tray's state.
pub fn run(received: TrayReceived) -> (r: TrayAction)
    ensures
        match received {
            TrayReceived::Command(TrayCommand::OpenWindow) => r matches TrayAction::SpawnSubcommand(s)
                && s@ == "gui"@,
            TrayReceived::Command(TrayCommand::StartCapture) => r is EnsureDaemon,
            TrayReceived::Command(TrayCommand::StopCapture) => r is StopDaemon,
            TrayReceived::Command(TrayCommand::ClearHistory) => r is ClearHistory,
            TrayReceived::Command(TrayCommand::QuitTray) => r is Quit,
            TrayReceived::Timeout => r is Refresh,
            TrayReceived::Disconnected => r is Quit,
        },
{
    match received {
        TrayReceived::Command(TrayCommand::OpenWindow) => TrayAction::SpawnSubcommand("gui"),
        TrayReceived::Command(TrayCommand::StartCapture) => TrayAction::EnsureDaemon,
        TrayReceived::Command(TrayCommand::StopCapture) => TrayAction::StopDaemon,
        TrayReceived::Command(TrayCommand::ClearHistory) => TrayAction::ClearHistory,
        TrayReceived::Command(TrayCommand::QuitTray) => TrayAction::Quit,
        TrayReceived::Timeout => TrayAction::Refresh,
        TrayReceived::Disconnected => TrayAction::Quit,
    }
}

/// The tray entry's identifier.
pub fn tray_id() -> (r: String)
    ensures
        r@ == "clipway"@,
{
    "clipway".to_owned()
}

/// The tray entry's title: the name and the number of stored entries.
pub fn tray_title(item_count: i64) -> (r: String)
    ensures
        r@ == "Clipway ("@ + dec_int(item_count as int) + ")"@,
{
    let mut r = "Clipway (".to_owned();
    push_i64(&mut r, item_count);
    push_str(&mut r, ")");
    r
}

/// The tray icon: a paste icon while the daemon captures, a stop icon
/// otherwise.
pub fn tray_icon_name(daemon_running: bool) -> (r: String)
    ensures
        r@ == if daemon_running {
            "edit-paste"@
        } else {
            "process-stop"@
        },
{
    if daemon_running {
        "edit-paste".to_owned()
    } else {
        "process-stop".to_owned()
    }
}

/// One entry of the tray menu.
#[derive(Debug)]
pub enum MenuEntry {
    Item { label: String, icon_name: String, command: TrayCommand },
    Separator,
}

/// An item with the given texts and command.
pub open spec fn is_item(e: MenuEntry, label: Seq<char>, icon: Seq<char>, command: TrayCommand) -> bool {
    e matches MenuEntry::Item { label: l, icon_name: i, command: c } && l@ == label && i@ == icon
        && c == command
}

/// The tray menu: open the panel; stop the capture while the daemon runs,
/// start it otherwise; clear the history; then, after a separator, quit.
pub fn tray_menu(daemon_running: bool) -> (r: Vec<MenuEntry>)
    ensures
        r@.len() == 5,
        is_item(r@[0], "Open Clipway"@, "edit-paste"@, TrayCommand::OpenWindow),
        daemon_running ==> is_item(
            r@[1],
            "Stop background capture"@,
            ""@,
            TrayCommand::StopCapture,
        ),
        !daemon_running ==> is_item(
            r@[1],
            "Start background capture"@,
            ""@,
            TrayCommand::StartCapture,
        ),
        is_item(r@[2], "Clear history"@, "user-trash"@, TrayCommand::ClearHistory),
        r@[3] is Separator,
        is_item(r@[4], "Quit tray"@, "application-exit"@, TrayCommand::QuitTray),
{
    let capture_label = if daemon_running {
        "Stop background capture"
    } else {
        "Start background capture"
    };
    let capture_command = if daemon_running {
        TrayCommand::StopCapture
    } else {
        TrayCommand::StartCapture
    };
    let mut r: Vec<MenuEntry> = Vec::new();
    r.push(
        MenuEntry::Item {
            label: "Open Clipway".to_owned(),
            icon_name: "edit-paste".to_owned(),
            command: TrayCommand::OpenWindow,
        },
    );
    r.push(
        MenuEntry::Item {
            label: capture_label.to_owned(),
            icon_name: "".to_owned(),
            command: capture_command,
        },
    );
    r.push(
        MenuEntry::Item {
            label: "Clear history".to_owned(),
            icon_name: "user-trash".to_owned(),
            command: TrayCommand::ClearHistory,
        },
    );
    r.push(MenuEntry::Separator);
    r.push(
        MenuEntry::Item {
            label: "Quit tray".to_owned(),
            icon_name: "application-exit".to_owned(),
            command: TrayCommand::QuitTray,
        },
    );
    r
}

} // verus!
