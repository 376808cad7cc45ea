//! Clipboard history for Wayland: the verified core of the clipboard
//! history tool (text handling, storage records, paths, command line and
//! the decisions of the daemon, the popup panel and the tray entry).

pub mod text;
pub mod storage;
pub mod paths;
pub mod clipboard;
pub mod daemon;
pub mod cli;
pub mod gui;
pub mod tray;
