//! Clipboard events and the requests handed to `wl-copy`: what the two
//! `wl-paste` watchers make of the frames they read, and which bytes go back
//! onto the clipboard when an item is restored.

use vstd::prelude::*;
use vstd::string::*;
use vstd::utf8::*;
use crate::text::{parse_unsigned, parse_unsigned_chars, push_str, to_chars, trim, trim_chars};

verus! {

/// What the watchers report.
#[derive(Debug)]
pub enum ClipboardEvent {
    TextCopied(String),
    ImageCopied { content_type: String, bytes: Vec<u8> },
    Error(String),
}

/// Bytes to put on the clipboard, with their content type.
#[derive(Debug)]
pub struct CopyRequest {
    pub content_type: String,
    pub bytes: Vec<u8>,
}

/// The request that restores a text.
pub fn copy_text(content: &str) -> (r: CopyRequest)
    ensures
        r.content_type@ == "text/plain"@,
        r.bytes@ == content.spec_bytes(),
{
    CopyRequest {
        content_type: "text/plain".to_owned(),
        bytes: vstd::slice::slice_to_vec(content.as_bytes()),
    }
}

/// The request that restores an image.
pub fn copy_image(content_type: &str, bytes: &[u8]) -> (r: CopyRequest)
    ensures
        r.content_type@ == content_type@,
        r.bytes@ == bytes@,
{
    CopyRequest {
        content_type: content_type.to_owned(),
        bytes: vstd::slice::slice_to_vec(bytes),
    }
}

/// The text that `String::from_utf8_lossy` makes of the given bytes.
pub uninterp spec fn utf8_lossy(bytes: Seq<u8>) -> Seq<char>;

/// Calls `String::from_utf8_lossy`. Claimed: the result depends on the bytes
/// alone, and for valid UTF-8 it is their decoding (std documents that valid
/// UTF-8 comes back unchanged; only invalid sequences are replaced).
#[verifier::external_body]
fn from_utf8_lossy(bytes: &[u8]) -> (r: String)
    ensures
        r@ == utf8_lossy(bytes@),
        valid_utf8(bytes@) ==> r@ == decode_utf8(bytes@),
{
    String::from_utf8_lossy(bytes).into_owned()
}

/// What reading one frame from a watcher gave.
pub enum FrameRead {
    /// The watcher's output ended.
    Eof,
    /// A frame (for the text watcher, up to and with its closing NUL byte).
    Frame(Vec<u8>),
    /// Reading failed, with the error's text.
    Failed(String),
}

/// What a watcher does next.
#[derive(Debug)]
pub enum WatcherStep {
    /// Stop with this error.
    Stop(String),
    /// Ignore the frame and read the next one.
    Skip,
    /// Report this event and read the next frame.
    Emit(ClipboardEvent),
}

/// The frame without its closing NUL byte, if it has one.
pub open spec fn strip_nul(frame: Seq<u8>) -> Seq<u8> {
    if frame.len() > 0 && frame.last() == 0 {
        frame.drop_last()
    } else {
        frame
    }
}

/// One turn of the text watcher: a frame is the copied text followed by a
/// NUL byte; empty frames are skipped, and the end of the output or a read
/// error stops the watcher.
pub fn text_watcher_step(read: FrameRead) -> (r: WatcherStep)
    ensures
        match read {
            FrameRead::Eof => r matches WatcherStep::Stop(m)
                && m@ == "wl-paste text watcher stopped unexpectedly"@,
            FrameRead::Failed(e) => r matches WatcherStep::Stop(m) && m@ == e@,
            FrameRead::Frame(f) => if strip_nul(f@).len() == 0 {
                r is Skip
            } else {
                r matches WatcherStep::Emit(ClipboardEvent::TextCopied(t))
                    && t@ == utf8_lossy(strip_nul(f@))
                    && (valid_utf8(strip_nul(f@)) ==> t@ == decode_utf8(strip_nul(f@)))
            },
        },
        ({
            match read {
                FrameRead::Frame(f) => {
                    &&& (f@.len() > 1 && f@.last() == 0) ==> (r matches WatcherStep::Emit(
                        ClipboardEvent::TextCopied(t),
                    ) && t@ == utf8_lossy(f@.drop_last()) && (valid_utf8(f@.drop_last())
                        ==> encode_utf8(t@) == f@.drop_last()))
                    &&& (f@.len() > 0 && f@.last() != 0) ==> (r matches WatcherStep::Emit(
                        ClipboardEvent::TextCopied(t),
                    ) && t@ == utf8_lossy(f@))
                },
                _ => true,
            }
        }),
{
    match read {
        FrameRead::Eof => WatcherStep::Stop("wl-paste text watcher stopped unexpectedly".to_owned()),
        FrameRead::Failed(e) => WatcherStep::Stop(e),
        FrameRead::Frame(mut frame) => {
            let ghost f = frame@;
            if frame.len() > 0 && frame[frame.len() - 1] == 0 {
                frame.pop();
                assert(frame@ =~= f.drop_last());
            }
            proof {
                if valid_utf8(frame@) {
                    decode_utf8_encode_utf8(frame@);
                }
            }
            if frame.len() == 0 {
                WatcherStep::Skip
            } else {
                WatcherStep::Emit(ClipboardEvent::TextCopied(from_utf8_lossy(frame.as_slice())))
            }
        },
    }
}

/// What reading a size line from the image watcher gave.
pub enum SizeLineRead {
    Eof,
    Line(String),
    Failed(String),
}

/// What the image watcher does next.
#[derive(Debug)]
pub enum ImageWatcherStep {
    Stop(String),
    Skip,
    /// Read this many bytes of image data.
    ReadImage(usize),
}

/// One turn of the image watcher: each image comes as a line with its size
/// in bytes followed by the bytes; a zero size is skipped, and a line that
/// is not a size stops the watcher.
pub fn image_watcher_step(read: SizeLineRead) -> (r: ImageWatcherStep)
    ensures
        match read {
            SizeLineRead::Eof => r matches ImageWatcherStep::Stop(m)
                && m@ == "wl-paste image watcher stopped unexpectedly"@,
            SizeLineRead::Failed(e) => r matches ImageWatcherStep::Stop(m) && m@ == e@,
            SizeLineRead::Line(l) => match parse_unsigned(trim(l@), usize::MAX as nat) {
                None => r matches ImageWatcherStep::Stop(m) && m@ == "invalid image frame size: "@
                    + trim(l@),
                Some(n) => if n == 0 {
                    r is Skip
                } else {
                    r matches ImageWatcherStep::ReadImage(k) && k == n
                },
            },
        },
{
    match read {
        SizeLineRead::Eof => ImageWatcherStep::Stop(
            "wl-paste image watcher stopped unexpectedly".to_owned(),
        ),
        SizeLineRead::Failed(e) => ImageWatcherStep::Stop(e),
        SizeLineRead::Line(line) => {
            let trimmed = trim_chars(&to_chars(line.as_str()));
            match parse_unsigned_chars(&trimmed, usize::MAX as u64) {
                Err(_) => {
                    let mut m = "invalid image frame size: ".to_owned();
                    crate::text::push_chars(&mut m, &trimmed);
                    ImageWatcherStep::Stop(m)
                },
                Ok(n) => {
                    if n == 0 {
                        ImageWatcherStep::Skip
                    } else {
                        ImageWatcherStep::ReadImage(n as usize)
                    }
                },
            }
        },
    }
}

/// The event for the image bytes that the watcher read.
pub fn image_event(bytes: Vec<u8>) -> (r: ClipboardEvent)
    ensures
        r matches ClipboardEvent::ImageCopied { content_type, bytes: b } && content_type@
            == "image/png"@ && b@ == bytes@,
{
    ClipboardEvent::ImageCopied { content_type: "image/png".to_owned(), bytes }
}

/// The error event that a failed watcher sends before it is restarted.
pub fn watcher_error_event(watcher: &str, message: &str) -> (r: ClipboardEvent)
    ensures
        r matches ClipboardEvent::Error(m) && m@ == watcher@ + " clipboard watcher failed: "@
            + message@,
{
    let mut m = watcher.to_owned();
    push_str(&mut m, " clipboard watcher failed: ");
    push_str(&mut m, message);
    ClipboardEvent::Error(m)
}

/// The watchers only run under Wayland: an error unless `WAYLAND_DISPLAY`
/// is set.
pub fn ensure_wayland(display_set: bool) -> (r: Result<(), String>)
    ensures
        display_set <==> r is Ok,
        r matches Err(m) ==> m@ == "WAYLAND_DISPLAY is not set. Clipway currently only supports Wayland."@,
{
    if display_set {
        Ok(())
    } else {
        Err("WAYLAND_DISPLAY is not set. Clipway currently only supports Wayland.".to_owned())
    }
}

/// Only the one closing NUL byte is removed from a frame: the text copied,
/// whatever its last characters (a newline, a NUL, spaces), is what the
/// frame holds before that byte, and for valid UTF-8 it is restored as the
/// very bytes copied.
pub proof fn lemma_frame_keeps_copied_bytes(copied: Seq<u8>)
    ensures
        strip_nul(copied.push(0)) == copied,
        strip_nul(copied.push(0)).len() == copied.len(),
        valid_utf8(copied) ==> encode_utf8(decode_utf8(strip_nul(copied.push(0)))) == copied,
{
    assert(copied.push(0).drop_last() =~= copied);
    if valid_utf8(copied) {
        decode_utf8_encode_utf8(copied);
    }
}

/// A text captured from a valid UTF-8 frame is restored as the very bytes
/// that were copied.
pub proof fn lemma_text_capture_restores_bytes(frame: Seq<u8>)
    requires
        valid_utf8(strip_nul(frame)),
    ensures
        encode_utf8(decode_utf8(strip_nul(frame))) == strip_nul(frame),
{
    decode_utf8_encode_utf8(strip_nul(frame));
}

} // verus!
