//! The popup panel's logic: which entries a search shows, the texts of the
//! rows and the status line, when the list is rebuilt, and when the window
//! hides.

use vstd::prelude::*;
use vstd::utf8::encode_utf8;
use crate::clipboard::{copy_image, copy_text, CopyRequest};
use crate::storage::{human_size, human_size_spec, ClipboardEntry, ClipboardEntryKind, HistorySignature};
use crate::text::{
    dec_int, preview, preview_spec, push_chars, push_i64, push_str, string_from_chars, to_chars,
    trim, trim_chars,
};

verus! {

/// How many of the newest entries the panel loads.
pub const HISTORY_PAGE_SIZE: usize = 500;

/// The lowercase form of a text, as `str::to_lowercase` gives it.
pub uninterp spec fn lowercase(s: Seq<char>) -> Seq<char>;

/// Calls `str::to_lowercase`. Claimed: the result depends on the text alone
/// (Unicode's full lowercase mapping, which needs no locale).
#[verifier::external_body]
fn to_lowercase(s: &str) -> (r: String)
    ensures
        r@ == lowercase(s@),
{
    s.to_lowercase()
}

/// `needle` occurs in `haystack` at index `i`.
pub open spec fn occurs_at(haystack: Seq<char>, needle: Seq<char>, i: int) -> bool {
    0 <= i && i + needle.len() <= haystack.len() && haystack.subrange(i, i + needle.len())
        == needle
}

/// `str::contains` with a text pattern.
pub open spec fn contains_text(haystack: Seq<char>, needle: Seq<char>) -> bool {
    exists|i: int| occurs_at(haystack, needle, i)
}

/// Whether `needle` occurs in `haystack`.
pub fn contains_chars(haystack: &Vec<char>, needle: &Vec<char>) -> (r: bool)
    ensures
        r == contains_text(haystack@, needle@),
{
    if needle.len() > haystack.len() {
        assert forall|i: int| !occurs_at(haystack@, needle@, i) by {}
        return false;
    }
    let last = haystack.len() - needle.len();
    let mut i: usize = 0;
    while i <= last
        invariant
            last == haystack.len() - needle.len(),
            i <= last + 1,
            forall|k: int| 0 <= k < i ==> !occurs_at(haystack@, needle@, k),
        decreases last + 1 - i,
    {
        let mut j: usize = 0;
        let mut same = true;
        while j < needle.len()
            invariant
                i <= last,
                last == haystack.len() - needle.len(),
                j <= needle.len(),
                same == forall|m: int| 0 <= m < j ==> haystack@[i + m] == needle@[m],
            decreases needle.len() - j,
        {
            if haystack[i + j] != needle[j] {
                same = false;
            }
            j = j + 1;
        }
        if same {
            assert(haystack@.subrange(i as int, i + needle.len()) =~= needle@);
            assert(occurs_at(haystack@, needle@, i as int));
            return true;
        }
        assert(!occurs_at(haystack@, needle@, i as int)) by {
            let m = choose|m: int| 0 <= m < needle.len() && haystack@[i + m] != needle@[m];
            assert(haystack@.subrange(i as int, i + needle.len())[m] != needle@[m]);
        }
        i = i + 1;
    }
    assert forall|k: int| !occurs_at(haystack@, needle@, k) by {
        if 0 <= k && k + needle.len() <= haystack.len() {
            assert(k < i);
        }
    }
    false
}

/// The search text as the panel compares it: trimmed and in lowercase.
pub open spec fn normalized_query(query: Seq<char>) -> Seq<char> {
    lowercase(trim(query))
}

/// Trims and lowercases the search text.
pub fn normalize_query(query: &str) -> (r: String)
    ensures
        r@ == normalized_query(query@),
{
    let trimmed = string_from_chars(&trim_chars(&to_chars(query)));
    to_lowercase(trimmed.as_str())
}

/// An entry matches a (normalized) search when the search is empty or
/// occurs in the lowercase content.
pub open spec fn matches_spec(content: Seq<char>, query: Seq<char>) -> bool {
    query.len() == 0 || contains_text(lowercase(content), query)
}

/// Whether an entry matches a normalized search text.
pub fn matches_query(entry: &ClipboardEntry, query: &str) -> (r: bool)
    ensures
        r == matches_spec(entry.content@, query@),
        query@.len() == 0 ==> r,
        r == (query@.len() == 0 || exists|i: int|
            0 <= i && i + query@.len() <= lowercase(entry.content@).len() && #[trigger] lowercase(
                entry.content@,
            ).subrange(i, i + query@.len()) == query@),
{
    if query.is_empty() {
        proof {
            lemma_match_is_containment_anywhere(entry.content@, query@);
        }
        return true;
    }
    let lower = to_lowercase(entry.content.as_str());
    proof {
        lemma_match_is_containment_anywhere(entry.content@, query@);
    }
    contains_chars(&to_chars(lower.as_str()), &to_chars(query))
}

/// The entries that match `query`, in their order.
pub open spec fn filtered(entries: Seq<ClipboardEntry>, query: Seq<char>) -> Seq<ClipboardEntry>
    decreases entries.len(),
{
    if entries.len() == 0 {
        seq![]
    } else {
        let rest = filtered(entries.drop_last(), query);
        if matches_spec(entries.last().content@, query) {
            rest.push(entries.last())
        } else {
            rest
        }
    }
}

/// The entries that the panel lists for a search text: those matching its
/// normalized form, newest first as loaded.
pub fn filter_entries(entries: Vec<ClipboardEntry>, query: &str) -> (r: Vec<ClipboardEntry>)
    ensures
        r@ == filtered(entries@, normalized_query(query@)),
{
    let normalized = normalize_query(query);
    let ghost all = entries@;
    let mut entries = entries;
    let mut r: Vec<ClipboardEntry> = Vec::new();
    let mut i: usize = 0;
    let n = entries.len();
    while i < n
        invariant
            n == all.len(),
            i <= n,
            entries@ == all.skip(i as int),
            r@ == filtered(all.take(i as int), normalized@),
            normalized@ == normalized_query(query@),
        decreases n - i,
    {
        let e = entries.remove(0);
        assert(e == all[i as int]);
        assert(all.take(i + 1).drop_last() =~= all.take(i as int));
        assert(entries@ =~= all.skip(i + 1));
        if matches_query(&e, normalized.as_str()) {
            r.push(e);
        }
        i = i + 1;
    }
    assert(all.take(n as int) =~= all);
    r
}

/// An entry matches a search exactly when the search is empty or occurs, at
/// any position, in the lowercase content.
pub proof fn lemma_match_is_containment_anywhere(content: Seq<char>, query: Seq<char>)
    ensures
        matches_spec(content, query) <==> (query.len() == 0 || exists|i: int|
            0 <= i && i + query.len() <= lowercase(content).len() && #[trigger] lowercase(
                content,
            ).subrange(i, i + query.len()) == query),
{
    let l = lowercase(content);
    if contains_text(l, query) {
        let i = choose|i: int| occurs_at(l, query, i);
        assert(l.subrange(i, i + query.len()) == query);
    }
    if exists|i: int|
        0 <= i && i + query.len() <= l.len() && #[trigger] l.subrange(i, i + query.len())
            == query {
        let i = choose|i: int|
            0 <= i && i + query.len() <= l.len() && #[trigger] l.subrange(i, i + query.len())
                == query;
        assert(occurs_at(l, query, i));
    }
}

/// Every loaded entry whose lowercase content holds the search somewhere is
/// listed, wherever the occurrence lies.
pub proof fn lemma_containing_entries_are_listed(
    entries: Seq<ClipboardEntry>,
    query: Seq<char>,
    k: int,
    i: int,
)
    requires
        0 <= k < entries.len(),
        0 <= i,
        i + query.len() <= lowercase(entries[k].content@).len(),
        lowercase(entries[k].content@).subrange(i, i + query.len()) == query,
    ensures
        filtered(entries, query).contains(entries[k]),
    decreases entries.len(),
{
    let l = lowercase(entries[k].content@);
    assert(occurs_at(l, query, i));
    let rest = entries.drop_last();
    let f = filtered(entries, query);
    if k == entries.len() - 1 {
        assert(f.last() == entries[k]);
        assert(f[f.len() - 1] == entries[k]);
    } else {
        assert(rest[k] == entries[k]);
        lemma_containing_entries_are_listed(rest, query, k, i);
        let fr = filtered(rest, query);
        let j = choose|j: int| 0 <= j < fr.len() && fr[j] == entries[k];
        assert(f[j] == fr[j]);
    }
}

/// A reload happens unless nothing changed: neither the number of entries,
/// nor the newest id, nor the search text, nor the daemon's state.
pub proof fn lemma_same_view_is_field_equality(a: ViewSnapshot, b: ViewSnapshot)
    ensures
        same_view(a, b) <==> (a.signature.count == b.signature.count && a.signature.max_id
            == b.signature.max_id && a.query@ == b.query@ && a.daemon_running
            == b.daemon_running),
{
}

/// With an empty search the panel lists every entry it loaded.
pub proof fn lemma_empty_query_keeps_all(entries: Seq<ClipboardEntry>)
    ensures
        filtered(entries, Seq::<char>::empty()) == entries,
    decreases entries.len(),
{
    if entries.len() > 0 {
        lemma_empty_query_keeps_all(entries.drop_last());
        assert(entries.drop_last().push(entries.last()) =~= entries);
    }
}

/// The panel's list is a sub-list of the loaded entries: each shown entry
/// was loaded and matches the search.
pub proof fn lemma_filtered_entries_match(entries: Seq<ClipboardEntry>, query: Seq<char>)
    ensures
        filtered(entries, query).len() <= entries.len(),
        forall|i: int|
            0 <= i < filtered(entries, query).len() ==> entries.contains(
                #[trigger] filtered(entries, query)[i],
            ) && matches_spec(filtered(entries, query)[i].content@, query),
    decreases entries.len(),
{
    if entries.len() > 0 {
        let rest = entries.drop_last();
        lemma_filtered_entries_match(rest, query);
        let f = filtered(entries, query);
        assert forall|i: int| 0 <= i < f.len() implies entries.contains(#[trigger] f[i])
            && matches_spec(f[i].content@, query) by {
            if i < filtered(rest, query).len() {
                assert(f[i] == filtered(rest, query)[i]);
                let j = choose|j: int| 0 <= j < rest.len() && rest[j] == f[i];
                assert(entries[j] == f[i]);
            } else {
                assert(f[i] == entries.last());
                assert(entries[entries.len() - 1] == f[i]);
            }
        }
    }
}

/// The preview shown as a row's title for a text: at most 100 characters.
pub fn preview_text(content: &str) -> (r: String)
    ensures
        r@ == preview_spec(content@, 100, "[仅空白字符]"@),
        r@.len() <= 103,
{
    preview(content, 100, "[仅空白字符]")
}

/// A row's title: the preview of a text, the stored summary of an image.
pub fn row_title(entry: &ClipboardEntry) -> (r: String)
    ensures
        r@ == match entry.kind {
            ClipboardEntryKind::Text => preview_spec(entry.content@, 100, "[仅空白字符]"@),
            ClipboardEntryKind::Image => entry.content@,
        },
{
    match entry.kind {
        ClipboardEntryKind::Text => preview_text(entry.content.as_str()),
        ClipboardEntryKind::Image => entry.content.as_str().to_owned(),
    }
}

/// A row's subtitle: the id and time, then the kind for a text, or the
/// pixel size (when the image could be decoded) and the byte size for an
/// image.
pub open spec fn row_subtitle_spec(
    id: int,
    created_at: Seq<char>,
    kind: ClipboardEntryKind,
    byte_len: Option<nat>,
    dimensions: Option<(int, int)>,
) -> Seq<char> {
    let head = "#"@ + dec_int(id) + " · "@ + created_at;
    match kind {
        ClipboardEntryKind::Text => head + " · 文本"@,
        ClipboardEntryKind::Image => {
            let size = match byte_len {
                Some(n) => human_size_spec(n),
                None => "大小未知"@,
            };
            match dimensions {
                Some((w, h)) => head + " · "@ + dec_int(w) + "x"@ + dec_int(h) + " · "@ + size,
                None => head + " · "@ + size,
            }
        },
    }
}

/// The length of optional image bytes.
pub open spec fn byte_len_of(b: Option<Vec<u8>>) -> Option<nat> {
    match b {
        Some(v) => Some(v@.len()),
        None => None,
    }
}

/// Optional image dimensions as integers.
pub open spec fn dims_of(d: Option<(i32, i32)>) -> Option<(int, int)> {
    match d {
        Some((w, h)) => Some((w as int, h as int)),
        None => None,
    }
}

/// The subtitle of an entry's row; `dimensions` is the decoded image's
/// width and height, when it could be decoded.
pub fn row_subtitle(entry: &ClipboardEntry, dimensions: Option<(i32, i32)>) -> (r: String)
    ensures
        r@ == row_subtitle_spec(
            entry.id as int,
            entry.created_at@,
            entry.kind,
            byte_len_of(entry.binary_content),
            dims_of(dimensions),
        ),
{
    let mut r = "#".to_owned();
    push_i64(&mut r, entry.id);
    push_str(&mut r, " · ");
    push_str(&mut r, entry.created_at.as_str());
    match entry.kind {
        ClipboardEntryKind::Text => {
            push_str(&mut r, " · 文本");
        },
        ClipboardEntryKind::Image => {
            let size = match &entry.binary_content {
                Some(b) => human_size(b.len() as u64),
                None => "大小未知".to_owned(),
            };
            match dimensions {
                Some((w, h)) => {
                    push_str(&mut r, " · ");
                    push_i64(&mut r, w as i64);
                    push_str(&mut r, "x");
                    push_i64(&mut r, h as i64);
                    push_str(&mut r, " · ");
                    push_str(&mut r, size.as_str());
                },
                None => {
                    push_str(&mut r, " · ");
                    push_str(&mut r, size.as_str());
                },
            }
        },
    }
    r
}

/// The label of a row's kind badge.
pub fn kind_badge_label(kind: &ClipboardEntryKind) -> (r: &'static str)
    ensures
        r@ == match *kind {
            ClipboardEntryKind::Text => "文本"@,
            ClipboardEntryKind::Image => "图片"@,
        },
{
    match kind {
        ClipboardEntryKind::Text => "文本",
        ClipboardEntryKind::Image => "图片",
    }
}

/// The style class of a row's kind badge.
pub fn kind_badge_class(kind: &ClipboardEntryKind) -> (r: &'static str)
    ensures
        r@ == match *kind {
            ClipboardEntryKind::Text => "clipway-kind-badge-text"@,
            ClipboardEntryKind::Image => "clipway-kind-badge-image"@,
        },
{
    match kind {
        ClipboardEntryKind::Text => "clipway-kind-badge-text",
        ClipboardEntryKind::Image => "clipway-kind-badge-image",
    }
}

/// What activating a row puts on the clipboard: a text as it was copied, an
/// image with its stored bytes (none when they are missing).
pub fn row_copy_request(entry: &ClipboardEntry) -> (r: CopyRequest)
    ensures
        match entry.kind {
            ClipboardEntryKind::Text => r.content_type@ == "text/plain"@ && r.bytes@
                == encode_utf8(entry.content@),
            ClipboardEntryKind::Image => r.content_type@ == entry.content_type@ && r.bytes@
                == match entry.binary_content {
                Some(b) => b@,
                None => Seq::<u8>::empty(),
            },
        },
{
    match entry.kind {
        ClipboardEntryKind::Text => copy_text(entry.content.as_str()),
        ClipboardEntryKind::Image => match &entry.binary_content {
            Some(b) => copy_image(entry.content_type.as_str(), b.as_slice()),
            None => {
                let empty: Vec<u8> = Vec::new();
                copy_image(entry.content_type.as_str(), empty.as_slice())
            },
        },
    }
}


/// What the panel showed last: enough to tell whether to rebuild the list.
#[derive(Clone, Debug, Default)]
pub struct ViewSnapshot {
    pub signature: HistorySignature,
    pub query: String,
    pub daemon_running: bool,
}

/// Whether two snapshots describe the same view.
pub open spec fn same_view(a: ViewSnapshot, b: ViewSnapshot) -> bool {
    a.signature == b.signature && a.query@ == b.query@ && a.daemon_running == b.daemon_running
}

/// Whether the list must be rebuilt: when asked to, or when the history,
/// the search or the daemon's state changed since the last view.
pub fn needs_reload(force: bool, previous: &ViewSnapshot, current: &ViewSnapshot) -> (r: bool)
    ensures
        r == (force || !same_view(*previous, *current)),
        r == (force || previous.signature.count != current.signature.count
            || previous.signature.max_id != current.signature.max_id || previous.query@
            != current.query@ || previous.daemon_running != current.daemon_running),
{
    if force {
        return true;
    }
    let same = previous.signature.count == current.signature.count
        && previous.signature.max_id == current.signature.max_id
        && crate::text::chars_equal(previous.query.as_str(), current.query.as_str())
        && previous.daemon_running == current.daemon_running;
    !same
}

/// The status line under the search field.
pub open spec fn status_text_spec(count: int, query: Seq<char>, daemon_running: bool) -> Seq<
    char,
> {
    let daemon_state = if daemon_running {
        "正在监听剪切板"@
    } else {
        "后台监听未运行"@
    };
    let search_state = if trim(query).len() == 0 {
        "全部记录"@
    } else {
        "筛选："@ + trim(query)
    };
    daemon_state + " · 共 "@ + dec_int(count) + " 条 · "@ + search_state + " · Esc 收起"@
}

/// The status line for a view: whether the daemon listens, how many entries
/// there are, and the search in effect.
pub fn status_text(snapshot: &ViewSnapshot) -> (r: String)
    ensures
        r@ == status_text_spec(
            snapshot.signature.count as int,
            snapshot.query@,
            snapshot.daemon_running,
        ),
{
    let mut r = if snapshot.daemon_running {
        "正在监听剪切板".to_owned()
    } else {
        "后台监听未运行".to_owned()
    };
    push_str(&mut r, " · 共 ");
    push_i64(&mut r, snapshot.signature.count);
    push_str(&mut r, " 条 · ");
    let trimmed = trim_chars(&to_chars(snapshot.query.as_str()));
    if trimmed.len() == 0 {
        push_str(&mut r, "全部记录");
    } else {
        push_str(&mut r, "筛选：");
        push_chars(&mut r, &trimmed);
    }
    push_str(&mut r, " · Esc 收起");
    r
}

/// The tooltip of the status line: where the database lies.
pub fn database_tooltip(database_path: &str) -> (r: String)
    ensures
        r@ == "数据库位置："@ + database_path@,
{
    let mut r = "数据库位置：".to_owned();
    push_str(&mut r, database_path);
    r
}

/// Whether a toggle request hides the window (it is shown and focused)
/// rather than presents it.
pub fn toggle_hides(visible: bool, active: bool) -> (r: bool)
    ensures
        r == (visible && active),
{
    visible && active
}

/// Whether the window hides when its focus changes: it does when it is shown
/// but lost the focus.
pub fn hides_on_focus_change(visible: bool, active: bool) -> (r: bool)
    ensures
        r == (visible && !active),
{
    visible && !active
}

/// The activation token carried by a message on the control socket: the
/// message with white space trimmed, or none when nothing is left.
pub open spec fn token_of_message(message: Seq<char>) -> Option<Seq<char>> {
    if trim(message).len() == 0 {
        None
    } else {
        Some(trim(message))
    }
}

/// Reads the activation token out of a control message.
pub fn activation_token_from_message(message: &str) -> (r: Option<String>)
    ensures
        match r {
            Some(t) => token_of_message(message@) == Some(t@),
            None => token_of_message(message@) is None,
        },
{
    let trimmed = trim_chars(&to_chars(message));
    if trimmed.len() == 0 {
        None
    } else {
        Some(string_from_chars(&trimmed))
    }
}

/// A toggle request carries its token unchanged: a token without white space
/// at its ends arrives as itself, and a request without token (an empty
/// message) arrives as none.
pub proof fn lemma_token_round_trip(token: Seq<char>)
    requires
        token.len() > 0 ==> !crate::text::is_ws(token[0]) && !crate::text::is_ws(token.last()),
    ensures
        token.len() > 0 ==> token_of_message(token) == Some(token),
        token_of_message(Seq::<char>::empty()) is None,
{
    crate::text::lemma_trim_unchanged(token);
    crate::text::lemma_trim_unchanged(Seq::<char>::empty());
}


/// Why connecting to the panel's control socket failed: the kinds of
/// `std::io::ErrorKind` that the request tells apart, and any other error's
/// text.
pub enum ConnectError {
    NotFound,
    ConnectionRefused,
    ConnectionAborted,
    ConnectionReset,
    Other(String),
}

/// What a toggle request does once it tried to reach a running panel.
#[derive(Debug)]
pub enum ToggleRequest {
    /// A panel listens: send it the token, if there is one; the panel then
    /// shows or hides itself.
    Deliver(Option<String>),
    /// No panel runs.
    NoPanel,
    /// The socket is left over from a panel that is gone: remove it; no
    /// panel runs.
    RemoveStaleSocket,
    /// Connecting failed otherwise, with this error text.
    Fail(String),
}

/// The toggle request's decision after connecting to the control socket.
pub fn toggle_request_step(connected: Result<(), ConnectError>, activation_token: Option<String>) -> (r:
    ToggleRequest)
    ensures
        match connected {
            Ok(()) => r matches ToggleRequest::Deliver(t) && t == activation_token,
            Err(ConnectError::NotFound) => r is NoPanel,
            Err(ConnectError::ConnectionRefused) => r is RemoveStaleSocket,
            Err(ConnectError::ConnectionAborted) => r is RemoveStaleSocket,
            Err(ConnectError::ConnectionReset) => r is RemoveStaleSocket,
            Err(ConnectError::Other(e)) => r matches ToggleRequest::Fail(m) && m == e,
        },
{
    match connected {
        Ok(()) => ToggleRequest::Deliver(activation_token),
        Err(ConnectError::NotFound) => ToggleRequest::NoPanel,
        Err(ConnectError::ConnectionRefused) => ToggleRequest::RemoveStaleSocket,
        Err(ConnectError::ConnectionAborted) => ToggleRequest::RemoveStaleSocket,
        Err(ConnectError::ConnectionReset) => ToggleRequest::RemoveStaleSocket,
        Err(ConnectError::Other(e)) => ToggleRequest::Fail(e),
    }
}

} // verus!
