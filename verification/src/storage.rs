//! Records of the clipboard history: entry kinds, content hashes, the
//! summaries shown for images and human-readable sizes.

use sha2::Digest;
use vstd::prelude::*;
use vstd::string::*;
use crate::text::{
    ascii_upper, ascii_uppercase_chars, chars_equal, dec_nat, digit, digit_char, push_char,
    push_chars, push_str, push_u64, strip_prefix_chars, strip_prefix_or_keep, to_chars,
};

verus! {

/// How many entries the history keeps; older ones are pruned on insert.
pub const HISTORY_RETENTION_LIMIT: i64 = 500;

/// What a history entry holds.
#[derive(Clone, Debug, PartialEq, Eq, Structural)]
pub enum ClipboardEntryKind {
    Text,
    Image,
}

/// One row of the clipboard history.
#[derive(Clone, Debug)]
pub struct ClipboardEntry {
    pub id: i64,
    pub kind: ClipboardEntryKind,
    pub content: String,
    pub content_type: String,
    pub binary_content: Option<Vec<u8>>,
    pub created_at: String,
}

/// The number of entries and the newest id: enough to tell whether the
/// history changed since it was last shown.
#[derive(Clone, Copy, Debug, Default, PartialEq, Eq, Structural)]
pub struct HistorySignature {
    pub count: i64,
    pub max_id: i64,
}

/// An entry about to be stored, before the database gives it an id and a
/// time.
#[derive(Clone, Debug)]
pub struct NewEntry {
    pub kind: ClipboardEntryKind,
    pub content: String,
    pub content_type: String,
    pub binary_content: Option<Vec<u8>>,
    pub content_hash: String,
}

/// The name under which a kind is stored.
pub open spec fn kind_text(kind: ClipboardEntryKind) -> Seq<char> {
    match kind {
        ClipboardEntryKind::Text => seq!['t', 'e', 'x', 't'],
        ClipboardEntryKind::Image => seq!['i', 'm', 'a', 'g', 'e'],
    }
}

/// The kind that a stored name stands for: `image`, or text for anything
/// else.
pub open spec fn parse_kind_spec(name: Seq<char>) -> ClipboardEntryKind {
    if name == kind_text(ClipboardEntryKind::Image) {
        ClipboardEntryKind::Image
    } else {
        ClipboardEntryKind::Text
    }
}

/// The name under which `kind` is stored in the database.
pub fn kind_name(kind: &ClipboardEntryKind) -> (r: &'static str)
    ensures
        r@ == kind_text(*kind),
{
    match kind {
        ClipboardEntryKind::Text => {
            let r = "text";
            proof {
                reveal_strlit("text");
            }
            assert(r@ =~= kind_text(*kind));
            r
        },
        ClipboardEntryKind::Image => {
            let r = "image";
            proof {
                reveal_strlit("image");
            }
            assert(r@ =~= kind_text(*kind));
            r
        },
    }
}

/// Reads a stored kind name back.
pub fn parse_kind(kind: String) -> (r: ClipboardEntryKind)
    ensures
        r == parse_kind_spec(kind@),
{
    let image = "image";
    proof {
        reveal_strlit("image");
    }
    assert(image@ =~= kind_text(ClipboardEntryKind::Image));
    if chars_equal(kind.as_str(), image) {
        ClipboardEntryKind::Image
    } else {
        ClipboardEntryKind::Text
    }
}

/// Every kind reads back as itself from the name it is stored under.
pub proof fn lemma_kind_name_round_trip(kind: ClipboardEntryKind)
    ensures
        parse_kind_spec(kind_text(kind)) == kind,
{
    if kind == ClipboardEntryKind::Text {
        assert(kind_text(ClipboardEntryKind::Text)[0] != kind_text(ClipboardEntryKind::Image)[0]);
    }
}

/// The SHA-256 digest of the given bytes.
pub uninterp spec fn sha256(data: Seq<u8>) -> Seq<u8>;

/// Calls `sha2::Sha256::digest` (through `sha2::Digest`). Claimed: the result is the
/// digest of `data`, which depends on `data` alone, and is 32 bytes long (the
/// output size of SHA-256).
#[verifier::external_body]
fn sha256_digest(data: &[u8]) -> (r: Vec<u8>)
    ensures
        r@ == sha256(data@),
        r@.len() == 32,
{
    sha2::Sha256::digest(data).to_vec()
}

/// A lowercase hexadecimal digit.
pub open spec fn hex_digit(d: nat) -> char {
    if d < 10 {
        (d + 48) as char
    } else {
        (d + 87) as char
    }
}

/// Bytes as lowercase hexadecimal, two digits per byte.
pub open spec fn hex_lower(b: Seq<u8>) -> Seq<char>
    decreases b.len(),
{
    if b.len() == 0 {
        seq![]
    } else {
        hex_lower(b.drop_last()) + seq![
            hex_digit((b.last() / 16) as nat),
            hex_digit((b.last() % 16) as nat),
        ]
    }
}

proof fn lemma_hex_len(b: Seq<u8>)
    ensures
        hex_lower(b).len() == 2 * b.len(),
    decreases b.len(),
{
    if b.len() > 0 {
        lemma_hex_len(b.drop_last());
    }
}

/// A lowercase hexadecimal digit below sixteen.
fn hex_char(d: u8) -> (c: char)
    requires
        d < 16,
    ensures
        c == hex_digit(d as nat),
{
    if d < 10 {
        (d + 48) as char
    } else {
        (d + 87) as char
    }
}

/// Bytes in lowercase hexadecimal, two digits per byte.
pub fn hex_encode(bytes: &[u8]) -> (r: String)
    ensures
        r@ == hex_lower(bytes@),
        r@.len() == 2 * bytes@.len(),
{
    let mut r = String::new();
    let mut i: usize = 0;
    while i < bytes.len()
        invariant
            i <= bytes.len(),
            r@ == hex_lower(bytes@.take(i as int)),
        decreases bytes.len() - i,
    {
        let b = bytes[i];
        push_char(&mut r, hex_char(b / 16));
        push_char(&mut r, hex_char(b % 16));
        assert(bytes@.take(i + 1).drop_last() =~= bytes@.take(i as int));
        i = i + 1;
    }
    assert(bytes@.take(bytes.len() as int) =~= bytes@);
    proof {
        lemma_hex_len(bytes@);
    }
    r
}

/// The content hash under which an entry is deduplicated: the SHA-256
/// digest of the bytes in lowercase hexadecimal.
pub fn hash_bytes(bytes: &[u8]) -> (r: String)
    ensures
        r@ == hex_lower(sha256(bytes@)),
        r@.len() == 64,
{
    let digest = sha256_digest(bytes);
    hex_encode(digest.as_slice())
}

/// `2` to the power `e`.
pub open spec fn two_pow(e: nat) -> nat
    decreases e,
{
    if e == 0 {
        1
    } else {
        2 * two_pow((e - 1) as nat)
    }
}

/// `a / d` rounded to the nearest integer, ties to the even quotient.
pub open spec fn div_round_even(a: nat, d: nat) -> nat {
    let q = a / d;
    let rem = a % d;
    if 2 * rem > d || (2 * rem == d && q % 2 == 1) {
        q + 1
    } else {
        q
    }
}

/// The number of low bits that `n as f64` cannot hold: the least `e` with
/// `n / 2^e < 2^53`.
pub open spec fn f64_excess(n: nat) -> nat
    decreases n,
{
    if n < 0x20_0000_0000_0000 {
        0
    } else {
        1 + f64_excess(n / 2)
    }
}

/// The value of `n as f64`: `n` rounded to 53 significant bits, ties to even.
pub open spec fn f64_round(n: nat) -> nat {
    let p = two_pow(f64_excess(n));
    div_round_even(n, p) * p
}

/// The unit that `human_size` settles on for a value `r`: the largest of
/// B, KB, MB, GB whose size is at most `r`.
pub open spec fn size_unit(r: nat) -> nat {
    if r >= 0x4000_0000 {
        3
    } else if r >= 0x10_0000 {
        2
    } else if r >= 0x400 {
        1
    } else {
        0
    }
}

/// The size of a unit in bytes (B, KB, MB, GB).
pub open spec fn unit_bytes(u: nat) -> nat {
    if u == 3 {
        0x4000_0000
    } else if u == 2 {
        0x10_0000
    } else if u == 1 {
        0x400
    } else {
        1
    }
}

/// The symbol of a unit.
pub open spec fn unit_name(u: nat) -> Seq<char> {
    if u == 3 {
        seq!['G', 'B']
    } else if u == 2 {
        seq!['M', 'B']
    } else if u == 1 {
        seq!['K', 'B']
    } else {
        seq!['B']
    }
}

/// What `human_size` writes for `bytes`: below 1024 the exact count and
/// `B`; above, the size in the largest unit that fits, with one decimal
/// rounded half to even as `format!("{:.1}")` rounds the `f64` value.
pub open spec fn human_size_spec(bytes: nat) -> Seq<char> {
    let r = f64_round(bytes);
    let u = size_unit(r);
    if u == 0 {
        dec_nat(bytes) + seq![' ', 'B']
    } else {
        let t = div_round_even(10 * r, unit_bytes(u));
        dec_nat(t / 10) + seq!['.', digit_char(t % 10), ' '] + unit_name(u)
    }
}

/// `a / d` rounded half to even.
/// Rounding half to even lands within half a divisor of the exact value.
proof fn lemma_div_round_even_close(a: nat, d: nat)
    requires
        d > 0,
    ensures
        2 * (a - div_round_even(a, d) * d) <= d,
        2 * (div_round_even(a, d) * d - a) <= d,
{
    let q = a / d;
    let rem = a % d;
    vstd::arithmetic::div_mod::lemma_fundamental_div_mod(a as int, d as int);
    assert(a == d * q + rem);
    assert((q + 1) * d == q * d + d) by (nonlinear_arith);
    assert(q * d == d * q) by (nonlinear_arith);
}

/// A size from 1 KB up is shown in KB below 1 MB, in MB below 1 GB and in
/// GB from there, with the tenth nearest to the exact value in that unit.
pub proof fn lemma_human_size_nearest_tenth(bytes: nat) -> (tenths: nat)
    requires
        1024 <= bytes < 0x20_0000_0000_0000,
    ensures
        ({
            let d: nat = if bytes < 0x10_0000 {
                0x400
            } else if bytes < 0x4000_0000 {
                0x10_0000
            } else {
                0x4000_0000
            };
            let name = if bytes < 0x10_0000 {
                seq!['K', 'B']
            } else if bytes < 0x4000_0000 {
                seq!['M', 'B']
            } else {
                seq!['G', 'B']
            };
            &&& human_size_spec(bytes) == dec_nat(tenths / 10) + seq![
                '.',
                digit_char(tenths % 10),
                ' ',
            ] + name
            &&& 2 * (10 * bytes - tenths * d) <= d
            &&& 2 * (tenths * d - 10 * bytes) <= d
        }),
{
    assert(f64_excess(bytes) == 0);
    assert(two_pow(0) == 1);
    assert(bytes / 1 == bytes && bytes % 1 == 0);
    assert(div_round_even(bytes, 1) == bytes);
    assert(f64_round(bytes) == bytes * 1);
    assert(bytes * 1 == bytes);
    let d: nat = if bytes < 0x10_0000 {
        0x400
    } else if bytes < 0x4000_0000 {
        0x10_0000
    } else {
        0x4000_0000
    };
    assert(unit_bytes(size_unit(bytes)) == d);
    let t = div_round_even(10 * bytes, d);
    lemma_div_round_even_close(10 * bytes, d);
    t
}

fn div_round_even_exec(a: u128, d: u128) -> (r: u128)
    requires
        0 < d <= 0x4000_0000,
        a < 0x1_0000_0000_0000_0000_0000,
    ensures
        r == div_round_even(a as nat, d as nat),
        r <= a / d + 1,
{
    let q = a / d;
    let rem = a % d;
    assert(q <= a) by (nonlinear_arith)
        requires q == a / d, d > 0, a >= 0;
    if 2 * rem > d || (2 * rem == d && q % 2 == 1) {
        q + 1
    } else {
        q
    }
}

/// `n as f64`, as an exact integer.
fn f64_value(n: u64) -> (r: u128)
    ensures
        r == f64_round(n as nat),
        n < 0x20_0000_0000_0000 ==> r == n,
        r < 0x10_0000_0000_0000_0000,
{
    let mut m: u64 = n;
    let mut p: u64 = 1;
    let ghost mut e: nat = 0;
    while m >= 0x20_0000_0000_0000
        invariant
            0 < p < 0x1000,
            p == two_pow(e),
            m == n as nat / (p as nat),
            p * m <= n,
            f64_excess(n as nat) == e + f64_excess(m as nat),
        decreases m,
    {
        proof {
            vstd::arithmetic::div_mod::lemma_div_denominator(n as int, p as int, 2);
            assert(p * 2 < 0x1000) by (nonlinear_arith)
                requires p * m <= n, m >= 0x20_0000_0000_0000, n < 0x1_0000_0000_0000_0000,
                    p > 0;
            assert((p * 2) * (m / 2) <= p * m) by (nonlinear_arith)
                requires p > 0, m >= 0;
        }
        m = m / 2;
        p = p * 2;
        proof {
            e = e + 1;
        }
    }
    let q = div_round_even_exec(n as u128, p as u128);
    proof {
        assert(q * p < 0x10_0000_0000_0000_0000) by (nonlinear_arith)
            requires q <= m + 1, m < 0x20_0000_0000_0000, 0 < p < 0x1000;
        if n < 0x20_0000_0000_0000 {
            assert(e == 0);
            assert(p == 1);
            assert(n as nat / 1 == n as nat && n as nat % 1 == 0);
            assert(div_round_even(n as nat, 1) == n);
            assert(q == n);
            assert(q * p == q) by (nonlinear_arith)
                requires p == 1;
        }
    }
    q * (p as u128)
}

/// A size in bytes as a short human-readable text, such as `512 B` or
/// `1.5 KB`.
pub fn human_size(bytes: u64) -> (s: String)
    ensures
        s@ == human_size_spec(bytes as nat),
        bytes < 1024 ==> s@ == dec_nat(bytes as nat) + seq![' ', 'B'],
{
    let r = f64_value(bytes);
    let mut s = String::new();
    if r < 0x400 {
        push_u64(&mut s, bytes);
        push_char(&mut s, ' ');
        push_char(&mut s, 'B');
        assert(s@ =~= human_size_spec(bytes as nat));
    } else {
        let d: u128 = if r >= 0x4000_0000 {
            0x4000_0000
        } else if r >= 0x10_0000 {
            0x10_0000
        } else {
            0x400
        };
        let t = div_round_even_exec(10 * r, d);
        assert(t <= 10 * r) by (nonlinear_arith)
            requires t <= (10 * r as int) / (d as int) + 1, d >= 0x400, r >= 0x400;
        let whole: u64 = (t / 10) as u64;
        let tenth: u64 = (t % 10) as u64;
        push_u64(&mut s, whole);
        push_char(&mut s, '.');
        push_char(&mut s, digit(tenth));
        push_char(&mut s, ' ');
        if d == 0x4000_0000 {
            push_char(&mut s, 'G');
        } else if d == 0x10_0000 {
            push_char(&mut s, 'M');
        } else {
            push_char(&mut s, 'K');
        }
        push_char(&mut s, 'B');
        assert(s@ =~= human_size_spec(bytes as nat));
    }
    s
}

/// The text stored for an image: its format (the content type without
/// `image/`, in uppercase) and its size.
pub open spec fn image_summary_spec(content_type: Seq<char>, byte_len: nat) -> Seq<char> {
    ascii_upper(strip_prefix_or_keep(content_type, "image/"@)) + " image | "@ + human_size_spec(
        byte_len,
    )
}

/// The one-line summary stored as the content of an image entry, such as
/// `PNG image | 1.5 KB`.
pub fn image_summary(content_type: &str, byte_len: usize) -> (r: String)
    ensures
        r@ == image_summary_spec(content_type@, byte_len as nat),
{
    let ct = to_chars(content_type);
    let prefix = to_chars("image/");
    let kind = ascii_uppercase_chars(&strip_prefix_chars(&ct, &prefix));
    let mut r = String::new();
    push_chars(&mut r, &kind);
    push_str(&mut r, " image | ");
    let size = human_size(byte_len as u64);
    push_str(&mut r, size.as_str());
    r
}

/// The entry that storing the clipboard text `content` inserts, or `None`
/// for empty text, which is never stored.
pub fn text_record(content: &str) -> (r: Option<NewEntry>)
    ensures
        content@.len() == 0 <==> r is None,
        r matches Some(e) ==> {
            &&& e.kind == ClipboardEntryKind::Text
            &&& e.content@ == content@
            &&& e.content_type@ == "text/plain"@
            &&& e.binary_content is None
            &&& e.content_hash@ == hex_lower(sha256(content.spec_bytes()))
        },
{
    if content.is_empty() {
        return None;
    }
    let hash = hash_bytes(content.as_bytes());
    Some(
        NewEntry {
            kind: ClipboardEntryKind::Text,
            content: content.to_owned(),
            content_type: "text/plain".to_owned(),
            binary_content: None,
            content_hash: hash,
        },
    )
}

/// The entry that storing an image of type `content_type` inserts, or
/// `None` when there are no bytes, which is never stored.
pub fn image_record(content_type: &str, bytes: &[u8]) -> (r: Option<NewEntry>)
    ensures
        bytes@.len() == 0 <==> r is None,
        r matches Some(e) ==> {
            &&& e.kind == ClipboardEntryKind::Image
            &&& e.content@ == image_summary_spec(content_type@, bytes@.len())
            &&& e.content_type@ == content_type@
            &&& e.binary_content matches Some(b) && b@ == bytes@
            &&& e.content_hash@ == hex_lower(sha256(bytes@))
        },
{
    if bytes.len() == 0 {
        return None;
    }
    let hash = hash_bytes(bytes);
    let summary = image_summary(content_type, bytes.len());
    Some(
        NewEntry {
            kind: ClipboardEntryKind::Image,
            content: summary,
            content_type: content_type.to_owned(),
            binary_content: Some(vstd::slice::slice_to_vec(bytes)),
            content_hash: hash,
        },
    )
}


/// An entry read back from a row of the history table.
pub fn entry_from_row(
    id: i64,
    kind: String,
    content: String,
    content_type: String,
    binary_content: Option<Vec<u8>>,
    created_at: String,
) -> (r: ClipboardEntry)
    ensures
        r.id == id,
        r.kind == parse_kind_spec(kind@),
        r.content == content,
        r.content_type == content_type,
        r.binary_content == binary_content,
        r.created_at == created_at,
{
    ClipboardEntry {
        id,
        kind: parse_kind(kind),
        content,
        content_type,
        binary_content,
        created_at,
    }
}

/// The statement that lists the columns of `table`.
pub fn table_info_statement(table: &str) -> (r: String)
    ensures
        r@ == "PRAGMA table_info("@ + table@ + ")"@,
{
    let mut r = "PRAGMA table_info(".to_owned();
    push_str(&mut r, table);
    push_str(&mut r, ")");
    r
}

/// The statement that adds `column` to `table` when the table's columns
/// (`existing_columns`) lack it; `None` when the column is already there.
pub fn ensure_column(existing_columns: &Vec<String>, table: &str, column: &str, definition: &str) -> (r:
    Option<String>)
    ensures
        (exists|i: int| 0 <= i < existing_columns@.len() && existing_columns@[i]@ == column@)
            <==> r is None,
        r matches Some(s) ==> s@ == "ALTER TABLE "@ + table@ + " ADD COLUMN "@ + column@ + " "@
            + definition@,
{
    let mut i: usize = 0;
    while i < existing_columns.len()
        invariant
            i <= existing_columns.len(),
            forall|k: int| 0 <= k < i ==> existing_columns@[k]@ != column@,
        decreases existing_columns.len() - i,
    {
        if chars_equal(existing_columns[i].as_str(), column) {
            return None;
        }
        i = i + 1;
    }
    let mut r = "ALTER TABLE ".to_owned();
    push_str(&mut r, table);
    push_str(&mut r, " ADD COLUMN ");
    push_str(&mut r, column);
    push_str(&mut r, " ");
    push_str(&mut r, definition);
    Some(r)
}

} // verus!
