//! Character-level helpers shared by the whole crate: Unicode white space,
//! trimming, decimal numbers, and the string building blocks that std offers
//! without a Verus specification.

use vstd::prelude::*;

verus! {

/// `char::is_whitespace`: the characters with the Unicode `White_Space`
/// property.
pub open spec fn is_ws(c: char) -> bool {
    ||| ('\u{9}' <= c && c <= '\u{d}')
    ||| c == ' '
    ||| c == '\u{85}'
    ||| c == '\u{a0}'
    ||| c == '\u{1680}'
    ||| ('\u{2000}' <= c && c <= '\u{200a}')
    ||| c == '\u{2028}'
    ||| c == '\u{2029}'
    ||| c == '\u{202f}'
    ||| c == '\u{205f}'
    ||| c == '\u{3000}'
}

/// Executable test for [`is_ws`].
pub fn is_whitespace(c: char) -> (r: bool)
    ensures
        r == is_ws(c),
{
    ('\u{9}' <= c && c <= '\u{d}') || c == ' ' || c == '\u{85}' || c == '\u{a0}' || c
        == '\u{1680}' || ('\u{2000}' <= c && c <= '\u{200a}') || c == '\u{2028}' || c
        == '\u{2029}' || c == '\u{202f}' || c == '\u{205f}' || c == '\u{3000}'
}

/// Calls `String::push`. Claimed: the character is appended at the end and
/// nothing else changes.
#[verifier::external_body]
pub(crate) fn push_char(s: &mut String, c: char)
    ensures
        final(s)@ == old(s)@.push(c),
{
    s.push(c);
}

/// The characters of a string slice, in order.
pub fn to_chars(s: &str) -> (v: Vec<char>)
    ensures
        v@ == s@,
{
    let mut v: Vec<char> = Vec::new();
    for c in it: s.chars()
        invariant
            v@ == it.seq().take(it.index() as int),
            it.seq() == s@,
    {
        v.push(c);
    }
    assert(v@ =~= s@);
    v
}


/// The character of a decimal digit.
pub open spec fn digit_char(d: nat) -> char {
    (d + 48) as char
}

/// `n` written in decimal, as `format!("{}", n)` writes it.
pub open spec fn dec_nat(n: nat) -> Seq<char>
    decreases n,
{
    if n < 10 {
        seq![digit_char(n)]
    } else {
        dec_nat(n / 10).push(digit_char(n % 10))
    }
}

/// A signed integer in decimal, with a leading `-` when negative.
pub open spec fn dec_int(n: int) -> Seq<char> {
    if n < 0 {
        seq!['-'] + dec_nat((-n) as nat)
    } else {
        dec_nat(n as nat)
    }
}

/// The character of a decimal digit below ten.
pub fn digit(d: u64) -> (c: char)
    requires
        d < 10,
    ensures
        c == digit_char(d as nat),
{
    let b: u8 = d as u8 + 48;
    b as char
}

/// Appends `n` in decimal.
pub fn push_u64(s: &mut String, n: u64)
    ensures
        final(s)@ == old(s)@ + dec_nat(n as nat),
    decreases n,
{
    if n < 10 {
        push_char(s, digit(n));
    } else {
        push_u64(s, n / 10);
        push_char(s, digit(n % 10));
    }
}


/// Appends a signed integer in decimal.
pub fn push_i64(s: &mut String, n: i64)
    ensures
        final(s)@ == old(s)@ + dec_int(n as int),
{
    if n < 0 {
        push_char(s, '-');
        let m: u64 = (-(n + 1)) as u64 + 1;
        push_u64(s, m);
        assert(final(s)@ =~= old(s)@ + dec_int(n as int));
    } else {
        push_u64(s, n as u64);
    }
}

/// An ASCII decimal digit.
pub open spec fn is_digit(c: char) -> bool {
    '0' <= c && c <= '9'
}

/// Text made of decimal digits only.
pub open spec fn all_digits(s: Seq<char>) -> bool {
    forall|i: int| 0 <= i < s.len() ==> is_digit(#[trigger] s[i])
}

/// The value of a string of decimal digits.
pub open spec fn digits_value(s: Seq<char>) -> nat
    decreases s.len(),
{
    if s.len() == 0 {
        0
    } else {
        digits_value(s.drop_last()) * 10 + ((s.last() as int - 48) as nat)
    }
}

/// Why `str::parse` refuses an integer: the kinds of
/// `core::num::IntErrorKind` that parsing can give.
#[derive(Debug, Clone, Copy, PartialEq, Eq, Structural)]
pub enum IntProblem {
    Empty,
    InvalidDigit,
    PosOverflow,
    NegOverflow,
}

/// How `ParseIntError` describes each problem.
pub open spec fn problem_text(p: IntProblem) -> Seq<char> {
    match p {
        IntProblem::Empty => "cannot parse integer from empty string"@,
        IntProblem::InvalidDigit => "invalid digit found in string"@,
        IntProblem::PosOverflow => "number too large to fit in target type"@,
        IntProblem::NegOverflow => "number too small to fit in target type"@,
    }
}

impl IntProblem {
    /// The text that `ParseIntError` displays for this problem.
    pub fn message(&self) -> (r: &'static str)
        ensures
            r@ == problem_text(*self),
    {
        match self {
            IntProblem::Empty => "cannot parse integer from empty string",
            IntProblem::InvalidDigit => "invalid digit found in string",
            IntProblem::PosOverflow => "number too large to fit in target type",
            IntProblem::NegOverflow => "number too small to fit in target type",
        }
    }
}

/// The first problem met reading the digits `d` from the left into a
/// number no larger than `max`: a character that is not a digit, or a
/// prefix whose value exceeds `max`; `None` when `d` reads fine.
pub open spec fn digits_problem(d: Seq<char>, max: nat) -> Option<IntProblem>
    decreases d.len(),
{
    if d.len() == 0 {
        None
    } else {
        match digits_problem(d.drop_last(), max) {
            Some(p) => Some(p),
            None => if !is_digit(d.last()) {
                Some(IntProblem::InvalidDigit)
            } else if digits_value(d) > max {
                Some(IntProblem::PosOverflow)
            } else {
                None
            },
        }
    }
}

/// `str::parse` of an unsigned integer type whose largest value is `max`:
/// an optional `+`, then decimal digits.
pub open spec fn parse_unsigned_result(s: Seq<char>, max: nat) -> Result<nat, IntProblem> {
    if s.len() == 0 {
        Err(IntProblem::Empty)
    } else if s.len() == 1 && (s[0] == '+' || s[0] == '-') {
        Err(IntProblem::InvalidDigit)
    } else {
        let d = if s[0] == '+' {
            s.drop_first()
        } else {
            s
        };
        match digits_problem(d, max) {
            Some(p) => Err(p),
            None => Ok(digits_value(d)),
        }
    }
}

/// The value that `str::parse` reads for an unsigned type, if any.
pub open spec fn parse_unsigned(s: Seq<char>, max: nat) -> Option<nat> {
    match parse_unsigned_result(s, max) {
        Ok(v) => Some(v),
        Err(_) => None,
    }
}

/// `str::parse::<i64>`: an optional `+` or `-`, then decimal digits.
pub open spec fn parse_i64_result(s: Seq<char>) -> Result<int, IntProblem> {
    if s.len() == 0 {
        Err(IntProblem::Empty)
    } else if s.len() == 1 && (s[0] == '+' || s[0] == '-') {
        Err(IntProblem::InvalidDigit)
    } else if s[0] == '-' {
        let d = s.drop_first();
        match digits_problem(d, 0x8000_0000_0000_0000) {
            Some(IntProblem::PosOverflow) => Err(IntProblem::NegOverflow),
            Some(p) => Err(p),
            None => Ok(-(digits_value(d) as int)),
        }
    } else {
        match parse_unsigned_result(s, 0x7fff_ffff_ffff_ffff) {
            Ok(v) => Ok(v as int),
            Err(p) => Err(p),
        }
    }
}

/// A problem in a prefix is the problem of the whole text.
proof fn lemma_problem_extends(t: Seq<char>, max: nat, i: int)
    requires
        0 <= i <= t.len(),
        digits_problem(t.take(i), max) is Some,
    ensures
        digits_problem(t, max) == digits_problem(t.take(i), max),
    decreases t.len() - i,
{
    if i < t.len() {
        assert(t.take(i + 1).drop_last() =~= t.take(i));
        lemma_problem_extends(t, max, i + 1);
    } else {
        assert(t.take(i) =~= t);
    }
}

/// Reads the digits of `d` from index `start` on, as `from_str` does.
fn scan_digits(d: &Vec<char>, start: usize, max: u64) -> (r: Result<u64, IntProblem>)
    requires
        start <= d.len(),
    ensures
        ({
            let t = d@.skip(start as int);
            match r {
                Ok(v) => digits_problem(t, max as nat) is None && v == digits_value(t),
                Err(p) => digits_problem(t, max as nat) == Some(p),
            }
        }),
{
    let ghost t = d@.skip(start as int);
    let mut acc: u64 = 0;
    let mut i: usize = start;
    assert(t.take(0) =~= Seq::<char>::empty());
    while i < d.len()
        invariant
            start <= i <= d.len(),
            t == d@.skip(start as int),
            digits_problem(t.take(i - start), max as nat) is None,
            acc == digits_value(t.take(i - start)),
            acc <= max,
        decreases d.len() - i,
    {
        let c = d[i];
        let ghost k = i - start;
        assert(t.take(k + 1).drop_last() =~= t.take(k));
        assert(t.take(k + 1).last() == c);
        if !('0' <= c && c <= '9') {
            proof {
                lemma_problem_extends(t, max as nat, k + 1);
            }
            return Err(IntProblem::InvalidDigit);
        }
        let dv: u64 = (c as u32 - 48) as u64;
        if dv > max || acc > (max - dv) / 10 {
            proof {
                assert(acc * 10 + dv > max) by (nonlinear_arith)
                    requires dv > max || acc > (max - dv) / 10, acc >= 0;
                lemma_problem_extends(t, max as nat, k + 1);
            }
            return Err(IntProblem::PosOverflow);
        }
        acc = acc * 10 + dv;
        i = i + 1;
    }
    assert(t.take(t.len() as int) =~= t);
    Ok(acc)
}

/// `str::parse` of an unsigned integer no larger than `max`, on the
/// characters of the text.
pub fn parse_unsigned_chars(s: &Vec<char>, max: u64) -> (r: Result<u64, IntProblem>)
    ensures
        match r {
            Ok(v) => parse_unsigned_result(s@, max as nat) == Ok::<nat, IntProblem>(v as nat),
            Err(p) => parse_unsigned_result(s@, max as nat) == Err::<nat, IntProblem>(p),
        },
{
    if s.len() == 0 {
        return Err(IntProblem::Empty);
    }
    if s.len() == 1 && (s[0] == '+' || s[0] == '-') {
        return Err(IntProblem::InvalidDigit);
    }
    if s[0] == '+' {
        assert(s@.skip(1) =~= s@.drop_first());
        scan_digits(s, 1, max)
    } else {
        assert(s@.skip(0) =~= s@);
        scan_digits(s, 0, max)
    }
}

/// `str::parse::<i64>` on the characters of the text.
pub fn parse_i64_chars(s: &Vec<char>) -> (r: Result<i64, IntProblem>)
    ensures
        match r {
            Ok(v) => parse_i64_result(s@) == Ok::<int, IntProblem>(v as int),
            Err(p) => parse_i64_result(s@) == Err::<int, IntProblem>(p),
        },
{
    if s.len() == 0 {
        return Err(IntProblem::Empty);
    }
    if s.len() == 1 && (s[0] == '+' || s[0] == '-') {
        return Err(IntProblem::InvalidDigit);
    }
    if s[0] == '-' {
        assert(s@.skip(1) =~= s@.drop_first());
        match scan_digits(s, 1, 0x8000_0000_0000_0000) {
            Ok(v) => {
                if v == 0x8000_0000_0000_0000 {
                    Ok(i64::MIN)
                } else {
                    Ok(-(v as i64))
                }
            },
            Err(IntProblem::PosOverflow) => Err(IntProblem::NegOverflow),
            Err(p) => Err(p),
        }
    } else {
        match parse_unsigned_chars(s, 0x7fff_ffff_ffff_ffff) {
            Ok(v) => Ok(v as i64),
            Err(p) => Err(p),
        }
    }
}

/// `str::trim_start`: drops the leading white space.
pub open spec fn trim_start(s: Seq<char>) -> Seq<char>
    decreases s.len(),
{
    if s.len() > 0 && is_ws(s[0]) {
        trim_start(s.drop_first())
    } else {
        s
    }
}

/// `str::trim_end`: drops the trailing white space.
pub open spec fn trim_end(s: Seq<char>) -> Seq<char>
    decreases s.len(),
{
    if s.len() > 0 && is_ws(s.last()) {
        trim_end(s.drop_last())
    } else {
        s
    }
}

/// `str::trim`: drops the white space at both ends.
pub open spec fn trim(s: Seq<char>) -> Seq<char> {
    trim_end(trim_start(s))
}

/// The characters of `s` with the white space at both ends removed.
pub fn trim_chars(s: &Vec<char>) -> (r: Vec<char>)
    ensures
        r@ == trim(s@),
{
    let mut lo: usize = 0;
    assert(s@.skip(0) =~= s@);
    while lo < s.len() && is_whitespace(s[lo])
        invariant
            lo <= s.len(),
            trim_start(s@) == trim_start(s@.skip(lo as int)),
        decreases s.len() - lo,
    {
        assert(s@.skip(lo as int).drop_first() =~= s@.skip(lo + 1));
        lo = lo + 1;
    }
    let ghost a = s@.skip(lo as int);
    assert(trim_start(a) == a);
    let mut hi: usize = s.len();
    assert(s@.subrange(lo as int, hi as int) =~= a);
    while hi > lo && is_whitespace(s[hi - 1])
        invariant
            lo <= hi <= s.len(),
            a == s@.skip(lo as int),
            trim_end(a) == trim_end(s@.subrange(lo as int, hi as int)),
        decreases hi,
    {
        assert(s@.subrange(lo as int, hi as int).drop_last() =~= s@.subrange(lo as int, hi - 1));
        hi = hi - 1;
    }
    let mut r: Vec<char> = Vec::new();
    let mut i: usize = lo;
    while i < hi
        invariant
            lo <= i <= hi <= s.len(),
            r@ == s@.subrange(lo as int, i as int),
        decreases hi - i,
    {
        r.push(s[i]);
        i = i + 1;
    }
    r
}


/// Appends the characters of a string slice.
pub fn push_str(s: &mut String, t: &str)
    ensures
        final(s)@ == old(s)@ + t@,
{
    let v = to_chars(t);
    push_chars(s, &v);
}

/// Appends a run of characters.
pub fn push_chars(s: &mut String, v: &Vec<char>)
    ensures
        final(s)@ == old(s)@ + v@,
{
    let ghost s0 = s@;
    let mut i: usize = 0;
    while i < v.len()
        invariant
            i <= v.len(),
            s@ == s0 + v@.take(i as int),
        decreases v.len() - i,
    {
        push_char(s, v[i]);
        assert(v@.take(i + 1) =~= v@.take(i as int).push(v@[i as int]));
        i = i + 1;
    }
    assert(v@.take(v.len() as int) =~= v@);
}

/// A string made of the given characters.
pub fn string_from_chars(v: &Vec<char>) -> (s: String)
    ensures
        s@ == v@,
{
    let mut s = String::new();
    push_chars(&mut s, v);
    assert(s@ =~= v@);
    s
}

/// `s.split_whitespace().collect::<Vec<_>>().join(" ")`: the words of `s`
/// (its maximal runs of non-white-space characters) separated by single
/// spaces.
pub open spec fn collapse_ws(s: Seq<char>) -> Seq<char>
    decreases s.len(),
{
    if s.len() == 0 {
        seq![]
    } else {
        let p = collapse_ws(s.drop_last());
        let c = s.last();
        if is_ws(c) {
            p
        } else if s.len() >= 2 && is_ws(s[s.len() - 2]) && p.len() > 0 {
            p.push(' ').push(c)
        } else {
            p.push(c)
        }
    }
}

/// Text whose only white space is single spaces between other characters:
/// no white space at either end, none doubled, no other white space.
pub open spec fn single_spaced(r: Seq<char>) -> bool {
    forall|i: int|
        0 <= i < r.len() && is_ws(#[trigger] r[i]) ==> {
            &&& r[i] == ' '
            &&& 0 < i && i + 1 < r.len()
            &&& !is_ws(r[i - 1])
            &&& !is_ws(r[i + 1])
        }
}

/// Collapsing white space leaves single spaces between words and nothing at
/// the ends.
pub proof fn lemma_collapse_single_spaced(s: Seq<char>)
    ensures
        single_spaced(collapse_ws(s)),
    decreases s.len(),
{
    if s.len() > 0 {
        lemma_collapse_single_spaced(s.drop_last());
        let p = collapse_ws(s.drop_last());
        let r = collapse_ws(s);
        if p.len() > 0 {
            assert(!is_ws(p[p.len() - 1]));
        }
        assert forall|i: int| 0 <= i < r.len() && is_ws(#[trigger] r[i]) implies {
            &&& r[i] == ' '
            &&& 0 < i && i + 1 < r.len()
            &&& !is_ws(r[i - 1])
            &&& !is_ws(r[i + 1])
        } by {
            if i < p.len() {
                assert(r[i] == p[i]);
                assert(r[i - 1] == p[i - 1]);
                if i + 1 < p.len() {
                    assert(r[i + 1] == p[i + 1]);
                }
            }
        }
    }
}

proof fn lemma_collapse_prefix_of_single_spaced(s: Seq<char>, k: int)
    requires
        single_spaced(s),
        0 <= k <= s.len(),
    ensures
        collapse_ws(s.take(k)) == if k > 0 && is_ws(s[k - 1]) {
            s.take(k - 1)
        } else {
            s.take(k)
        },
    decreases k,
{
    if k > 0 {
        lemma_collapse_prefix_of_single_spaced(s, k - 1);
        let t = s.take(k);
        assert(t.drop_last() =~= s.take(k - 1));
        assert(t.last() == s[k - 1]);
        if k >= 2 {
            assert(t[t.len() - 2] == s[k - 2]);
        }
        if !is_ws(s[k - 1]) && k >= 2 && is_ws(s[k - 2]) {
            assert(s.take(k - 2).push(' ').push(s[k - 1]) =~= t);
        }
        if !is_ws(s[k - 1]) && !(k >= 2 && is_ws(s[k - 2])) {
            assert(s.take(k - 1).push(s[k - 1]) =~= t);
        }
    } else {
        assert(s.take(0) =~= Seq::<char>::empty());
    }
}

/// Collapsing white space keeps every other character, in order: the
/// characters that are not white space are those of the original text.
pub proof fn lemma_collapse_keeps_other_characters(s: Seq<char>)
    ensures
        collapse_ws(s).filter(|c: char| !is_ws(c)) == s.filter(|c: char| !is_ws(c)),
    decreases s.len(),
{
    reveal(Seq::filter);
    if s.len() > 0 {
        lemma_collapse_keeps_other_characters(s.drop_last());
        let p = collapse_ws(s.drop_last());
        let c = s.last();
        let f = |c: char| !is_ws(c);
        assert(p.push(c).drop_last() =~= p);
        assert(p.push(' ').drop_last() =~= p);
        assert(p.push(' ').push(c).drop_last() =~= p.push(' '));
        assert(p.push(' ').filter(f) == p.filter(f));
    }
}

/// Text that is already single-spaced collapses to itself.
pub proof fn lemma_collapse_single_spaced_unchanged(s: Seq<char>)
    requires
        single_spaced(s),
    ensures
        collapse_ws(s) == s,
{
    lemma_collapse_prefix_of_single_spaced(s, s.len() as int);
    assert(s.take(s.len() as int) =~= s);
}

/// A non-empty line with single spaces between its words and no more than
/// `max` characters is its own preview.
pub proof fn lemma_preview_keeps_short_line(s: Seq<char>, max: nat, placeholder: Seq<char>)
    requires
        single_spaced(s),
        0 < s.len() <= max,
    ensures
        preview_spec(s, max, placeholder) == s,
{
    lemma_collapse_single_spaced_unchanged(s);
}

/// The collapsed text of `s`, built in one pass.
pub fn collapse_whitespace(s: &Vec<char>) -> (r: Vec<char>)
    ensures
        r@ == collapse_ws(s@),
        single_spaced(r@),
{
    let mut out: Vec<char> = Vec::new();
    let mut pending = false;
    let mut i: usize = 0;
    while i < s.len()
        invariant
            i <= s.len(),
            out@ == collapse_ws(s@.take(i as int)),
            pending == (out@.len() > 0 && i > 0 && is_ws(s@[i - 1])),
        decreases s.len() - i,
    {
        let c = s[i];
        let ghost t = s@.take(i + 1);
        assert(t.drop_last() =~= s@.take(i as int));
        assert(t.last() == c);
        if i > 0 {
            assert(t[t.len() - 2] == s@[i - 1]);
        }
        if is_whitespace(c) {
            if out.len() > 0 {
                pending = true;
            }
        } else {
            if pending {
                out.push(' ');
                pending = false;
            }
            out.push(c);
        }
        i = i + 1;
    }
    assert(s@.take(s.len() as int) =~= s@);
    proof {
        lemma_collapse_single_spaced(s@);
    }
    out
}

/// The preview of `s`: its collapsed text (or `placeholder` when that is
/// empty), cut to `max` characters with `...` appended when it is longer.
pub open spec fn preview_spec(s: Seq<char>, max: nat, placeholder: Seq<char>) -> Seq<char> {
    let n = collapse_ws(s);
    let p = if n.len() == 0 {
        placeholder
    } else {
        n
    };
    if p.len() > max {
        p.take(max as int) + seq!['.', '.', '.']
    } else {
        p
    }
}

/// The preview is the collapsed text itself whenever that fits in `max`
/// characters; `...` is added only when characters of the collapsed text are
/// cut, and then exactly the first `max` of them are kept.
pub proof fn lemma_preview_cuts_only_long_text(s: Seq<char>, max: nat, placeholder: Seq<char>)
    ensures
        0 < collapse_ws(s).len() <= max ==> preview_spec(s, max, placeholder) == collapse_ws(s),
        collapse_ws(s).len() > max ==> preview_spec(s, max, placeholder) == collapse_ws(s).take(
            max as int,
        ) + seq!['.', '.', '.'],
        collapse_ws(s).len() == 0 && placeholder.len() <= max ==> preview_spec(
            s,
            max,
            placeholder,
        ) == placeholder,
        preview_spec(s, max, placeholder).len() <= max + 3,
{
}

/// Builds the one-line preview of a clipboard text.
pub fn preview(content: &str, max: usize, placeholder: &str) -> (r: String)
    ensures
        r@ == preview_spec(content@, max as nat, placeholder@),
        r@.len() <= max + 3,
        0 < collapse_ws(content@).len() <= max ==> r@ == collapse_ws(content@),
        collapse_ws(content@).len() > max ==> r@ == collapse_ws(content@).take(max as int) + seq![
            '.',
            '.',
            '.',
        ],
        collapse_ws(content@).len() == 0 && placeholder@.len() <= max ==> r@ == placeholder@,
{
    let chars = to_chars(content);
    let normalized = collapse_whitespace(&chars);
    let p = if normalized.len() == 0 {
        to_chars(placeholder)
    } else {
        normalized
    };
    let mut r = String::new();
    if p.len() > max {
        let mut i: usize = 0;
        while i < max
            invariant
                i <= max < p.len(),
                r@ == p@.take(i as int),
            decreases max - i,
        {
            push_char(&mut r, p[i]);
            assert(p@.take(i + 1) =~= p@.take(i as int).push(p@[i as int]));
            i = i + 1;
        }
        push_char(&mut r, '.');
        push_char(&mut r, '.');
        push_char(&mut r, '.');
        assert(r@ =~= p@.take(max as int) + seq!['.', '.', '.']);
    } else {
        push_chars(&mut r, &p);
        assert(r@ =~= p@);
    }
    r
}


/// Whether two texts hold the same characters.
pub fn chars_equal(a: &str, b: &str) -> (r: bool)
    ensures
        r == (a@ == b@),
{
    let x = to_chars(a);
    let y = to_chars(b);
    if x.len() != y.len() {
        return false;
    }
    let mut i: usize = 0;
    while i < x.len()
        invariant
            x.len() == y.len(),
            x@ == a@,
            y@ == b@,
            i <= x.len(),
            forall|k: int| 0 <= k < i ==> x@[k] == y@[k],
        decreases x.len() - i,
    {
        if x[i] != y[i] {
            assert(x@[i as int] != y@[i as int]);
            return false;
        }
        i = i + 1;
    }
    assert(x@ =~= y@);
    true
}


/// `str::strip_prefix(..).unwrap_or(s)`: `s` without `prefix` when it starts
/// with it, else `s` itself.
pub open spec fn strip_prefix_or_keep(s: Seq<char>, prefix: Seq<char>) -> Seq<char> {
    if prefix.len() <= s.len() && s.take(prefix.len() as int) == prefix {
        s.skip(prefix.len() as int)
    } else {
        s
    }
}

/// `char::to_ascii_uppercase`.
pub open spec fn ascii_upper_char(c: char) -> char {
    if 'a' <= c && c <= 'z' {
        ((c as int) - 32) as char
    } else {
        c
    }
}

/// `str::to_ascii_uppercase`.
pub open spec fn ascii_upper(s: Seq<char>) -> Seq<char> {
    Seq::new(s.len(), |i: int| ascii_upper_char(s[i]))
}

/// Whether `s` starts with `prefix`.
pub fn starts_with_chars(s: &Vec<char>, prefix: &Vec<char>) -> (r: bool)
    ensures
        r == (prefix@.len() <= s@.len() && s@.take(prefix@.len() as int) == prefix@),
{
    if prefix.len() > s.len() {
        return false;
    }
    let mut i: usize = 0;
    while i < prefix.len()
        invariant
            prefix.len() <= s.len(),
            i <= prefix.len(),
            forall|k: int| 0 <= k < i ==> s@[k] == prefix@[k],
        decreases prefix.len() - i,
    {
        if s[i] != prefix[i] {
            assert(s@.take(prefix@.len() as int)[i as int] != prefix@[i as int]);
            return false;
        }
        i = i + 1;
    }
    assert(s@.take(prefix@.len() as int) =~= prefix@);
    true
}

/// The characters of `s` from index `start` on.
pub fn chars_from(s: &Vec<char>, start: usize) -> (r: Vec<char>)
    requires
        start <= s.len(),
    ensures
        r@ == s@.skip(start as int),
{
    let mut r: Vec<char> = Vec::new();
    let mut i: usize = start;
    while i < s.len()
        invariant
            start <= i <= s.len(),
            r@ == s@.subrange(start as int, i as int),
        decreases s.len() - i,
    {
        r.push(s[i]);
        i = i + 1;
    }
    r
}

/// `s` without `prefix` when it starts with it, else `s` itself.
pub fn strip_prefix_chars(s: &Vec<char>, prefix: &Vec<char>) -> (r: Vec<char>)
    ensures
        r@ == strip_prefix_or_keep(s@, prefix@),
{
    if starts_with_chars(s, prefix) {
        chars_from(s, prefix.len())
    } else {
        s.clone()
    }
}

/// The characters of `s` with ASCII letters made uppercase.
pub fn ascii_uppercase_chars(s: &Vec<char>) -> (r: Vec<char>)
    ensures
        r@ == ascii_upper(s@),
{
    let mut r: Vec<char> = Vec::new();
    let mut i: usize = 0;
    while i < s.len()
        invariant
            i <= s.len(),
            r@ == ascii_upper(s@.take(i as int)),
        decreases s.len() - i,
    {
        let c = s[i];
        let u = if 'a' <= c && c <= 'z' {
            ((c as u32) - 32) as u8 as char
        } else {
            c
        };
        r.push(u);
        assert(ascii_upper(s@.take(i + 1)) =~= ascii_upper(s@.take(i as int)).push(u));
        i = i + 1;
    }
    assert(s@.take(s.len() as int) =~= s@);
    r
}


/// A number written in decimal is a non-empty run of digits that reads
/// back as the number.
pub proof fn lemma_dec_nat_reads_back(n: nat)
    ensures
        dec_nat(n).len() > 0,
        all_digits(dec_nat(n)),
        digits_value(dec_nat(n)) == n,
        !is_ws(dec_nat(n)[0]),
        dec_nat(n)[0] != '+',
    decreases n,
{
    if n >= 10 {
        lemma_dec_nat_reads_back(n / 10);
        assert(dec_nat(n).drop_last() =~= dec_nat(n / 10));
        assert(dec_nat(n)[0] == dec_nat(n / 10)[0]);
        assert(dec_nat(n).last() == digit_char(n % 10));
        assert((digit_char(n % 10) as int) - 48 == n % 10);
        assert(n == (n / 10) * 10 + n % 10);
        assert(digits_value(dec_nat(n)) == digits_value(dec_nat(n / 10)) * 10 + (n % 10));
    } else {
        assert(dec_nat(n).drop_last() =~= Seq::<char>::empty());
        assert((digit_char(n) as int) - 48 == n);
        assert(digits_value(dec_nat(n)) == digits_value(Seq::<char>::empty()) * 10 + n);
    }
}

/// Text that neither starts nor ends with white space is its own trim.
pub proof fn lemma_trim_unchanged(s: Seq<char>)
    requires
        s.len() > 0 ==> !is_ws(s[0]) && !is_ws(s.last()),
    ensures
        trim(s) == s,
{
}

/// Writing a number in decimal and parsing it back gives the number, for
/// every unsigned type wide enough to hold it.
pub proof fn lemma_parse_dec_round_trip(n: nat, max: nat)
    requires
        n <= max,
    ensures
        parse_unsigned(trim(dec_nat(n)), max) == Some(n),
{
    lemma_dec_nat_reads_back(n);
    let d = dec_nat(n);
    assert(is_digit(d[d.len() - 1]));
    lemma_trim_unchanged(d);
    lemma_dec_nat_no_problem(n, max);
    if d.len() == 1 {
        assert(is_digit(d[0]));
    }
}

/// A non-empty run of digits whose value fits reads without a problem.
pub proof fn lemma_digits_read_fine(d: Seq<char>, max: nat)
    requires
        all_digits(d),
        digits_value(d) <= max,
    ensures
        digits_problem(d, max) is None,
    decreases d.len(),
{
    if d.len() > 0 {
        let p = d.drop_last();
        assert(all_digits(p)) by {
            assert forall|i: int| 0 <= i < p.len() implies is_digit(#[trigger] p[i]) by {
                assert(p[i] == d[i]);
            }
        }
        assert(is_digit(d[d.len() - 1]));
        assert(digits_value(p) <= digits_value(d));
        lemma_digits_read_fine(p, max);
    }
}

/// `str::parse` of an unsigned type reads a run of digits as its value
/// whenever that value fits.
pub proof fn lemma_parse_digits(d: Seq<char>, max: nat)
    requires
        d.len() > 0,
        all_digits(d),
        digits_value(d) <= max,
    ensures
        parse_unsigned_result(d, max) == Ok::<nat, IntProblem>(digits_value(d)),
{
    assert(is_digit(d[0]));
    lemma_digits_read_fine(d, max);
}

proof fn lemma_dec_nat_no_problem(n: nat, max: nat)
    requires
        n <= max,
    ensures
        digits_problem(dec_nat(n), max) is None,
    decreases n,
{
    lemma_dec_nat_reads_back(n);
    if n >= 10 {
        lemma_dec_nat_no_problem(n / 10, max);
        assert(dec_nat(n).drop_last() =~= dec_nat(n / 10));
        assert(digits_problem(dec_nat(n).drop_last(), max) is None);
        assert(is_digit(dec_nat(n).last()));
    } else {
        assert(dec_nat(n).drop_last() =~= Seq::<char>::empty());
        assert(digits_problem(Seq::<char>::empty(), max) is None);
        assert(is_digit(dec_nat(n).last()));
    }
    assert(digits_value(dec_nat(n)) <= max);
}

} // verus!
