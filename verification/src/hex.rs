//! Hexadecimal byte strings such as key IVs (`0x...`) and SCTE-35 payloads.
//!
//! The text is read two bytes of its UTF-8 encoding at a time, each pair as a
//! base-16 `u8` literal (an optional `+`, then hexadecimal digits).
use crate::text::{has_prefix, strip_all_prefixes, strip_all_prefixes_str};
use vstd::prelude::*;

verus! {

/// The number of bytes that the UTF-8 encoding of `c` takes.
pub open spec fn utf8_width(c: char) -> nat {
    let u = c as u32;
    if u < 0x80 {
        1
    } else if u < 0x800 {
        2
    } else if u < 0x10000 {
        3
    } else {
        4
    }
}

/// The number of bytes of the UTF-8 encoding of `s`.
pub open spec fn utf8_len(s: Seq<char>) -> nat
    decreases s.len(),
{
    if s.len() == 0 {
        0
    } else {
        utf8_len(s.drop_last()) + utf8_width(s.last())
    }
}

/// Every character of `s` is ASCII.
pub open spec fn all_ascii(s: Seq<char>) -> bool {
    forall|i: int| 0 <= i < s.len() ==> (s[i] as u32) < 0x80
}

/// Cutting the UTF-8 encoding of `t` into two-byte pieces at even offsets cuts
/// through some character: one of three or four bytes, or one of two bytes that
/// starts at an odd offset.
pub open spec fn pair_slicing_breaks(t: Seq<char>) -> bool {
    exists|j: int|
        0 <= j < t.len() && (utf8_width(t[j]) >= 3 || (utf8_width(t[j]) == 2 && utf8_len(t.take(j))
            % 2 == 1))
}

/// An ASCII hexadecimal digit.
pub open spec fn is_hex_digit(c: char) -> bool {
    ('0' <= c && c <= '9') || ('a' <= c && c <= 'f') || ('A' <= c && c <= 'F')
}

/// The value of a hexadecimal digit.
pub open spec fn hex_digit_value(c: char) -> nat {
    if '0' <= c && c <= '9' {
        ((c as u32) - 48) as nat
    } else if 'a' <= c && c <= 'f' {
        ((c as u32) - 87) as nat
    } else {
        ((c as u32) - 55) as nat
    }
}

/// What `u8::from_str_radix(_, 16)` gives for the two characters `a`, `b`:
/// two hexadecimal digits, or `+` and one digit.
pub open spec fn hex_pair(a: char, b: char) -> Option<u8> {
    if is_hex_digit(a) && is_hex_digit(b) {
        Some((hex_digit_value(a) * 16 + hex_digit_value(b)) as u8)
    } else if a == '+' && is_hex_digit(b) {
        Some(hex_digit_value(b) as u8)
    } else {
        None
    }
}

/// The bytes of the character pairs of `t`, when every pair reads as a byte.
pub open spec fn hex_pairs(t: Seq<char>) -> Option<Seq<u8>>
    decreases t.len(),
{
    if t.len() < 2 {
        Some(Seq::empty())
    } else {
        match (hex_pair(t[0], t[1]), hex_pairs(t.skip(2))) {
            (Some(b), Some(rest)) => Some(seq![b] + rest),
            _ => None,
        }
    }
}

/// The bytes of the character pairs of `t` that read as a byte; a two-byte
/// character forms a pair of its own, which never reads as a byte.
pub open spec fn hex_pairs_lenient(t: Seq<char>) -> Seq<u8>
    decreases t.len(),
{
    if t.len() == 0 {
        Seq::empty()
    } else if utf8_width(t[0]) == 2 {
        hex_pairs_lenient(t.drop_first())
    } else if t.len() >= 2 {
        match hex_pair(t[0], t[1]) {
            Some(b) => seq![b] + hex_pairs_lenient(t.skip(2)),
            None => hex_pairs_lenient(t.skip(2)),
        }
    } else {
        Seq::empty()
    }
}

/// The hexadecimal digits of `s`: without any leading `0x`, then any leading `0X`.
pub open spec fn hex_body(s: Seq<char>) -> Seq<char> {
    strip_all_prefixes(strip_all_prefixes(s, "0x"@), "0X"@)
}

/// Reading `s` strictly would slice through a character.
pub open spec fn hex_strict_breaks(s: Seq<char>) -> bool {
    utf8_len(hex_body(s)) % 2 == 0 && pair_slicing_breaks(hex_body(s))
}

/// Reading `s` leniently would slice through a character or past its end.
pub open spec fn hex_lenient_breaks(s: Seq<char>) -> bool {
    utf8_len(hex_body(s)) % 2 == 1 || pair_slicing_breaks(hex_body(s))
}

/// The bytes that the hexadecimal text `s` denotes, when it has an even number
/// of bytes and every pair reads as a byte.
pub open spec fn hex_from_text(s: Seq<char>) -> Option<Seq<u8>> {
    let t = hex_body(s);
    if utf8_len(t) % 2 != 0 {
        None
    } else if !all_ascii(t) {
        None
    } else {
        hex_pairs(t)
    }
}

/// The bytes of the pairs of the hexadecimal text `s` that read as a byte.
pub open spec fn hex_lenient_from_text(s: Seq<char>) -> Seq<u8> {
    hex_pairs_lenient(hex_body(s))
}

/// An ASCII text has one byte per character.
pub proof fn lemma_ascii_utf8_len(s: Seq<char>)
    requires
        all_ascii(s),
    ensures
        utf8_len(s) == s.len(),
    decreases s.len(),
{
    if s.len() > 0 {
        lemma_ascii_utf8_len(s.drop_last());
    }
}

/// The value of a hexadecimal digit.
fn hex_digit(c: char) -> (r: Option<u8>)
    ensures
        r is Some <==> is_hex_digit(c),
        r matches Some(v) ==> v == hex_digit_value(c),
{
    if '0' <= c && c <= '9' {
        Some((c as u8) - 48)
    } else if 'a' <= c && c <= 'f' {
        Some((c as u8) - 87)
    } else if 'A' <= c && c <= 'F' {
        Some((c as u8) - 55)
    } else {
        None
    }
}

/// Reads two characters as a base-16 byte.
fn read_pair(a: char, b: char) -> (r: Option<u8>)
    ensures
        r == hex_pair(a, b),
{
    match (hex_digit(a), hex_digit(b)) {
        (Some(x), Some(y)) => Some(x * 16 + y),
        (None, Some(y)) => if a == '+' {
            Some(y)
        } else {
            None
        },
        _ => None,
    }
}

/// The hexadecimal digits of `s`.
fn hex_body_of(s: &[char]) -> (r: &[char])
    ensures
        r@ == hex_body(s@),
{
    proof {
        reveal_strlit("0x");
        reveal_strlit("0X");
    }
    let t = strip_all_prefixes_str(s, "0x");
    strip_all_prefixes_str(t, "0X")
}

/// Whether every character of `t` is ASCII.
fn is_ascii_chars(t: &[char]) -> (r: bool)
    ensures
        r == all_ascii(t@),
{
    let mut i: usize = 0;
    while i < t.len()
        invariant
            i <= t@.len(),
            forall|k: int| 0 <= k < i ==> (t@[k] as u32) < 0x80,
        decreases t.len() - i,
    {
        if (t[i] as u32) >= 0x80 {
            return false;
        }
        i += 1;
    }
    true
}

/// Whether the UTF-8 encoding of `t` has an odd number of bytes.
fn utf8_len_odd(t: &[char]) -> (r: bool)
    ensures
        r == (utf8_len(t@) % 2 == 1),
{
    let mut odd = false;
    let mut i: usize = 0;
    while i < t.len()
        invariant
            i <= t@.len(),
            odd == (utf8_len(t@.take(i as int)) % 2 == 1),
        decreases t.len() - i,
    {
        let u = t[i] as u32;
        assert(t@.take(i + 1).drop_last() =~= t@.take(i as int));
        if u < 0x80 || (0x800 <= u && u < 0x10000) {
            odd = !odd;
        }
        i += 1;
    }
    assert(t@.take(i as int) =~= t@);
    odd
}

/// Whether cutting the UTF-8 encoding of `t` into two-byte pieces cuts through
/// a character.
fn pair_slicing_cuts(t: &[char]) -> (r: bool)
    ensures
        r == pair_slicing_breaks(t@),
{
    let mut odd = false;
    let mut i: usize = 0;
    while i < t.len()
        invariant
            i <= t@.len(),
            odd == (utf8_len(t@.take(i as int)) % 2 == 1),
            forall|j: int|
                0 <= j < i ==> !(utf8_width(#[trigger] t@[j]) >= 3 || (utf8_width(t@[j]) == 2
                    && utf8_len(t@.take(j)) % 2 == 1)),
        decreases t.len() - i,
    {
        let u = t[i] as u32;
        if u >= 0x10000 || (0x800 <= u && u < 0x10000) || (0x80 <= u && u < 0x800 && odd) {
            assert(utf8_width(t@[i as int]) >= 3 || (utf8_width(t@[i as int]) == 2 && utf8_len(
                t@.take(i as int),
            ) % 2 == 1));
            return true;
        }
        assert(t@.take(i + 1).drop_last() =~= t@.take(i as int));
        if u < 0x80 || (0x800 <= u && u < 0x10000) {
            odd = !odd;
        }
        i += 1;
    }
    false
}

/// Whether reading `s` strictly would slice through a character (see
/// [`parse_hex_string`]).
pub fn hex_strict_would_break(s: &[char]) -> (r: bool)
    ensures
        r == hex_strict_breaks(s@),
{
    let t = hex_body_of(s);
    !utf8_len_odd(t) && pair_slicing_cuts(t)
}

/// Whether reading `s` leniently would slice through a character or past its
/// end (see [`parse_hex`]).
pub fn hex_lenient_would_break(s: &[char]) -> (r: bool)
    ensures
        r == hex_lenient_breaks(s@),
{
    let t = hex_body_of(s);
    utf8_len_odd(t) || pair_slicing_cuts(t)
}

/// Parses hexadecimal text, with or without a `0x` prefix, into bytes: `None`
/// unless it has an even number of bytes that all pair into base-16 bytes.
pub fn parse_hex_string(s: &[char]) -> (r: Option<Vec<u8>>)
    requires
        !hex_strict_breaks(s@),
    ensures
        r.deep_view() == hex_from_text(s@),
{
    let t = hex_body_of(s);
    if utf8_len_odd(t) {
        return None;
    }
    if !is_ascii_chars(t) {
        return None;
    }
    proof {
        lemma_ascii_utf8_len(t@);
    }
    let mut out: Vec<u8> = Vec::new();
    let mut i: usize = 0;
    let n = t.len();
    assert(t@.skip(0) =~= t@);
    proof {
        match hex_pairs(t@) {
            Some(rest) => {
                assert(out@ + rest =~= rest);
            },
            None => {},
        }
    }
    while i < n
        invariant
            t@ == hex_body(s@),
            all_ascii(t@),
            n == t@.len(),
            n % 2 == 0,
            i % 2 == 0,
            i <= n,
            hex_pairs(t@) == (match hex_pairs(t@.skip(i as int)) {
                Some(rest) => Some(out@ + rest),
                None => None,
            }),
        decreases n - i,
    {
        let ghost rest = t@.skip(i as int);
        assert(rest.skip(2) =~= t@.skip(i + 2));
        assert(rest[0] == t@[i as int] && rest[1] == t@[i + 1]);
        match read_pair(t[i], t[i + 1]) {
            Some(b) => {
                let ghost before = out@;
                out.push(b);
                proof {
                    match hex_pairs(t@.skip(i + 2)) {
                        Some(r2) => {
                            assert(before + (seq![b] + r2) =~= out@ + r2);
                        },
                        None => {},
                    }
                }
            },
            None => {
                assert(rest.len() >= 2);
                assert(hex_pairs(rest) is None);
                return None;
            },
        }
        i += 2;
    }
    assert(t@.skip(i as int) =~= Seq::<char>::empty());
    assert(out@ + Seq::<u8>::empty() =~= out@);
    assert(out.deep_view() =~= out@);
    Some(out)
}

/// Parses hexadecimal text, with or without a `0x` prefix, into the bytes of the
/// pairs that read as a byte, skipping the others.
pub fn parse_hex(s: &[char]) -> (r: Vec<u8>)
    requires
        !hex_lenient_breaks(s@),
    ensures
        r@ == hex_lenient_from_text(s@),
{
    let t = hex_body_of(s);
    let mut out: Vec<u8> = Vec::new();
    let mut i: usize = 0;
    let n = t.len();
    assert(t@.skip(0) =~= t@);
    assert(out@ + hex_pairs_lenient(t@) =~= hex_pairs_lenient(t@));
    while i < n
        invariant
            t@ == hex_body(s@),
            n == t@.len(),
            i <= n,
            hex_pairs_lenient(t@) == out@ + hex_pairs_lenient(t@.skip(i as int)),
        decreases n - i,
    {
        let ghost rest = t@.skip(i as int);
        let u = t[i] as u32;
        assert(rest[0] == t@[i as int]);
        if 0x80 <= u && u < 0x800 {
            assert(rest.drop_first() =~= t@.skip(i + 1));
            i += 1;
        } else if i + 1 < n {
            assert(rest.skip(2) =~= t@.skip(i + 2));
            assert(rest[1] == t@[i + 1]);
            match read_pair(t[i], t[i + 1]) {
                Some(b) => {
                    let ghost before = out@;
                    out.push(b);
                    assert(before + (seq![b] + hex_pairs_lenient(t@.skip(i + 2))) =~= out@
                        + hex_pairs_lenient(t@.skip(i + 2)));
                },
                None => {},
            }
            i += 2;
        } else {
            assert(hex_pairs_lenient(rest) =~= Seq::<u8>::empty());
            assert(out@ + Seq::<u8>::empty() =~= out@);
            return out;
        }
    }
    assert(t@.skip(i as int) =~= Seq::<char>::empty());
    assert(out@ + Seq::<u8>::empty() =~= out@);
    out
}

} // verus!
