//! Character-level text helpers used by the playlist and metadata parsers.
//!
//! Text is handled as slices of `char`; every helper states what it returns over
//! the `Seq<char>` view of its input.
use vstd::prelude::*;

verus! {

/// The characters that `char::is_whitespace` accepts (Unicode `White_Space`).
pub open spec fn is_ws(c: char) -> bool {
    let u = c as u32;
    ||| (9 <= u && u <= 13)
    ||| u == 32
    ||| u == 0x85
    ||| u == 0xa0
    ||| u == 0x1680
    ||| (0x2000 <= u && u <= 0x200a)
    ||| u == 0x2028
    ||| u == 0x2029
    ||| u == 0x202f
    ||| u == 0x205f
    ||| u == 0x3000
}

/// `s` with its leading whitespace removed.
pub open spec fn trim_start(s: Seq<char>) -> Seq<char>
    decreases s.len(),
{
    if s.len() > 0 && is_ws(s[0]) {
        trim_start(s.drop_first())
    } else {
        s
    }
}

/// `s` with its trailing whitespace removed.
pub open spec fn trim_end(s: Seq<char>) -> Seq<char>
    decreases s.len(),
{
    if s.len() > 0 && is_ws(s.last()) {
        trim_end(s.drop_last())
    } else {
        s
    }
}

/// `s` with whitespace removed at both ends (what `str::trim` gives).
pub open spec fn trim(s: Seq<char>) -> Seq<char> {
    trim_end(trim_start(s))
}

/// `s` begins with `p`.
pub open spec fn has_prefix(s: Seq<char>, p: Seq<char>) -> bool {
    p.len() <= s.len() && s.take(p.len() as int) == p
}

/// `c` does not occur in `s`.
pub open spec fn lacks(s: Seq<char>, c: char) -> bool {
    forall|j: int| 0 <= j < s.len() ==> s[j] != c
}

/// `i` is the position of the first `c` in `s`.
pub open spec fn first_at(s: Seq<char>, c: char, i: int) -> bool {
    &&& 0 <= i < s.len()
    &&& s[i] == c
    &&& forall|j: int| 0 <= j < i ==> s[j] != c
}

/// The position of the first `c` in `s`, or `-1` when `s` lacks `c`.
pub open spec fn index_of(s: Seq<char>, c: char) -> int {
    if lacks(s, c) {
        -1
    } else {
        choose|i: int| first_at(s, c, i)
    }
}

/// `i` is the position of the last `c` in `s`.
pub open spec fn last_at(s: Seq<char>, c: char, i: int) -> bool {
    &&& 0 <= i < s.len()
    &&& s[i] == c
    &&& forall|j: int| i < j < s.len() ==> s[j] != c
}

/// The position of the last `c` in `s`, or `-1` when `s` lacks `c`.
pub open spec fn last_index_of(s: Seq<char>, c: char) -> int {
    if lacks(s, c) {
        -1
    } else {
        choose|i: int| last_at(s, c, i)
    }
}

/// `p` occurs in `s` at position `i`.
pub open spec fn occurs_at(s: Seq<char>, p: Seq<char>, i: int) -> bool {
    0 <= i && i + p.len() <= s.len() && s.subrange(i, i + p.len()) == p
}

/// `p` occurs somewhere in `s` (what `str::contains` tests).
pub open spec fn contains_seq(s: Seq<char>, p: Seq<char>) -> bool {
    exists|i: int| occurs_at(s, p, i)
}

/// `a` sorts before `b`: lexicographic order by code point, a proper prefix
/// first (the order of `str`, since UTF-8 keeps code point order bytewise).
pub open spec fn lex_less(a: Seq<char>, b: Seq<char>) -> bool
    decreases a.len(),
{
    if b.len() == 0 {
        false
    } else if a.len() == 0 {
        true
    } else if a[0] != b[0] {
        a[0] < b[0]
    } else {
        lex_less(a.drop_first(), b.drop_first())
    }
}

/// ASCII lower-casing of one character (what `char::to_ascii_lowercase` gives).
pub open spec fn ascii_lower(c: char) -> char {
    if 'A' <= c && c <= 'Z' {
        ((c as u32) + 32) as char
    } else {
        c
    }
}

/// `a` and `b` are equal when ASCII letters are compared without case.
pub open spec fn eq_ignore_ascii_case(a: Seq<char>, b: Seq<char>) -> bool {
    a.len() == b.len() && forall|i: int| 0 <= i < a.len() ==> ascii_lower(a[i]) == ascii_lower(b[i])
}

/// An ASCII decimal digit.
pub open spec fn is_digit(c: char) -> bool {
    '0' <= c && c <= '9'
}

/// Every character of `s` is an ASCII decimal digit.
pub open spec fn all_digits(s: Seq<char>) -> bool {
    forall|i: int| 0 <= i < s.len() ==> is_digit(s[i])
}

/// The number written by the decimal digits `s`.
pub open spec fn digits_value(s: Seq<char>) -> nat
    decreases s.len(),
{
    if s.len() == 0 {
        0
    } else {
        digits_value(s.drop_last()) * 10 + ((s.last() as u32) - 48) as nat
    }
}

/// The digits of an unsigned integer literal: `s` without one leading `+`.
pub open spec fn unsigned_digits(s: Seq<char>) -> Seq<char> {
    if s.len() > 0 && s[0] == '+' {
        s.drop_first()
    } else {
        s
    }
}

/// The value of an unsigned integer literal as `u64::from_str` reads it: an
/// optional `+` followed by one or more ASCII digits; `None` for anything else.
pub open spec fn unsigned_value(s: Seq<char>) -> Option<nat> {
    let d = unsigned_digits(s);
    if d.len() > 0 && all_digits(d) {
        Some(digits_value(d))
    } else {
        None
    }
}

/// What `u64::from_str` returns on `s`, with the error collapsed to `None`.
pub open spec fn u64_from_text(s: Seq<char>) -> Option<u64> {
    match unsigned_value(s) {
        Some(v) => if v <= u64::MAX {
            Some(v as u64)
        } else {
            None
        },
        None => None,
    }
}

/// What `u32::from_str` returns on `s`, with the error collapsed to `None`.
pub open spec fn u32_from_text(s: Seq<char>) -> Option<u32> {
    match unsigned_value(s) {
        Some(v) => if v <= u32::MAX {
            Some(v as u32)
        } else {
            None
        },
        None => None,
    }
}

/// The decimal digit character for `d < 10`.
pub open spec fn digit_char(d: nat) -> char {
    ((d + 48) as u32) as char
}

/// The decimal representation of `n`, without leading zeros.
pub open spec fn decimal(n: nat) -> Seq<char>
    decreases n,
{
    if n < 10 {
        seq![digit_char(n)]
    } else {
        decimal(n / 10).push(digit_char(n % 10))
    }
}

/// A line that ended in a line feed loses one trailing carriage return with it.
pub open spec fn strip_cr(l: Seq<char>) -> Seq<char> {
    if l.len() > 0 && l.last() == '\r' {
        l.drop_last()
    } else {
        l
    }
}

/// The lines of `s` as `str::lines` yields them: split at each `'\n'`, a `'\r'`
/// before the `'\n'` removed, and no empty line after a final `'\n'`.
pub open spec fn text_lines(s: Seq<char>) -> Seq<Seq<char>>
    decreases s.len(),
{
    if s.len() == 0 {
        Seq::empty()
    } else if lacks(s, '\n') {
        seq![s]
    } else {
        let i = index_of(s, '\n');
        proof {
            lemma_index_of_found(s, '\n');
        }
        seq![strip_cr(s.take(i))] + text_lines(s.skip(i + 1))
    }
}

/// The pieces of `s` between the occurrences of `c` (what `str::split` yields
/// for a character pattern).
pub open spec fn split_on(s: Seq<char>, c: char) -> Seq<Seq<char>>
    decreases s.len(),
{
    if lacks(s, c) {
        seq![s]
    } else {
        let i = index_of(s, c);
        proof {
            lemma_index_of_found(s, c);
        }
        seq![s.take(i)] + split_on(s.skip(i + 1), c)
    }
}

/// `i` is the first position at which `p` occurs in `s`.
pub open spec fn first_occurrence(s: Seq<char>, p: Seq<char>, i: int) -> bool {
    occurs_at(s, p, i) && forall|j: int| 0 <= j < i ==> !occurs_at(s, p, j)
}

/// The first position at which `p` occurs in `s` (what `str::find` gives), or `-1`.
pub open spec fn find_seq(s: Seq<char>, p: Seq<char>) -> int {
    if contains_seq(s, p) {
        choose|i: int| first_occurrence(s, p, i)
    } else {
        -1
    }
}

/// `s` with every leading copy of `p` removed (what `str::trim_start_matches` gives
/// for a non-empty text pattern).
pub open spec fn strip_all_prefixes(s: Seq<char>, p: Seq<char>) -> Seq<char>
    decreases s.len(),
{
    if p.len() > 0 && has_prefix(s, p) {
        strip_all_prefixes(s.skip(p.len() as int), p)
    } else {
        s
    }
}

/// `s` with every leading `c` removed.
pub open spec fn trim_start_char(s: Seq<char>, c: char) -> Seq<char>
    decreases s.len(),
{
    if s.len() > 0 && s[0] == c {
        trim_start_char(s.drop_first(), c)
    } else {
        s
    }
}

/// `s` with every trailing `c` removed (what `str::trim_end_matches` gives for a
/// character pattern).
pub open spec fn trim_end_char(s: Seq<char>, c: char) -> Seq<char>
    decreases s.len(),
{
    if s.len() > 0 && s.last() == c {
        trim_end_char(s.drop_last(), c)
    } else {
        s
    }
}

/// `s` with every leading and trailing `c` removed (what `str::trim_matches` gives
/// for a character pattern).
pub open spec fn trim_char(s: Seq<char>, c: char) -> Seq<char> {
    trim_end_char(trim_start_char(s, c), c)
}

/// The mantissa of a decimal floating-point literal: digits with at most one
/// `.`, and at least one digit.
pub open spec fn mantissa_ok(m: Seq<char>) -> bool {
    &&& forall|i: int| 0 <= i < m.len() ==> is_digit(m[i]) || m[i] == '.'
    &&& forall|i: int, j: int| 0 <= i < j < m.len() ==> !(m[i] == '.' && m[j] == '.')
    &&& exists|i: int| 0 <= i < m.len() && is_digit(m[i])
}

/// An exponent of a floating-point literal: empty, or `e`/`E`, an optional
/// sign and one or more digits.
pub open spec fn exponent_ok(x: Seq<char>) -> bool {
    x.len() == 0 || (x.len() >= 2 && (x[0] == 'e' || x[0] == 'E') && {
        let d = if x[1] == '+' || x[1] == '-' {
            x.skip(2)
        } else {
            x.skip(1)
        };
        d.len() > 0 && all_digits(d)
    })
}

/// Where the exponent of `t` starts: its first `e` or `E`, or its end.
pub open spec fn exponent_start(t: Seq<char>) -> int {
    if lacks(t, 'e') && lacks(t, 'E') {
        t.len() as int
    } else if lacks(t, 'E') {
        index_of(t, 'e')
    } else if lacks(t, 'e') {
        index_of(t, 'E')
    } else if index_of(t, 'e') < index_of(t, 'E') {
        index_of(t, 'e')
    } else {
        index_of(t, 'E')
    }
}

/// The text that `f64::from_str` accepts, per its documented grammar:
/// an optional sign, then `inf`, `infinity` or `nan` (in any ASCII case),
/// or a number `(Digit+ | Digit+ '.' Digit* | Digit* '.' Digit+) Exp?`.
pub open spec fn float_literal(s: Seq<char>) -> bool {
    let t = if s.len() > 0 && (s[0] == '+' || s[0] == '-') {
        s.drop_first()
    } else {
        s
    };
    ||| eq_ignore_ascii_case(t, "inf"@)
    ||| eq_ignore_ascii_case(t, "infinity"@)
    ||| eq_ignore_ascii_case(t, "nan"@)
    ||| (mantissa_ok(t.take(exponent_start(t))) && exponent_ok(t.skip(exponent_start(t))))
}

// ---------------------------------------------------------------------------
// Lemmas
// ---------------------------------------------------------------------------

/// When `c` occurs in `s`, `index_of` is its first occurrence.
pub proof fn lemma_index_of_found(s: Seq<char>, c: char)
    requires
        !lacks(s, c),
    ensures
        first_at(s, c, index_of(s, c)),
        0 <= index_of(s, c) < s.len(),
{
    lemma_first_exists(s, c, s.len() as int);
}

/// Some occurrence of `c` before position `n` gives a first occurrence.
pub proof fn lemma_first_exists(s: Seq<char>, c: char, n: int)
    requires
        0 <= n <= s.len(),
        exists|j: int| 0 <= j < n && s[j] == c,
    ensures
        exists|i: int| first_at(s, c, i),
    decreases n,
{
    if exists|j: int| 0 <= j < n - 1 && s[j] == c {
        lemma_first_exists(s, c, n - 1);
    } else {
        assert(first_at(s, c, n - 1));
    }
}

/// There is at most one first occurrence.
pub proof fn lemma_first_at_unique(s: Seq<char>, c: char, i: int, k: int)
    requires
        first_at(s, c, i),
        first_at(s, c, k),
    ensures
        i == k,
{
}

/// `index_of` is the first occurrence whenever one exists.
pub proof fn lemma_index_of(s: Seq<char>, c: char, i: int)
    requires
        first_at(s, c, i),
    ensures
        index_of(s, c) == i,
{
    assert(!lacks(s, c));
    let k = choose|k: int| first_at(s, c, k);
    lemma_first_at_unique(s, c, i, k);
}

/// `last_index_of` is the last occurrence whenever one exists.
pub proof fn lemma_last_index_of(s: Seq<char>, c: char, i: int)
    requires
        last_at(s, c, i),
    ensures
        last_index_of(s, c) == i,
{
    assert(!lacks(s, c));
    let k = choose|k: int| last_at(s, c, k);
    if k < i {
        assert(s[i] != c);
    } else if i < k {
        assert(s[k] != c);
    }
}

/// The decimal representation of `n` is one or more digits that read back
/// as `n`.
pub proof fn lemma_decimal_reads_back(n: nat)
    ensures
        decimal(n).len() > 0,
        all_digits(decimal(n)),
        digits_value(decimal(n)) == n,
        unsigned_value(decimal(n)) == Some(n),
    decreases n,
{
    if n < 10 {
        let c = digit_char(n);
        assert(c as u32 == n + 48);
        let d = decimal(n);
        assert(d =~= seq![c]);
        assert(d.drop_last() =~= Seq::<char>::empty());
        assert(digits_value(d.drop_last()) == 0);
        assert(d.last() == c);
        assert(digits_value(d) == digits_value(d.drop_last()) * 10 + ((d.last() as u32) - 48) as nat);
    } else {
        lemma_decimal_reads_back(n / 10);
        let c = digit_char(n % 10);
        assert(c as u32 == n % 10 + 48);
        let d = decimal(n);
        assert(d.drop_last() =~= decimal(n / 10));
        assert(d.last() == c);
        assert(digits_value(d) == digits_value(d.drop_last()) * 10 + ((d.last() as u32) - 48) as nat);
        assert(digits_value(d) == digits_value(decimal(n / 10)) * 10 + (n % 10));
        assert forall|i: int| 0 <= i < d.len() implies is_digit(d[i]) by {
            if i < d.len() - 1 {
                assert(d[i] == decimal(n / 10)[i]);
            }
        }
        assert((n / 10) * 10 + n % 10 == n);
    }
    assert(decimal(n)[0] != '+') by {
        assert(is_digit(decimal(n)[0]));
    }
}

/// A prefix of digits never has a larger value than the whole.
pub proof fn lemma_digits_value_prefix(s: Seq<char>, i: int)
    requires
        0 <= i <= s.len(),
    ensures
        digits_value(s.take(i)) <= digits_value(s),
    decreases s.len() - i,
{
    if i < s.len() {
        lemma_digits_value_prefix(s, i + 1);
        assert(s.take(i + 1).drop_last() =~= s.take(i));
    } else {
        assert(s.take(i) =~= s);
    }
}

/// Splitting the trim at a leading whitespace character.
pub proof fn lemma_trim_start_step(s: Seq<char>, lo: int, hi: int)
    requires
        0 <= lo < hi <= s.len(),
        is_ws(s[lo]),
    ensures
        trim_start(s.subrange(lo, hi)) == trim_start(s.subrange(lo + 1, hi)),
{
    assert(s.subrange(lo, hi).drop_first() =~= s.subrange(lo + 1, hi));
}

/// Splitting the trim at a trailing whitespace character.
pub proof fn lemma_trim_end_step(s: Seq<char>, lo: int, hi: int)
    requires
        0 <= lo < hi <= s.len(),
        is_ws(s[hi - 1]),
    ensures
        trim_end(s.subrange(lo, hi)) == trim_end(s.subrange(lo, hi - 1)),
{
    assert(s.subrange(lo, hi).drop_last() =~= s.subrange(lo, hi - 1));
}

// ---------------------------------------------------------------------------
// Executable helpers
// ---------------------------------------------------------------------------

/// No text sorts before itself.
pub proof fn lemma_lex_less_irreflexive(a: Seq<char>)
    ensures
        !lex_less(a, a),
    decreases a.len(),
{
    if a.len() > 0 {
        lemma_lex_less_irreflexive(a.drop_first());
    }
}

/// Of two different texts, one sorts before the other.
pub proof fn lemma_lex_less_total(a: Seq<char>, b: Seq<char>)
    requires
        a != b,
    ensures
        lex_less(a, b) || lex_less(b, a),
    decreases a.len(),
{
    if a.len() > 0 && b.len() > 0 && a[0] == b[0] {
        if a.drop_first() == b.drop_first() {
            assert(a =~= seq![a[0]] + a.drop_first());
            assert(b =~= seq![b[0]] + b.drop_first());
        }
        lemma_lex_less_total(a.drop_first(), b.drop_first());
    } else if a.len() == 0 && b.len() == 0 {
        assert(a =~= b);
    } else if a.len() > 0 && b.len() > 0 {
        assert(a[0] != b[0]);
    }
}

/// The text order is transitive.
pub proof fn lemma_lex_less_transitive(a: Seq<char>, b: Seq<char>, c: Seq<char>)
    requires
        lex_less(a, b),
        lex_less(b, c),
    ensures
        lex_less(a, c),
    decreases a.len(),
{
    if a.len() > 0 && b.len() > 0 && c.len() > 0 && a[0] == b[0] && b[0] == c[0] {
        lemma_lex_less_transitive(a.drop_first(), b.drop_first(), c.drop_first());
    }
}

/// The characters of `s`, in order.
pub fn chars_of(s: &str) -> (r: Vec<char>)
    ensures
        r@ == s@,
{
    let mut r: Vec<char> = Vec::new();
    for c in it: s.chars()
        invariant
            it.seq() == s@,
            r@ == it.seq().take(it.index() as int),
    {
        r.push(c);
        assert(r@ =~= it.seq().take(it.index() + 1));
    }
    assert(r@ =~= s@);
    r
}

/// A `String` holding exactly the characters `cs`.
#[verifier::external_body]
pub fn string_of(cs: &[char]) -> (r: String)
    ensures
        r@ == cs@,
{
    cs.iter().collect()
}

/// Appends the characters of `s` to `out`.
pub fn push_str(out: &mut Vec<char>, s: &str)
    ensures
        final(out)@ == old(out)@ + s@,
{
    let cs = chars_of(s);
    let mut i: usize = 0;
    while i < cs.len()
        invariant
            i <= cs@.len(),
            cs@ == s@,
            out@ == old(out)@ + cs@.take(i as int),
        decreases cs.len() - i,
    {
        out.push(cs[i]);
        i += 1;
        assert(out@ =~= old(out)@ + cs@.take(i as int));
    }
    assert(cs@.take(i as int) =~= cs@);
}

/// Appends the characters of `s` to `out`.
pub fn push_chars(out: &mut Vec<char>, s: &[char])
    ensures
        final(out)@ == old(out)@ + s@,
{
    let mut i: usize = 0;
    while i < s.len()
        invariant
            i <= s@.len(),
            out@ == old(out)@ + s@.take(i as int),
        decreases s.len() - i,
    {
        out.push(s[i]);
        i += 1;
        assert(out@ =~= old(out)@ + s@.take(i as int));
    }
    assert(s@.take(i as int) =~= s@);
}

/// Whether `c` is whitespace in the sense of `char::is_whitespace`.
pub fn is_whitespace(c: char) -> (r: bool)
    ensures
        r == is_ws(c),
{
    let u = c as u32;
    (9 <= u && u <= 13) || u == 32 || u == 0x85 || u == 0xa0 || u == 0x1680 || (0x2000 <= u && u
        <= 0x200a) || u == 0x2028 || u == 0x2029 || u == 0x202f || u == 0x205f || u == 0x3000
}

/// `s` with whitespace removed at both ends.
pub fn trim_chars(s: &[char]) -> (r: &[char])
    ensures
        r@ == trim(s@),
{
    let mut lo: usize = 0;
    assert(s@.subrange(0, s@.len() as int) =~= s@);
    while lo < s.len() && is_whitespace(s[lo])
        invariant
            lo <= s@.len(),
            trim_start(s@) == trim_start(s@.subrange(lo as int, s@.len() as int)),
        decreases s.len() - lo,
    {
        proof {
            lemma_trim_start_step(s@, lo as int, s@.len() as int);
        }
        lo += 1;
    }
    assert(trim_start(s@.subrange(lo as int, s@.len() as int)) == s@.subrange(lo as int, s@.len() as int));
    assert(s@.subrange(0, s@.len() as int) =~= s@);
    let mut hi: usize = s.len();
    while hi > lo && is_whitespace(s[hi - 1])
        invariant
            lo <= hi <= s@.len(),
            trim(s@) == trim_end(s@.subrange(lo as int, hi as int)),
        decreases hi,
    {
        proof {
            lemma_trim_end_step(s@, lo as int, hi as int);
        }
        hi -= 1;
    }
    &s[lo..hi]
}

/// Whether `s` is exactly the text `lit`.
pub fn eq_str(s: &[char], lit: &str) -> (r: bool)
    ensures
        r == (s@ == lit@),
{
    let n = lit.unicode_len();
    if n != s.len() {
        return false;
    }
    let mut i: usize = 0;
    while i < n
        invariant
            n == lit@.len(),
            n == s@.len(),
            i <= n,
            s@.take(i as int) == lit@.take(i as int),
        decreases n - i,
    {
        if s[i] != lit.get_char(i) {
            assert(s@[i as int] != lit@[i as int]);
            return false;
        }
        i += 1;
        assert(s@.take(i as int) =~= lit@.take(i as int));
    }
    assert(s@ =~= s@.take(n as int));
    assert(lit@ =~= lit@.take(n as int));
    true
}

/// Whether `s` begins with the text `lit`.
pub fn starts_with_str(s: &[char], lit: &str) -> (r: bool)
    ensures
        r == has_prefix(s@, lit@),
{
    let n = lit.unicode_len();
    if n > s.len() {
        return false;
    }
    let r = eq_str(&s[0..n], lit);
    assert(s@.subrange(0, n as int) =~= s@.take(n as int));
    r
}

/// `s` without the prefix `lit`, when `s` begins with it.
pub fn strip_prefix_str<'a>(s: &'a [char], lit: &str) -> (r: Option<&'a [char]>)
    ensures
        r matches Some(rest) ==> has_prefix(s@, lit@) && rest@ == s@.skip(lit@.len() as int),
        r is None ==> !has_prefix(s@, lit@),
{
    if starts_with_str(s, lit) {
        let n = lit.unicode_len();
        Some(&s[n..s.len()])
    } else {
        None
    }
}

/// Position of the first `c` in `s`.
pub fn find_char(s: &[char], c: char) -> (r: Option<usize>)
    ensures
        r matches Some(i) ==> first_at(s@, c, i as int) && index_of(s@, c) == i,
        r is None ==> lacks(s@, c) && index_of(s@, c) == -1,
{
    let mut i: usize = 0;
    while i < s.len()
        invariant
            i <= s@.len(),
            forall|j: int| 0 <= j < i ==> s@[j] != c,
        decreases s.len() - i,
    {
        if s[i] == c {
            proof {
                lemma_index_of(s@, c, i as int);
            }
            return Some(i);
        }
        i += 1;
    }
    None
}

/// Position of the last `c` in `s`.
pub fn rfind_char(s: &[char], c: char) -> (r: Option<usize>)
    ensures
        r matches Some(i) ==> last_at(s@, c, i as int) && last_index_of(s@, c) == i,
        r is None ==> lacks(s@, c) && last_index_of(s@, c) == -1,
{
    let mut i: usize = s.len();
    while i > 0
        invariant
            i <= s@.len(),
            forall|j: int| i <= j < s@.len() ==> s@[j] != c,
        decreases i,
    {
        if s[i - 1] == c {
            proof {
                lemma_last_index_of(s@, c, i - 1);
            }
            return Some(i - 1);
        }
        i -= 1;
    }
    None
}

/// Whether `a` sorts before `b` (see [`lex_less`]).
pub fn lex_less_chars(a: &[char], b: &[char]) -> (r: bool)
    ensures
        r == lex_less(a@, b@),
{
    let mut i: usize = 0;
    assert(a@.skip(0) =~= a@ && b@.skip(0) =~= b@);
    while i < a.len() && i < b.len() && a[i] == b[i]
        invariant
            i <= a@.len(),
            i <= b@.len(),
            lex_less(a@, b@) == lex_less(a@.skip(i as int), b@.skip(i as int)),
        decreases a.len() - i,
    {
        assert(a@.skip(i as int).drop_first() =~= a@.skip(i + 1));
        assert(b@.skip(i as int).drop_first() =~= b@.skip(i + 1));
        i += 1;
    }
    if i == b.len() {
        false
    } else if i == a.len() {
        true
    } else {
        a[i] < b[i]
    }
}

/// Whether `p` occurs in `s`.
pub fn contains_chars(s: &[char], p: &[char]) -> (r: bool)
    ensures
        r == contains_seq(s@, p@),
{
    let n = p.len();
    let slen = s.len();
    if n > slen {
        assert forall|i: int| !occurs_at(s@, p@, i) by {}
        return false;
    }
    let mut i: usize = 0;
    while i <= s.len() - n
        invariant
            n == p@.len(),
            n <= s@.len(),
            slen == s@.len(),
            i <= s@.len() - n + 1,
            forall|k: int| 0 <= k < i ==> !occurs_at(s@, p@, k),
        decreases s.len() - i,
    {
        let mut j: usize = 0;
        let mut same = true;
        assert(s@.subrange(i as int, i as int) =~= p@.take(0));
        while j < n
            invariant
                n == p@.len(),
                i + n <= s@.len(),
                slen == s@.len(),
                j <= n,
                same == (s@.subrange(i as int, i + j) == p@.take(j as int)),
            decreases n - j,
        {
            assert(i + j < s@.len());
            let idx: usize = i + j;
            if same && s[idx] != p[j] {
                same = false;
            }
            proof {
                let a = s@.subrange(i as int, i + j + 1);
                let b = p@.take(j + 1);
                assert(a.take(j as int) =~= s@.subrange(i as int, i + j));
                assert(b.take(j as int) =~= p@.take(j as int));
                if same {
                    assert(a =~= b);
                } else {
                    if a == b {
                        assert(a[j as int] == b[j as int]);
                    }
                }
            }
            j += 1;
        }
        assert(p@.take(n as int) =~= p@);
        if same {
            assert(occurs_at(s@, p@, i as int));
            return true;
        }
        i += 1;
    }
    assert forall|k: int| !occurs_at(s@, p@, k) by {}
    false
}

/// Whether the literal `lit` occurs in `s`.
pub fn contains_str(s: &[char], lit: &str) -> (r: bool)
    ensures
        r == contains_seq(s@, lit@),
{
    let p = chars_of(lit);
    contains_chars(s, p.as_slice())
}

/// Whether `s` equals `lit` when ASCII letters are compared without case.
pub fn eq_ignore_case_str(s: &[char], lit: &str) -> (r: bool)
    ensures
        r == eq_ignore_ascii_case(s@, lit@),
{
    let p = chars_of(lit);
    if p.len() != s.len() {
        return false;
    }
    let mut i: usize = 0;
    while i < s.len()
        invariant
            p@ == lit@,
            p@.len() == s@.len(),
            i <= s@.len(),
            forall|k: int| 0 <= k < i ==> ascii_lower(s@[k]) == ascii_lower(p@[k]),
        decreases s.len() - i,
    {
        if to_ascii_lower(s[i]) != to_ascii_lower(p[i]) {
            return false;
        }
        i += 1;
    }
    true
}

/// The ASCII lower-case form of `c`.
pub fn to_ascii_lower(c: char) -> (r: char)
    ensures
        r == ascii_lower(c),
{
    if 'A' <= c && c <= 'Z' {
        ((c as u8) + 32) as char
    } else {
        c
    }
}

/// Reads an unsigned integer literal as `u64::from_str` does.
pub fn parse_u64(s: &[char]) -> (r: Option<u64>)
    ensures
        r == u64_from_text(s@),
{
    let d: &[char] = if s.len() > 0 && s[0] == '+' {
        &s[1..s.len()]
    } else {
        s
    };
    assert(d@ == unsigned_digits(s@)) by {
        if s@.len() > 0 && s@[0] == '+' {
            assert(s@.subrange(1, s@.len() as int) =~= s@.drop_first());
        }
    }
    if d.len() == 0 {
        return None;
    }
    let mut v: u64 = 0;
    let mut i: usize = 0;
    while i < d.len()
        invariant
            d@ == unsigned_digits(s@),
            d@.len() > 0,
            i <= d@.len(),
            all_digits(d@.take(i as int)),
            v == digits_value(d@.take(i as int)),
        decreases d.len() - i,
    {
        let c = d[i];
        if !('0' <= c && c <= '9') {
            assert(!is_digit(d@[i as int]));
            assert(!all_digits(d@));
            return None;
        }
        let dv = (c as u32 - 48) as u64;
        assert(d@.take(i + 1).drop_last() =~= d@.take(i as int));
        if v > (u64::MAX - dv) / 10 {
            // the value already exceeds u64::MAX; it is a literal only if the rest are digits
            proof {
                assert(d@.take(i + 1).last() == c);
                assert(v * 10 + dv > u64::MAX) by (nonlinear_arith)
                    requires
                        v > (u64::MAX - dv) / 10,
                        dv <= 9,
                ;
                assert(digits_value(d@.take(i + 1)) > u64::MAX);
                lemma_digits_value_prefix(d@, i + 1);
            }
            let mut k: usize = i + 1;
            while k < d.len()
                invariant
                    d@ == unsigned_digits(s@),
                    digits_value(d@) > u64::MAX,
                    i + 1 <= k <= d@.len(),
                    all_digits(d@.take(k as int)),
                decreases d.len() - k,
            {
                let c2 = d[k];
                if !('0' <= c2 && c2 <= '9') {
                    assert(!is_digit(d@[k as int]));
                    return None;
                }
                k += 1;
                assert(forall|j: int| 0 <= j < k ==> d@.take(k as int)[j] == d@[j]);
            }
            assert(d@.take(k as int) =~= d@);
            return None;
        }
        v = v * 10 + dv;
        i += 1;
        assert(forall|j: int| 0 <= j < i ==> d@.take(i as int)[j] == d@[j]);
    }
    assert(d@.take(i as int) =~= d@);
    Some(v)
}

/// Reads an unsigned integer literal as `u32::from_str` does.
pub fn parse_u32(s: &[char]) -> (r: Option<u32>)
    ensures
        r == u32_from_text(s@),
{
    match parse_u64(s) {
        Some(v) => {
            if v <= u32::MAX as u64 {
                Some(v as u32)
            } else {
                None
            }
        },
        None => {
            proof {
                if unsigned_value(s@) is Some {
                    assert(unsigned_value(s@)->0 > u64::MAX);
                }
            }
            None
        },
    }
}

/// The decimal representation of `n`.
pub fn decimal_chars(n: u64) -> (r: Vec<char>)
    ensures
        r@ == decimal(n as nat),
    decreases n,
{
    if n < 10 {
        let c = ((n as u8) + 48) as char;
        let mut v: Vec<char> = Vec::new();
        v.push(c);
        assert(v@ =~= seq![digit_char(n as nat)]);
        v
    } else {
        let mut v = decimal_chars(n / 10);
        let c = (((n % 10) as u8) + 48) as char;
        v.push(c);
        v
    }
}

/// The lines of `s`, as `str::lines` yields them.
pub fn split_lines(s: &[char]) -> (r: Vec<Vec<char>>)
    ensures
        r.deep_view() == text_lines(s@),
{
    let mut out: Vec<Vec<char>> = Vec::new();
    let mut rest: &[char] = s;
    loop
        invariant
            out.deep_view() + text_lines(rest@) == text_lines(s@),
        decreases rest@.len(),
    {
        if rest.len() == 0 {
            assert(out.deep_view() + text_lines(rest@) =~= out.deep_view());
            return out;
        }
        match find_char(rest, '\n') {
            Some(i) => {
                let mut line: Vec<char> = Vec::new();
                let end: usize = if i > 0 && rest[i - 1] == '\r' {
                    i - 1
                } else {
                    i
                };
                push_chars(&mut line, &rest[0..end]);
                proof {
                    assert(line@ =~= strip_cr(rest@.take(i as int)));
                    lemma_index_of_found(rest@, '\n');
                }
                let ghost old_out = out.deep_view();
                assert(line.deep_view() =~= line@);
                out.push(line);
                let next = &rest[i + 1..rest.len()];
                assert(next@ =~= rest@.skip(i + 1));
                assert(out.deep_view() =~= old_out.push(line@));
                assert(text_lines(rest@) == seq![strip_cr(rest@.take(i as int))] + text_lines(next@));
                assert(out.deep_view() + text_lines(next@) =~= old_out + text_lines(rest@));
                rest = next;
            },
            None => {
                let mut line: Vec<char> = Vec::new();
                push_chars(&mut line, rest);
                let ghost old_out = out.deep_view();
                assert(line.deep_view() =~= line@);
                out.push(line);
                assert(text_lines(rest@) == seq![rest@]);
                assert(out.deep_view() =~= old_out + text_lines(rest@));
                return out;
            },
        }
    }
}

/// The pieces of `s` between the occurrences of `c`.
pub fn split_char(s: &[char], c: char) -> (r: Vec<Vec<char>>)
    ensures
        r.deep_view() == split_on(s@, c),
{
    let mut out: Vec<Vec<char>> = Vec::new();
    let mut rest: &[char] = s;
    loop
        invariant
            out.deep_view() + split_on(rest@, c) == split_on(s@, c),
        decreases rest@.len(),
    {
        match find_char(rest, c) {
            Some(i) => {
                let mut piece: Vec<char> = Vec::new();
                push_chars(&mut piece, &rest[0..i]);
                proof {
                    lemma_index_of_found(rest@, c);
                    assert(piece@ =~= rest@.take(i as int));
                }
                let ghost old_out = out.deep_view();
                assert(piece.deep_view() =~= piece@);
                out.push(piece);
                let rl = rest.len();
                assert(i < rl);
                let next = &rest[i + 1..rl];
                assert(next@ =~= rest@.skip(i + 1));
                assert(out.deep_view() =~= old_out.push(rest@.take(i as int)));
                assert(out.deep_view() + split_on(next@, c) =~= old_out + split_on(rest@, c));
                rest = next;
            },
            None => {
                let mut piece: Vec<char> = Vec::new();
                push_chars(&mut piece, rest);
                let ghost old_out = out.deep_view();
                assert(piece.deep_view() =~= piece@);
                out.push(piece);
                assert(out.deep_view() =~= old_out + split_on(rest@, c));
                return out;
            },
        }
    }
}

/// The first position at which the text `lit` occurs in `s`.
pub fn find_str(s: &[char], lit: &str) -> (r: Option<usize>)
    ensures
        r matches Some(i) ==> first_occurrence(s@, lit@, i as int) && find_seq(s@, lit@) == i,
        r is None ==> !contains_seq(s@, lit@) && find_seq(s@, lit@) == -1,
{
    let p = chars_of(lit);
    let n = p.len();
    let slen = s.len();
    if n > slen {
        assert forall|i: int| !occurs_at(s@, lit@, i) by {}
        return None;
    }
    if n == 0 {
        assert(occurs_at(s@, lit@, 0)) by {
            assert(s@.subrange(0, 0) =~= lit@);
        }
        assert(first_occurrence(s@, lit@, 0));
        proof {
            let k = choose|k: int| first_occurrence(s@, lit@, k);
            if k > 0 {
                assert(!occurs_at(s@, lit@, 0));
            }
        }
        return Some(0);
    }
    let last = slen - n;
    let mut i: usize = 0;
    while i <= last
        invariant
            p@ == lit@,
            n == p@.len(),
            0 < n <= s@.len(),
            slen == s@.len(),
            last == slen - n,
            i <= last + 1,
            forall|k: int| 0 <= k < i ==> !occurs_at(s@, lit@, k),
        decreases last + 1 - i,
    {
        if eq_chars(&s[i..i + n], p.as_slice()) {
            assert(occurs_at(s@, lit@, i as int));
            proof {
                assert(first_occurrence(s@, lit@, i as int));
                let k = choose|k: int| first_occurrence(s@, lit@, k);
                if k < i {
                } else if i < k {
                }
            }
            return Some(i);
        }
        i += 1;
    }
    assert forall|k: int| !occurs_at(s@, lit@, k) by {}
    None
}

/// Whether `a` and `b` hold the same characters.
pub fn eq_chars(a: &[char], b: &[char]) -> (r: bool)
    ensures
        r == (a@ == b@),
{
    if a.len() != b.len() {
        return false;
    }
    let mut i: usize = 0;
    while i < a.len()
        invariant
            a@.len() == b@.len(),
            i <= a@.len(),
            forall|k: int| 0 <= k < i ==> a@[k] == b@[k],
        decreases a.len() - i,
    {
        if a[i] != b[i] {
            return false;
        }
        i += 1;
    }
    assert(a@ =~= b@);
    true
}

/// `s` with every leading copy of the non-empty text `lit` removed.
pub fn strip_all_prefixes_str<'a>(s: &'a [char], lit: &str) -> (r: &'a [char])
    requires
        lit@.len() > 0,
    ensures
        r@ == strip_all_prefixes(s@, lit@),
{
    let n = lit.unicode_len();
    let mut rest: &[char] = s;
    while starts_with_str(rest, lit)
        invariant
            n == lit@.len(),
            n > 0,
            strip_all_prefixes(rest@, lit@) == strip_all_prefixes(s@, lit@),
        decreases rest@.len(),
    {
        let next = &rest[n..rest.len()];
        assert(next@ =~= rest@.skip(n as int));
        rest = next;
    }
    rest
}

/// `s` with every trailing `c` removed.
pub fn trim_end_matches_char(s: &[char], c: char) -> (r: &[char])
    ensures
        r@ == trim_end_char(s@, c),
{
    let mut hi: usize = s.len();
    assert(s@.subrange(0, s@.len() as int) =~= s@);
    while hi > 0 && s[hi - 1] == c
        invariant
            hi <= s@.len(),
            trim_end_char(s@, c) == trim_end_char(s@.subrange(0, hi as int), c),
        decreases hi,
    {
        assert(s@.subrange(0, hi as int).drop_last() =~= s@.subrange(0, hi - 1));
        hi -= 1;
    }
    &s[0..hi]
}

/// `s` with every leading and trailing `c` removed.
pub fn trim_matches_char(s: &[char], c: char) -> (r: &[char])
    ensures
        r@ == trim_char(s@, c),
{
    let mut lo: usize = 0;
    assert(s@.skip(0) =~= s@);
    while lo < s.len() && s[lo] == c
        invariant
            lo <= s@.len(),
            trim_start_char(s@, c) == trim_start_char(s@.skip(lo as int), c),
        decreases s.len() - lo,
    {
        assert(s@.skip(lo as int).drop_first() =~= s@.skip(lo + 1));
        lo += 1;
    }
    let t = &s[lo..s.len()];
    assert(t@ =~= s@.skip(lo as int));
    trim_end_matches_char(t, c)
}

/// Whether `f64::from_str` accepts the text `s`.
pub fn is_float_literal(s: &[char]) -> (r: bool)
    ensures
        r == float_literal(s@),
{
    let t: &[char] = if s.len() > 0 && (s[0] == '+' || s[0] == '-') {
        &s[1..s.len()]
    } else {
        s
    };
    assert(t@ == (if s@.len() > 0 && (s@[0] == '+' || s@[0] == '-') {
        s@.drop_first()
    } else {
        s@
    })) by {
        if s@.len() > 0 && (s@[0] == '+' || s@[0] == '-') {
            assert(s@.subrange(1, s@.len() as int) =~= s@.drop_first());
        }
    }
    proof {
        reveal_strlit("inf");
        reveal_strlit("infinity");
        reveal_strlit("nan");
    }
    if eq_ignore_case_str(t, "inf") || eq_ignore_case_str(t, "infinity") || eq_ignore_case_str(
        t,
        "nan",
    ) {
        return true;
    }
    // where the exponent starts
    let k: usize = match (find_char(t, 'e'), find_char(t, 'E')) {
        (None, None) => t.len(),
        (Some(a), None) => a,
        (None, Some(b)) => b,
        (Some(a), Some(b)) => if a < b {
            a
        } else {
            b
        },
    };
    assert(k == exponent_start(t@));
    let m = &t[0..k];
    let x = &t[k..t.len()];
    assert(m@ =~= t@.take(k as int));
    assert(x@ =~= t@.skip(k as int));
    let mok = is_mantissa(m);
    if !mok {
        return false;
    }
    if x.len() == 0 {
        return true;
    }
    let xok = is_exponent(x);
    if !xok {
        return false;
    }
    true
}

/// Whether `m` is the mantissa of a floating-point literal.
fn is_mantissa(m: &[char]) -> (r: bool)
    ensures
        r == mantissa_ok(m@),
{
    let mut dots: usize = 0;
    let mut digits = false;
    let mut i: usize = 0;
    while i < m.len()
        invariant
            i <= m@.len(),
            forall|j: int| 0 <= j < i ==> is_digit(m@[j]) || m@[j] == '.',
            dots <= 1,
            dots == 0 ==> forall|j: int| 0 <= j < i ==> m@[j] != '.',
            dots == 1 ==> exists|j: int| 0 <= j < i && m@[j] == '.',
            forall|a: int, b: int| 0 <= a < b < i ==> !(m@[a] == '.' && m@[b] == '.'),
            digits == exists|j: int| 0 <= j < i && is_digit(m@[j]),
        decreases m.len() - i,
    {
        let c = m[i];
        if c == '.' {
            if dots == 1 {
                proof {
                    let j0 = choose|j: int| 0 <= j < i && m@[j] == '.';
                    assert(m@[j0] == '.' && m@[i as int] == '.');
                    assert(!mantissa_ok(m@));
                }
                return false;
            }
            dots = 1;
        } else if '0' <= c && c <= '9' {
            digits = true;
        } else {
            assert(!(is_digit(m@[i as int]) || m@[i as int] == '.'));
            assert(!mantissa_ok(m@));
            return false;
        }
        i += 1;
    }
    if !digits {
        assert(!mantissa_ok(m@));
        return false;
    }
    assert(mantissa_ok(m@));
    true
}

/// Whether `x` is the exponent part of a floating-point literal.
fn is_exponent(x: &[char]) -> (r: bool)
    ensures
        r == exponent_ok(x@),
{
    if x.len() == 0 {
        return true;
    }
    if x.len() < 2 || !(x[0] == 'e' || x[0] == 'E') {
        return false;
    }
    let d: &[char] = if x[1] == '+' || x[1] == '-' {
        &x[2..x.len()]
    } else {
        &x[1..x.len()]
    };
    assert(d@ =~= (if x@[1] == '+' || x@[1] == '-' {
        x@.skip(2)
    } else {
        x@.skip(1)
    }));
    d.len() > 0 && is_all_digits(d)
}

/// Whether every character of `d` is an ASCII digit.
pub fn is_all_digits(d: &[char]) -> (r: bool)
    ensures
        r == all_digits(d@),
{
    let mut j: usize = 0;
    while j < d.len()
        invariant
            j <= d@.len(),
            forall|q: int| 0 <= q < j ==> is_digit(d@[q]),
        decreases d.len() - j,
    {
        let c = d[j];
        if !('0' <= c && c <= '9') {
            assert(!is_digit(d@[j as int]));
            return false;
        }
        j += 1;
    }
    true
}

} // verus!
