//! Attribute lists of playlist tags (`NAME=VALUE,NAME="QUOTED VALUE",...`).
use crate::text::{
    chars_of, eq_str, has_prefix, starts_with_str, find_char, index_of, lacks, lemma_index_of_found, push_chars, string_of, trim,
    trim_chars,
};
use vstd::prelude::*;

verus! {

/// `s` without its leading spaces and commas.
pub open spec fn skip_separators(s: Seq<char>) -> Seq<char>
    decreases s.len(),
{
    if s.len() > 0 && (s[0] == ' ' || s[0] == ',') {
        skip_separators(s.drop_first())
    } else {
        s
    }
}

/// The part of `t` before its first `c` (all of `t` when it has none).
pub open spec fn before(t: Seq<char>, c: char) -> Seq<char> {
    if lacks(t, c) {
        t
    } else {
        t.take(index_of(t, c))
    }
}

/// The part of `t` after its first `c` (nothing when it has none).
pub open spec fn after(t: Seq<char>, c: char) -> Seq<char> {
    if lacks(t, c) {
        Seq::empty()
    } else {
        t.skip(index_of(t, c) + 1)
    }
}

/// The part of `t` from its first `c` on (nothing when it has none).
pub open spec fn from_first(t: Seq<char>, c: char) -> Seq<char> {
    if lacks(t, c) {
        Seq::empty()
    } else {
        t.skip(index_of(t, c))
    }
}

/// An attribute value at the start of `t`, and the text after it. A quoted value
/// runs to the closing quote, which is consumed; an unquoted one runs to the next
/// comma, which is left for the next attribute.
pub open spec fn attr_value(t: Seq<char>) -> (Seq<char>, Seq<char>) {
    if t.len() > 0 && t[0] == '"' {
        (before(t.drop_first(), '"'), after(t.drop_first(), '"'))
    } else {
        (before(t, ','), from_first(t, ','))
    }
}

/// The `(name, value)` pairs of an attribute list, in the order they are read.
/// Reading stops at the first empty name; names are trimmed, values kept as written.
pub open spec fn attr_pairs(s: Seq<char>) -> Seq<(Seq<char>, Seq<char>)>
    decreases s.len(),
{
    let t = skip_separators(s);
    let name = before(t, '=');
    if name.len() == 0 {
        Seq::empty()
    } else {
        let rest = attr_value(after(t, '=')).1;
        proof {
            lemma_attr_step_shorter(s);
        }
        seq![(trim(name), attr_value(after(t, '=')).0)] + attr_pairs(rest)
    }
}

/// The map that inserting the pairs of `p` in order builds: a later pair
/// replaces an earlier one with the same name.
pub open spec fn pairs_map(p: Seq<(Seq<char>, Seq<char>)>) -> Map<Seq<char>, Seq<char>>
    decreases p.len(),
{
    if p.len() == 0 {
        Map::empty()
    } else {
        pairs_map(p.drop_last()).insert(p.last().0, p.last().1)
    }
}

/// The attributes that the text `s` of a tag's attribute list defines.
pub open spec fn attributes_of(s: Seq<char>) -> Map<Seq<char>, Seq<char>> {
    pairs_map(attr_pairs(s))
}

/// `skip_separators` only drops characters from the front.
pub proof fn lemma_skip_separators(s: Seq<char>)
    ensures
        skip_separators(s).len() <= s.len(),
        skip_separators(s) == s.skip(s.len() - skip_separators(s).len()),
    decreases s.len(),
{
    if s.len() > 0 && (s[0] == ' ' || s[0] == ',') {
        lemma_skip_separators(s.drop_first());
        let t = skip_separators(s.drop_first());
        assert(s.drop_first().skip(s.drop_first().len() - t.len()) =~= s.skip(s.len() - t.len()));
    } else {
        assert(s.skip(0) =~= s);
    }
}

/// One attribute consumes at least one character.
pub proof fn lemma_attr_step_shorter(s: Seq<char>)
    ensures
        before(skip_separators(s), '=').len() > 0 ==> attr_value(
            after(skip_separators(s), '='),
        ).1.len() < s.len(),
{
    let t = skip_separators(s);
    lemma_skip_separators(s);
    if before(t, '=').len() > 0 {
        let a = after(t, '=');
        if !lacks(t, '=') {
            lemma_index_of_found(t, '=');
        }
        assert(a.len() < t.len());
        if a.len() > 0 && a[0] == '"' {
            let q = a.drop_first();
            if !lacks(q, '"') {
                lemma_index_of_found(q, '"');
            }
        } else {
            if !lacks(a, ',') {
                lemma_index_of_found(a, ',');
            }
        }
    }
}

/// The value that `pairs_map` keeps for a name is that of its last pair.
pub proof fn lemma_pairs_map_last(p: Seq<(Seq<char>, Seq<char>)>, i: int)
    requires
        0 <= i < p.len(),
        forall|j: int| i < j < p.len() ==> p[j].0 != p[i].0,
    ensures
        pairs_map(p).contains_key(p[i].0),
        pairs_map(p)[p[i].0] == p[i].1,
    decreases p.len(),
{
    if i < p.len() - 1 {
        lemma_pairs_map_last(p.drop_last(), i);
    }
}

/// A name that no pair carries is not in `pairs_map`.
pub proof fn lemma_pairs_map_absent(p: Seq<(Seq<char>, Seq<char>)>, k: Seq<char>)
    requires
        forall|j: int| 0 <= j < p.len() ==> p[j].0 != k,
    ensures
        !pairs_map(p).contains_key(k),
    decreases p.len(),
{
    if p.len() > 0 {
        lemma_pairs_map_absent(p.drop_last(), k);
    }
}

/// No pair after position `b` of `p` carries the name of the pair at `b`.
pub open spec fn is_last_pair(p: Seq<(Seq<char>, Seq<char>)>, b: int) -> bool {
    forall|c: int| b < c < p.len() ==> p[c].0 != p[b].0
}

/// Some pair before position `i` of `p` is the last with its name, and it is
/// `(name, value)`.
pub open spec fn last_pair_before(p: Seq<(Seq<char>, Seq<char>)>, i: int, name: Seq<char>, value: Seq<char>) -> bool {
    exists|b: int| 0 <= b < i && p[b].0 == name && p[b].1 == value && is_last_pair(p, b)
}

/// Some entry of `r` has the name `name`.
pub open spec fn listed(r: Seq<(String, String)>, name: Seq<char>) -> bool {
    exists|a: int| 0 <= a < r.len() && r[a].0@ == name
}

/// A name in `pairs_map` has a last pair.
pub proof fn lemma_pairs_map_has(p: Seq<(Seq<char>, Seq<char>)>, k: Seq<char>) -> (b: int)
    requires
        pairs_map(p).contains_key(k),
    ensures
        0 <= b < p.len(),
        p[b].0 == k,
        forall|c: int| b < c < p.len() ==> p[c].0 != k,
    decreases p.len(),
{
    if p.last().0 == k {
        (p.len() - 1) as int
    } else {
        let b = lemma_pairs_map_has(p.drop_last(), k);
        assert forall|c: int| b < c < p.len() implies p[c].0 != k by {
            if c < p.len() - 1 {
                assert(p[c] == p.drop_last()[c]);
            }
        }
        b
    }
}

/// Whether two character vectors are equal.
fn eq_chars_vec(a: &Vec<char>, b: &Vec<char>) -> (r: bool)
    ensures
        r == (a@ == b@),
{
    crate::text::eq_chars(a.as_slice(), b.as_slice())
}

/// The attributes of one tag, kept as the pairs read, in order.
#[derive(Clone, Debug)]
pub struct Attributes {
    pairs: Vec<(Vec<char>, Vec<char>)>,
}

impl View for Attributes {
    type V = Map<Seq<char>, Seq<char>>;

    open spec fn view(&self) -> Map<Seq<char>, Seq<char>> {
        pairs_map(self.pair_seq())
    }
}

impl Attributes {
    /// The pairs, as sequences of characters.
    pub closed spec fn pair_seq(&self) -> Seq<(Seq<char>, Seq<char>)> {
        self.pairs.deep_view()
    }

    /// No attributes.
    pub fn new() -> (r: Self)
        ensures
            r@ == Map::<Seq<char>, Seq<char>>::empty(),
    {
        let r = Attributes { pairs: Vec::new() };
        assert(r.pair_seq().len() == 0);
        r
    }

    /// A copy of these attributes.
    pub fn copied(&self) -> (r: Self)
        ensures
            r@ == self@,
            r.pair_seq() == self.pair_seq(),
    {
        let mut pairs: Vec<(Vec<char>, Vec<char>)> = Vec::new();
        let mut i: usize = 0;
        while i < self.pairs.len()
            invariant
                i <= self.pairs@.len(),
                pairs.deep_view() == self.pairs.deep_view().take(i as int),
            decreases self.pairs.len() - i,
        {
            let mut n: Vec<char> = Vec::new();
            push_chars(&mut n, self.pairs[i].0.as_slice());
            let mut v: Vec<char> = Vec::new();
            push_chars(&mut v, self.pairs[i].1.as_slice());
            let ghost before = pairs.deep_view();
            pairs.push((n, v));
            assert(pairs.deep_view() =~= before.push(self.pairs.deep_view()[i as int]));
            assert(self.pairs.deep_view().take(i + 1) =~= self.pairs.deep_view().take(
                i as int,
            ).push(self.pairs.deep_view()[i as int]));
            i += 1;
        }
        assert(self.pairs.deep_view().take(i as int) =~= self.pairs.deep_view());
        Attributes { pairs }
    }

    /// Sets `name` to `value`, replacing an earlier value of that name.
    pub fn insert(&mut self, name: &[char], value: &[char])
        ensures
            final(self)@ == old(self)@.insert(name@, value@),
    {
        let mut n: Vec<char> = Vec::new();
        push_chars(&mut n, name);
        let mut v: Vec<char> = Vec::new();
        push_chars(&mut v, value);
        let ghost before = self.pair_seq();
        assert(n.deep_view() =~= name@);
        assert(v.deep_view() =~= value@);
        self.pairs.push((n, v));
        assert(self.pair_seq().drop_last() =~= before);
        assert(self.pair_seq().last() == (name@, value@));
    }

    /// Sets the attribute named `name` to `value`.
    pub fn insert_str(&mut self, name: &str, value: &str)
        ensures
            final(self)@ == old(self)@.insert(name@, value@),
    {
        let n = chars_of(name);
        let v = chars_of(value);
        self.insert(n.as_slice(), v.as_slice());
    }

    /// Reads an attribute list as a playlist tag writes it.
    pub fn parse(line: &[char]) -> (r: Self)
        ensures
            r@ == attributes_of(line@),
            r.pair_seq() == attr_pairs(line@),
    {
        let mut pairs: Vec<(Vec<char>, Vec<char>)> = Vec::new();
        let mut rest: &[char] = line;
        loop
            invariant
                pairs.deep_view() + attr_pairs(rest@) == attr_pairs(line@),
            decreases rest@.len(),
        {
            // skip spaces and commas
            let mut k: usize = 0;
            assert(rest@.skip(0) =~= rest@);
            while k < rest.len() && (rest[k] == ' ' || rest[k] == ',')
                invariant
                    k <= rest@.len(),
                    skip_separators(rest@) == skip_separators(rest@.skip(k as int)),
                decreases rest.len() - k,
            {
                assert(rest@.skip(k as int).drop_first() =~= rest@.skip(k + 1));
                k += 1;
            }
            let t = &rest[k..rest.len()];
            assert(t@ =~= rest@.skip(k as int));
            assert(skip_separators(t@) == t@);
            let eq = find_char(t, '=');
            let name: &[char] = match eq {
                Some(i) => &t[0..i],
                None => t,
            };
            let after_name: &[char] = match eq {
                Some(i) => &t[i + 1..t.len()],
                None => &t[0..0],
            };
            assert(name@ =~= before(t@, '='));
            assert(after_name@ =~= after(t@, '='));
            if name.len() == 0 {
                assert(attr_pairs(rest@) =~= Seq::<(Seq<char>, Seq<char>)>::empty());
                assert(pairs.deep_view() + attr_pairs(rest@) =~= pairs.deep_view());
                return Attributes { pairs };
            }
            let quoted = after_name.len() > 0 && after_name[0] == '"';
            let (value, next): (&[char], &[char]) = if quoted {
                let q = &after_name[1..after_name.len()];
                assert(q@ =~= after_name@.drop_first());
                match find_char(q, '"') {
                    Some(j) => {
                        let v = &q[0..j];
                        let nx = &q[j + 1..q.len()];
                        assert(v@ =~= before(q@, '"'));
                        assert(nx@ =~= after(q@, '"'));
                        (v, nx)
                    },
                    None => {
                        let nx = &q[0..0];
                        assert(nx@ =~= after(q@, '"'));
                        (q, nx)
                    },
                }
            } else {
                match find_char(after_name, ',') {
                    Some(j) => {
                        let v = &after_name[0..j];
                        let nx = &after_name[j..after_name.len()];
                        assert(v@ =~= before(after_name@, ','));
                        assert(nx@ =~= from_first(after_name@, ','));
                        (v, nx)
                    },
                    None => {
                        let nx = &after_name[0..0];
                        assert(nx@ =~= from_first(after_name@, ','));
                        (after_name, nx)
                    },
                }
            };
            assert(value@ == attr_value(after_name@).0);
            assert(next@ == attr_value(after_name@).1);
            let tn = trim_chars(name);
            let mut n: Vec<char> = Vec::new();
            push_chars(&mut n, tn);
            let mut v: Vec<char> = Vec::new();
            push_chars(&mut v, value);
            let ghost old_pairs = pairs.deep_view();
            assert(n.deep_view() =~= n@);
            assert(v.deep_view() =~= v@);
            pairs.push((n, v));
            proof {
                lemma_attr_step_shorter(rest@);
                assert(pairs.deep_view() =~= old_pairs.push((trim(name@), value@)));
                assert(attr_pairs(rest@) == seq![(trim(name@), value@)] + attr_pairs(next@));
                assert(pairs.deep_view() + attr_pairs(next@) =~= old_pairs + attr_pairs(rest@));
            }
            rest = next;
        }
    }

    /// The value of the attribute `name`, if it is set.
    pub fn get(&self, name: &str) -> (r: Option<&[char]>)
        ensures
            r matches Some(v) ==> self@.contains_key(name@) && v@ == self@[name@],
            r is None ==> !self@.contains_key(name@),
    {
        let mut i: usize = self.pairs.len();
        while i > 0
            invariant
                i <= self.pairs@.len(),
                forall|j: int| i <= j < self.pair_seq().len() ==> self.pair_seq()[j].0 != name@,
            decreases i,
        {
            let entry = &self.pairs[i - 1];
            if eq_str(entry.0.as_slice(), name) {
                proof {
                    assert(entry.0.deep_view() =~= entry.0@);
                    assert(entry.1.deep_view() =~= entry.1@);
                    lemma_pairs_map_last(self.pair_seq(), i - 1);
                }
                return Some(entry.1.as_slice());
            }
            assert(entry.0.deep_view() =~= entry.0@);
            i -= 1;
        }
        proof {
            lemma_pairs_map_absent(self.pair_seq(), name@);
        }
        None
    }

    /// The attributes whose names begin with `prefix`.
    pub fn with_prefix(&self, prefix: &str) -> (r: Attributes)
        ensures
            r@ == self@.restrict(Set::new(|k: Seq<char>| has_prefix(k, prefix@))),
    {
        let ghost keep = Set::new(|k: Seq<char>| has_prefix(k, prefix@));
        let mut r = Attributes::new();
        let mut i: usize = 0;
        assert(self.pair_seq().take(0) =~= Seq::<(Seq<char>, Seq<char>)>::empty());
        assert(r@ =~= pairs_map(self.pair_seq().take(0)).restrict(keep));
        while i < self.pairs.len()
            invariant
                i <= self.pairs@.len(),
                keep == Set::new(|k: Seq<char>| has_prefix(k, prefix@)),
                r@ == pairs_map(self.pair_seq().take(i as int)).restrict(keep),
            decreases self.pairs.len() - i,
        {
            let entry = &self.pairs[i];
            let ghost p = self.pair_seq();
            assert(p.take(i + 1).drop_last() =~= p.take(i as int));
            assert(entry.0.deep_view() =~= entry.0@);
            assert(entry.1.deep_view() =~= entry.1@);
            assert(p.take(i + 1).last() == (entry.0@, entry.1@));
            if starts_with_str(entry.0.as_slice(), prefix) {
                let ghost before = r@;
                r.insert(entry.0.as_slice(), entry.1.as_slice());
                assert(r@ =~= pairs_map(p.take(i + 1)).restrict(keep));
            } else {
                assert(!keep.contains(entry.0@));
                assert(r@ =~= pairs_map(p.take(i + 1)).restrict(keep));
            }
            i += 1;
        }
        assert(self.pair_seq().take(i as int) =~= self.pair_seq());
        r
    }

    /// The attributes as `(name, value)` pairs, one per name, each with the value
    /// that the map holds.
    pub fn entries(&self) -> (r: Vec<(String, String)>)
        ensures
            forall|i: int|
                0 <= i < r@.len() ==> self@.contains_key(#[trigger] r@[i].0@) && self@[r@[i].0@]
                    == r@[i].1@,
            forall|k: Seq<char>|
                self@.contains_key(k) ==> exists|i: int| 0 <= i < r@.len() && #[trigger] r@[i].0@ == k,
            forall|i: int, j: int| 0 <= i < j < r@.len() ==> r@[i].0@ != r@[j].0@,
    {
        let mut r: Vec<(String, String)> = Vec::new();
        let ghost p = self.pair_seq();
        let mut i: usize = 0;
        while i < self.pairs.len()
            invariant
                p == self.pair_seq(),
                i <= p.len(),
                forall|a: int| 0 <= a < r@.len() ==> last_pair_before(p, i as int, #[trigger] r@[a].0@, r@[a].1@),
                forall|b: int| 0 <= b < i && is_last_pair(p, b) ==> listed(r@, #[trigger] p[b].0),
                forall|a: int, c: int| 0 <= a < c < r@.len() ==> r@[a].0@ != r@[c].0@,
            decreases self.pairs.len() - i,
        {
            let entry = &self.pairs[i];
            assert(entry.0.deep_view() =~= entry.0@);
            assert(entry.1.deep_view() =~= entry.1@);
            assert(p[i as int] == (entry.0@, entry.1@));
            // is there a later pair with the same name?
            let mut later = false;
            let mut j: usize = i + 1;
            while j < self.pairs.len()
                invariant
                    p == self.pair_seq(),
                    i < j <= p.len(),
                    p[i as int].0 == entry.0@,
                    later == exists|c: int| i < c < j && p[c].0 == p[i as int].0,
                decreases self.pairs.len() - j,
            {
                let e2 = &self.pairs[j];
                assert(e2.0.deep_view() =~= e2.0@);
                assert(p[j as int].0 == e2.0@);
                let ghost was = later;
                if eq_chars_vec(&e2.0, &entry.0) {
                    later = true;
                }
                assert(later == exists|c: int| i < c < j + 1 && p[c].0 == p[i as int].0) by {
                    if later && !was {
                        assert(p[j as int].0 == p[i as int].0);
                    }
                    if exists|c: int| i < c < j + 1 && p[c].0 == p[i as int].0 {
                        let c = choose|c: int| i < c < j + 1 && p[c].0 == p[i as int].0;
                        if c < j {
                            assert(was);
                        }
                    }
                }
                j += 1;
            }
            let ghost before = r@;
            if !later {
                assert(is_last_pair(p, i as int));
                proof {
                    assert forall|a: int| 0 <= a < before.len() implies before[a].0@ != entry.0@ by {
                        assert(last_pair_before(p, i as int, before[a].0@, before[a].1@));
                        let b = choose|b: int| 0 <= b < i && p[b].0 == before[a].0@ && p[b].1 == before[a].1@ && is_last_pair(p, b);
                        if before[a].0@ == entry.0@ {
                            assert(p[i as int].0 == p[b].0);
                        }
                    }
                }
                r.push((string_of(entry.0.as_slice()), string_of(entry.1.as_slice())));
                assert(r@[before.len() as int].0@ == p[i as int].0);
                assert(r@[before.len() as int].1@ == p[i as int].1);
                assert(last_pair_before(p, i + 1, p[i as int].0, p[i as int].1));
            } else {
                assert(!is_last_pair(p, i as int)) by {
                    let c = choose|c: int| i < c < p.len() && p[c].0 == p[i as int].0;
                }
            }
            proof {
                assert forall|a: int| 0 <= a < r@.len() implies last_pair_before(p, i + 1, #[trigger] r@[a].0@, r@[a].1@) by {
                    if a < before.len() {
                        assert(r@[a] == before[a]);
                        assert(last_pair_before(p, i as int, before[a].0@, before[a].1@));
                        let b = choose|b: int| 0 <= b < i && p[b].0 == before[a].0@ && p[b].1 == before[a].1@ && is_last_pair(p, b);
                        assert(0 <= b < i + 1 && p[b].0 == r@[a].0@ && p[b].1 == r@[a].1@ && is_last_pair(p, b));
                    }
                }
                assert forall|b: int| 0 <= b < i + 1 && is_last_pair(p, b) implies listed(r@, #[trigger] p[b].0) by {
                    if b < i {
                        assert(listed(before, p[b].0));
                        let a = choose|a: int| 0 <= a < before.len() && before[a].0@ == p[b].0;
                        assert(r@[a] == before[a]);
                    } else {
                        assert(r@[before.len() as int].0@ == p[b].0);
                    }
                }
            }
            i += 1;
        }
        proof {
            assert forall|a: int| 0 <= a < r@.len() implies self@.contains_key(#[trigger] r@[a].0@)
                && self@[r@[a].0@] == r@[a].1@ by {
                assert(last_pair_before(p, p.len() as int, r@[a].0@, r@[a].1@));
                let b = choose|b: int| 0 <= b < p.len() && p[b].0 == r@[a].0@ && p[b].1 == r@[a].1@ && is_last_pair(p, b);
                lemma_pairs_map_last(p, b);
            }
            assert forall|k: Seq<char>| self@.contains_key(k) implies exists|a: int| 0 <= a < r@.len() && #[trigger] r@[a].0@ == k by {
                let b = lemma_pairs_map_has(p, k);
                assert(is_last_pair(p, b));
                assert(listed(r@, p[b].0));
            }
        }
        r
    }

    /// The value of the attribute `name` as a `String`, if it is set.
    pub fn get_string(&self, name: &str) -> (r: Option<String>)
        ensures
            r.deep_view() == (if self@.contains_key(name@) {
                Some(self@[name@])
            } else {
                None
            }),
    {
        match self.get(name) {
            Some(v) => Some(string_of(v)),
            None => None,
        }
    }
}

/// Reads the attribute list of a tag line: `NAME=VALUE` pairs separated by
/// commas, values quoted or not; a later value replaces an earlier one of the
/// same name.
pub fn parse_attributes(line: &str) -> (r: Attributes)
    ensures
        r@ == attributes_of(line@),
{
    let cs = chars_of(line);
    Attributes::parse(cs.as_slice())
}

} // verus!
