//! The header mapping: string keys to string values, keys unique, a later
//! insertion of the same key replacing the earlier one; and the parser that
//! builds such a mapping from the header lines of a request.

use vstd::prelude::*;
use crate::scan::{spec_find, lemma_spec_find, find_str};

verus! {

/// The mathematical content of a sequence of key/value pairs: a map in
/// which a later pair with the same key overwrites an earlier one.
pub open spec fn map_of(ps: Seq<(Seq<char>, Seq<char>)>) -> Map<Seq<char>, Seq<char>>
    decreases ps.len(),
{
    if ps.len() == 0 {
        Map::empty()
    } else {
        map_of(ps.drop_last()).insert(ps.last().0, ps.last().1)
    }
}

/// No two pairs share a key.
pub open spec fn unique_keys(ps: Seq<(Seq<char>, Seq<char>)>) -> bool {
    forall|i: int, j: int| 0 <= i < j < ps.len() ==> ps[i].0 != ps[j].0
}

/// `key` is in the map exactly when some pair holds it.
pub proof fn lemma_map_of_contains(ps: Seq<(Seq<char>, Seq<char>)>, key: Seq<char>)
    ensures
        map_of(ps).contains_key(key) <==> exists|i: int|
            0 <= i < ps.len() && (#[trigger] ps[i]).0 == key,
    decreases ps.len(),
{
    if ps.len() > 0 {
        lemma_map_of_contains(ps.drop_last(), key);
        if key == ps.last().0 {
            assert(map_of(ps).contains_key(key));
            assert((ps[ps.len() - 1]).0 == key);
        } else {
            if map_of(ps).contains_key(key) {
                let i = choose|i: int|
                    0 <= i < ps.drop_last().len() && (#[trigger] ps.drop_last()[i]).0 == key;
                assert((ps[i]).0 == key);
            }
            if exists|i: int| 0 <= i < ps.len() && (#[trigger] ps[i]).0 == key {
                let i = choose|i: int| 0 <= i < ps.len() && (#[trigger] ps[i]).0 == key;
                assert(i < ps.len() - 1);
                assert((ps.drop_last()[i]).0 == key);
                assert(map_of(ps.drop_last()).contains_key(key));
            }
        }
    }
}

/// With unique keys, the map sends the key of the pair at `idx` to that
/// pair's value.
pub proof fn lemma_map_of_at(ps: Seq<(Seq<char>, Seq<char>)>, idx: int)
    requires
        unique_keys(ps),
        0 <= idx < ps.len(),
    ensures
        map_of(ps).contains_key(ps[idx].0),
        map_of(ps)[ps[idx].0] == ps[idx].1,
    decreases ps.len(),
{
    if idx < ps.len() - 1 {
        assert(unique_keys(ps.drop_last()));
        lemma_map_of_at(ps.drop_last(), idx);
        assert(ps.drop_last()[idx] == ps[idx]);
        assert(ps[idx].0 != ps.last().0);
    }
}

/// Removing the pair that holds `key` removes `key` from the map.
pub proof fn lemma_map_of_remove(ps: Seq<(Seq<char>, Seq<char>)>, idx: int)
    requires
        unique_keys(ps),
        0 <= idx < ps.len(),
    ensures
        map_of(ps.remove(idx)) == map_of(ps).remove(ps[idx].0),
    decreases ps.len(),
{
    let key = ps[idx].0;
    if idx == ps.len() - 1 {
        assert(ps.remove(idx) =~= ps.drop_last());
        lemma_map_of_contains(ps.drop_last(), key);
        assert forall|i: int| 0 <= i < ps.drop_last().len() implies (#[trigger] ps.drop_last()[i]).0
            != key by {
            assert(ps[i].0 != ps[ps.len() - 1].0);
        }
        assert(!map_of(ps.drop_last()).contains_key(key));
        assert(map_of(ps.drop_last()) =~= map_of(ps.drop_last()).insert(key, ps.last().1).remove(
            key,
        ));
    } else {
        assert(unique_keys(ps.drop_last()));
        lemma_map_of_remove(ps.drop_last(), idx);
        assert(ps.remove(idx).drop_last() =~= ps.drop_last().remove(idx));
        assert(ps.remove(idx).last() == ps.last());
        assert(ps.drop_last()[idx] == ps[idx]);
        assert(map_of(ps.remove(idx)) == map_of(ps.drop_last()).remove(key).insert(
            ps.last().0,
            ps.last().1,
        ));
        assert(ps.last().0 != key);
        assert(map_of(ps.drop_last()).remove(key).insert(ps.last().0, ps.last().1) =~= map_of(
            ps.drop_last(),
        ).insert(ps.last().0, ps.last().1).remove(key));
    }
}

/// Character-by-character equality of two string slices.
pub fn str_eq(a: &str, b: &str) -> (r: bool)
    ensures
        r == (a@ == b@),
{
    let n = a.unicode_len();
    if n != b.unicode_len() {
        proof {
            assert(a@ != b@);
        }
        return false;
    }
    let mut i: usize = 0;
    while i < n
        invariant
            n == a@.len(),
            n == b@.len(),
            0 <= i <= n,
            forall|t: int| 0 <= t < i ==> a@[t] == b@[t],
        decreases n - i,
    {
        if a.get_char(i) != b.get_char(i) {
            return false;
        }
        i += 1;
    }
    proof {
        assert(a@ =~= b@);
    }
    true
}

/// A mapping from header names to header values with unique keys.  The
/// pairs keep a definite order, so serialization of a response is a pure
/// function of the mapping's history of insertions.
#[derive(Debug)]
pub struct HeaderMap {
    entries: Vec<(String, String)>,
}

impl View for HeaderMap {
    type V = Map<Seq<char>, Seq<char>>;

    open spec fn view(&self) -> Map<Seq<char>, Seq<char>> {
        map_of(self.entry_views())
    }
}

impl HeaderMap {
    /// The ordered key/value pairs, as character sequences.
    pub closed spec fn entry_views(&self) -> Seq<(Seq<char>, Seq<char>)> {
        self.entries@.map_values(|p: (String, String)| (p.0@, p.1@))
    }

    /// Well-formed: no key occurs twice.
    pub open spec fn wf(&self) -> bool {
        unique_keys(self.entry_views())
    }

    /// An empty mapping.
    pub fn new() -> (r: HeaderMap)
        ensures
            r.wf(),
            r@ == Map::<Seq<char>, Seq<char>>::empty(),
            r.entry_views() == Seq::<(Seq<char>, Seq<char>)>::empty(),
    {
        let r = HeaderMap { entries: Vec::new() };
        proof {
            assert(r.entry_views() =~= Seq::<(Seq<char>, Seq<char>)>::empty());
        }
        r
    }

    /// How many entries the mapping holds.
    pub fn len(&self) -> (r: usize)
        ensures
            r == self.entry_views().len(),
    {
        self.entries.len()
    }

    /// The entry at position `i`, in insertion order.
    pub fn entry_at(&self, i: usize) -> (r: &(String, String))
        requires
            i < self.entry_views().len(),
        ensures
            (r.0@, r.1@) == self.entry_views()[i as int],
    {
        &self.entries[i]
    }

    /// Position of the entry holding `key`, if any.
    fn position_of(&self, key: &str) -> (r: Option<usize>)
        ensures
            match r {
                Some(i) => i < self.entry_views().len() && self.entry_views()[i as int].0 == key@,
                None => forall|i: int|
                    0 <= i < self.entry_views().len() ==> self.entry_views()[i].0 != key@,
            },
    {
        let n = self.entries.len();
        let mut i: usize = 0;
        while i < n
            invariant
                n == self.entry_views().len(),
                0 <= i <= n,
                n == self.entries@.len(),
                forall|t: int| 0 <= t < i ==> self.entry_views()[t].0 != key@,
            decreases n - i,
        {
            if str_eq(self.entries[i].0.as_str(), key) {
                return Some(i);
            }
            i += 1;
        }
        None
    }

    /// Insert `key` with `value`; an entry already holding `key` is
    /// replaced, and the pair takes the last position.
    pub fn insert(&mut self, key: String, value: String)
        requires
            old(self).wf(),
        ensures
            final(self).wf(),
            final(self)@ == old(self)@.insert(key@, value@),
            !old(self)@.contains_key(key@) ==> final(self).entry_views() == old(
                self,
            ).entry_views().push((key@, value@)),
            old(self)@.contains_key(key@) ==> exists|i: int|
                0 <= i < old(self).entry_views().len() && old(self).entry_views()[i].0 == key@
                    && final(self).entry_views() == old(self).entry_views().remove(i).push(
                    (key@, value@),
                ),
    {
        let ghost before = self.entry_views();
        proof {
            lemma_map_of_contains(before, key@);
        }
        match self.position_of(key.as_str()) {
            Some(i) => {
                proof {
                    lemma_map_of_remove(before, i as int);
                }
                self.entries.remove(i);
                let ghost removed = self.entry_views();
                proof {
                    assert(removed =~= before.remove(i as int));
                    assert(unique_keys(removed));
                    lemma_map_of_contains(removed, key@);
                }
                self.entries.push((key, value));
                proof {
                    assert(self.entry_views() =~= removed.push((key@, value@)));
                    assert(self.entry_views().drop_last() =~= removed);
                    assert(forall|t: int|
                        0 <= t < removed.len() ==> #[trigger] removed[t].0 != key@);
                    assert(unique_keys(self.entry_views()));
                    assert(map_of(self.entry_views()) =~= map_of(before).insert(key@, value@));
                }
            },
            None => {
                self.entries.push((key, value));
                proof {
                    assert(self.entry_views() =~= before.push((key@, value@)));
                    assert(self.entry_views().drop_last() =~= before);
                    assert(unique_keys(self.entry_views()));
                    assert(map_of(self.entry_views()) =~= map_of(before).insert(key@, value@));
                    assert(!map_of(before).contains_key(key@));
                }
            },
        }
    }

    /// The value stored for `key`, if any.
    pub fn get(&self, key: &str) -> (r: Option<&String>)
        requires
            self.wf(),
        ensures
            match r {
                Some(v) => self@.contains_key(key@) && v@ == self@[key@],
                None => !self@.contains_key(key@),
            },
    {
        match self.position_of(key) {
            Some(i) => {
                proof {
                    lemma_map_of_at(self.entry_views(), i as int);
                }
                Some(&self.entries[i].1)
            },
            None => {
                proof {
                    lemma_map_of_contains(self.entry_views(), key@);
                }
                None
            },
        }
    }
}

/// The lines of `s`, split on each line break.  A text without a line
/// break is a single line; every line break separates two lines, so the
/// result always holds one line more than there are breaks.
pub open spec fn spec_lines(s: Seq<char>) -> Seq<Seq<char>>
    decreases s.len(),
    via spec_lines_decreases
{
    match spec_find(s, "\r\n"@) {
        None => seq![s],
        Some(i) => seq![s.subrange(0, i)] + spec_lines(s.subrange(i + 2, s.len() as int)),
    }
}

#[via_fn]
proof fn spec_lines_decreases(s: Seq<char>) {
    reveal_strlit("\r\n");
    lemma_spec_find(s, "\r\n"@);
}

/// One header line split at its first colon: the key is what stands before
/// the colon, the value everything after it, kept verbatim; a line without
/// a colon is a key with an empty value.
pub open spec fn spec_header_entry(line: Seq<char>) -> (Seq<char>, Seq<char>) {
    match spec_find(line, ":"@) {
        None => (line, Seq::empty()),
        Some(i) => (line.subrange(0, i), line.subrange(i + 1, line.len() as int)),
    }
}

/// The mapping that inserting each line of `lines` in order into `m`
/// leaves behind.
pub open spec fn spec_insert_lines(
    m: Map<Seq<char>, Seq<char>>,
    lines: Seq<Seq<char>>,
) -> Map<Seq<char>, Seq<char>>
    decreases lines.len(),
{
    if lines.len() == 0 {
        m
    } else {
        spec_insert_lines(
            m.insert(spec_header_entry(lines[0]).0, spec_header_entry(lines[0]).1),
            lines.drop_first(),
        )
    }
}

/// The mapping that inserting each pair of `ps` in order into `m` leaves
/// behind: a later pair with the same key overwrites an earlier one.
pub open spec fn spec_insert_pairs(
    m: Map<Seq<char>, Seq<char>>,
    ps: Seq<(Seq<char>, Seq<char>)>,
) -> Map<Seq<char>, Seq<char>>
    decreases ps.len(),
{
    if ps.len() == 0 {
        m
    } else {
        spec_insert_pairs(m.insert(ps[0].0, ps[0].1), ps.drop_first())
    }
}

/// The header mapping parsed from a header section: each line yields one
/// key/value entry, and the last occurrence of a duplicate key wins.
pub open spec fn spec_parse_headers(s: Seq<char>) -> Map<Seq<char>, Seq<char>> {
    spec_insert_lines(Map::empty(), spec_lines(s))
}

/// Split one header line at its first colon.
fn split_header_line(line: &str) -> (r: (String, String))
    ensures
        r.0@ == spec_header_entry(line@).0,
        r.1@ == spec_header_entry(line@).1,
{
    proof {
        reveal_strlit(":");
        lemma_spec_find(line@, ":"@);
    }
    match find_str(line, ":") {
        None => (line.to_owned(), String::new()),
        Some(i) => {
            let n = line.unicode_len();
            let k = line.substring_char(0, i).to_owned();
            let v = line.substring_char(i + 1, n).to_owned();
            (k, v)
        },
    }
}

/// Parse a header section into a header mapping: one entry per line, each
/// line split at its first colon, a later duplicate key overwriting an
/// earlier one.
pub fn parse_header(header: &str) -> (r: HeaderMap)
    ensures
        r.wf(),
        r@ == spec_parse_headers(header@),
{
    let mut m = HeaderMap::new();
    let mut rest: &str = header;
    loop
        invariant
            m.wf(),
            spec_insert_lines(m@, spec_lines(rest@)) == spec_parse_headers(header@),
        decreases rest@.len(),
    {
        proof {
            reveal_strlit("\r\n");
            lemma_spec_find(rest@, "\r\n"@);
        }
        let ghost lines = spec_lines(rest@);
        match find_str(rest, "\r\n") {
            None => {
                let (k, v) = split_header_line(rest);
                let ghost m0 = m@;
                m.insert(k, v);
                proof {
                    let entry = spec_header_entry(rest@);
                    assert(lines == seq![rest@]);
                    assert(lines[0] == rest@);
                    assert(lines.drop_first() =~= Seq::<Seq<char>>::empty());
                    assert(spec_insert_lines(m0, lines) == spec_insert_lines(
                        m0.insert(entry.0, entry.1),
                        lines.drop_first(),
                    ));
                    assert(spec_insert_lines(m0.insert(entry.0, entry.1), lines.drop_first())
                        == m0.insert(entry.0, entry.1));
                }
                return m;
            },
            Some(i) => {
                let n = rest.unicode_len();
                let line = rest.substring_char(0, i);
                let (k, v) = split_header_line(line);
                let ghost m0 = m@;
                m.insert(k, v);
                let next = rest.substring_char(i + 2, n);
                proof {
                    assert(lines == seq![rest@.subrange(0, i as int)] + spec_lines(next@));
                    assert(lines[0] == line@);
                    assert(lines.drop_first() =~= spec_lines(next@));
                    assert(spec_insert_lines(m0, lines) == spec_insert_lines(
                        m@,
                        spec_lines(next@),
                    ));
                }
                rest = next;
            },
        }
    }
}

} // verus!
