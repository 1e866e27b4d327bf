//! The header parser: a raw, human-typed header block becomes a validated
//! mapping of header name to header value.
//!
//! The whole block is first cleaned of spaces and carriage returns, then split
//! on newlines; each non-empty line must carry a colon with a non-empty name
//! before it, and later lines overwrite earlier ones with the same name. A
//! single malformed line fails the whole parse.
use vstd::prelude::*;

use crate::errors::RequestError;
use crate::text::chars_eq;
use crate::text::chars_of;
use crate::text::eqi;
use crate::text::eqi_chars;
use crate::text::find_char;
use crate::text::find_first;
use crate::text::seq_views;
use crate::text::split_chars;
use crate::text::split_spec;
use crate::text::string_of;
use crate::text::strip_chars;
use crate::text::strip_spec;
use crate::text::sub_chars;

verus! {

/// The spec-level form of a header map: name/value pairs in insertion order.
pub type Entries = Seq<(Seq<char>, Seq<char>)>;

/// The position of the first entry named `n`, or -1.
pub open spec fn find_name_from(m: Entries, n: Seq<char>, i: int) -> int
    decreases m.len() - i,
{
    if i < 0 || i >= m.len() {
        -1
    } else if m[i].0 == n {
        i
    } else {
        find_name_from(m, n, i + 1)
    }
}

/// The position of the entry named `n`, or -1 when there is none.
pub open spec fn find_name(m: Entries, n: Seq<char>) -> int {
    find_name_from(m, n, 0)
}

/// Inserting overwrites the value of an entry with the same name, or appends.
pub open spec fn insert_spec(m: Entries, n: Seq<char>, v: Seq<char>) -> Entries {
    if find_name(m, n) < 0 {
        m.push((n, v))
    } else {
        m.update(find_name(m, n), (n, v))
    }
}

/// The value stored under exactly the name `n`.
pub open spec fn lookup_spec(m: Entries, n: Seq<char>) -> Option<Seq<char>> {
    if find_name(m, n) < 0 {
        None
    } else {
        Some(m[find_name(m, n)].1)
    }
}

/// The position of the first entry whose name equals `n` up to ASCII case.
pub open spec fn find_name_ci_from(m: Entries, n: Seq<char>, i: int) -> int
    decreases m.len() - i,
{
    if i < 0 || i >= m.len() {
        -1
    } else if eqi(m[i].0, n) {
        i
    } else {
        find_name_ci_from(m, n, i + 1)
    }
}

/// The value stored under the name `n`, compared up to ASCII case.
pub open spec fn lookup_ci_spec(m: Entries, n: Seq<char>) -> Option<Seq<char>> {
    if find_name_ci_from(m, n, 0) < 0 {
        None
    } else {
        Some(m[find_name_ci_from(m, n, 0)].1)
    }
}

/// The entries that remain once every entry named `n` (up to ASCII case) is
/// removed.
pub open spec fn remove_ci_spec(m: Entries, n: Seq<char>) -> Entries
    decreases m.len(),
{
    if m.len() == 0 {
        Seq::empty()
    } else if eqi(m.last().0, n) {
        remove_ci_spec(m.drop_last(), n)
    } else {
        remove_ci_spec(m.drop_last(), n).push(m.last())
    }
}

/// One cleaned header line: the name before the first colon and the value
/// after it, or nothing when the line has no colon or an empty name.
pub open spec fn line_model(line: Seq<char>) -> Option<(Seq<char>, Seq<char>)> {
    let j = find_first(line, ':');
    if j < 1 {
        None
    } else {
        Some((line.subrange(0, j), line.subrange(j + 1, line.len() as int)))
    }
}

/// The entries parsed from the cleaned lines `segs` starting at line `i`,
/// folded onto `acc`; `None` when some non-empty line is malformed.
pub open spec fn lines_model(segs: Seq<Seq<char>>, i: int, acc: Entries) -> Option<Entries>
    decreases segs.len() - i,
{
    if i < 0 || i >= segs.len() {
        Some(acc)
    } else if segs[i].len() == 0 {
        lines_model(segs, i + 1, acc)
    } else {
        match line_model(segs[i]) {
            None => None,
            Some(p) => lines_model(segs, i + 1, insert_spec(acc, p.0, p.1)),
        }
    }
}

/// The header map denoted by a raw header block, or `None` when some
/// non-empty cleaned line is malformed.
pub open spec fn header_map_model(raw: Seq<char>) -> Option<Entries> {
    lines_model(split_spec(strip_spec(raw), '\n'), 0, Seq::empty())
}

/// Every entry has a non-empty name, and names are unique.
pub open spec fn entries_wf(m: Entries) -> bool {
    (forall|i: int| 0 <= i < m.len() ==> (#[trigger] m[i].0).len() > 0) && (forall|i: int, j: int|
        0 <= i < j < m.len() ==> (#[trigger] m[i].0) != (#[trigger] m[j].0))
}

/// A validated mapping of header name to header value, in insertion order.
#[derive(Debug)]
pub struct HeaderMap {
    entries: Vec<(String, String)>,
}

impl View for HeaderMap {
    type V = Entries;

    closed spec fn view(&self) -> Entries {
        seq_pair_views(self.entries@)
    }
}

/// The views of a sequence of string pairs.
pub open spec fn seq_pair_views(ps: Seq<(String, String)>) -> Entries {
    ps.map_values(|p: (String, String)| (p.0@, p.1@))
}

impl HeaderMap {
    /// The empty header map.
    pub fn new() -> (r: HeaderMap)
        ensures
            r@ == Seq::<(Seq<char>, Seq<char>)>::empty(),
    {
        let r = HeaderMap { entries: Vec::new() };
        proof {
            assert(r@ =~= Seq::<(Seq<char>, Seq<char>)>::empty());
        }
        r
    }

    /// The number of entries.
    pub fn len(&self) -> (r: usize)
        ensures
            r == self@.len(),
    {
        self.entries.len()
    }

    /// The entry at position `i`, as a name/value pair.
    pub fn entry(&self, i: usize) -> (r: (String, String))
        requires
            i < self@.len(),
        ensures
            (r.0@, r.1@) == self@[i as int],
    {
        let p = &self.entries[i];
        (p.0.clone(), p.1.clone())
    }

    /// Inserts a pair; an entry with the same name is overwritten in place.
    pub fn insert(&mut self, name: String, value: String)
        ensures
            final(self)@ == insert_spec(old(self)@, name@, value@),
    {
        let n = self.entries.len();
        let mut i: usize = 0;
        while i < n
            invariant
                n == self.entries@.len(),
                i <= n,
                self@ == old(self)@,
                self.entries@ == old(self).entries@,
                find_name_from(self@, name@, 0) == find_name_from(self@, name@, i as int),
                forall|k: int| 0 <= k < i ==> (#[trigger] self@[k]).0 != name@,
            decreases n - i,
        {
            if self.entries[i].0 == name {
                proof {
                    assert(self@[i as int].0 == name@);
                    assert(find_name(self@, name@) == i as int);
                }
                let ghost pre = self@;
                self.entries[i] = (name, value);
                proof {
                    assert(self@ =~= insert_spec(pre, name@, value@));
                }
                return ;
            }
            proof {
                assert(self@[i as int].0 != name@);
            }
            i += 1;
        }
        proof {
            assert(find_name(self@, name@) == -1);
        }
        let ghost pre = self@;
        self.entries.push((name, value));
        proof {
            assert(self@ =~= insert_spec(pre, name@, value@));
        }
    }

    /// The value stored under exactly this name.
    pub fn get(&self, name: &str) -> (r: Option<String>)
        ensures
            match r {
                Some(v) => lookup_spec(self@, name@) == Some(v@),
                None => lookup_spec(self@, name@) is None,
            },
    {
        let target = chars_of(name);
        let n = self.entries.len();
        let mut i: usize = 0;
        while i < n
            invariant
                n == self@.len(),
                i <= n,
                target@ == name@,
                find_name_from(self@, name@, 0) == find_name_from(self@, name@, i as int),
            decreases n - i,
        {
            let own = chars_of(self.entries[i].0.as_str());
            if chars_eq(&own, &target) {
                proof {
                    assert(self@[i as int].0 == name@);
                    assert(find_name(self@, name@) == i as int);
                }
                return Some(self.entries[i].1.clone());
            }
            proof {
                assert(self@[i as int].0 != name@);
            }
            i += 1;
        }
        None
    }

    /// The value stored under this name, compared up to ASCII case.
    pub fn get_ci(&self, name: &str) -> (r: Option<String>)
        ensures
            match r {
                Some(v) => lookup_ci_spec(self@, name@) == Some(v@),
                None => lookup_ci_spec(self@, name@) is None,
            },
    {
        let target = chars_of(name);
        let n = self.entries.len();
        let mut i: usize = 0;
        while i < n
            invariant
                n == self@.len(),
                i <= n,
                target@ == name@,
                find_name_ci_from(self@, name@, 0) == find_name_ci_from(self@, name@, i as int),
            decreases n - i,
        {
            let own = chars_of(self.entries[i].0.as_str());
            if eqi_chars(&own, &target) {
                proof {
                    assert(find_name_ci_from(self@, name@, 0) == i as int);
                }
                return Some(self.entries[i].1.clone());
            }
            i += 1;
        }
        None
    }

    /// The map with every entry named `name` (up to ASCII case) removed.
    pub fn remove_ci(&self, name: &str) -> (r: HeaderMap)
        ensures
            r@ == remove_ci_spec(self@, name@),
    {
        let target = chars_of(name);
        let n = self.entries.len();
        let mut out: Vec<(String, String)> = Vec::new();
        let mut i: usize = 0;
        proof {
            assert(seq_pair_views(out@) =~= remove_ci_spec(
                self@.subrange(0, 0),
                name@,
            ));
        }
        while i < n
            invariant
                n == self@.len(),
                i <= n,
                target@ == name@,
                seq_pair_views(out@) == remove_ci_spec(self@.subrange(0, i as int), name@),
            decreases n - i,
        {
            let own = chars_of(self.entries[i].0.as_str());
            let ghost prefix = self@.subrange(0, i as int);
            let ghost prev = seq_pair_views(out@);
            if !eqi_chars(&own, &target) {
                let p = &self.entries[i];
                out.push((p.0.clone(), p.1.clone()));
                proof {
                    assert(seq_pair_views(out@) =~= prev.push(self@[i as int]));
                }
            }
            proof {
                let pre = self@.subrange(0, i + 1 as int);
                assert(pre.drop_last() =~= prefix);
                assert(pre.last() == self@[i as int]);
            }
            i += 1;
        }
        proof {
            assert(self@.subrange(0, n as int) =~= self@);
        }
        HeaderMap { entries: out }
    }
}

/// A search that found something stops at an entry carrying the name.
proof fn lemma_find_name_found(m: Entries, n: Seq<char>, i: int)
    requires
        0 <= i <= m.len(),
        find_name_from(m, n, i) != -1,
    ensures
        i <= find_name_from(m, n, i) < m.len(),
        m[find_name_from(m, n, i)].0 == n,
    decreases m.len() - i,
{
    if i < m.len() && m[i].0 != n {
        lemma_find_name_found(m, n, i + 1);
    }
}

/// A search that found nothing saw no entry carrying the name.
proof fn lemma_find_name_not_found(m: Entries, n: Seq<char>, i: int)
    requires
        0 <= i <= m.len(),
        find_name_from(m, n, i) == -1,
    ensures
        forall|k: int| i <= k < m.len() ==> (#[trigger] m[k]).0 != n,
    decreases m.len() - i,
{
    if i < m.len() {
        lemma_find_name_not_found(m, n, i + 1);
    }
}

/// Inserting under a non-empty name keeps the map well-formed: names stay
/// non-empty and unique.
pub proof fn lemma_insert_wf(m: Entries, n: Seq<char>, v: Seq<char>)
    requires
        entries_wf(m),
        n.len() > 0,
    ensures
        entries_wf(insert_spec(m, n, v)),
{
    let j = find_name(m, n);
    if j < 0 {
        if j != -1 {
            lemma_find_name_found(m, n, 0);
        }
        lemma_find_name_not_found(m, n, 0);
        let m2 = m.push((n, v));
        assert(forall|k: int| 0 <= k < m.len() ==> m2[k] == m[k]);
        assert(m2[m.len() as int] == (n, v));
    } else {
        lemma_find_name_found(m, n, 0);
        let m2 = m.update(j, (n, v));
        assert(forall|k: int| 0 <= k < m2.len() ==> (#[trigger] m2[k]).0 == m[k].0);
    }
}

/// Folding well-formed entries through the lines keeps them well-formed.
proof fn lemma_lines_model_wf(segs: Seq<Seq<char>>, i: int, acc: Entries)
    requires
        0 <= i,
        entries_wf(acc),
        lines_model(segs, i, acc) is Some,
    ensures
        entries_wf(lines_model(segs, i, acc).unwrap()),
    decreases segs.len() - i,
{
    if i < segs.len() {
        if segs[i].len() == 0 {
            lemma_lines_model_wf(segs, i + 1, acc);
        } else {
            let j = find_first(segs[i], ':');
            crate::text::lemma_find_from_range(segs[i], ':', 0);
            match line_model(segs[i]) {
                None => {},
                Some(p) => {
                    assert(p.0.len() > 0);
                    lemma_insert_wf(acc, p.0, p.1);
                    lemma_lines_model_wf(segs, i + 1, insert_spec(acc, p.0, p.1));
                },
            }
        }
    }
}

/// The header map invariant: whatever block parses at all parses to entries
/// with non-empty, unique names.
pub proof fn lemma_header_model_wf(raw: Seq<char>)
    requires
        header_map_model(raw) is Some,
    ensures
        entries_wf(header_map_model(raw).unwrap()),
{
    lemma_lines_model_wf(split_spec(strip_spec(raw), '\n'), 0, Seq::empty());
}

/// A name that no entry matches up to ASCII case is not found.
proof fn lemma_find_ci_absent(m: Entries, n: Seq<char>, i: int)
    requires
        0 <= i <= m.len(),
        forall|k: int| i <= k < m.len() ==> !eqi((#[trigger] m[k]).0, n),
    ensures
        find_name_ci_from(m, n, i) == -1,
    decreases m.len() - i,
{
    if i < m.len() {
        lemma_find_ci_absent(m, n, i + 1);
    }
}

/// After removal no remaining entry matches the name, up to ASCII case.
proof fn lemma_remove_ci_no_match(m: Entries, n: Seq<char>)
    ensures
        forall|k: int|
            0 <= k < remove_ci_spec(m, n).len() ==> !eqi((#[trigger] remove_ci_spec(m, n)[k]).0, n),
    decreases m.len(),
{
    if m.len() > 0 {
        lemma_remove_ci_no_match(m.drop_last(), n);
        let r = remove_ci_spec(m, n);
        let r0 = remove_ci_spec(m.drop_last(), n);
        if !eqi(m.last().0, n) {
            assert(forall|k: int| 0 <= k < r0.len() ==> r[k] == r0[k]);
            assert(r[r0.len() as int] == m.last());
        }
    }
}

/// Discarding a header: whatever the map held, looking the removed name up —
/// in any ASCII case — finds nothing.
pub proof fn lemma_remove_ci_discards(m: Entries, n: Seq<char>)
    ensures
        lookup_ci_spec(remove_ci_spec(m, n), n) is None,
{
    lemma_remove_ci_no_match(m, n);
    lemma_find_ci_absent(remove_ci_spec(m, n), n, 0);
}

/// The cleaned text of one header line: name, colon, value.
pub open spec fn line_content(p: (Seq<char>, Seq<char>)) -> Seq<char> {
    p.0 + seq![':'] + p.1
}

/// A whole cleaned header block: each pair's line followed by a newline.
pub open spec fn block_of(pairs: Entries) -> Seq<char>
    decreases pairs.len(),
{
    if pairs.len() == 0 {
        Seq::empty()
    } else {
        line_content(pairs.first()) + seq!['\n'] + block_of(pairs.drop_first())
    }
}

/// The segments such a block splits into: one per line, and the trailing
/// empty segment after the final newline.
pub open spec fn lines_of(pairs: Entries) -> Seq<Seq<char>>
    decreases pairs.len(),
{
    if pairs.len() == 0 {
        seq![Seq::<char>::empty()]
    } else {
        seq![line_content(pairs.first())] + lines_of(pairs.drop_first())
    }
}

/// Folding the parsed lines, by recursion on the front.
pub open spec fn lines_rec(segs: Seq<Seq<char>>, acc: Entries) -> Option<Entries>
    decreases segs.len(),
{
    if segs.len() == 0 {
        Some(acc)
    } else if segs.first().len() == 0 {
        lines_rec(segs.drop_first(), acc)
    } else {
        match line_model(segs.first()) {
            None => None,
            Some(p) => lines_rec(segs.drop_first(), insert_spec(acc, p.0, p.1)),
        }
    }
}

/// The fold from position `i` equals the front recursion on the segments
/// that remain.
proof fn lemma_lines_model_rec(segs: Seq<Seq<char>>, i: int, acc: Entries)
    requires
        0 <= i <= segs.len(),
    ensures
        lines_model(segs, i, acc) == lines_rec(segs.subrange(i, segs.len() as int), acc),
    decreases segs.len() - i,
{
    let rest = segs.subrange(i, segs.len() as int);
    if i < segs.len() {
        assert(rest.first() == segs[i]);
        assert(rest.drop_first() =~= segs.subrange(i + 1, segs.len() as int));
        if segs[i].len() == 0 {
            lemma_lines_model_rec(segs, i + 1, acc);
        } else {
            match line_model(segs[i]) {
                None => {},
                Some(p) => {
                    lemma_lines_model_rec(segs, i + 1, insert_spec(acc, p.0, p.1));
                },
            }
        }
    }
}

/// A name that no entry carries is not found.
proof fn lemma_find_name_absent(m: Entries, n: Seq<char>, i: int)
    requires
        0 <= i <= m.len(),
        forall|k: int| i <= k < m.len() ==> (#[trigger] m[k]).0 != n,
    ensures
        find_name_from(m, n, i) == -1,
    decreases m.len() - i,
{
    if i < m.len() {
        lemma_find_name_absent(m, n, i + 1);
    }
}

/// When everything before position `j` carries another name and `j` carries
/// `n`, the search finds `j`.
proof fn lemma_find_name_at(m: Entries, n: Seq<char>, i: int, j: int)
    requires
        0 <= i <= j < m.len(),
        m[j].0 == n,
        forall|k: int| i <= k < j ==> (#[trigger] m[k]).0 != n,
    ensures
        find_name_from(m, n, i) == j,
    decreases j - i,
{
    if i < j {
        lemma_find_name_at(m, n, i + 1, j);
    }
}

/// In a map whose names are unique, each entry's name looks up exactly its
/// own value.
pub proof fn lemma_distinct_lookup(m: Entries, k: int)
    requires
        0 <= k < m.len(),
        forall|k1: int, k2: int|
            0 <= k1 < k2 < m.len() ==> (#[trigger] m[k1]).0 != (#[trigger] m[k2]).0,
    ensures
        lookup_spec(m, m[k].0) == Some(m[k].1),
{
    lemma_find_name_at(m, m[k].0, 0, k);
}

/// Splitting a block of newline-free lines yields those lines and a trailing
/// empty segment.
proof fn lemma_split_block(pairs: Entries, acc: Seq<Seq<char>>)
    requires
        forall|k: int|
            0 <= k < pairs.len() ==> !(#[trigger] pairs[k]).0.contains('\n')
                && !pairs[k].1.contains('\n'),
    ensures
        crate::text::split_rec(block_of(pairs), '\n', Seq::empty(), acc) == acc + lines_of(pairs),
    decreases pairs.len(),
{
    if pairs.len() == 0 {
        assert(block_of(pairs).len() == 0);
        assert(acc.push(Seq::<char>::empty()) =~= acc + lines_of(pairs));
    } else {
        let p = pairs.first();
        assert(p == pairs[0]);
        let lc = line_content(p);
        let rest = pairs.drop_first();
        assert(!lc.contains('\n')) by {
            if lc.contains('\n') {
                let w = choose|w: int| 0 <= w < lc.len() && lc[w] == '\n';
                if w < p.0.len() {
                    assert(p.0[w] == '\n');
                    assert(p.0.contains('\n'));
                } else if w == p.0.len() {
                    assert(lc[w] == ':');
                } else {
                    assert(p.1[w - p.0.len() - 1] == '\n');
                    assert(p.1.contains('\n'));
                }
            }
        };
        assert(block_of(pairs) == lc + seq!['\n'] + block_of(rest));
        crate::text::lemma_split_rec_line(lc, '\n', block_of(rest), Seq::empty(), acc);
        assert(Seq::<char>::empty() + lc =~= lc);
        assert(forall|k: int|
            0 <= k < rest.len() ==> !(#[trigger] rest[k]).0.contains('\n')
                && !rest[k].1.contains('\n')) by {
            assert(forall|k: int| 0 <= k < rest.len() ==> rest[k] == pairs[k + 1]);
        };
        lemma_split_block(rest, acc.push(lc));
        assert(acc.push(lc) + lines_of(rest) =~= acc + lines_of(pairs));
    }
}

/// Folding the lines of well-formed, distinctly-named pairs appends them to
/// the accumulated entries, in order.
proof fn lemma_lines_fold(pairs: Entries, acc: Entries)
    requires
        forall|k: int| 0 <= k < pairs.len() ==> (#[trigger] pairs[k]).0.len() > 0,
        forall|k: int| 0 <= k < pairs.len() ==> !(#[trigger] pairs[k]).0.contains(':'),
        forall|k1: int, k2: int|
            0 <= k1 < k2 < pairs.len() ==> (#[trigger] pairs[k1]).0 != (#[trigger] pairs[k2]).0,
        forall|a: int, k: int|
            0 <= a < acc.len() && 0 <= k < pairs.len() ==> (#[trigger] acc[a]).0 != (
            #[trigger] pairs[k]).0,
    ensures
        lines_rec(lines_of(pairs), acc) == Some(acc + pairs),
    decreases pairs.len(),
{
    if pairs.len() == 0 {
        assert(lines_of(pairs).first().len() == 0);
        assert(lines_of(pairs).drop_first() =~= Seq::<Seq<char>>::empty());
        assert(lines_rec(lines_of(pairs).drop_first(), acc) == Some(acc));
        assert(lines_rec(lines_of(pairs), acc) == Some(acc));
        assert(acc + pairs =~= acc);
    } else {
        let p = pairs.first();
        assert(p == pairs[0]);
        let lc = line_content(p);
        let segs = lines_of(pairs);
        let rest = pairs.drop_first();
        assert(segs.first() == lc);
        assert(segs.drop_first() =~= lines_of(rest));
        assert(lc.len() > 0);
        assert(lc[p.0.len() as int] == ':');
        assert(forall|k: int| 0 <= k < p.0.len() ==> lc[k] == p.0[k] && lc[k] != ':') by {
            assert(forall|k: int|
                0 <= k < p.0.len() && #[trigger] lc[k] == ':' ==> p.0.contains(':'));
        };
        crate::text::lemma_find_at(lc, ':', 0, p.0.len() as int);
        assert(find_first(lc, ':') == p.0.len());
        assert(lc.subrange(0, p.0.len() as int) =~= p.0);
        assert(lc.subrange(p.0.len() as int + 1, lc.len() as int) =~= p.1);
        assert(line_model(lc) == Some((p.0, p.1)));
        assert(forall|a: int| 0 <= a < acc.len() ==> (#[trigger] acc[a]).0 != p.0);
        lemma_find_name_absent(acc, p.0, 0);
        assert(insert_spec(acc, p.0, p.1) == acc.push((p.0, p.1)));
        let acc2 = acc.push((p.0, p.1));
        assert(forall|k: int| 0 <= k < rest.len() ==> rest[k] == pairs[k + 1]);
        assert(forall|a: int, k: int|
            0 <= a < acc2.len() && 0 <= k < rest.len() ==> (#[trigger] acc2[a]).0 != (
            #[trigger] rest[k]).0) by {
            assert(forall|a: int| 0 <= a < acc.len() ==> acc2[a] == acc[a]);
            assert(acc2[acc.len() as int] == (p.0, p.1));
        };
        lemma_lines_fold(rest, acc2);
        assert(lines_rec(lines_of(rest), acc2) == Some(acc2 + rest));
        assert(lines_rec(segs, acc) == lines_rec(segs.drop_first(), insert_spec(acc, p.0, p.1)));
        assert(lines_rec(segs.drop_first(), insert_spec(acc, p.0, p.1)) == lines_rec(
            lines_of(rest),
            acc2,
        ));
        assert(acc2 + rest =~= acc + pairs);
    }
}

/// Header parsing, whole-block: a raw block that cleans to `name:value`
/// lines — however spaces and carriage returns surround the colons — parses
/// to exactly those pairs: one entry per line, in order, values as written.
pub proof fn lemma_header_block(pairs: Entries, raw: Seq<char>)
    requires
        forall|k: int| 0 <= k < pairs.len() ==> (#[trigger] pairs[k]).0.len() > 0,
        forall|k: int| 0 <= k < pairs.len() ==> !(#[trigger] pairs[k]).0.contains(':'),
        forall|k: int|
            0 <= k < pairs.len() ==> !(#[trigger] pairs[k]).0.contains('\n')
                && !pairs[k].1.contains('\n'),
        forall|k1: int, k2: int|
            0 <= k1 < k2 < pairs.len() ==> (#[trigger] pairs[k1]).0 != (#[trigger] pairs[k2]).0,
        strip_spec(raw) == block_of(pairs),
    ensures
        header_map_model(raw) == Some(pairs),
        header_map_model(raw).unwrap().len() == pairs.len(),
{
    crate::text::lemma_split_spec_rec(strip_spec(raw), '\n');
    lemma_split_block(pairs, Seq::empty());
    assert(Seq::<Seq<char>>::empty() + lines_of(pairs) =~= lines_of(pairs));
    lemma_lines_model_rec(lines_of(pairs), 0, Seq::empty());
    assert(lines_of(pairs).subrange(0, lines_of(pairs).len() as int) =~= lines_of(pairs));
    lemma_lines_fold(pairs, Seq::empty());
    assert(Seq::<(Seq<char>, Seq<char>)>::empty() + pairs =~= pairs);
}

/// Parses a raw header block into a header map, failing when some non-empty
/// cleaned line has no colon or an empty name.
pub fn parse_header(header: &str) -> (r: Result<HeaderMap, RequestError>)
    ensures
        match r {
            Ok(m) => header_map_model(header@) == Some(m@) && entries_wf(m@),
            Err(e) => header_map_model(header@) is None && e == RequestError::BadHeaderLine,
        },
{
    let cs = chars_of(header);
    let cleaned = strip_chars(&cs);
    let lines = split_chars(&cleaned, '\n');
    let ghost segs = seq_views(lines@);
    let mut map = HeaderMap::new();
    let n = lines.len();
    let mut i: usize = 0;
    while i < n
        invariant
            n == lines@.len(),
            i <= n,
            segs == seq_views(lines@),
            segs == split_spec(strip_spec(header@), '\n'),
            lines_model(segs, 0, Seq::empty()) == lines_model(segs, i as int, map@),
            entries_wf(map@),
        decreases n - i,
    {
        let line = &lines[i];
        proof {
            assert(segs[i as int] == lines@[i as int]@);
        }
        if line.len() > 0 {
            let colon = find_char(line, ':');
            let mut at: usize = 0;
            let found = match colon {
                Some(j) => {
                    at = j;
                    j > 0
                },
                None => false,
            };
            if found {
                let name = string_of(&sub_chars(line, 0, at));
                let value = string_of(&sub_chars(line, at + 1, line.len()));
                proof {
                    assert(line_model(segs[i as int]) == Some((name@, value@)));
                }
                let ghost pre_map = map@;
                map.insert(name, value);
                proof {
                    lemma_insert_wf(pre_map, name@, value@);
                }
            } else {
                proof {
                    assert(line_model(segs[i as int]) is None);
                }
                return Err(RequestError::BadHeaderLine);
            }
        }
        i += 1;
    }
    Ok(map)
}

} // verus!
