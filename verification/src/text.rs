//! Character-level text utilities that the parsers are built on: cleaning a
//! raw block of its spaces and carriage returns, splitting on a separator,
//! locating the first occurrence of a character, substring search, and
//! ASCII-case-insensitive comparison.
use vstd::prelude::*;
use vstd::string::StrSliceExecFns;

verus! {

/// A character survives cleaning when it is neither a space nor a carriage
/// return.
pub open spec fn keeps(c: char) -> bool {
    c != ' ' && c != '\r'
}

/// The text with every space and carriage return removed.
pub open spec fn strip_spec(s: Seq<char>) -> Seq<char>
    decreases s.len(),
{
    if s.len() == 0 {
        Seq::empty()
    } else if keeps(s.last()) {
        strip_spec(s.drop_last()).push(s.last())
    } else {
        strip_spec(s.drop_last())
    }
}

/// Splitting `s` on `sep`, already done up to position `i`, with the segment
/// under construction `cur` and the finished segments `acc`.
pub open spec fn split_from(s: Seq<char>, sep: char, i: int, cur: Seq<char>, acc: Seq<Seq<char>>) -> Seq<
    Seq<char>,
>
    decreases s.len() - i,
{
    if i < 0 || i >= s.len() {
        acc.push(cur)
    } else if s[i] == sep {
        split_from(s, sep, i + 1, Seq::empty(), acc.push(cur))
    } else {
        split_from(s, sep, i + 1, cur.push(s[i]), acc)
    }
}

/// The segments of `s` between occurrences of `sep`: always one more segment
/// than there are separators, in order, separators removed.
pub open spec fn split_spec(s: Seq<char>, sep: char) -> Seq<Seq<char>> {
    split_from(s, sep, 0, Seq::empty(), Seq::empty())
}

/// The views of a sequence of character vectors.
pub open spec fn seq_views(ss: Seq<Vec<char>>) -> Seq<Seq<char>> {
    ss.map_values(|v: Vec<char>| v@)
}

/// Splitting by recursion on the front: the compositional form of the
/// accumulator split, used to reason about concatenated blocks.
pub open spec fn split_rec(s: Seq<char>, sep: char, cur: Seq<char>, acc: Seq<Seq<char>>) -> Seq<
    Seq<char>,
>
    decreases s.len(),
{
    if s.len() == 0 {
        acc.push(cur)
    } else if s.first() == sep {
        split_rec(s.drop_first(), sep, Seq::empty(), acc.push(cur))
    } else {
        split_rec(s.drop_first(), sep, cur.push(s.first()), acc)
    }
}

/// The accumulator split from position `i` equals the front recursion on the
/// characters that remain.
pub proof fn lemma_split_from_rec(
    s: Seq<char>,
    sep: char,
    i: int,
    cur: Seq<char>,
    acc: Seq<Seq<char>>,
)
    requires
        0 <= i <= s.len(),
    ensures
        split_from(s, sep, i, cur, acc) == split_rec(s.subrange(i, s.len() as int), sep, cur, acc),
    decreases s.len() - i,
{
    let rest = s.subrange(i, s.len() as int);
    if i == s.len() {
        assert(rest.len() == 0);
    } else {
        assert(rest.first() == s[i]);
        assert(rest.drop_first() =~= s.subrange(i + 1, s.len() as int));
        if s[i] == sep {
            lemma_split_from_rec(s, sep, i + 1, Seq::empty(), acc.push(cur));
        } else {
            lemma_split_from_rec(s, sep, i + 1, cur.push(s[i]), acc);
        }
    }
}

/// The whole split equals the front recursion on the whole text.
pub proof fn lemma_split_spec_rec(s: Seq<char>, sep: char)
    ensures
        split_spec(s, sep) == split_rec(s, sep, Seq::empty(), Seq::empty()),
{
    lemma_split_from_rec(s, sep, 0, Seq::empty(), Seq::empty());
    assert(s.subrange(0, s.len() as int) =~= s);
}

/// Splitting a text that starts with a separator-free prefix followed by a
/// separator: the prefix closes the current segment, and the split goes on
/// with the rest.
pub proof fn lemma_split_rec_line(
    l: Seq<char>,
    sep: char,
    rest: Seq<char>,
    cur: Seq<char>,
    acc: Seq<Seq<char>>,
)
    requires
        !l.contains(sep),
    ensures
        split_rec(l + seq![sep] + rest, sep, cur, acc) == split_rec(
            rest,
            sep,
            Seq::empty(),
            acc.push(cur + l),
        ),
    decreases l.len(),
{
    let s = l + seq![sep] + rest;
    if l.len() == 0 {
        assert(s.first() == sep);
        assert(s.drop_first() =~= rest);
        assert(cur + l =~= cur);
    } else {
        assert(s.first() == l.first());
        if l.first() == sep {
            assert(l[0] == sep);
            assert(l.contains(sep));
        }
        let l2 = l.drop_first();
        assert(!l2.contains(sep)) by {
            if l2.contains(sep) {
                let w = choose|w: int| 0 <= w < l2.len() && l2[w] == sep;
                assert(l[w + 1] == sep);
                assert(l.contains(sep));
            }
        };
        assert(s.drop_first() =~= l2 + seq![sep] + rest);
        lemma_split_rec_line(l2, sep, rest, cur.push(l.first()), acc);
        assert(cur.push(l.first()) + l2 =~= cur + l);
    }
}

/// A search result is either -1 or the position of an occurrence.
pub proof fn lemma_find_from_range(s: Seq<char>, c: char, i: int)
    requires
        0 <= i,
    ensures
        find_from(s, c, i) == -1 || (i <= find_from(s, c, i) < s.len() && s[find_from(s, c, i)]
            == c),
    decreases s.len() - i,
{
    if i < s.len() && s[i] != c {
        lemma_find_from_range(s, c, i + 1);
    }
}

/// Locating a character: when everything from `i` up to `j` differs from `c`
/// and position `j` holds it, the search from `i` finds `j`.
pub proof fn lemma_find_at(s: Seq<char>, c: char, i: int, j: int)
    requires
        0 <= i <= j < s.len(),
        s[j] == c,
        forall|k: int| i <= k < j ==> s[k] != c,
    ensures
        find_from(s, c, i) == j,
    decreases j - i,
{
    if i < j {
        lemma_find_at(s, c, i + 1, j);
    }
}

/// The position of the first occurrence of `c` in `s` at or after `i`, or -1.
pub open spec fn find_from(s: Seq<char>, c: char, i: int) -> int
    decreases s.len() - i,
{
    if i < 0 || i >= s.len() {
        -1
    } else if s[i] == c {
        i
    } else {
        find_from(s, c, i + 1)
    }
}

/// The position of the first occurrence of `c` in `s`, or -1 when absent.
pub open spec fn find_first(s: Seq<char>, c: char) -> int {
    find_from(s, c, 0)
}

/// `sub` occurs contiguously somewhere in `s`.
pub open spec fn has_sub(s: Seq<char>, sub: Seq<char>) -> bool {
    exists|i: int|
        0 <= i && i + sub.len() <= s.len() && #[trigger] s.subrange(i, i + sub.len() as int) == sub
}

/// Two characters are equal up to ASCII case, compared by code point.
pub open spec fn eqi_char(a: char, b: char) -> bool {
    a as u32 == b as u32 || (65 <= a as u32 <= 90 && a as u32 + 32 == b as u32) || (65 <= b as u32
        <= 90 && b as u32 + 32 == a as u32)
}

/// Two texts are equal up to ASCII case, pointwise.
pub open spec fn eqi(a: Seq<char>, b: Seq<char>) -> bool {
    a.len() == b.len() && forall|i: int| 0 <= i < a.len() ==> eqi_char(a[i], b[i])
}

/// Every backslash replaced by a forward slash.
pub open spec fn fix_sep_spec(s: Seq<char>) -> Seq<char> {
    s.map_values(|c: char| if c == '\\' { '/' } else { c })
}

/// The characters of a string slice, in order.
pub fn chars_of(s: &str) -> (r: Vec<char>)
    ensures
        r@ == s@,
{
    let n = s.unicode_len();
    let mut r: Vec<char> = Vec::new();
    let mut i: usize = 0;
    while i < n
        invariant
            i <= n,
            n == s@.len(),
            r@ == s@.subrange(0, i as int),
        decreases n - i,
    {
        let c = s.get_char(i);
        r.push(c);
        proof {
            assert(s@.subrange(0, i + 1 as int) =~= s@.subrange(0, i as int).push(s@[i as int]));
        }
        i += 1;
    }
    proof {
        assert(s@.subrange(0, n as int) =~= s@);
    }
    r
}

/// Relies on `String::push`: appends exactly the given character.
#[verifier::external_body]
fn push_char(s: &mut String, c: char)
    ensures
        final(s)@ == old(s)@.push(c),
{
    s.push(c);
}

/// A string holding exactly the given characters.
pub fn string_of(cs: &Vec<char>) -> (r: String)
    ensures
        r@ == cs@,
{
    let mut r = String::new();
    let mut i: usize = 0;
    while i < cs.len()
        invariant
            i <= cs@.len(),
            r@ == cs@.subrange(0, i as int),
        decreases cs@.len() - i,
    {
        push_char(&mut r, cs[i]);
        proof {
            assert(cs@.subrange(0, i + 1 as int) =~= cs@.subrange(0, i as int).push(cs@[i as int]));
        }
        i += 1;
    }
    proof {
        assert(cs@.subrange(0, cs@.len() as int) =~= cs@);
    }
    r
}

/// The characters of `s` from `a` (inclusive) to `b` (exclusive).
pub fn sub_chars(s: &Vec<char>, a: usize, b: usize) -> (r: Vec<char>)
    requires
        a <= b <= s@.len(),
    ensures
        r@ == s@.subrange(a as int, b as int),
{
    let mut r: Vec<char> = Vec::new();
    let mut i: usize = a;
    while i < b
        invariant
            a <= i <= b <= s@.len(),
            r@ == s@.subrange(a as int, i as int),
        decreases b - i,
    {
        r.push(s[i]);
        proof {
            assert(s@.subrange(a as int, i + 1 as int) =~= s@.subrange(a as int, i as int).push(
                s@[i as int],
            ));
        }
        i += 1;
    }
    r
}

/// The characters of `s` with every space and carriage return removed.
pub fn strip_chars(s: &Vec<char>) -> (r: Vec<char>)
    ensures
        r@ == strip_spec(s@),
{
    let mut r: Vec<char> = Vec::new();
    let mut i: usize = 0;
    while i < s.len()
        invariant
            i <= s@.len(),
            r@ == strip_spec(s@.subrange(0, i as int)),
        decreases s@.len() - i,
    {
        let c = s[i];
        if c != ' ' && c != '\r' {
            r.push(c);
        }
        proof {
            let pre = s@.subrange(0, i + 1 as int);
            assert(pre.drop_last() =~= s@.subrange(0, i as int));
            assert(pre.last() == s@[i as int]);
        }
        i += 1;
    }
    proof {
        assert(s@.subrange(0, s@.len() as int) =~= s@);
    }
    r
}

/// The segments of `s` between occurrences of `sep`.
pub fn split_chars(s: &Vec<char>, sep: char) -> (r: Vec<Vec<char>>)
    ensures
        seq_views(r@) == split_spec(s@, sep),
        r@.len() > 0,
{
    let mut acc: Vec<Vec<char>> = Vec::new();
    let mut cur: Vec<char> = Vec::new();
    let mut i: usize = 0;
    proof {
        assert(seq_views(acc@) =~= Seq::<Seq<char>>::empty());
    }
    while i < s.len()
        invariant
            i <= s@.len(),
            split_spec(s@, sep) == split_from(s@, sep, i as int, cur@, seq_views(acc@)),
        decreases s@.len() - i,
    {
        let c = s[i];
        if c == sep {
            let ghost prev = seq_views(acc@);
            let ghost done = cur@;
            acc.push(cur);
            cur = Vec::new();
            proof {
                assert(seq_views(acc@) =~= prev.push(done));
            }
        } else {
            cur.push(c);
        }
        i += 1;
    }
    let ghost prev = seq_views(acc@);
    let ghost done = cur@;
    acc.push(cur);
    proof {
        assert(seq_views(acc@) =~= prev.push(done));
    }
    acc
}

/// The position of the first occurrence of `c` in `s` at or after `from`,
/// when there is one.
pub fn find_char_from(s: &Vec<char>, c: char, from: usize) -> (r: Option<usize>)
    ensures
        r matches Some(j) ==> from <= j < s@.len() && find_from(s@, c, from as int) == j as int,
        r is None ==> find_from(s@, c, from as int) == -1,
{
    let mut i: usize = from;
    while i < s.len()
        invariant
            from <= i,
            find_from(s@, c, from as int) == find_from(s@, c, i as int),
        decreases s@.len() - i,
    {
        if s[i] == c {
            return Some(i);
        }
        i += 1;
    }
    None
}

/// The position of the first occurrence of `c` in `s`, when there is one.
pub fn find_char(s: &Vec<char>, c: char) -> (r: Option<usize>)
    ensures
        r matches Some(j) ==> 0 <= j < s@.len() && find_first(s@, c) == j as int,
        r is None ==> find_first(s@, c) == -1,
{
    find_char_from(s, c, 0)
}

/// Whether `sub` occurs contiguously somewhere in `s`.
pub fn contains_sub(s: &Vec<char>, sub: &Vec<char>) -> (r: bool)
    ensures
        r == has_sub(s@, sub@),
{
    let n = s.len();
    let l = sub.len();
    if l > n {
        proof {
            assert(!has_sub(s@, sub@));
        }
        return false;
    }
    if l == 0 {
        proof {
            assert(s@.subrange(0, 0 + sub@.len() as int) =~= sub@);
            assert(has_sub(s@, sub@));
        }
        return true;
    }
    let m = n - l;
    let mut i: usize = 0;
    while i <= m
        invariant
            n == s@.len(),
            l == sub@.len(),
            0 < l,
            m == n - l,
            i <= m + 1,
            forall|k: int|
                0 <= k < i ==> #[trigger] s@.subrange(k, k + sub@.len() as int) != sub@,
        decreases m + 1 - i,
    {
        let mut j: usize = 0;
        let mut matched = true;
        while j < l && matched
            invariant
                n == s@.len(),
                l == sub@.len(),
                i + l <= n,
                j <= l,
                matched ==> forall|k: int| 0 <= k < j ==> s@[i + k] == sub@[k],
                !matched ==> s@.subrange(i as int, i + sub@.len() as int) != sub@,
            decreases l - j + if matched {
                1int
            } else {
                0int
            },
        {
            if s[i + j] != sub[j] {
                matched = false;
                proof {
                    assert(s@.subrange(i as int, i + sub@.len() as int)[j as int] == s@[i + j]);
                    assert(s@.subrange(i as int, i + sub@.len() as int) != sub@);
                }
            } else {
                j += 1;
            }
        }
        if matched {
            proof {
                assert(s@.subrange(i as int, i + sub@.len() as int) =~= sub@);
                assert(has_sub(s@, sub@));
            }
            return true;
        }
        i += 1;
    }
    proof {
        if has_sub(s@, sub@) {
            let w = choose|w: int|
                0 <= w && w + sub@.len() <= s@.len() && #[trigger] s@.subrange(
                    w,
                    w + sub@.len() as int,
                ) == sub@;
            assert(s@.subrange(w, w + sub@.len() as int) != sub@);
        }
    }
    false
}

/// Whether two character vectors hold the same characters.
pub fn chars_eq(a: &Vec<char>, b: &Vec<char>) -> (r: bool)
    ensures
        r == (a@ == b@),
{
    if a.len() != b.len() {
        return false;
    }
    let mut i: usize = 0;
    while i < a.len()
        invariant
            a@.len() == b@.len(),
            i <= a@.len(),
            forall|k: int| 0 <= k < i ==> a@[k] == b@[k],
        decreases a@.len() - i,
    {
        if a[i] != b[i] {
            return false;
        }
        i += 1;
    }
    proof {
        assert(a@ =~= b@);
    }
    true
}

/// Whether two character vectors are equal up to ASCII case.
pub fn eqi_chars(a: &Vec<char>, b: &Vec<char>) -> (r: bool)
    ensures
        r == eqi(a@, b@),
{
    if a.len() != b.len() {
        return false;
    }
    let mut i: usize = 0;
    while i < a.len()
        invariant
            a@.len() == b@.len(),
            i <= a@.len(),
            forall|k: int| 0 <= k < i ==> eqi_char(a@[k], b@[k]),
        decreases a@.len() - i,
    {
        let ca = a[i] as u32;
        let cb = b[i] as u32;
        let same = ca == cb || (65 <= ca && ca <= 90 && ca + 32 == cb) || (65 <= cb && cb <= 90
            && cb + 32 == ca);
        if !same {
            proof {
                assert(!eqi_char(a@[i as int], b@[i as int]));
            }
            return false;
        }
        i += 1;
    }
    true
}

/// The path with every backslash replaced by a forward slash.
pub fn fix_sep(path: &str) -> (r: String)
    ensures
        r@ == fix_sep_spec(path@),
{
    let cs = chars_of(path);
    let mut out: Vec<char> = Vec::new();
    let mut i: usize = 0;
    while i < cs.len()
        invariant
            i <= cs@.len(),
            cs@ == path@,
            out@ == fix_sep_spec(path@.subrange(0, i as int)),
        decreases cs@.len() - i,
    {
        let c = cs[i];
        if c == '\\' {
            out.push('/');
        } else {
            out.push(c);
        }
        proof {
            assert(fix_sep_spec(path@.subrange(0, i + 1 as int)) =~= fix_sep_spec(
                path@.subrange(0, i as int),
            ).push(if path@[i as int] == '\\' {
                '/'
            } else {
                path@[i as int]
            }));
        }
        i += 1;
    }
    proof {
        assert(path@.subrange(0, path@.len() as int) =~= path@);
        assert(fix_sep_spec(path@.subrange(0, path@.len() as int)) =~= fix_sep_spec(path@));
    }
    string_of(&out)
}

} // verus!
