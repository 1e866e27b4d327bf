//! The query encoder: a raw `&`-separated `key=value` string becomes an
//! ordered list of pairs. Each pair is split on its first equals sign; a pair
//! with no equals sign fails the whole parse, and duplicate keys are kept.
use vstd::prelude::*;

use crate::errors::RequestError;
use crate::text::chars_of;
use crate::text::find_char;
use crate::text::find_first;
use crate::text::seq_views;
use crate::text::split_chars;
use crate::text::split_spec;
use crate::text::string_of;
use crate::text::sub_chars;

verus! {

/// Spec-level name/value pairs in order.
pub type Pairs = Seq<(Seq<char>, Seq<char>)>;

/// One raw pair: the key before the first equals sign and the value after
/// it, or nothing when the pair has no equals sign.
pub open spec fn pair_model(seg: Seq<char>) -> Option<(Seq<char>, Seq<char>)> {
    let j = find_first(seg, '=');
    if j < 0 {
        None
    } else {
        Some((seg.subrange(0, j), seg.subrange(j + 1, seg.len() as int)))
    }
}

/// The pairs parsed from the segments `segs` starting at `i`, in order, onto
/// `acc`; `None` when some segment has no equals sign.
pub open spec fn pairs_model(segs: Seq<Seq<char>>, i: int, acc: Pairs) -> Option<Pairs>
    decreases segs.len() - i,
{
    if i < 0 || i >= segs.len() {
        Some(acc)
    } else {
        match pair_model(segs[i]) {
            None => None,
            Some(p) => pairs_model(segs, i + 1, acc.push(p)),
        }
    }
}

/// The ordered pairs denoted by a raw `k1=v1&k2=v2` string, or `None` when
/// some pair is malformed.
pub open spec fn query_model(input: Seq<char>) -> Option<Pairs> {
    pairs_model(split_spec(input, '&'), 0, Seq::empty())
}

/// The views of a vector of string pairs.
pub open spec fn pair_views(ps: Seq<(String, String)>) -> Pairs {
    ps.map_values(|p: (String, String)| (p.0@, p.1@))
}

/// Parses a raw `k1=v1&k2=v2` string into ordered pairs, keeping duplicate
/// keys, and failing when some pair has no equals sign.
pub fn parse_param(input: &str) -> (r: Result<Vec<(String, String)>, RequestError>)
    ensures
        match r {
            Ok(ps) => query_model(input@) == Some(pair_views(ps@)),
            Err(e) => query_model(input@) is None && e == RequestError::BadQueryPair,
        },
{
    let cs = chars_of(input);
    let segs = split_chars(&cs, '&');
    let ghost sv = seq_views(segs@);
    let mut out: Vec<(String, String)> = Vec::new();
    let n = segs.len();
    let mut i: usize = 0;
    proof {
        assert(pair_views(out@) =~= Seq::<(Seq<char>, Seq<char>)>::empty());
    }
    while i < n
        invariant
            n == segs@.len(),
            i <= n,
            sv == seq_views(segs@),
            sv == split_spec(input@, '&'),
            pairs_model(sv, 0, Seq::empty()) == pairs_model(sv, i as int, pair_views(out@)),
        decreases n - i,
    {
        let seg = &segs[i];
        let m = seg.len();
        proof {
            assert(sv[i as int] == segs@[i as int]@);
        }
        match find_char(seg, '=') {
            Some(j) => {
                let key = string_of(&sub_chars(seg, 0, j));
                let value = string_of(&sub_chars(seg, j + 1, m));
                proof {
                    assert(pair_model(sv[i as int]) == Some((key@, value@)));
                }
                let ghost prev = pair_views(out@);
                out.push((key, value));
                proof {
                    assert(pair_views(out@) =~= prev.push((key@, value@)));
                }
            },
            None => {
                proof {
                    assert(pair_model(sv[i as int]) is None);
                }
                return Err(RequestError::BadQueryPair);
            },
        }
        i += 1;
    }
    Ok(out)
}

} // verus!
