//! Collecting override candidates: of the (identifier, value) pairs found
//! in the environment or the secrets directory, keep those whose
//! identifier carries the fixed prefix.

use vstd::prelude::*;
use crate::catalog::spec_config_prefix;
use crate::catalog::config_prefix;
use crate::synth::ov_views;

verus! {

/// Whether `p` is a prefix of `s`.
pub open spec fn has_prefix(s: Seq<char>, p: Seq<char>) -> bool {
    s.len() >= p.len() && s.take(p.len() as int) == p
}

/// Whether `s` starts with `p`.
pub fn str_starts_with(s: &str, p: &str) -> (r: bool)
    ensures
        r == has_prefix(s@, p@),
{
    let ns = s.unicode_len();
    let np = p.unicode_len();
    if ns < np {
        return false;
    }
    let mut i: usize = 0;
    while i < np
        invariant
            ns == s@.len(),
            np == p@.len(),
            np <= ns,
            i <= np,
            forall|t: int| 0 <= t < i ==> s@[t] == p@[t],
        decreases np - i,
    {
        if s.get_char(i) != p.get_char(i) {
            proof {
                assert(s@.take(np as int)[i as int] != p@[i as int]);
            }
            return false;
        }
        i += 1;
    }
    proof {
        assert(s@.take(np as int) =~= p@);
    }
    true
}

/// The pairs whose identifier carries the fixed prefix, in their given
/// order.
pub open spec fn spec_filter_overrides(
    pairs: Seq<(Seq<char>, Seq<char>)>,
) -> Seq<(Seq<char>, Seq<char>)>
    decreases pairs.len(),
{
    if pairs.len() == 0 {
        Seq::empty()
    } else {
        spec_filter_overrides(pairs.drop_last()) + (if has_prefix(
            pairs.last().0,
            spec_config_prefix(),
        ) {
            seq![pairs.last()]
        } else {
            Seq::empty()
        })
    }
}

/// Keep the candidate overrides: the pairs whose identifier starts with
/// the fixed prefix.
pub fn filter_config_overrides(pairs: &Vec<(String, String)>) -> (r: Vec<(String, String)>)
    ensures
        ov_views(r@) == spec_filter_overrides(ov_views(pairs@)),
{
    let n = pairs.len();
    let mut r: Vec<(String, String)> = Vec::new();
    proof {
        assert(ov_views(r@) =~= Seq::<(Seq<char>, Seq<char>)>::empty());
        assert(ov_views(pairs@).take(0) =~= Seq::<(Seq<char>, Seq<char>)>::empty());
    }
    let mut i: usize = 0;
    while i < n
        invariant
            n == pairs@.len(),
            i <= n,
            ov_views(r@) == spec_filter_overrides(ov_views(pairs@).take(i as int)),
        decreases n - i,
    {
        let ghost pre = ov_views(r@);
        proof {
            assert(ov_views(pairs@).take(i + 1 as int).drop_last() =~= ov_views(pairs@).take(
                i as int,
            ));
            assert(ov_views(pairs@).take(i + 1 as int).last() == ov_views(pairs@)[i as int]);
        }
        if str_starts_with(pairs[i].0.as_str(), config_prefix()) {
            r.push((pairs[i].0.clone(), pairs[i].1.clone()));
            proof {
                assert(ov_views(r@) =~= pre.push(ov_views(pairs@)[i as int]));
                assert(pre.push(ov_views(pairs@)[i as int]) =~= pre + seq![
                    ov_views(pairs@)[i as int],
                ]);
            }
        } else {
            proof {
                assert(pre + Seq::<(Seq<char>, Seq<char>)>::empty() =~= pre);
            }
        }
        i += 1;
    }
    proof {
        assert(ov_views(pairs@).take(n as int) =~= ov_views(pairs@));
    }
    r
}

} // verus!
