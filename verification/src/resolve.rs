//! Resolution of a requested path against an ordered list of candidate
//! filesystem locations.
//!
//! For a stripped request path `p` the server tries, in this order,
//! `static/p`, `./p`, and `p` verbatim; the first candidate that exists on
//! disk wins.  The existence checks themselves are I/O and stay with the
//! caller: it hands back one `bool` per candidate and `select_candidate`
//! picks the first hit.

use vstd::prelude::*;
use crate::bytes::extend;

verus! {

/// `"static/"`, the directory tried first.
pub open spec fn spec_static_prefix() -> Seq<u8> {
    seq![115, 116, 97, 116, 105, 99, 47]
}

pub fn static_prefix() -> (v: Vec<u8>)
    ensures
        v@ == spec_static_prefix(),
{
    let mut v: Vec<u8> = Vec::new();
    v.push(115);
    v.push(116);
    v.push(97);
    v.push(116);
    v.push(105);
    v.push(99);
    v.push(47);
    proof {
        assert(v@ =~= spec_static_prefix());
    }
    v
}

/// `"./"`, the prefix of the second candidate.
pub open spec fn spec_dot_slash() -> Seq<u8> {
    seq![46, 47]
}

pub fn dot_slash() -> (v: Vec<u8>)
    ensures
        v@ == spec_dot_slash(),
{
    let mut v: Vec<u8> = Vec::new();
    v.push(46);
    v.push(47);
    proof {
        assert(v@ =~= spec_dot_slash());
    }
    v
}

/// The ordered candidate locations for a stripped request path:
/// `static/<p>`, then `./<p>`, then `<p>` verbatim.
pub open spec fn spec_candidates(p: Seq<u8>) -> Seq<Seq<u8>> {
    seq![spec_static_prefix() + p, spec_dot_slash() + p, p]
}

/// Builds the candidate locations for `path`, in priority order.
pub fn candidate_paths(path: &Vec<u8>) -> (cs: Vec<Vec<u8>>)
    ensures
        cs@.len() == 3,
        cs@[0]@ == spec_candidates(path@)[0],
        cs@[1]@ == spec_candidates(path@)[1],
        cs@[2]@ == spec_candidates(path@)[2],
{
    let mut first = static_prefix();
    extend(&mut first, path);
    let mut second = dot_slash();
    extend(&mut second, path);
    let mut third: Vec<u8> = Vec::new();
    extend(&mut third, path);
    let mut cs: Vec<Vec<u8>> = Vec::new();
    cs.push(first);
    cs.push(second);
    cs.push(third);
    cs
}

/// The index of the first `true` in `s`, if any: the position of the first
/// candidate that exists.
pub open spec fn spec_first_hit(s: Seq<bool>) -> Option<int>
    decreases s.len(),
{
    if s.len() == 0 {
        None
    } else if s[0] {
        Some(0)
    } else {
        match spec_first_hit(s.drop_first()) {
            Some(i) => Some(i + 1),
            None => None,
        }
    }
}

/// Picks the first candidate whose existence check succeeded: the earliest
/// index holding `true`, or `None` when every check failed.
pub fn select_candidate(hits: &Vec<bool>) -> (r: Option<usize>)
    ensures
        match r {
            Some(i) => i < hits@.len() && hits@[i as int]
                && (forall|j: int| 0 <= j < i ==> !hits@[j])
                && spec_first_hit(hits@) == Some(i as int),
            None => (forall|j: int| 0 <= j < hits@.len() ==> !hits@[j])
                && spec_first_hit(hits@) is None,
        },
{
    let mut i: usize = 0;
    while i < hits.len()
        invariant
            i <= hits.len(),
            forall|j: int| 0 <= j < i ==> !hits@[j],
        decreases hits.len() - i,
    {
        if hits[i] {
            proof {
                lemma_first_hit_at(hits@, i as int);
            }
            return Some(i);
        }
        i = i + 1;
    }
    proof {
        lemma_first_hit_none(hits@);
    }
    None
}

/// When every entry before `i` is `false` and `s[i]` holds, `i` is the first
/// hit.
proof fn lemma_first_hit_at(s: Seq<bool>, i: int)
    requires
        0 <= i < s.len(),
        s[i],
        forall|j: int| 0 <= j < i ==> !s[j],
    ensures
        spec_first_hit(s) == Some(i),
    decreases s.len(),
{
    if i > 0 {
        lemma_first_hit_at(s.drop_first(), i - 1);
    }
}

/// When no entry holds, there is no first hit.
proof fn lemma_first_hit_none(s: Seq<bool>)
    requires
        forall|j: int| 0 <= j < s.len() ==> !s[j],
    ensures
        spec_first_hit(s) is None,
    decreases s.len(),
{
    if s.len() > 0 {
        lemma_first_hit_none(s.drop_first());
    }
}

} // verus!
