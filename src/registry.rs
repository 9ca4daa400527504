//! Resolving the AID of a SELECT against the ordered list of application AIDs.
use vstd::prelude::*;

verus! {

/// `a` is a prefix of `b`.
pub open spec fn is_prefix(a: Seq<u8>, b: Seq<u8>) -> bool {
    a.len() <= b.len() && b.subrange(0, a.len() as int) == a
}

/// A SELECT for `candidate` reaches the application with `aid` when either is
/// a prefix of the other (a truncated SELECT names the front of an AID).
pub open spec fn aid_matches(candidate: Seq<u8>, aid: Seq<u8>) -> bool {
    is_prefix(candidate, aid) || is_prefix(aid, candidate)
}

/// The first index at or after `from` whose AID `candidate` reaches.
pub open spec fn find_from(aids: Seq<Seq<u8>>, candidate: Seq<u8>, from: int) -> Option<usize>
    decreases aids.len() - from,
{
    if from < 0 || from >= aids.len() {
        None
    } else if aid_matches(candidate, aids[from]) {
        Some(from as usize)
    } else {
        find_from(aids, candidate, from + 1)
    }
}

/// The application that a SELECT for `candidate` picks: the first match in order.
pub open spec fn find_spec(aids: Seq<Seq<u8>>, candidate: Seq<u8>) -> Option<usize> {
    find_from(aids, candidate, 0)
}

/// A match found from `from` on lies in `from..aids.len()`.
pub proof fn lemma_find_from_in_range(aids: Seq<Seq<u8>>, candidate: Seq<u8>, from: int)
    requires
        0 <= from,
        aids.len() <= usize::MAX,
    ensures
        find_from(aids, candidate, from) matches Some(j) ==> from <= j < aids.len(),
    decreases aids.len() - from,
{
    if from < aids.len() && !aid_matches(candidate, aids[from]) {
        lemma_find_from_in_range(aids, candidate, from + 1);
    }
}

/// Whether the shorter of `a` and `b` is a prefix of the longer.
pub fn prefix_related(a: &[u8], b: &[u8]) -> (r: bool)
    ensures
        r == aid_matches(a@, b@),
{
    let n: usize = if a.len() <= b.len() { a.len() } else { b.len() };
    let mut i: usize = 0;
    while i < n
        invariant
            i <= n,
            n == a@.len() || n == b@.len(),
            n <= a@.len(),
            n <= b@.len(),
            forall|k: int| 0 <= k < i ==> a@[k] == b@[k],
        decreases n - i,
    {
        if a[i] != b[i] {
            assert(!is_prefix(a@, b@) && !is_prefix(b@, a@)) by {
                if is_prefix(a@, b@) {
                    assert(b@.subrange(0, a@.len() as int)[i as int] == b@[i as int]);
                }
                if is_prefix(b@, a@) {
                    assert(a@.subrange(0, b@.len() as int)[i as int] == a@[i as int]);
                }
            }
            return false;
        }
        i = i + 1;
    }
    if n == a.len() {
        assert(b@.subrange(0, a@.len() as int) =~= a@);
    } else {
        assert(a@.subrange(0, b@.len() as int) =~= b@);
    }
    true
}

/// The index of the first AID that `candidate` reaches, if any.
pub fn find_app(aids: &Vec<Vec<u8>>, candidate: &[u8]) -> (r: Option<usize>)
    ensures
        r == find_spec(aids@.map_values(|a: Vec<u8>| a@), candidate@),
        r.is_some() ==> r.unwrap() < aids.len(),
{
    let ghost views = aids@.map_values(|a: Vec<u8>| a@);
    assert(views.len() == aids.len());
    let mut i: usize = 0;
    while i < aids.len()
        invariant
            i <= aids.len(),
            views == aids@.map_values(|a: Vec<u8>| a@),
            views.len() == aids.len(),
            find_spec(views, candidate@) == find_from(views, candidate@, i as int),
        decreases aids.len() - i,
    {
        if prefix_related(candidate, aids[i].as_slice()) {
            return Some(i);
        }
        i = i + 1;
    }
    proof {
        lemma_find_from_in_range(views, candidate@, 0);
    }
    None
}

} // verus!
