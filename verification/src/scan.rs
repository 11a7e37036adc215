//! Searching a byte sequence for a byte pattern.

use vstd::prelude::*;

verus! {

/// `needle` lies in `hay` starting at index `at`.
pub open spec fn occurs_at(hay: Seq<u8>, needle: Seq<u8>, at: int) -> bool {
    &&& 0 <= at
    &&& at + needle.len() <= hay.len()
    &&& forall|k: int| 0 <= k < needle.len() ==> hay[at + k] == #[trigger] needle[k]
}

/// `needle` lies somewhere in `hay`.
pub open spec fn occurs(hay: Seq<u8>, needle: Seq<u8>) -> bool {
    exists|at: int| occurs_at(hay, needle, at)
}

/// `at` is the leftmost place where `needle` lies in `hay`.
pub open spec fn is_first(hay: Seq<u8>, needle: Seq<u8>, at: int) -> bool {
    &&& occurs_at(hay, needle, at)
    &&& forall|other: int| other < at ==> !occurs_at(hay, needle, other)
}

/// `at` is the rightmost place where `needle` lies in `hay`.
pub open spec fn is_last(hay: Seq<u8>, needle: Seq<u8>, at: int) -> bool {
    &&& occurs_at(hay, needle, at)
    &&& forall|other: int| at < other ==> !occurs_at(hay, needle, other)
}

/// The leftmost place where `needle` lies in `hay`, if it lies there at all.
pub open spec fn first_index(hay: Seq<u8>, needle: Seq<u8>) -> Option<int> {
    if exists|at: int| is_first(hay, needle, at) {
        Some(choose|at: int| is_first(hay, needle, at))
    } else {
        None
    }
}

/// The rightmost place where `needle` lies in `hay`, if it lies there at all.
pub open spec fn last_index(hay: Seq<u8>, needle: Seq<u8>) -> Option<int> {
    if exists|at: int| is_last(hay, needle, at) {
        Some(choose|at: int| is_last(hay, needle, at))
    } else {
        None
    }
}

/// A leftmost occurrence is the only one, so it is what `first_index` names.
pub proof fn lemma_first_index(hay: Seq<u8>, needle: Seq<u8>, at: int)
    requires
        is_first(hay, needle, at),
    ensures
        first_index(hay, needle) == Some(at),
{
    let chosen = choose|at: int| is_first(hay, needle, at);
    assert(is_first(hay, needle, chosen));
    if chosen < at {
        assert(!occurs_at(hay, needle, chosen));
    } else if at < chosen {
        assert(!occurs_at(hay, needle, at));
    }
}

/// A rightmost occurrence is the only one, so it is what `last_index` names.
pub proof fn lemma_last_index(hay: Seq<u8>, needle: Seq<u8>, at: int)
    requires
        is_last(hay, needle, at),
    ensures
        last_index(hay, needle) == Some(at),
{
    let chosen = choose|at: int| is_last(hay, needle, at);
    assert(is_last(hay, needle, chosen));
    if chosen < at {
        assert(!occurs_at(hay, needle, at));
    } else if at < chosen {
        assert(!occurs_at(hay, needle, chosen));
    }
}

/// Where nothing occurs there is neither a first nor a last index.
pub proof fn lemma_absent(hay: Seq<u8>, needle: Seq<u8>)
    requires
        !occurs(hay, needle),
    ensures
        first_index(hay, needle) is None,
        last_index(hay, needle) is None,
{
    assert forall|at: int| !is_first(hay, needle, at) by {
        assert(!occurs_at(hay, needle, at));
    }
    assert forall|at: int| !is_last(hay, needle, at) by {
        assert(!occurs_at(hay, needle, at));
    }
}

/// Whether `needle` lies in `hay` at `at`.
pub fn matches_at(hay: &[u8], needle: &[u8], at: usize) -> (hit: bool)
    ensures
        hit == occurs_at(hay@, needle@, at as int),
{
    if needle.len() > hay.len() || at > hay.len() - needle.len() {
        return false;
    }
    let mut k: usize = 0;
    while k < needle.len()
        invariant
            k <= needle.len(),
            at + needle.len() <= hay.len(),
            forall|j: int| 0 <= j < k ==> hay@[at + j] == #[trigger] needle@[j],
        decreases needle.len() - k,
    {
        if hay[at + k] != needle[k] {
            return false;
        }
        k += 1;
    }
    true
}

/// The leftmost place where `needle` lies in `hay`.
pub fn find(hay: &[u8], needle: &[u8]) -> (found: Option<usize>)
    ensures
        found is Some <==> occurs(hay@, needle@),
        found is Some ==> is_first(hay@, needle@, found->0 as int),
        first_index(hay@, needle@) == match found {
            Some(at) => Some(at as int),
            None => None,
        },
{
    if needle.len() > hay.len() {
        proof {
            lemma_absent(hay@, needle@);
        }
        return None;
    }
    let limit: usize = hay.len() - needle.len();
    let mut at: usize = 0;
    while at <= limit
        invariant
            limit == hay.len() - needle.len(),
            at <= limit + 1,
            forall|other: int| other < at ==> !occurs_at(hay@, needle@, other),
        decreases limit + 1 - at,
    {
        if matches_at(hay, needle, at) {
            proof {
                lemma_first_index(hay@, needle@, at as int);
            }
            return Some(at);
        }
        at += 1;
    }
    proof {
        lemma_absent(hay@, needle@);
    }
    None
}

/// The rightmost place where `needle` lies in `hay`.
pub fn rfind(hay: &[u8], needle: &[u8]) -> (found: Option<usize>)
    ensures
        found is Some <==> occurs(hay@, needle@),
        found is Some ==> is_last(hay@, needle@, found->0 as int),
        last_index(hay@, needle@) == match found {
            Some(at) => Some(at as int),
            None => None,
        },
{
    if needle.len() > hay.len() {
        proof {
            lemma_absent(hay@, needle@);
        }
        return None;
    }
    let mut at: usize = hay.len() - needle.len();
    loop
        invariant
            needle.len() <= hay.len(),
            at <= hay.len() - needle.len(),
            forall|other: int| at < other ==> !occurs_at(hay@, needle@, other),
        decreases at,
    {
        if matches_at(hay, needle, at) {
            proof {
                lemma_last_index(hay@, needle@, at as int);
            }
            return Some(at);
        }
        if at == 0 {
            proof {
                lemma_absent(hay@, needle@);
            }
            return None;
        }
        at -= 1;
    }
}

} // verus!
