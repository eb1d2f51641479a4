use vstd::prelude::*;

verus! {

/// `needle` occurs in `hay` starting at byte `at`.
pub open spec fn occurs_at(hay: Seq<u8>, needle: Seq<u8>, at: int) -> bool {
    0 <= at && at + needle.len() <= hay.len() && hay.subrange(at, at + needle.len()) == needle
}

/// `needle` occurs somewhere in `hay`.
pub open spec fn spec_contains(hay: Seq<u8>, needle: Seq<u8>) -> bool {
    exists|at: int| occurs_at(hay, needle, at)
}

/// Whether `needle` occurs at byte `at` of `hay`.
pub fn bytes_occur_at(hay: &[u8], needle: &[u8], at: usize) -> (b: bool)
    ensures
        b == occurs_at(hay@, needle@, at as int),
{
    if at > hay.len() || needle.len() > hay.len() - at {
        return false;
    }
    let hay_len = hay.len();
    let mut k: usize = 0;
    while k < needle.len()
        invariant
            hay_len == hay@.len(),
            at + needle@.len() <= hay@.len(),
            k <= needle@.len(),
            forall|j: int| 0 <= j < k ==> hay@[at + j] == #[trigger] needle@[j],
        decreases needle@.len() - k,
    {
        if hay[at + k] != needle[k] {
            assert(hay@.subrange(at as int, at + needle@.len())[k as int] != needle@[k as int]);
            return false;
        }
        k = k + 1;
    }
    assert(hay@.subrange(at as int, at + needle@.len()) =~= needle@);
    true
}

/// Whether `hay` starts with `needle`.
pub fn bytes_start_with(hay: &[u8], needle: &[u8]) -> (b: bool)
    ensures
        b == occurs_at(hay@, needle@, 0),
{
    bytes_occur_at(hay, needle, 0)
}

/// The first byte position where `needle` occurs in `hay`, if any.
pub fn bytes_find(hay: &[u8], needle: &[u8]) -> (r: Option<usize>)
    ensures
        match r {
            Some(at) => occurs_at(hay@, needle@, at as int) && forall|e: int| 0 <= e < at ==> !occurs_at(hay@, needle@, e),
            None => !spec_contains(hay@, needle@),
        },
{
    let mut at: usize = 0;
    while at < hay.len()
        invariant
            at <= hay@.len(),
            forall|e: int| 0 <= e < at ==> !occurs_at(hay@, needle@, e),
        decreases hay@.len() - at,
    {
        if bytes_occur_at(hay, needle, at) {
            return Some(at);
        }
        at = at + 1;
    }
    if bytes_occur_at(hay, needle, at) {
        return Some(at);
    }
    assert forall|e: int| !occurs_at(hay@, needle@, e) by {
        if 0 <= e && e < at {
        }
    }
    None
}

/// Whether `needle` occurs in `hay`.
pub fn bytes_contain(hay: &[u8], needle: &[u8]) -> (b: bool)
    ensures
        b == spec_contains(hay@, needle@),
{
    match bytes_find(hay, needle) {
        Some(at) => true,
        None => false,
    }
}

} // verus!
