//! Searching in byte strings.

use vstd::prelude::*;

verus! {

/// `needle` occurs in `hay` starting exactly at index `at`.
pub open spec fn matches_at(hay: Seq<u8>, needle: Seq<u8>, at: int) -> bool {
    &&& 0 <= at
    &&& at + needle.len() <= hay.len()
    &&& hay.subrange(at, at + needle.len()) == needle
}

/// `needle` occurs somewhere in `hay`.
pub open spec fn occurs(hay: Seq<u8>, needle: Seq<u8>) -> bool {
    exists|i: int| matches_at(hay, needle, i)
}

/// `at` is the leftmost position at which `needle` occurs in `hay`.
pub open spec fn is_first_match(hay: Seq<u8>, needle: Seq<u8>, at: int) -> bool {
    &&& matches_at(hay, needle, at)
    &&& forall|j: int| 0 <= j < at ==> !matches_at(hay, needle, j)
}

/// The leftmost position at which `needle` occurs in `hay`, if it occurs at all.
pub open spec fn first_match(hay: Seq<u8>, needle: Seq<u8>) -> Option<int> {
    if occurs(hay, needle) {
        Some(choose|i: int| is_first_match(hay, needle, i))
    } else {
        None
    }
}

/// `hay` begins with `prefix`.
pub open spec fn has_prefix(hay: Seq<u8>, prefix: Seq<u8>) -> bool {
    matches_at(hay, prefix, 0)
}

/// `hay` ends with `suffix`.
pub open spec fn has_suffix(hay: Seq<u8>, suffix: Seq<u8>) -> bool {
    matches_at(hay, suffix, hay.len() - suffix.len())
}

/// Among the positions up to `bound` there is a leftmost match as soon as
/// there is any match.
proof fn lemma_least_match(hay: Seq<u8>, needle: Seq<u8>, bound: int)
    requires
        matches_at(hay, needle, bound),
    ensures
        exists|i: int| is_first_match(hay, needle, i),
    decreases bound,
{
    if exists|j: int| 0 <= j < bound && matches_at(hay, needle, j) {
        let j = choose|j: int| 0 <= j < bound && matches_at(hay, needle, j);
        lemma_least_match(hay, needle, j);
    } else {
        assert(is_first_match(hay, needle, bound));
    }
}

/// A leftmost match is the value of `first_match`.
pub proof fn lemma_first_match_is(hay: Seq<u8>, needle: Seq<u8>, at: int)
    requires
        is_first_match(hay, needle, at),
    ensures
        first_match(hay, needle) == Some(at),
{
    let c = choose|i: int| is_first_match(hay, needle, i);
    assert(is_first_match(hay, needle, c));
    if c < at {
        assert(!matches_at(hay, needle, c));
    } else if at < c {
        assert(!matches_at(hay, needle, at));
    }
}

/// Where `needle` occurs, `first_match` names its leftmost occurrence.
pub proof fn lemma_first_match_some(hay: Seq<u8>, needle: Seq<u8>)
    requires
        occurs(hay, needle),
    ensures
        first_match(hay, needle) is Some,
        is_first_match(hay, needle, first_match(hay, needle)->0),
{
    let w = choose|i: int| matches_at(hay, needle, i);
    lemma_least_match(hay, needle, w);
}

/// Text appended behind `hay` brings no new occurrence of `needle` and moves
/// none, if it holds the last byte of `needle` nowhere.
pub proof fn lemma_append_keeps_first_match(hay: Seq<u8>, tail: Seq<u8>, needle: Seq<u8>)
    requires
        needle.len() > 0,
        forall|i: int| 0 <= i < tail.len() ==> tail[i] != needle.last(),
    ensures
        forall|j: int| matches_at(hay + tail, needle, j) <==> matches_at(hay, needle, j),
        first_match(hay + tail, needle) == first_match(hay, needle),
{
    let whole = hay + tail;
    let n = needle.len() as int;
    assert forall|j: int| matches_at(whole, needle, j) <==> matches_at(hay, needle, j) by {
        if matches_at(hay, needle, j) {
            assert(whole.subrange(j, j + n) =~= hay.subrange(j, j + n));
        }
        if matches_at(whole, needle, j) {
            if j + n <= hay.len() {
                assert(whole.subrange(j, j + n) =~= hay.subrange(j, j + n));
            } else {
                assert(whole.subrange(j, j + n)[n - 1] == whole[j + n - 1]);
                assert(whole[j + n - 1] == tail[j + n - 1 - hay.len()]);
            }
        }
    }
    if occurs(hay, needle) {
        lemma_first_match_some(hay, needle);
        let at = first_match(hay, needle)->0;
        assert(is_first_match(whole, needle, at));
        lemma_first_match_is(whole, needle, at);
    } else {
        assert(!occurs(whole, needle));
    }
}

/// Tests whether `needle` occurs in `hay` at `at`.
pub fn matches_here(hay: &[u8], needle: &[u8], at: usize) -> (r: bool)
    ensures
        r == matches_at(hay@, needle@, at as int),
{
    if needle.len() > hay.len() || at > hay.len() - needle.len() {
        return false;
    }
    let mut k: usize = 0;
    while k < needle.len()
        invariant
            k <= needle@.len(),
            at + needle@.len() <= hay@.len() <= usize::MAX,
            forall|t: int| 0 <= t < k ==> hay@[at + t] == needle@[t],
        decreases needle@.len() - k,
    {
        if hay[at + k] != needle[k] {
            assert(hay@.subrange(at as int, at + needle@.len())[k as int] != needle@[k as int]);
            return false;
        }
        k += 1;
    }
    assert(hay@.subrange(at as int, at + needle@.len()) =~= needle@);
    true
}

/// The leftmost position at which `needle` occurs in `hay`.
pub fn find(hay: &[u8], needle: &[u8]) -> (r: Option<usize>)
    ensures
        match r {
            Some(i) => first_match(hay@, needle@) == Some(i as int),
            None => first_match(hay@, needle@) is None,
        },
{
    if needle.len() > hay.len() {
        return None;
    }
    let last: usize = hay.len() - needle.len();
    let mut i: usize = 0;
    loop
        invariant
            last == hay@.len() - needle@.len(),
            i <= last,
            forall|j: int| 0 <= j < i ==> !matches_at(hay@, needle@, j),
        decreases last - i,
    {
        if matches_here(hay, needle, i) {
            proof {
                lemma_first_match_is(hay@, needle@, i as int);
            }
            return Some(i);
        }
        if i == last {
            return None;
        }
        i += 1;
    }
}

/// Whether `needle` occurs in `hay`.
pub fn contains(hay: &[u8], needle: &[u8]) -> (r: bool)
    ensures
        r == occurs(hay@, needle@),
{
    find(hay, needle).is_some()
}

/// Whether `hay` begins with `prefix`.
pub fn starts_with(hay: &[u8], prefix: &[u8]) -> (r: bool)
    ensures
        r == has_prefix(hay@, prefix@),
{
    matches_here(hay, prefix, 0)
}

/// Whether `hay` ends with `suffix`.
pub fn ends_with(hay: &[u8], suffix: &[u8]) -> (r: bool)
    ensures
        r == has_suffix(hay@, suffix@),
{
    if suffix.len() > hay.len() {
        return false;
    }
    matches_here(hay, suffix, hay.len() - suffix.len())
}

/// Whether two byte strings are equal.
pub fn same_bytes(a: &[u8], b: &[u8]) -> (r: bool)
    ensures
        r == (a@ == b@),
{
    if a.len() != b.len() {
        return false;
    }
    assert(a@.subrange(0, a@.len() as int) =~= a@);
    matches_here(a, b, 0)
}

/// The leftmost position of the byte `b` in `hay`, if it occurs at all.
pub open spec fn first_byte(hay: Seq<u8>, b: u8) -> Option<int> {
    first_match(hay, seq![b])
}

/// A one-byte needle occurs where the byte stands.
pub proof fn lemma_byte_match(hay: Seq<u8>, b: u8, at: int)
    ensures
        matches_at(hay, seq![b], at) <==> 0 <= at < hay.len() && hay[at] == b,
{
    if 0 <= at < hay.len() {
        if hay[at] == b {
            assert(hay.subrange(at, at + 1) =~= seq![b]);
        } else {
            assert(hay.subrange(at, at + 1)[0] == hay[at]);
        }
    }
}

/// The leftmost position of the byte `b` in `hay`.
pub fn find_byte(hay: &[u8], b: u8) -> (r: Option<usize>)
    ensures
        match r {
            Some(i) => first_byte(hay@, b) == Some(i as int) && i < hay@.len() && hay@[i as int]
                == b,
            None => first_byte(hay@, b) is None,
        },
{
    let mut i: usize = 0;
    while i < hay.len()
        invariant
            i <= hay@.len(),
            forall|j: int| 0 <= j < i ==> !matches_at(hay@, seq![b], j),
        decreases hay@.len() - i,
    {
        proof {
            lemma_byte_match(hay@, b, i as int);
        }
        if hay[i] == b {
            proof {
                lemma_first_match_is(hay@, seq![b], i as int);
            }
            return Some(i);
        }
        i += 1;
    }
    None
}

} // verus!
