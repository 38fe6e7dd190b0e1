//! Byte-string helpers shared by the parsers and builders of this crate.

use vstd::prelude::*;
use vstd::string::*;

verus! {

/// The bytes of a text, as Rust stores it.
pub open spec fn text(s: &str) -> Seq<u8> {
    s.spec_bytes()
}

/// `prefix` is an initial segment of `s`.
pub open spec fn starts_with(s: Seq<u8>, prefix: Seq<u8>) -> bool {
    prefix.len() <= s.len() && s.subrange(0, prefix.len() as int) == prefix
}

/// Tests whether `s` begins with `prefix`.
pub fn has_prefix(s: &[u8], prefix: &[u8]) -> (r: bool)
    ensures
        r == starts_with(s@, prefix@),
{
    if prefix.len() > s.len() {
        return false;
    }
    let mut i: usize = 0;
    while i < prefix.len()
        invariant
            i <= prefix.len() <= s.len(),
            s@.subrange(0, i as int) == prefix@.subrange(0, i as int),
        decreases prefix.len() - i,
    {
        if s[i] != prefix[i] {
            return false;
        }
        i += 1;
    }
    assert(prefix@.subrange(0, prefix.len() as int) =~= prefix@);
    true
}

/// Tests whether two byte strings are the same.
pub fn same_bytes(a: &[u8], b: &[u8]) -> (r: bool)
    ensures
        r == (a@ == b@),
{
    if a.len() != b.len() {
        return false;
    }
    let r = has_prefix(a, b);
    assert(a@.subrange(0, a@.len() as int) =~= a@);
    r
}

/// `needle` stands in `hay` at index `i`.
pub open spec fn occurs_at(hay: Seq<u8>, needle: Seq<u8>, i: int) -> bool {
    0 <= i <= hay.len() && starts_with(hay.skip(i), needle)
}

/// `needle` stands nowhere in `hay`.
pub open spec fn absent(hay: Seq<u8>, needle: Seq<u8>) -> bool {
    forall|i: int| !occurs_at(hay, needle, i)
}

/// `needle` stands in `hay` at index `i` and at no index before it.
pub open spec fn first_at(hay: Seq<u8>, needle: Seq<u8>, i: int) -> bool {
    occurs_at(hay, needle, i) && forall|j: int| 0 <= j < i ==> !occurs_at(hay, needle, j)
}

/// Index of the first place where `needle` stands in `hay`, if there is one.
pub open spec fn first_occurrence(hay: Seq<u8>, needle: Seq<u8>) -> Option<int> {
    if absent(hay, needle) {
        None
    } else {
        Some(choose|i: int| first_at(hay, needle, i))
    }
}

/// The first occurrence is the one index that `first_at` holds of.
pub proof fn lemma_first_occurrence(hay: Seq<u8>, needle: Seq<u8>, i: int)
    requires
        first_at(hay, needle, i),
    ensures
        first_occurrence(hay, needle) == Some(i),
{
    let c = choose|k: int| first_at(hay, needle, k);
    assert(c == i);
}

/// Index of the first place where `needle` stands in `hay`.
pub fn find(hay: &[u8], needle: &[u8]) -> (r: Option<usize>)
    ensures
        match r {
            Some(i) => first_occurrence(hay@, needle@) == Some(i as int),
            None => first_occurrence(hay@, needle@) is None,
        },
        r matches Some(i) ==> first_at(hay@, needle@, i as int) && i <= hay.len(),
        r is None <==> absent(hay@, needle@),
{
    let mut i: usize = 0;
    while i < hay.len()
        invariant
            i <= hay.len(),
            forall|j: int| 0 <= j < i ==> !occurs_at(hay@, needle@, j),
        decreases hay.len() - i,
    {
        let tail = &hay[i..hay.len()];
        if has_prefix(tail, needle) {
            proof {
                lemma_first_occurrence(hay@, needle@, i as int);
            }
            return Some(i);
        }
        i += 1;
    }
    if needle.len() == 0 {
        proof {
            assert(hay@.skip(i as int).subrange(0, 0) =~= needle@);
            lemma_first_occurrence(hay@, needle@, i as int);
        }
        Some(i)
    } else {
        None
    }
}

/// A fresh vector with the bytes of `s`.
pub fn copy_of(s: &[u8]) -> (v: Vec<u8>)
    ensures
        v@ == s@,
{
    let mut v: Vec<u8> = Vec::new();
    append(&mut v, s);
    v
}

/// Appends the bytes of `s` to `out`.
pub fn append(out: &mut Vec<u8>, s: &[u8])
    ensures
        final(out)@ == old(out)@ + s@,
{
    out.extend_from_slice(s);
}

} // verus!
