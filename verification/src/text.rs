//! Byte-level text helpers: searching, trimming, line handling.

use vstd::prelude::*;

verus! {

/// ASCII whitespace: space, tab, carriage return, line feed.
pub open spec fn is_space(b: u8) -> bool {
    b == 32 || b == 9 || b == 13 || b == 10
}

/// Index of the first occurrence of `b` in `s` at or after `from`.
pub open spec fn find_from(s: Seq<u8>, from: int, b: u8) -> Option<int>
    decreases s.len() - from + 1,
{
    if from < 0 || from >= s.len() {
        None
    } else if s[from] == b {
        Some(from)
    } else {
        find_from(s, from + 1, b)
    }
}

pub proof fn lemma_find_from_props(s: Seq<u8>, from: int, b: u8)
    ensures
        match find_from(s, from, b) {
            Some(i) => from <= i < s.len() && s[i] == b,
            None => true,
        },
    decreases s.len() - from + 1,
{
    if 0 <= from < s.len() && s[from] != b {
        lemma_find_from_props(s, from + 1, b);
    }
}

pub fn is_space_byte(b: u8) -> (r: bool)
    ensures
        r == is_space(b),
{
    b == 32 || b == 9 || b == 13 || b == 10
}

pub fn find_byte(s: &[u8], from: usize, b: u8) -> (r: Option<usize>)
    ensures
        match r {
            Some(i) => from <= i < s@.len() && find_from(s@, from as int, b) == Some(i as int),
            None => find_from(s@, from as int, b) is None,
        },
{
    let mut i: usize = from;
    while i < s.len()
        invariant
            from <= i,
            find_from(s@, from as int, b) == find_from(s@, i as int, b),
        decreases s@.len() - i,
    {
        if s[i] == b {
            return Some(i);
        }
        i = i + 1;
    }
    None
}

pub fn bytes_eq(a: &[u8], b: &[u8]) -> (r: bool)
    ensures
        r == (a@ == b@),
{
    if a.len() != b.len() {
        return false;
    }
    let mut i: usize = 0;
    while i < a.len()
        invariant
            a@.len() == b@.len(),
            i <= a@.len(),
            forall|j: int| 0 <= j < i ==> a@[j] == b@[j],
        decreases a@.len() - i,
    {
        if a[i] != b[i] {
            return false;
        }
        i = i + 1;
    }
    proof {
        assert(a@ =~= b@);
    }
    true
}

/// Does `s` begin with `p`?
pub open spec fn starts_with(s: Seq<u8>, p: Seq<u8>) -> bool {
    p.len() <= s.len() && s.subrange(0, p.len() as int) == p
}

pub fn starts_with_bytes(s: &[u8], p: &[u8]) -> (r: bool)
    ensures
        r == starts_with(s@, p@),
{
    if p.len() > s.len() {
        return false;
    }
    let mut i: usize = 0;
    while i < p.len()
        invariant
            p@.len() <= s@.len(),
            i <= p@.len(),
            forall|j: int| 0 <= j < i ==> s@[j] == p@[j],
        decreases p@.len() - i,
    {
        if s[i] != p[i] {
            proof {
                assert(s@.subrange(0, p@.len() as int)[i as int] == s@[i as int]);
            }
            return false;
        }
        i = i + 1;
    }
    proof {
        assert(s@.subrange(0, p@.len() as int) =~= p@);
    }
    true
}

/// A copy of `s[lo..hi]`.
pub fn subvec(s: &[u8], lo: usize, hi: usize) -> (r: Vec<u8>)
    requires
        lo <= hi <= s@.len(),
    ensures
        r@ == s@.subrange(lo as int, hi as int),
{
    let mut out: Vec<u8> = Vec::new();
    let mut i: usize = lo;
    while i < hi
        invariant
            lo <= i <= hi <= s@.len(),
            out@ == s@.subrange(lo as int, i as int),
        decreases hi - i,
    {
        out.push(s[i]);
        proof {
            assert(out@ =~= s@.subrange(lo as int, (i + 1) as int));
        }
        i = i + 1;
    }
    out
}

/// A copy of a byte vector.
pub fn clone_bytes(v: &Vec<u8>) -> (r: Vec<u8>)
    ensures
        r@ == v@,
{
    vstd::slice::slice_to_vec(v.as_slice())
}

/// First index at or after `i` holding a non-space byte (or the length).
pub open spec fn skip_front(s: Seq<u8>, i: int) -> int
    decreases s.len() - i + 1,
{
    if 0 <= i < s.len() && is_space(s[i]) {
        skip_front(s, i + 1)
    } else {
        i
    }
}

/// Last index at or before `j` such that everything from it up to `j`
/// is spaces (walking back from `j`).
pub open spec fn skip_back(s: Seq<u8>, j: int) -> int
    decreases j,
{
    if 0 < j <= s.len() && is_space(s[j - 1]) {
        skip_back(s, j - 1)
    } else {
        j
    }
}

/// `s` with leading and trailing ASCII whitespace removed.
pub open spec fn trim_spec(s: Seq<u8>) -> Seq<u8> {
    let lo = skip_front(s, 0);
    if lo == s.len() {
        Seq::empty()
    } else {
        s.subrange(lo, skip_back(s, s.len() as int))
    }
}

proof fn lemma_skip_front_range(s: Seq<u8>, i: int)
    requires
        0 <= i <= s.len(),
    ensures
        i <= skip_front(s, i) <= s.len(),
        skip_front(s, i) < s.len() ==> !is_space(s[skip_front(s, i)]),
    decreases s.len() - i,
{
    if i < s.len() && is_space(s[i]) {
        lemma_skip_front_range(s, i + 1);
    }
}

proof fn lemma_skip_back_past_nonspace(s: Seq<u8>, k: int, j: int)
    requires
        0 <= k < j <= s.len(),
        !is_space(s[k]),
    ensures
        k < skip_back(s, j) <= j,
    decreases j,
{
    if is_space(s[j - 1]) {
        lemma_skip_back_past_nonspace(s, k, j - 1);
    }
}

pub fn trim(s: &[u8]) -> (r: Vec<u8>)
    ensures
        r@ == trim_spec(s@),
{
    let mut lo: usize = 0;
    while lo < s.len() && is_space_byte(s[lo])
        invariant
            lo <= s@.len(),
            skip_front(s@, 0) == skip_front(s@, lo as int),
        decreases s@.len() - lo,
    {
        lo = lo + 1;
    }
    if lo == s.len() {
        return Vec::new();
    }
    proof {
        lemma_skip_front_range(s@, 0);
    }
    let mut hi: usize = s.len();
    while hi > lo + 1 && is_space_byte(s[hi - 1])
        invariant
            lo < hi <= s@.len(),
            !is_space(s@[lo as int]),
            skip_back(s@, s@.len() as int) == skip_back(s@, hi as int),
        decreases hi,
    {
        hi = hi - 1;
    }
    // either hi == lo + 1, where the byte at lo is not a space, or the
    // byte at hi - 1 is not a space: both stop the spec walk at hi
    proof {
        lemma_skip_back_past_nonspace(s@, lo as int, s@.len() as int);
    }
    subvec(s, lo, hi)
}

} // verus!
