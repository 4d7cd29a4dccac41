//! Byte-level text helpers for the detectors.
//!
//! Paths and patterns are matched on their UTF-8 bytes with ASCII case
//! folding: the byte values of `A..Z` and `a..z` are mapped onto each other
//! and every other byte is left alone.  All matching here is plain substring
//! or suffix matching, never a regular expression.

use vstd::prelude::*;

verus! {

/// The byte value of `.` in ASCII.
pub const DOT: u8 = 46;

/// ASCII lower-casing of one byte.
pub open spec fn lower_byte(b: u8) -> u8 {
    if 65 <= b <= 90 {
        (b + 32) as u8
    } else {
        b
    }
}

/// ASCII upper-casing of one byte.
pub open spec fn upper_byte(b: u8) -> u8 {
    if 97 <= b <= 122 {
        (b - 32) as u8
    } else {
        b
    }
}

/// ASCII lower-casing of a byte sequence.
pub open spec fn spec_lower(s: Seq<u8>) -> Seq<u8> {
    s.map_values(|b: u8| lower_byte(b))
}

/// ASCII upper-casing of a byte sequence.
pub open spec fn spec_upper(s: Seq<u8>) -> Seq<u8> {
    s.map_values(|b: u8| upper_byte(b))
}

/// `needle` occurs contiguously somewhere inside `hay`.
pub open spec fn is_substring_of(needle: Seq<u8>, hay: Seq<u8>) -> bool {
    exists|i: int|
        0 <= i && i + needle.len() <= hay.len() && #[trigger] hay.subrange(
            i,
            i + needle.len() as int,
        ) == needle
}

/// `suffix` is the tail of `hay`.
pub open spec fn is_suffix_of(suffix: Seq<u8>, hay: Seq<u8>) -> bool {
    suffix.len() <= hay.len() && hay.subrange(
        hay.len() - suffix.len(),
        hay.len() as int,
    ) == suffix
}

/// The index of the last occurrence of `x` in `s`, if any.
pub open spec fn spec_rfind(s: Seq<u8>, x: u8) -> Option<int>
    decreases s.len(),
{
    if s.len() == 0 {
        None
    } else if s[s.len() - 1] == x {
        Some(s.len() - 1)
    } else {
        spec_rfind(s.drop_last(), x)
    }
}

/// The lower-cased tail of `path` from its last `.` on; empty without a dot.
pub open spec fn spec_extension(path: Seq<u8>) -> Seq<u8> {
    match spec_rfind(path, DOT) {
        Some(i) => spec_lower(path.subrange(i, path.len() as int)),
        None => Seq::empty(),
    }
}

/// What `spec_rfind` finds is an occurrence, and the last one.
pub proof fn lemma_rfind_props(s: Seq<u8>, x: u8)
    ensures
        match spec_rfind(s, x) {
            Some(i) => 0 <= i < s.len() && s[i] == x && (forall|j: int|
                i < j < s.len() ==> s[j] != x),
            None => forall|j: int| 0 <= j < s.len() ==> s[j] != x,
        },
    decreases s.len(),
{
    if s.len() > 0 && s[s.len() - 1] != x {
        lemma_rfind_props(s.drop_last(), x);
        assert(forall|j: int| 0 <= j < s.len() - 1 ==> s[j] == s.drop_last()[j]);
    }
}

/// A sequence whose first byte is `x` and which holds `x` nowhere else has
/// its last occurrence of `x` at the front.
proof fn lemma_rfind_front(s: Seq<u8>, x: u8)
    requires
        s.len() >= 1,
        s[0] == x,
        forall|j: int| 1 <= j < s.len() ==> s[j] != x,
    ensures
        spec_rfind(s, x) == Some(0int),
    decreases s.len(),
{
    if s.len() > 1 {
        assert(s[s.len() - 1] != x);
        assert(s.drop_last()[0] == x);
        lemma_rfind_front(s.drop_last(), x);
    }
}

/// ASCII lower-casing is idempotent.
pub proof fn lemma_lower_idempotent(s: Seq<u8>)
    ensures
        spec_lower(spec_lower(s)) == spec_lower(s),
{
    assert(spec_lower(spec_lower(s)) =~= spec_lower(s));
}

/// Extension extraction is idempotent: extracting again from an already
/// extracted, lower-cased extension returns it unchanged.
pub proof fn lemma_extension_idempotent(path: Seq<u8>)
    ensures
        spec_extension(spec_extension(path)) == spec_extension(path),
{
    lemma_rfind_props(path, DOT);
    match spec_rfind(path, DOT) {
        None => {
            assert(spec_extension(path) == Seq::<u8>::empty());
        },
        Some(i) => {
            let tail = path.subrange(i, path.len() as int);
            let e = spec_lower(tail);
            assert(lower_byte(DOT) == DOT);
            assert(e[0] == DOT);
            assert(forall|j: int| 1 <= j < e.len() ==> tail[j] != DOT && e[j] != DOT);
            lemma_rfind_front(e, DOT);
            assert(e.subrange(0, e.len() as int) =~= e);
            lemma_lower_idempotent(tail);
        },
    }
}

/// ASCII lower-casing of a byte buffer.
pub fn to_lower_bytes(s: &[u8]) -> (r: Vec<u8>)
    ensures
        r@ == spec_lower(s@),
{
    let mut r: Vec<u8> = Vec::new();
    let n = s.len();
    for i in 0..n
        invariant
            n == s@.len(),
            r@ =~= spec_lower(s@.subrange(0, i as int)),
    {
        let b = s[i];
        if 65 <= b && b <= 90 {
            r.push(b + 32);
        } else {
            r.push(b);
        }
        assert(r@ =~= spec_lower(s@.subrange(0, i + 1)));
    }
    assert(s@.subrange(0, n as int) =~= s@);
    r
}

/// ASCII upper-casing of a byte buffer.
pub fn to_upper_bytes(s: &[u8]) -> (r: Vec<u8>)
    ensures
        r@ == spec_upper(s@),
{
    let mut r: Vec<u8> = Vec::new();
    let n = s.len();
    for i in 0..n
        invariant
            n == s@.len(),
            r@ =~= spec_upper(s@.subrange(0, i as int)),
    {
        let b = s[i];
        if 97 <= b && b <= 122 {
            r.push(b - 32);
        } else {
            r.push(b);
        }
        assert(r@ =~= spec_upper(s@.subrange(0, i + 1)));
    }
    assert(s@.subrange(0, n as int) =~= s@);
    r
}

/// Whether `hay` matches `needle` exactly at offset `i`.
fn matches_at(hay: &[u8], needle: &[u8], i: usize) -> (r: bool)
    requires
        i + needle@.len() <= hay@.len(),
    ensures
        r == (hay@.subrange(i as int, i + needle@.len()) == needle@),
{
    let n = hay.len();
    let m = needle.len();
    for j in 0..m
        invariant
            n == hay@.len(),
            i + m <= n,
            m == needle@.len(),
            forall|k: int| 0 <= k < j ==> hay@[i + k] == needle@[k],
    {
        if hay[i + j] != needle[j] {
            assert(hay@.subrange(i as int, i + m) != needle@) by {
                assert(hay@.subrange(i as int, i + m as int)[j as int] != needle@[j as int]);
            }
            return false;
        }
    }
    assert(hay@.subrange(i as int, i + m) =~= needle@);
    true
}

/// Plain substring search.
pub fn contains_bytes(hay: &[u8], needle: &[u8]) -> (r: bool)
    ensures
        r == is_substring_of(needle@, hay@),
{
    let n = hay.len();
    let m = needle.len();
    if m > n {
        return false;
    }
    if m == 0 {
        assert(is_substring_of(needle@, hay@)) by {
            assert(hay@.subrange(0, 0 + needle@.len() as int) =~= needle@);
        }
        return true;
    }
    let last = n - m;
    for i in 0..last + 1
        invariant
            n == hay@.len(),
            m == needle@.len(),
            m <= n,
            last == n - m,
            forall|k: int|
                0 <= k < i ==> #[trigger] hay@.subrange(k, k + needle@.len()) != needle@,
    {
        if matches_at(hay, needle, i) {
            return true;
        }
    }
    false
}

/// Plain suffix test.
pub fn ends_with_bytes(hay: &[u8], suffix: &[u8]) -> (r: bool)
    ensures
        r == is_suffix_of(suffix@, hay@),
{
    let n = hay.len();
    let m = suffix.len();
    if m > n {
        return false;
    }
    matches_at(hay, suffix, n - m)
}

/// The index of the last occurrence of `x` in `s`, if any.
pub fn rfind_byte(s: &[u8], x: u8) -> (r: Option<usize>)
    ensures
        match r {
            Some(i) => spec_rfind(s@, x) == Some(i as int),
            None => spec_rfind(s@, x) == None::<int>,
        },
{
    let n = s.len();
    let mut i = n;
    assert(s@.subrange(0, n as int) =~= s@);
    while i > 0
        invariant
            n == s@.len(),
            i <= n,
            spec_rfind(s@, x) == spec_rfind(s@.subrange(0, i as int), x),
        decreases i,
    {
        i = i - 1;
        if s[i] == x {
            assert(s@.subrange(0, i + 1)[i as int] == x);
            return Some(i);
        }
        assert(s@.subrange(0, i + 1).drop_last() =~= s@.subrange(0, i as int));
        assert(spec_rfind(s@.subrange(0, i + 1), x) == spec_rfind(s@.subrange(0, i as int), x));
    }
    assert(s@.subrange(0, 0) =~= Seq::<u8>::empty());
    None
}

/// The lower-cased extension of `path`: everything from the last `.` to the
/// end, or an empty buffer when there is no dot.
pub fn extension_of(path: &[u8]) -> (r: Vec<u8>)
    ensures
        r@ == spec_extension(path@),
{
    match rfind_byte(path, DOT) {
        Some(i) => {
            proof {
                lemma_rfind_props(path@, DOT);
            }
            let n = path.len();
            let mut tail: Vec<u8> = Vec::new();
            let mut j = i;
            while j < n
                invariant
                    n == path@.len(),
                    i <= j <= n,
                    tail@ =~= path@.subrange(i as int, j as int),
                decreases n - j,
            {
                tail.push(path[j]);
                j = j + 1;
                assert(tail@ =~= path@.subrange(i as int, j as int));
            }
            to_lower_bytes(tail.as_slice())
        },
        None => Vec::new(),
    }
}

/// Equality of two byte buffers.
pub fn bytes_eq(a: &[u8], b: &[u8]) -> (r: bool)
    ensures
        r == (a@ == b@),
{
    if a.len() != b.len() {
        assert(a@ != b@);
        return false;
    }
    let r = matches_at(a, b, 0);
    proof {
        assert(a@.subrange(0, a@.len() as int) =~= a@);
    }
    r
}

} // verus!
