//! Character sequences: copying a range, equality, and positional hamming
//! distance.
use vstd::prelude::*;

verus! {

/// Number of positions `i < n` at which `a` and `b` differ.
pub open spec fn mismatches(a: Seq<char>, b: Seq<char>, n: int) -> nat
    decreases n,
{
    if n <= 0 {
        0
    } else {
        mismatches(a, b, n - 1) + if a[n - 1] != b[n - 1] {
            1nat
        } else {
            0nat
        }
    }
}

/// Positional hamming distance: characters are paired by index up to the
/// length of the shorter sequence; characters past it are not compared.
pub open spec fn hamming(a: Seq<char>, b: Seq<char>) -> nat {
    let n = if a.len() <= b.len() {
        a.len()
    } else {
        b.len()
    };
    mismatches(a, b, n as int)
}

/// Counting mismatches over `n` positions finds at most `n`.
pub proof fn lemma_mismatches_bounded(a: Seq<char>, b: Seq<char>, n: int)
    requires
        n >= 0,
    ensures
        mismatches(a, b, n) <= n,
    decreases n,
{
    if n > 0 {
        lemma_mismatches_bounded(a, b, n - 1);
    }
}

/// A sequence compared with itself has no mismatches.
pub proof fn lemma_mismatches_self(a: Seq<char>, n: int)
    ensures
        mismatches(a, a, n) == 0,
    decreases n,
{
    if n > 0 {
        lemma_mismatches_self(a, n - 1);
    }
}

/// The hamming distance of a sequence to itself is zero.
pub proof fn lemma_hamming_self(a: Seq<char>)
    ensures
        hamming(a, a) == 0,
{
    lemma_mismatches_self(a, a.len() as int);
}

/// Copies the characters `s[start..end]` into a new vector.
pub fn copy_range(s: &[char], start: usize, end: usize) -> (r: Vec<char>)
    requires
        start <= end <= s@.len(),
    ensures
        r@ == s@.subrange(start as int, end as int),
{
    let mut r: Vec<char> = Vec::new();
    let mut i: usize = start;
    while i < end
        invariant
            start <= i <= end <= s@.len(),
            r@ == s@.subrange(start as int, i as int),
        decreases end - i,
    {
        r.push(s[i]);
        i = i + 1;
        assert(r@ =~= s@.subrange(start as int, i as int));
    }
    r
}

/// Copies all of `s` into a new vector.
pub fn copy_chars(s: &[char]) -> (r: Vec<char>)
    ensures
        r@ == s@,
{
    let r = copy_range(s, 0, s.len());
    assert(s@.subrange(0, s@.len() as int) =~= s@);
    r
}

/// Whether two character sequences are equal.
pub fn chars_equal(a: &[char], b: &[char]) -> (r: bool)
    ensures
        r == (a@ == b@),
{
    if a.len() != b.len() {
        return false;
    }
    let mut i: usize = 0;
    while i < a.len()
        invariant
            a@.len() == b@.len(),
            i <= a@.len(),
            forall|k: int| 0 <= k < i ==> a@[k] == b@[k],
        decreases a@.len() - i,
    {
        if a[i] != b[i] {
            return false;
        }
        i = i + 1;
    }
    assert(a@ =~= b@);
    true
}

/// Mismatch counting does not depend on the order of its arguments.
pub proof fn lemma_mismatches_symmetric(a: Seq<char>, b: Seq<char>, n: int)
    ensures
        mismatches(a, b, n) == mismatches(b, a, n),
    decreases n,
{
    if n > 0 {
        lemma_mismatches_symmetric(a, b, n - 1);
    }
}

/// Hamming distance is symmetric.
pub proof fn lemma_hamming_symmetric(a: Seq<char>, b: Seq<char>)
    ensures
        hamming(a, b) == hamming(b, a),
{
    let n = if a.len() <= b.len() {
        a.len()
    } else {
        b.len()
    };
    lemma_mismatches_symmetric(a, b, n as int);
}

/// Positional hamming distance between `s1` and `s2`, compared up to the
/// length of the shorter one.
pub fn count_mismatches(s1: &[char], s2: &[char]) -> (r: usize)
    ensures
        r == hamming(s1@, s2@),
{
    let n: usize = if s1.len() <= s2.len() {
        s1.len()
    } else {
        s2.len()
    };
    let mut distance: usize = 0;
    let mut i: usize = 0;
    while i < n
        invariant
            n <= s1@.len(),
            n <= s2@.len(),
            n == s1@.len() || n == s2@.len(),
            i <= n,
            distance == mismatches(s1@, s2@, i as int),
        decreases n - i,
    {
        proof {
            lemma_mismatches_bounded(s1@, s2@, i as int);
        }
        if s1[i] != s2[i] {
            distance = distance + 1;
        }
        i = i + 1;
    }
    distance
}

} // verus!
