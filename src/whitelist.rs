//! A whitelist of known barcodes, with exact and tolerant lookup.
use vstd::prelude::*;
use crate::sequence::{
    chars_equal,
    copy_chars,
    count_mismatches,
    hamming,
    lemma_hamming_self,
    lemma_hamming_symmetric,
};

verus! {

/// `s` with every repeated element after its first occurrence removed.
pub open spec fn first_occurrences(s: Seq<Seq<char>>) -> Seq<Seq<char>>
    decreases s.len(),
{
    if s.len() == 0 {
        Seq::empty()
    } else {
        let p = first_occurrences(s.drop_last());
        if p.contains(s.last()) {
            p
        } else {
            p.push(s.last())
        }
    }
}

/// The first entry at index `i` or later whose hamming distance to `c` is at
/// most `tol`.
pub open spec fn first_within(entries: Seq<Seq<char>>, c: Seq<char>, tol: nat, i: int) -> Option<
    Seq<char>,
>
    decreases entries.len() - i,
{
    if i < 0 || i >= entries.len() {
        None
    } else if hamming(entries[i], c) <= tol {
        Some(entries[i])
    } else {
        first_within(entries, c, tol, i + 1)
    }
}

/// The whitelist entry that candidate `c` resolves to with tolerance `tol`:
/// `c` itself when it is an entry; otherwise, for a nonzero tolerance, the
/// first entry (in whitelist order) within `tol` mismatches.
pub open spec fn resolved(entries: Seq<Seq<char>>, c: Seq<char>, tol: nat) -> Option<Seq<char>> {
    if entries.contains(c) {
        Some(c)
    } else if tol == 0 {
        None
    } else {
        first_within(entries, c, tol, 0)
    }
}

/// A set of barcodes, kept in the order in which they were first added.
pub struct BarcodeSet {
    barcodes: Vec<Vec<char>>,
}

impl View for BarcodeSet {
    type V = Seq<Seq<char>>;

    closed spec fn view(&self) -> Seq<Seq<char>> {
        self.barcodes@.map_values(|b: Vec<char>| b@)
    }
}

impl BarcodeSet {
    /// No barcode is held twice.
    pub open spec fn wf(&self) -> bool {
        self@.no_duplicates()
    }

    /// An empty whitelist.
    pub fn new() -> (r: BarcodeSet)
        ensures
            r@ == Seq::<Seq<char>>::empty(),
            r.wf(),
    {
        let r = BarcodeSet { barcodes: Vec::new() };
        assert(r@ =~= Seq::<Seq<char>>::empty());
        r
    }

    /// Number of distinct barcodes held.
    pub fn len(&self) -> (r: usize)
        ensures
            r == self@.len(),
    {
        self.barcodes.len()
    }

    /// Whether `barcode` is exactly one of the entries.
    pub fn contains(&self, barcode: &[char]) -> (r: bool)
        ensures
            r == self@.contains(barcode@),
    {
        let mut i: usize = 0;
        while i < self.barcodes.len()
            invariant
                i <= self@.len(),
                self@.len() == self.barcodes@.len(),
                forall|k: int| 0 <= k < i ==> self@[k] != barcode@,
            decreases self@.len() - i,
        {
            if chars_equal(self.barcodes[i].as_slice(), barcode) {
                assert(self@[i as int] == barcode@);
                return true;
            }
            i = i + 1;
        }
        false
    }

    /// Adds `barcode` unless it is already held.
    pub fn insert(&mut self, barcode: Vec<char>)
        requires
            old(self).wf(),
        ensures
            final(self).wf(),
            final(self)@ == if old(self)@.contains(barcode@) {
                old(self)@
            } else {
                old(self)@.push(barcode@)
            },
    {
        if !self.contains(barcode.as_slice()) {
            let ghost b = barcode@;
            self.barcodes.push(barcode);
            assert(self@ =~= old(self)@.push(b));
        }
    }

    /// Builds a whitelist from `entries`, keeping the first occurrence of
    /// each distinct entry in its original order.
    pub fn load(entries: &[Vec<char>]) -> (r: BarcodeSet)
        ensures
            r.wf(),
            r@ == first_occurrences(entries@.map_values(|b: Vec<char>| b@)),
    {
        let ghost ev = entries@.map_values(|b: Vec<char>| b@);
        let mut r = BarcodeSet::new();
        let mut i: usize = 0;
        assert(ev.subrange(0, 0) =~= Seq::<Seq<char>>::empty());
        while i < entries.len()
            invariant
                i <= entries@.len(),
                ev == entries@.map_values(|b: Vec<char>| b@),
                r.wf(),
                r@ == first_occurrences(ev.subrange(0, i as int)),
            decreases entries@.len() - i,
        {
            assert(ev.subrange(0, i + 1).drop_last() =~= ev.subrange(0, i as int));
            r.insert(copy_chars(entries[i].as_slice()));
            i = i + 1;
        }
        assert(ev.subrange(0, entries@.len() as int) =~= ev);
        r
    }

    /// Positional hamming distance between `s1` and `s2`, compared up to the
    /// length of the shorter one.
    pub fn hamming_distance(&self, s1: &[char], s2: &[char]) -> (r: usize)
        ensures
            r == hamming(s1@, s2@),
    {
        count_mismatches(s1, s2)
    }

    /// Scans the entries in order for the first one within `tolerance`
    /// mismatches of `barcode`. Returns `(true, entry)` for it, or
    /// `(false, barcode)` when there is none.
    pub fn pdist(&self, barcode: &[char], tolerance: u8) -> (r: (bool, Vec<char>))
        ensures
            match first_within(self@, barcode@, tolerance as nat, 0) {
                Some(w) => r.0 && r.1@ == w,
                None => !r.0 && r.1@ == barcode@,
            },
    {
        let mut i: usize = 0;
        while i < self.barcodes.len()
            invariant
                i <= self@.len(),
                self@.len() == self.barcodes@.len(),
                first_within(self@, barcode@, tolerance as nat, 0) == first_within(
                    self@,
                    barcode@,
                    tolerance as nat,
                    i as int,
                ),
            decreases self@.len() - i,
        {
            let seq = self.barcodes[i].as_slice();
            let distance = self.hamming_distance(seq, barcode);
            if distance <= tolerance as usize {
                return (true, copy_chars(seq));
            }
            i = i + 1;
        }
        (false, copy_chars(barcode))
    }

    /// Resolves `barcode` against the whitelist: `(true, canonical entry)`
    /// when it matches exactly or, for a nonzero tolerance, lies within
    /// `tolerance` mismatches of an entry; `(false, barcode)` otherwise.
    pub fn resolve(&self, barcode: &[char], tolerance: u8) -> (r: (bool, Vec<char>))
        ensures
            match resolved(self@, barcode@, tolerance as nat) {
                Some(w) => r.0 && r.1@ == w,
                None => !r.0 && r.1@ == barcode@,
            },
    {
        if self.contains(barcode) {
            (true, copy_chars(barcode))
        } else if tolerance > 0 {
            self.pdist(barcode, tolerance)
        } else {
            (false, copy_chars(barcode))
        }
    }
}

/// A candidate that is a whitelist entry resolves to itself, whatever the
/// tolerance.
pub proof fn lemma_member_resolves_to_itself(w: BarcodeSet, c: Seq<char>, tol: u8)
    requires
        w@.contains(c),
    ensures
        resolved(w@, c, tol as nat) == Some(c),
{
}

/// With tolerance zero, a candidate that is not a whitelist entry does not
/// resolve.
pub proof fn lemma_exact_only_without_tolerance(w: BarcodeSet, c: Seq<char>)
    requires
        !w@.contains(c),
    ensures
        resolved(w@, c, 0) is None,
{
}

/// Whatever a candidate resolves to is a whitelist entry within the
/// tolerance of the candidate.
pub proof fn lemma_resolved_within_tolerance(w: BarcodeSet, c: Seq<char>, tol: u8)
    ensures
        resolved(w@, c, tol as nat) matches Some(e) ==> w@.contains(e) && hamming(c, e)
            <= tol as nat,
{
    if w@.contains(c) {
        lemma_hamming_self(c);
    } else if tol > 0 {
        lemma_first_within_sound(w@, c, tol as nat, 0);
    }
}

proof fn lemma_first_within_sound(entries: Seq<Seq<char>>, c: Seq<char>, tol: nat, i: int)
    ensures
        first_within(entries, c, tol, i) matches Some(e) ==> entries.contains(e) && hamming(c, e)
            <= tol,
    decreases entries.len() - i,
{
    if 0 <= i < entries.len() {
        if hamming(entries[i], c) <= tol {
            lemma_hamming_symmetric(entries[i], c);
            assert(entries.contains(entries[i]));
        } else {
            lemma_first_within_sound(entries, c, tol, i + 1);
        }
    }
}

} // verus!
