//! The per-pair engine: extracts the fixed-offset fields of a read pair,
//! resolves both barcodes against their whitelists and records the UMI.
use vstd::prelude::*;
use crate::sequence::copy_range;
use crate::table::{recorded, UmiTable};
use crate::whitelist::{resolved, BarcodeSet};

verus! {

/// Width of the cell barcode at the start of read 1.
pub const BARCODE_WIDTH: u32 = 16;

/// Width of the UMI that follows the cell barcode in read 1.
pub const UMI_WIDTH: u32 = 10;

/// Why a read pair could not be processed.
#[derive(Debug, Clone, Copy, PartialEq, Eq, Structural)]
pub enum RecordError {
    /// A read sequence is shorter than the fixed fields taken from it.
    Truncated,
}

/// Table `m` after a pair with cell barcode `bc`, UMI `umi` and tag `tag`:
/// the UMI is recorded under the canonical barcode and tag when both resolve,
/// and nothing changes otherwise.
pub open spec fn after_pair(
    m: Map<(Seq<char>, Seq<char>), Set<Seq<char>>>,
    cells: Seq<Seq<char>>,
    tags: Seq<Seq<char>>,
    tol: nat,
    bc: Seq<char>,
    umi: Seq<char>,
    tag: Seq<char>,
) -> Map<(Seq<char>, Seq<char>), Set<Seq<char>>> {
    match (resolved(cells, bc, tol), resolved(tags, tag, tol)) {
        (Some(b), Some(t)) => recorded(m, b, t, umi),
        _ => m,
    }
}

/// The demultiplexing state: the UMI table being filled, the hamming
/// tolerance used for both whitelists, the tag width taken from read 2, and
/// the number of read pairs dropped as malformed.
pub struct DeMultiSeq {
    pub data: UmiTable,
    pub tolerance: u8,
    pub barcode_size: u32,
    pub malformed: u64,
}

impl DeMultiSeq {
    /// The table is well formed.
    pub open spec fn wf(&self) -> bool {
        self.data.wf()
    }

    /// A fresh engine with an empty table.
    pub fn new(tolerance: u8, barcode_size: u32) -> (r: DeMultiSeq)
        ensures
            r.wf(),
            r.data@ == Map::<(Seq<char>, Seq<char>), Set<Seq<char>>>::empty(),
            r.tolerance == tolerance,
            r.barcode_size == barcode_size,
            r.malformed == 0,
    {
        DeMultiSeq { data: UmiTable::new(), tolerance, barcode_size, malformed: 0 }
    }

    /// Takes the `size` characters of `chars` that start at `*pos` and moves
    /// `*pos` past them. When fewer remain, returns `None` and leaves `*pos`
    /// as it was.
    pub fn char_slice(&self, chars: &[char], pos: &mut usize, size: u32) -> (r: Option<Vec<char>>)
        ensures
            *old(pos) + size <= chars@.len() ==> {
                &&& r matches Some(s) && s@ == chars@.subrange(
                    *old(pos) as int,
                    *old(pos) + size,
                )
                &&& *final(pos) == *old(pos) + size
            },
            *old(pos) + size > chars@.len() ==> r is None && *final(pos) == *old(pos),
    {
        if *pos <= chars.len() && size as usize <= chars.len() - *pos {
            let start = *pos;
            let end = start + size as usize;
            let s = copy_range(chars, start, end);
            *pos = end;
            Some(s)
        } else {
            None
        }
    }

    /// Splits read 1 into its cell barcode (the first 16 characters) and its
    /// UMI (the 10 after them).
    pub fn parse_r1(&self, seq: &[char]) -> (r: Result<(Vec<char>, Vec<char>), RecordError>)
        ensures
            seq@.len() >= BARCODE_WIDTH + UMI_WIDTH ==> (r matches Ok((bc, umi)) && bc@
                == seq@.subrange(0, BARCODE_WIDTH as int) && umi@ == seq@.subrange(
                BARCODE_WIDTH as int,
                BARCODE_WIDTH + UMI_WIDTH,
            )),
            seq@.len() < BARCODE_WIDTH + UMI_WIDTH ==> r == Err::<(Vec<char>, Vec<char>), _>(
                RecordError::Truncated,
            ),
    {
        let mut pos: usize = 0;
        let barcode = self.char_slice(seq, &mut pos, BARCODE_WIDTH);
        let umi = self.char_slice(seq, &mut pos, UMI_WIDTH);
        match (barcode, umi) {
            (Some(barcode), Some(umi)) => Ok((barcode, umi)),
            _ => Err(RecordError::Truncated),
        }
    }

    /// Takes the multiseq tag: the first `barcode_size` characters of read 2.
    pub fn parse_r2(&self, seq: &[char]) -> (r: Result<Vec<char>, RecordError>)
        ensures
            seq@.len() >= self.barcode_size ==> (r matches Ok(tag) && tag@ == seq@.subrange(
                0,
                self.barcode_size as int,
            )),
            seq@.len() < self.barcode_size ==> r == Err::<Vec<char>, _>(RecordError::Truncated),
    {
        let mut pos: usize = 0;
        match self.char_slice(seq, &mut pos, self.barcode_size) {
            Some(tag) => Ok(tag),
            None => Err(RecordError::Truncated),
        }
    }

    /// Resolves `bc` against the cell whitelist and `multiseq` against the
    /// tag whitelist, and records `umi` under the two canonical entries when
    /// both resolve. A pair for which either does not resolve is dropped.
    pub fn add_record(
        &mut self,
        cbs: &BarcodeSet,
        mbs: &BarcodeSet,
        bc: Vec<char>,
        umi: Vec<char>,
        multiseq: Vec<char>,
    )
        requires
            old(self).wf(),
        ensures
            final(self).wf(),
            final(self).data@ == after_pair(
                old(self).data@,
                cbs@,
                mbs@,
                old(self).tolerance as nat,
                bc@,
                umi@,
                multiseq@,
            ),
            final(self).tolerance == old(self).tolerance,
            final(self).barcode_size == old(self).barcode_size,
            final(self).malformed == old(self).malformed,
    {
        let (cb_exists, bc) = cbs.resolve(bc.as_slice(), self.tolerance);
        let (ms_exists, multiseq) = mbs.resolve(multiseq.as_slice(), self.tolerance);
        if cb_exists && ms_exists {
            self.data.record(bc, multiseq, umi);
        }
    }

    /// Processes one read pair: extracts barcode and UMI from `seq1` and the
    /// tag from `seq2`, then adds the record. A pair whose reads are too short
    /// for their fields is counted as malformed (the count saturates) and
    /// leaves the table unchanged.
    pub fn process(&mut self, cbs: &BarcodeSet, mbs: &BarcodeSet, seq1: &[char], seq2: &[char]) -> (r:
        Result<(), RecordError>)
        requires
            old(self).wf(),
        ensures
            final(self).wf(),
            final(self).tolerance == old(self).tolerance,
            final(self).barcode_size == old(self).barcode_size,
            r is Ok <==> seq1@.len() >= BARCODE_WIDTH + UMI_WIDTH && seq2@.len()
                >= old(self).barcode_size,
            r is Ok ==> final(self).malformed == old(self).malformed && final(self).data@
                == after_pair(
                old(self).data@,
                cbs@,
                mbs@,
                old(self).tolerance as nat,
                seq1@.subrange(0, BARCODE_WIDTH as int),
                seq1@.subrange(BARCODE_WIDTH as int, BARCODE_WIDTH + UMI_WIDTH),
                seq2@.subrange(0, old(self).barcode_size as int),
            ),
            r is Err ==> r == Err::<(), _>(RecordError::Truncated) && final(self).data@ == old(
                self,
            ).data@ && final(self).malformed == if old(self).malformed < u64::MAX {
                old(self).malformed + 1
            } else {
                old(self).malformed as int
            },
    {
        let fields = (self.parse_r1(seq1), self.parse_r2(seq2));
        match fields {
            (Ok((barcode, umi)), Ok(multiseq)) => {
                self.add_record(cbs, mbs, barcode, umi, multiseq);
                Ok(())
            },
            _ => {
                if self.malformed < u64::MAX {
                    self.malformed = self.malformed + 1;
                }
                Err(RecordError::Truncated)
            },
        }
    }
}

} // verus!
