//! The aggregation table: for each (cell barcode, tag) pair, the set of
//! distinct UMIs recorded under it.
use vstd::prelude::*;
use crate::sequence::{chars_equal, copy_chars};

verus! {

broadcast use vstd::seq_lib::group_seq_properties;

/// The UMIs recorded under `(barcode, tag)` in table `m`; empty when the
/// pair has never been recorded.
pub open spec fn umis_at(
    m: Map<(Seq<char>, Seq<char>), Set<Seq<char>>>,
    barcode: Seq<char>,
    tag: Seq<char>,
) -> Set<Seq<char>> {
    if m.contains_key((barcode, tag)) {
        m[(barcode, tag)]
    } else {
        Set::empty()
    }
}

/// Table `m` after recording `umi` under `(barcode, tag)`.
pub open spec fn recorded(
    m: Map<(Seq<char>, Seq<char>), Set<Seq<char>>>,
    barcode: Seq<char>,
    tag: Seq<char>,
    umi: Seq<char>,
) -> Map<(Seq<char>, Seq<char>), Set<Seq<char>>> {
    m.insert((barcode, tag), umis_at(m, barcode, tag).insert(umi))
}

struct Row {
    barcode: Vec<char>,
    tag: Vec<char>,
    umis: Vec<Vec<char>>,
}

impl Row {
    spec fn key(&self) -> (Seq<char>, Seq<char>) {
        (self.barcode@, self.tag@)
    }

    spec fn umi_seq(&self) -> Seq<Seq<char>> {
        self.umis@.map_values(|u: Vec<char>| u@)
    }
}

/// Distinct UMIs per (barcode, tag) pair. Rows are kept in the order in
/// which their pair was first recorded.
pub struct UmiTable {
    rows: Vec<Row>,
    model: Ghost<Map<(Seq<char>, Seq<char>), Set<Seq<char>>>>,
}

impl View for UmiTable {
    type V = Map<(Seq<char>, Seq<char>), Set<Seq<char>>>;

    closed spec fn view(&self) -> Map<(Seq<char>, Seq<char>), Set<Seq<char>>> {
        self.model@
    }
}

impl UmiTable {
    /// Each pair has one row, its UMIs are distinct and not empty, and the
    /// rows agree with the table's view.
    pub closed spec fn wf(&self) -> bool {
        &&& forall|i: int, j: int|
            0 <= i < j < self.rows@.len() ==> self.rows@[i].key() != self.rows@[j].key()
        &&& forall|i: int|
            0 <= i < self.rows@.len() ==> {
                &&& (#[trigger] self.rows@[i]).umi_seq().no_duplicates()
                &&& self.rows@[i].umi_seq().len() > 0
                &&& self.model@.contains_key(self.rows@[i].key())
                &&& self.model@[self.rows@[i].key()] == self.rows@[i].umi_seq().to_set()
            }
        &&& forall|k: (Seq<char>, Seq<char>)|
            #[trigger] self.model@.contains_key(k) ==> exists|i: int|
                0 <= i < self.rows@.len() && (#[trigger] self.rows@[i]).key() == k
    }

    /// An empty table.
    pub fn new() -> (r: UmiTable)
        ensures
            r.wf(),
            r@ == Map::<(Seq<char>, Seq<char>), Set<Seq<char>>>::empty(),
    {
        UmiTable { rows: Vec::new(), model: Ghost(Map::empty()) }
    }

    /// Index of the row for `(barcode, tag)`, if there is one.
    fn find_row(&self, barcode: &[char], tag: &[char]) -> (r: Option<usize>)
        requires
            self.wf(),
        ensures
            match r {
                Some(i) => i < self.rows@.len() && self.rows@[i as int].key() == (barcode@, tag@),
                None => !self@.contains_key((barcode@, tag@)),
            },
    {
        let mut i: usize = 0;
        while i < self.rows.len()
            invariant
                self.wf(),
                i <= self.rows@.len(),
                forall|k: int| 0 <= k < i ==> self.rows@[k].key() != (barcode@, tag@),
            decreases self.rows@.len() - i,
        {
            if chars_equal(self.rows[i].barcode.as_slice(), barcode) && chars_equal(
                self.rows[i].tag.as_slice(),
                tag,
            ) {
                return Some(i);
            }
            i = i + 1;
        }
        None
    }

    /// Records `umi` under `(barcode, tag)`; a UMI already recorded there
    /// leaves the table unchanged.
    pub fn record(&mut self, barcode: Vec<char>, tag: Vec<char>, umi: Vec<char>)
        requires
            old(self).wf(),
        ensures
            final(self).wf(),
            final(self)@ == recorded(old(self)@, barcode@, tag@, umi@),
    {
        let ghost key = (barcode@, tag@);
        let ghost u = umi@;
        match self.find_row(barcode.as_slice(), tag.as_slice()) {
            Some(i) => {
                let mut j: usize = 0;
                let n = self.rows[i].umis.len();
                while j < n
                    invariant
                        self.wf(),
                        self@ == old(self)@,
                        u == umi@,
                        key == (barcode@, tag@),
                        i < self.rows@.len(),
                        self.rows@[i as int].key() == key,
                        n == self.rows@[i as int].umis@.len(),
                        j <= n,
                        forall|k: int| 0 <= k < j ==> self.rows@[i as int].umi_seq()[k] != u,
                    decreases n - j,
                {
                    if chars_equal(self.rows[i].umis[j].as_slice(), umi.as_slice()) {
                        assert(self.rows@[i as int].umi_seq()[j as int] == u);
                        assert(self.rows@[i as int].umi_seq().contains(u));
                        assert(old(self)@[key].insert(u) =~= old(self)@[key]);
                        assert(recorded(old(self)@, key.0, key.1, u) =~= old(self)@);
                        return;
                    }
                    j = j + 1;
                }
                let ghost old_rows = self.rows@;
                let ghost old_seq = self.rows@[i as int].umi_seq();
                assert(!old_seq.contains(u));
                self.rows[i].umis.push(umi);
                assert(self.rows@[i as int].umi_seq() =~= old_seq.push(u));
                assert(old_seq.push(u).to_set() =~= old_seq.to_set().insert(u));
                self.model = Ghost(self.model@.insert(key, self.model@[key].insert(u)));
                assert forall|k: int| 0 <= k < self.rows@.len() && k != i implies self.rows@[k]
                    == old_rows[k] by {}
                assert forall|k: (Seq<char>, Seq<char>)| #[trigger]
                    self.model@.contains_key(k) implies exists|m: int|
                    0 <= m < self.rows@.len() && (#[trigger] self.rows@[m]).key() == k by {
                    let m = choose|m: int| 0 <= m < old_rows.len() && (#[trigger] old_rows[m]).key() == k;
                    assert(self.rows@[m].key() == k);
                }
            },
            None => {
                let ghost old_rows = self.rows@;
                let mut umis: Vec<Vec<char>> = Vec::new();
                umis.push(umi);
                let row = Row { barcode, tag, umis };
                assert(row.umi_seq() =~= seq![u]);
                assert(seq![u].to_set() =~= Set::<Seq<char>>::empty().insert(u));
                self.rows.push(row);
                self.model = Ghost(self.model@.insert(key, Set::empty().insert(u)));
                assert forall|k: (Seq<char>, Seq<char>)| #[trigger]
                    self.model@.contains_key(k) implies exists|m: int|
                    0 <= m < self.rows@.len() && (#[trigger] self.rows@[m]).key() == k by {
                    if k == key {
                        assert(self.rows@[old_rows.len() as int].key() == k);
                    } else {
                        let m = choose|m: int| 0 <= m < old_rows.len() && (#[trigger] old_rows[m]).key() == k;
                        assert(self.rows@[m].key() == k);
                    }
                }
            },
        }
    }

    /// Number of distinct UMIs recorded under `(barcode, tag)`.
    pub fn count(&self, barcode: &[char], tag: &[char]) -> (r: usize)
        requires
            self.wf(),
        ensures
            r == umis_at(self@, barcode@, tag@).len(),
    {
        match self.find_row(barcode, tag) {
            Some(i) => {
                proof {
                    self.rows@[i as int].umi_seq().unique_seq_to_set();
                }
                self.rows[i].umis.len()
            },
            None => 0,
        }
    }

    /// One `(barcode, tag, count)` row per recorded pair, in the order in
    /// which the pairs were first recorded; `count` is the number of distinct
    /// UMIs under the pair.
    pub fn report(&self) -> (r: Vec<(Vec<char>, Vec<char>, usize)>)
        requires
            self.wf(),
        ensures
            forall|i: int|
                0 <= i < r@.len() ==> {
                    &&& self@.contains_key((#[trigger] r@[i].0@, r@[i].1@))
                    &&& r@[i].2 == self@[(r@[i].0@, r@[i].1@)].len()
                    &&& r@[i].2 > 0
                },
            forall|k: (Seq<char>, Seq<char>)|
                #[trigger] self@.contains_key(k) ==> exists|i: int|
                    0 <= i < r@.len() && (#[trigger] r@[i].0@, r@[i].1@) == k,
            forall|i: int, j: int|
                0 <= i < j < r@.len() ==> (r@[i].0@, r@[i].1@) != (r@[j].0@, r@[j].1@),
    {
        let mut r: Vec<(Vec<char>, Vec<char>, usize)> = Vec::new();
        let mut i: usize = 0;
        while i < self.rows.len()
            invariant
                self.wf(),
                i <= self.rows@.len(),
                r@.len() == i,
                forall|k: int|
                    0 <= k < i ==> (#[trigger] r@[k].0@, r@[k].1@) == self.rows@[k].key() && r@[k].2
                        == self.rows@[k].umi_seq().len(),
            decreases self.rows@.len() - i,
        {
            let row = &self.rows[i];
            proof {
                row.umi_seq().unique_seq_to_set();
            }
            r.push((copy_chars(row.barcode.as_slice()), copy_chars(row.tag.as_slice()), row.umis.len()));
            i = i + 1;
        }
        assert forall|k: int| 0 <= k < r@.len() implies self@.contains_key(
            (#[trigger] r@[k].0@, r@[k].1@),
        ) && r@[k].2 == self@[(r@[k].0@, r@[k].1@)].len() && r@[k].2 > 0 by {
            assert(self.rows@[k].key() == (r@[k].0@, r@[k].1@));
            self.rows@[k].umi_seq().unique_seq_to_set();
        }
        assert forall|key: (Seq<char>, Seq<char>)| #[trigger] self@.contains_key(key) implies exists|
            k: int,
        | 0 <= k < r@.len() && (#[trigger] r@[k].0@, r@[k].1@) == key by {
            let m = choose|m: int| 0 <= m < self.rows@.len() && (#[trigger] self.rows@[m]).key() == key;
            assert((r@[m].0@, r@[m].1@) == key);
        }
        assert forall|a: int, b: int| 0 <= a < b < r@.len() implies (r@[a].0@, r@[a].1@) != (
        r@[b].0@, r@[b].1@) by {
            assert((r@[a].0@, r@[a].1@) == self.rows@[a].key());
            assert((r@[b].0@, r@[b].1@) == self.rows@[b].key());
        }
        r
    }
}

/// Recording a UMI a second time under the same pair changes nothing: the
/// table, and so every count, is the same as after recording it once.
pub proof fn lemma_record_idempotent(
    m: Map<(Seq<char>, Seq<char>), Set<Seq<char>>>,
    barcode: Seq<char>,
    tag: Seq<char>,
    umi: Seq<char>,
)
    ensures
        recorded(recorded(m, barcode, tag, umi), barcode, tag, umi) == recorded(
            m,
            barcode,
            tag,
            umi,
        ),
        umis_at(recorded(recorded(m, barcode, tag, umi), barcode, tag, umi), barcode, tag).len()
            == umis_at(recorded(m, barcode, tag, umi), barcode, tag).len(),
{
    let once = recorded(m, barcode, tag, umi);
    assert(umis_at(once, barcode, tag).insert(umi) =~= umis_at(once, barcode, tag));
    assert(recorded(once, barcode, tag, umi) =~= once);
}

} // verus!
