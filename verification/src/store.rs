//! The persistence writer: price records keyed by the natural key of their
//! swap. A write for a key that is already present changes nothing, which is
//! what makes replaying a batch safe.

use crate::bytes::str_eq;
use crate::model::{record_views, NaturalKey, PriceRecord, PriceRecordView};
use vstd::prelude::*;

verus! {

/// Whether the table holds a record with the key.
pub open spec fn spec_contains_key(table: Seq<PriceRecordView>, key: NaturalKey) -> bool {
    exists|i: int| 0 <= i < table.len() && (#[trigger] table[i]).key() == key
}

/// The table after one record was written to it.
pub open spec fn spec_upsert(table: Seq<PriceRecordView>, record: PriceRecordView) -> Seq<
    PriceRecordView,
> {
    if spec_contains_key(table, record.key()) {
        table
    } else {
        table.push(record)
    }
}

/// The table after a batch was written to it, record by record.
pub open spec fn spec_upsert_batch(table: Seq<PriceRecordView>, batch: Seq<PriceRecordView>)
    -> Seq<PriceRecordView>
    decreases batch.len(),
{
    if batch.len() == 0 {
        table
    } else {
        spec_upsert(spec_upsert_batch(table, batch.drop_last()), batch.last())
    }
}

/// No two records of the table have the same key.
pub open spec fn spec_keys_distinct(table: Seq<PriceRecordView>) -> bool {
    forall|i: int, j: int|
        0 <= i < j < table.len() ==> (#[trigger] table[i]).key() != (#[trigger] table[j]).key()
}

/// Whether `a` is a later swap than `b`: at a greater height, or at the same
/// height further on in the block.
pub open spec fn spec_later(a: PriceRecordView, b: PriceRecordView) -> bool {
    a.block_height > b.block_height || (a.block_height == b.block_height && (a.tx_index
        > b.tx_index || (a.tx_index == b.tx_index && a.log_index > b.log_index)))
}

/// The latest record of the pair: none of the pair is later than it, and of
/// several that are equally late it is the one written first.
pub open spec fn spec_latest(table: Seq<PriceRecordView>, pair: Seq<char>) -> Option<
    PriceRecordView,
>
    decreases table.len(),
{
    if table.len() == 0 {
        None
    } else {
        let rest = spec_latest(table.drop_last(), pair);
        let last = table.last();
        if last.pair_key != pair {
            rest
        } else {
            match rest {
                None => Some(last),
                Some(best) => if spec_later(last, best) {
                    Some(last)
                } else {
                    Some(best)
                },
            }
        }
    }
}

/// What `spec_latest` finds is a record of the pair in the table than which
/// no record of the pair is later, and it finds none only where the table
/// has no record of the pair.
pub proof fn lemma_latest(table: Seq<PriceRecordView>, pair: Seq<char>)
    ensures
        match spec_latest(table, pair) {
            Some(best) => best.pair_key == pair && table.contains(best) && forall|i: int|
                0 <= i < table.len() && (#[trigger] table[i]).pair_key == pair ==> !spec_later(
                    table[i],
                    best,
                ),
            None => forall|i: int| 0 <= i < table.len() ==> (#[trigger] table[i]).pair_key != pair,
        },
    decreases table.len(),
{
    if table.len() > 0 {
        let front = table.drop_last();
        lemma_latest(front, pair);
        assert(forall|i: int| 0 <= i < front.len() ==> front[i] == table[i]);
        match spec_latest(table, pair) {
            Some(best) => {
                if best == table.last() {
                    assert(table[table.len() - 1] == best);
                } else {
                    assert(front.contains(best));
                    let w = choose|w: int| 0 <= w < front.len() && front[w] == best;
                    assert(table[w] == best);
                }
                assert forall|i: int|
                    0 <= i < table.len() && (#[trigger] table[i]).pair_key == pair implies !spec_later(
                    table[i],
                    best,
                ) by {
                    if i < front.len() {
                        assert(front[i].pair_key == pair);
                    }
                }
            },
            None => {
                assert forall|i: int| 0 <= i < table.len() implies (#[trigger] table[i]).pair_key
                    != pair by {
                    if i < front.len() {
                        assert(front[i].pair_key != pair);
                    }
                }
            },
        }
    }
}

/// A key that the table holds is still there after a write.
pub proof fn lemma_upsert_keeps(table: Seq<PriceRecordView>, record: PriceRecordView, key: NaturalKey)
    requires
        spec_contains_key(table, key),
    ensures
        spec_contains_key(spec_upsert(table, record), key),
{
    let i = choose|i: int| 0 <= i < table.len() && (#[trigger] table[i]).key() == key;
    assert(spec_upsert(table, record)[i].key() == key);
}

/// After a write the table holds the key of the record written.
pub proof fn lemma_upsert_holds(table: Seq<PriceRecordView>, record: PriceRecordView)
    ensures
        spec_contains_key(spec_upsert(table, record), record.key()),
{
    if !spec_contains_key(table, record.key()) {
        assert(table.push(record)[table.len() as int].key() == record.key());
    }
}

/// A write keeps the keys of the table distinct.
pub proof fn lemma_upsert_distinct(table: Seq<PriceRecordView>, record: PriceRecordView)
    requires
        spec_keys_distinct(table),
    ensures
        spec_keys_distinct(spec_upsert(table, record)),
{
    if !spec_contains_key(table, record.key()) {
        let after = table.push(record);
        assert forall|i: int, j: int| 0 <= i < j < after.len() implies (#[trigger] after[i]).key()
            != (#[trigger] after[j]).key() by {
            if j == table.len() {
                assert(table[i].key() != record.key());
            } else {
                assert(table[i].key() != table[j].key());
            }
        }
    }
}

/// A batch write keeps the keys of the table distinct.
pub proof fn lemma_upsert_batch_distinct(table: Seq<PriceRecordView>, batch: Seq<PriceRecordView>)
    requires
        spec_keys_distinct(table),
    ensures
        spec_keys_distinct(spec_upsert_batch(table, batch)),
    decreases batch.len(),
{
    if batch.len() > 0 {
        lemma_upsert_batch_distinct(table, batch.drop_last());
        lemma_upsert_distinct(spec_upsert_batch(table, batch.drop_last()), batch.last());
    }
}

/// After a batch write the table holds the key of every record of the batch.
pub proof fn lemma_upsert_batch_holds(table: Seq<PriceRecordView>, batch: Seq<PriceRecordView>)
    ensures
        forall|i: int|
            0 <= i < batch.len() ==> spec_contains_key(
                spec_upsert_batch(table, batch),
                (#[trigger] batch[i]).key(),
            ),
    decreases batch.len(),
{
    if batch.len() > 0 {
        let front = batch.drop_last();
        let mid = spec_upsert_batch(table, front);
        lemma_upsert_batch_holds(table, front);
        assert forall|i: int| 0 <= i < batch.len() implies spec_contains_key(
            spec_upsert_batch(table, batch),
            (#[trigger] batch[i]).key(),
        ) by {
            if i < front.len() {
                assert(front[i] == batch[i]);
                lemma_upsert_keeps(mid, batch.last(), batch[i].key());
            } else {
                lemma_upsert_holds(mid, batch.last());
            }
        }
    }
}

/// Writing a batch whose keys the table already holds changes nothing.
pub proof fn lemma_upsert_batch_present(table: Seq<PriceRecordView>, batch: Seq<PriceRecordView>)
    requires
        forall|i: int|
            0 <= i < batch.len() ==> spec_contains_key(table, (#[trigger] batch[i]).key()),
    ensures
        spec_upsert_batch(table, batch) == table,
    decreases batch.len(),
{
    if batch.len() > 0 {
        let front = batch.drop_last();
        assert forall|i: int| 0 <= i < front.len() implies spec_contains_key(
            table,
            (#[trigger] front[i]).key(),
        ) by {
            assert(front[i] == batch[i]);
        }
        lemma_upsert_batch_present(table, front);
        assert(batch.last() == batch[batch.len() - 1]);
    }
}

/// Replaying a batch leaves the table as the first write left it. The
/// replayed records need only describe the same swaps: what else they hold,
/// such as the time of the replay, does not matter.
pub proof fn lemma_replay_idempotent(
    table: Seq<PriceRecordView>,
    batch: Seq<PriceRecordView>,
    replay: Seq<PriceRecordView>,
)
    requires
        replay.len() == batch.len(),
        forall|i: int| 0 <= i < batch.len() ==> replay[i].key() == batch[i].key(),
    ensures
        spec_upsert_batch(spec_upsert_batch(table, batch), replay) == spec_upsert_batch(
            table,
            batch,
        ),
{
    let once = spec_upsert_batch(table, batch);
    lemma_upsert_batch_holds(table, batch);
    assert forall|i: int| 0 <= i < replay.len() implies spec_contains_key(
        once,
        (#[trigger] replay[i]).key(),
    ) by {
        assert(spec_contains_key(once, batch[i].key()));
    }
    lemma_upsert_batch_present(once, replay);
}

/// An in-memory table of price records with distinct keys, in the order in
/// which they were first written.
#[derive(Clone, Debug)]
pub struct PriceTable {
    records: Vec<PriceRecord>,
}

impl View for PriceTable {
    type V = Seq<PriceRecordView>;

    closed spec fn view(&self) -> Seq<PriceRecordView> {
        record_views(self.records@)
    }
}

impl PriceTable {
    /// The invariant of the table: no two records have the same key.
    pub open spec fn wf(&self) -> bool {
        spec_keys_distinct(self@)
    }

    /// An empty table.
    pub fn new() -> (r: PriceTable)
        ensures
            r@ == Seq::<PriceRecordView>::empty(),
            r.wf(),
    {
        let r = PriceTable { records: Vec::new() };
        assert(r@ =~= Seq::<PriceRecordView>::empty());
        r
    }

    /// The number of records.
    pub fn len(&self) -> (r: usize)
        ensures
            r == self@.len(),
    {
        self.records.len()
    }

    /// A copy of the record at position `i` in order of first writing.
    pub fn get(&self, i: usize) -> (r: Option<PriceRecord>)
        ensures
            r is Some <==> i < self@.len(),
            r matches Some(p) ==> p@ == self@[i as int],
    {
        if i < self.records.len() {
            Some(self.records[i].duplicate())
        } else {
            None
        }
    }

    /// Whether the table holds a record for the same swap as `record`.
    pub fn contains_key(&self, record: &PriceRecord) -> (r: bool)
        ensures
            r == spec_contains_key(self@, record@.key()),
    {
        let mut i: usize = 0;
        while i < self.records.len()
            invariant
                i <= self.records@.len(),
                forall|j: int| 0 <= j < i ==> (#[trigger] self@[j]).key() != record@.key(),
            decreases self.records@.len() - i,
        {
            if self.records[i].same_key(record) {
                assert(self@[i as int].key() == record@.key());
                return true;
            }
            i = i + 1;
        }
        false
    }

    /// Writes one record. Returns whether it was new; a record for a swap
    /// that is already stored changes nothing.
    pub fn upsert(&mut self, record: PriceRecord) -> (r: bool)
        requires
            old(self).wf(),
        ensures
            final(self)@ == spec_upsert(old(self)@, record@),
            r == !spec_contains_key(old(self)@, record@.key()),
            final(self).wf(),
    {
        proof {
            lemma_upsert_distinct(self@, record@);
        }
        if self.contains_key(&record) {
            false
        } else {
            self.records.push(record);
            assert(self@ =~= old(self)@.push(record@));
            true
        }
    }

    /// Writes a batch as a whole, record by record in order. Returns the
    /// number of records that were new.
    pub fn upsert_batch(&mut self, batch: &Vec<PriceRecord>) -> (r: usize)
        requires
            old(self).wf(),
        ensures
            final(self)@ == spec_upsert_batch(old(self)@, record_views(batch@)),
            final(self)@.len() == old(self)@.len() + r,
            final(self).wf(),
    {
        let mut written: usize = 0;
        let mut i: usize = 0;
        assert(record_views(batch@).take(0) =~= Seq::<PriceRecordView>::empty());
        while i < batch.len()
            invariant
                i <= batch@.len(),
                written <= i,
                self.wf(),
                self@ == spec_upsert_batch(old(self)@, record_views(batch@).take(i as int)),
                self@.len() == old(self)@.len() + written,
            decreases batch@.len() - i,
        {
            proof {
                let next = record_views(batch@).take(i as int + 1);
                assert(next.drop_last() =~= record_views(batch@).take(i as int));
                assert(next.last() == batch@[i as int]@);
            }
            if self.upsert(batch[i].duplicate()) {
                written = written + 1;
            }
            i = i + 1;
        }
        assert(record_views(batch@).take(i as int) =~= record_views(batch@));
        written
    }

    /// The latest record of a pair, if the table has one.
    pub fn latest_price(&self, pair_key: &str) -> (r: Option<PriceRecord>)
        ensures
            match r {
                Some(p) => spec_latest(self@, pair_key@) == Some(p@),
                None => spec_latest(self@, pair_key@) is None,
            },
            r is None <==> forall|i: int|
                0 <= i < self@.len() ==> (#[trigger] self@[i]).pair_key != pair_key@,
            r matches Some(p) ==> p@.pair_key == pair_key@ && self@.contains(p@) && forall|i: int|
                0 <= i < self@.len() && (#[trigger] self@[i]).pair_key == pair_key@
                    ==> !spec_later(self@[i], p@),
    {
        let mut best: Option<usize> = None;
        let mut i: usize = 0;
        assert(self@.take(0) =~= Seq::<PriceRecordView>::empty());
        while i < self.records.len()
            invariant
                i <= self.records@.len(),
                match best {
                    Some(b) => b < i && spec_latest(self@.take(i as int), pair_key@) == Some(
                        self@[b as int],
                    ),
                    None => spec_latest(self@.take(i as int), pair_key@) is None,
                },
            decreases self.records@.len() - i,
        {
            proof {
                let next = self@.take(i as int + 1);
                assert(next.drop_last() =~= self@.take(i as int));
                assert(next.last() == self@[i as int]);
            }
            let candidate = &self.records[i];
            if str_eq(candidate.pair_key.as_str(), pair_key) {
                match best {
                    None => {
                        best = Some(i);
                    },
                    Some(b) => {
                        let held = &self.records[b];
                        if candidate.block_height > held.block_height || (candidate.block_height
                            == held.block_height && (candidate.tx_index > held.tx_index || (
                        candidate.tx_index == held.tx_index && candidate.log_index
                            > held.log_index))) {
                            best = Some(i);
                        }
                    },
                }
            }
            i = i + 1;
        }
        proof {
            assert(self@.take(i as int) =~= self@);
            lemma_latest(self@, pair_key@);
        }
        match best {
            Some(b) => Some(self.records[b].duplicate()),
            None => None,
        }
    }
}

} // verus!
