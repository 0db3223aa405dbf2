//! From fetched blocks to a batch of price records: every block is decoded,
//! every swap is priced, and the records of all blocks form one batch in
//! chain order.

use crate::decoder::{
    decode_block, find_venue, spec_decode_events, spec_decode_failures, spec_decode_record,
    spec_find_venue,
};
use crate::model::{
    event_views, record_views, Chain, ChainView, PriceRecord, PriceRecordView, RawBlock,
    RawRecord, SwapEvent, SwapEventView, Venue,
};
use crate::price::{price, price_of};
use crate::store::{lemma_replay_idempotent, spec_upsert_batch};
use vstd::prelude::*;

verus! {

/// The record that a swap is stored as. Its price is that of the venue's
/// decimals; where no price can be derived the record has none.
pub open spec fn spec_price_record(venues: Seq<Venue>, e: SwapEventView, inserted_at: u64)
    -> PriceRecordView {
    PriceRecordView {
        pair_key: e.pair_key,
        price: match spec_find_venue(venues, e.dex_address) {
            Some(i) => match price_of(
                e.amount_in,
                e.amount_out,
                venues[i].decimals_in,
                venues[i].decimals_out,
            ) {
                Ok(v) => Some(v),
                Err(_) => None,
            },
            None => None,
        },
        chain_id: e.chain_id,
        block_height: e.block_height,
        tx_index: e.tx_index,
        log_index: e.log_index,
        inserted_at: inserted_at,
    }
}

/// The records of a sequence of swaps.
pub open spec fn spec_price_records(venues: Seq<Venue>, events: Seq<SwapEventView>, now: u64)
    -> Seq<PriceRecordView> {
    events.map_values(|e: SwapEventView| spec_price_record(venues, e, now))
}

/// The records of one block.
pub open spec fn spec_block_records(chain: ChainView, venues: Seq<Venue>, block: RawBlock, now: u64)
    -> Seq<PriceRecordView> {
    spec_price_records(
        venues,
        spec_decode_events(chain, venues, block.height, block.records@, now),
        now,
    )
}

/// The records of a sequence of blocks, block after block.
pub open spec fn spec_batch_records(
    chain: ChainView,
    venues: Seq<Venue>,
    blocks: Seq<RawBlock>,
    now: u64,
) -> Seq<PriceRecordView>
    decreases blocks.len(),
{
    if blocks.len() == 0 {
        Seq::empty()
    } else {
        spec_batch_records(chain, venues, blocks.drop_last(), now) + spec_block_records(
            chain,
            venues,
            blocks.last(),
            now,
        )
    }
}

/// The number of malformed records in a sequence of blocks.
pub open spec fn spec_batch_failures(
    chain: ChainView,
    venues: Seq<Venue>,
    blocks: Seq<RawBlock>,
    now: u64,
) -> nat
    decreases blocks.len(),
{
    if blocks.len() == 0 {
        0
    } else {
        spec_batch_failures(chain, venues, blocks.drop_last(), now) + spec_decode_failures(
            chain,
            venues,
            blocks.last().height,
            blocks.last().records@,
            now,
        )
    }
}

/// A count held in a `u64`: counts beyond its range are held as its maximum.
pub open spec fn spec_saturate(n: nat) -> u64 {
    if n <= u64::MAX {
        n as u64
    } else {
        u64::MAX
    }
}

/// Two batches describe the same swaps, record by record.
pub open spec fn spec_same_keys(a: Seq<PriceRecordView>, b: Seq<PriceRecordView>) -> bool {
    a.len() == b.len() && forall|i: int| 0 <= i < a.len() ==> a[i].key() == b[i].key()
}

/// The records of a batch, and the number of malformed records that were
/// skipped while it was built.
#[derive(Clone, Debug)]
pub struct Batch {
    pub records: Vec<PriceRecord>,
    pub failures: u64,
}

/// Prices one swap.
pub fn price_event(venues: &Vec<Venue>, event: &SwapEvent, inserted_at: u64) -> (r: PriceRecord)
    ensures
        r@ == spec_price_record(venues@, event@, inserted_at),
{
    let derived = match find_venue(venues, event.dex_address.as_slice()) {
        Some(i) => {
            let venue = &venues[i];
            match price(event.amount_in, event.amount_out, venue.decimals_in, venue.decimals_out) {
                Ok(p) => Some(p),
                Err(_) => None,
            }
        },
        None => None,
    };
    PriceRecord {
        pair_key: event.pair_key.clone(),
        price: derived,
        chain_id: event.chain_id.clone(),
        block_height: event.block_height,
        tx_index: event.tx_index,
        log_index: event.log_index,
        inserted_at: inserted_at,
    }
}

/// Decodes and prices a run of fetched blocks into one batch. A malformed
/// record is counted and skipped; the count saturates.
pub fn build_batch(chain: &Chain, venues: &Vec<Venue>, blocks: &Vec<RawBlock>, now: u64) -> (r:
    Batch)
    ensures
        record_views(r.records@) == spec_batch_records(chain@, venues@, blocks@, now),
        r.failures == spec_saturate(spec_batch_failures(chain@, venues@, blocks@, now)),
{
    let mut records: Vec<PriceRecord> = Vec::new();
    let mut failures: u64 = 0;
    let mut i: usize = 0;
    assert(blocks@.take(0) =~= Seq::<RawBlock>::empty());
    assert(record_views(records@) =~= Seq::<PriceRecordView>::empty());
    while i < blocks.len()
        invariant
            i <= blocks@.len(),
            record_views(records@) == spec_batch_records(
                chain@,
                venues@,
                blocks@.take(i as int),
                now,
            ),
            failures == spec_saturate(
                spec_batch_failures(chain@, venues@, blocks@.take(i as int), now),
            ),
        decreases blocks@.len() - i,
    {
        let block = &blocks[i];
        let outcome = decode_block(chain, venues, block, now);
        let ghost front = record_views(records@);
        let ghost events = event_views(outcome.events@);
        proof {
            let next = blocks@.take(i as int + 1);
            assert(next.drop_last() =~= blocks@.take(i as int));
            assert(next.last() == blocks@[i as int]);
            assert(spec_price_records(venues@, events.take(0), now) =~= Seq::<
                PriceRecordView,
            >::empty());
            assert(front + Seq::<PriceRecordView>::empty() =~= front);
        }
        let mut j: usize = 0;
        while j < outcome.events.len()
            invariant
                j <= outcome.events@.len(),
                events == event_views(outcome.events@),
                record_views(records@) == front + spec_price_records(
                    venues@,
                    events.take(j as int),
                    now,
                ),
            decreases outcome.events@.len() - j,
        {
            let record = price_event(venues, &outcome.events[j], now);
            let ghost before = record_views(records@);
            records.push(record);
            proof {
                assert(record_views(records@) =~= before.push(record@));
                assert(events.take(j as int + 1) =~= events.take(j as int).push(events[j as int]));
                assert(spec_price_records(venues@, events.take(j as int + 1), now)
                    =~= spec_price_records(venues@, events.take(j as int), now).push(record@));
                assert(before.push(record@) =~= front + spec_price_records(
                    venues@,
                    events.take(j as int + 1),
                    now,
                ));
            }
            j = j + 1;
        }
        assert(events.take(j as int) =~= events);
        failures = match failures.checked_add(outcome.failures) {
            Some(sum) => sum,
            None => u64::MAX,
        };
        i = i + 1;
    }
    assert(blocks@.take(i as int) =~= blocks@);
    Batch { records, failures }
}

/// The swap that a record decodes to does not depend on the time of
/// decoding, but for the time that it carries.
pub proof fn lemma_decode_record_timeless(
    chain: ChainView,
    venues: Seq<Venue>,
    height: u64,
    rec: RawRecord,
    t1: u64,
    t2: u64,
)
    ensures
        match spec_decode_record(chain, venues, height, rec@, t1) {
            Ok(Some(e)) => spec_decode_record(chain, venues, height, rec@, t2) == Ok::<
                Option<SwapEventView>,
                crate::decoder::DecodeError,
            >(Some(SwapEventView { observed_at: t2, ..e })),
            Ok(None) => spec_decode_record(chain, venues, height, rec@, t2) == Ok::<
                Option<SwapEventView>,
                crate::decoder::DecodeError,
            >(None),
            Err(x) => spec_decode_record(chain, venues, height, rec@, t2) == Err::<
                Option<SwapEventView>,
                crate::decoder::DecodeError,
            >(x),
        },
{
}

/// The records of a block describe the same swaps whenever the block is
/// processed.
pub proof fn lemma_block_records_timeless(
    chain: ChainView,
    venues: Seq<Venue>,
    height: u64,
    records: Seq<RawRecord>,
    t1: u64,
    t2: u64,
)
    ensures
        spec_same_keys(
            spec_price_records(venues, spec_decode_events(chain, venues, height, records, t1), t1),
            spec_price_records(venues, spec_decode_events(chain, venues, height, records, t2), t2),
        ),
    decreases records.len(),
{
    let e1 = spec_decode_events(chain, venues, height, records, t1);
    let e2 = spec_decode_events(chain, venues, height, records, t2);
    let r1 = spec_price_records(venues, e1, t1);
    let r2 = spec_price_records(venues, e2, t2);
    if records.len() > 0 {
        let f1 = spec_decode_events(chain, venues, height, records.drop_last(), t1);
        let f2 = spec_decode_events(chain, venues, height, records.drop_last(), t2);
        let q1 = spec_price_records(venues, f1, t1);
        let q2 = spec_price_records(venues, f2, t2);
        lemma_block_records_timeless(chain, venues, height, records.drop_last(), t1, t2);
        lemma_decode_record_timeless(chain, venues, height, records.last(), t1, t2);
        assert(q1.len() == f1.len() && q2.len() == f2.len());
        assert(r1.len() == e1.len() && r2.len() == e2.len());
        assert forall|i: int| 0 <= i < r1.len() implies r1[i].key() == r2[i].key() by {
            if i < f1.len() {
                assert(e1[i] == f1[i] && e2[i] == f2[i]);
                assert(q1[i].key() == q2[i].key());
                assert(r1[i] == q1[i] && r2[i] == q2[i]);
            }
        }
    } else {
        assert(r1.len() == 0 && r2.len() == 0);
    }
}

/// The batch of a run of blocks describes the same swaps whenever the run
/// is processed.
pub proof fn lemma_batch_timeless(
    chain: ChainView,
    venues: Seq<Venue>,
    blocks: Seq<RawBlock>,
    t1: u64,
    t2: u64,
)
    ensures
        spec_same_keys(
            spec_batch_records(chain, venues, blocks, t1),
            spec_batch_records(chain, venues, blocks, t2),
        ),
    decreases blocks.len(),
{
    if blocks.len() > 0 {
        lemma_batch_timeless(chain, venues, blocks.drop_last(), t1, t2);
        lemma_block_records_timeless(
            chain,
            venues,
            blocks.last().height,
            blocks.last().records@,
            t1,
            t2,
        );
    }
}

/// Every record of a block carries the height of the block.
pub proof fn lemma_block_records_height(
    chain: ChainView,
    venues: Seq<Venue>,
    height: u64,
    records: Seq<RawRecord>,
    now: u64,
)
    ensures
        forall|i: int|
            0 <= i < spec_decode_events(chain, venues, height, records, now).len()
                ==> (#[trigger] spec_decode_events(
                chain,
                venues,
                height,
                records,
                now,
            )[i]).block_height == height,
    decreases records.len(),
{
    let events = spec_decode_events(chain, venues, height, records, now);
    if records.len() > 0 {
        let front = spec_decode_events(chain, venues, height, records.drop_last(), now);
        lemma_block_records_height(chain, venues, height, records.drop_last(), now);
        assert forall|i: int| 0 <= i < events.len() implies (#[trigger] events[i]).block_height
            == height by {
            if i < front.len() {
                assert(events[i] == front[i]);
            }
        }
    }
}

/// Where the blocks of a run come in non-decreasing height, so do the
/// records of its batch, and none is higher than the last block.
pub proof fn lemma_batch_heights_sorted(
    chain: ChainView,
    venues: Seq<Venue>,
    blocks: Seq<RawBlock>,
    now: u64,
)
    requires
        forall|i: int, j: int| 0 <= i <= j < blocks.len() ==> blocks[i].height <= blocks[j].height,
    ensures
        forall|i: int, j: int|
            0 <= i <= j < spec_batch_records(chain, venues, blocks, now).len()
                ==> spec_batch_records(chain, venues, blocks, now)[i].block_height
                <= spec_batch_records(chain, venues, blocks, now)[j].block_height,
        forall|i: int|
            0 <= i < spec_batch_records(chain, venues, blocks, now).len() ==> spec_batch_records(
                chain,
                venues,
                blocks,
                now,
            )[i].block_height <= blocks.last().height,
    decreases blocks.len(),
{
    if blocks.len() > 0 {
        let front = blocks.drop_last();
        let last = blocks.last();
        assert forall|i: int, j: int| 0 <= i <= j < front.len() implies front[i].height
            <= front[j].height by {
            assert(front[i] == blocks[i] && front[j] == blocks[j]);
        }
        lemma_batch_heights_sorted(chain, venues, front, now);
        lemma_block_records_height(chain, venues, last.height, last.records@, now);
        if front.len() > 0 {
            assert(front.last() == blocks[blocks.len() - 2]);
            assert(front.last().height <= last.height);
        }
    }
}

/// Running a range of blocks through the pipeline twice leaves the table
/// as running it once does, whenever the second run happens.
pub proof fn lemma_pipeline_replay(
    table: Seq<PriceRecordView>,
    chain: ChainView,
    venues: Seq<Venue>,
    blocks: Seq<RawBlock>,
    t1: u64,
    t2: u64,
)
    ensures
        spec_upsert_batch(
            spec_upsert_batch(table, spec_batch_records(chain, venues, blocks, t1)),
            spec_batch_records(chain, venues, blocks, t2),
        ) == spec_upsert_batch(table, spec_batch_records(chain, venues, blocks, t1)),
{
    lemma_batch_timeless(chain, venues, blocks, t1, t2);
    lemma_replay_idempotent(
        table,
        spec_batch_records(chain, venues, blocks, t1),
        spec_batch_records(chain, venues, blocks, t2),
    );
}

} // verus!
