//! The event decoder: a pure mapping from the raw records of a block to
//! swap events.
//!
//! A record whose source is no configured venue, or which is not the venue's
//! swap, is passed over in silence. A record that is the venue's swap but
//! breaks the expected layout is a [`DecodeError`]; it is counted and the
//! rest of the block is decoded all the same.
//!
//! EVM layout: two topics, the selector and the sender as an address word;
//! 96 bytes of data, which are the amount paid in, the amount received and
//! the recipient as an address word, 32 bytes each, big-endian.
//!
//! Solana layout: at least two accounts; the data are the selector followed
//! by the amount paid in and the amount received, 8 bytes each, little-endian.

use crate::amount::{be_value, le_value, Amount};
use crate::bytes::{
    bytes_eq, copy_bytes, is_address_word, le_u64, spec_is_address_word, spec_starts_with,
    starts_with,
};
use crate::model::{
    event_views, Chain, ChainKind, ChainView, RawBlock, RawRecord, RawRecordView, SwapEvent,
    SwapEventView, Venue,
};
use vstd::prelude::*;
use vstd::slice::slice_subrange;

verus! {

/// How a record that is a venue's swap breaks the expected layout.
#[derive(Clone, Copy, Debug, PartialEq, Eq, Structural)]
pub enum DecodeError {
    /// An EVM swap log that does not have exactly two topics.
    TopicCount,
    /// The sender topic is not an address word.
    SenderWord,
    /// The data of an EVM swap log are not 96 bytes long.
    DataLength,
    /// The recipient is not an address word.
    RecipientWord,
    /// A Solana swap instruction with fewer than two accounts.
    AccountCount,
    /// The data of a Solana swap instruction do not have the length of the
    /// selector and two amounts.
    InstructionLength,
}

/// What decoding a block gave: the swaps in record order, and the number of
/// records that were skipped as malformed.
#[derive(Clone, Debug)]
pub struct DecodeOutcome {
    pub events: Vec<SwapEvent>,
    pub failures: u64,
}

/// The index of the first venue whose address is `source`.
pub open spec fn spec_find_venue(venues: Seq<Venue>, source: Seq<u8>) -> Option<int>
    decreases venues.len(),
{
    if venues.len() == 0 {
        None
    } else {
        match spec_find_venue(venues.drop_last(), source) {
            Some(i) => Some(i),
            None => if venues.last()@.address == source {
                Some(venues.len() - 1)
            } else {
                None
            },
        }
    }
}

/// `spec_find_venue` finds the first venue with the address, and finds none
/// only where there is none.
pub proof fn lemma_find_venue(venues: Seq<Venue>, source: Seq<u8>)
    ensures
        match spec_find_venue(venues, source) {
            Some(i) => 0 <= i < venues.len() && venues[i]@.address == source && forall|j: int|
                0 <= j < i ==> venues[j]@.address != source,
            None => forall|j: int| 0 <= j < venues.len() ==> venues[j]@.address != source,
        },
    decreases venues.len(),
{
    if venues.len() > 0 {
        let front = venues.drop_last();
        lemma_find_venue(front, source);
        assert(forall|j: int| 0 <= j < front.len() ==> front[j] == venues[j]);
        match spec_find_venue(front, source) {
            Some(i) => {
                assert(venues[i] == front[i]);
                assert forall|j: int| 0 <= j < i implies venues[j]@.address != source by {
                    assert(front[j]@.address != source);
                }
            },
            None => {
                assert forall|j: int| 0 <= j < venues.len() - 1 implies venues[j]@.address
                    != source by {
                    assert(front[j]@.address != source);
                }
            },
        }
    }
}

/// Whether an EVM log is the swap that `selector` names.
pub open spec fn spec_is_evm_swap(selector: Seq<u8>, rec: RawRecordView) -> bool {
    rec.topics.len() >= 1 && rec.topics[0] == selector
}

/// How an EVM swap log breaks the layout, if it does.
pub open spec fn spec_evm_layout_error(rec: RawRecordView) -> Option<DecodeError> {
    if rec.topics.len() != 2 {
        Some(DecodeError::TopicCount)
    } else if !spec_is_address_word(rec.topics[1]) {
        Some(DecodeError::SenderWord)
    } else if rec.data.len() != 96 {
        Some(DecodeError::DataLength)
    } else if !spec_is_address_word(rec.data.subrange(64, 96)) {
        Some(DecodeError::RecipientWord)
    } else {
        None
    }
}

/// Whether a Solana instruction is the swap that `selector` names.
pub open spec fn spec_is_solana_swap(selector: Seq<u8>, rec: RawRecordView) -> bool {
    spec_starts_with(rec.data, selector)
}

/// How a Solana swap instruction breaks the layout, if it does.
pub open spec fn spec_solana_layout_error(selector: Seq<u8>, rec: RawRecordView) -> Option<
    DecodeError,
> {
    if rec.topics.len() < 2 {
        Some(DecodeError::AccountCount)
    } else if rec.data.len() != selector.len() + 16 {
        Some(DecodeError::InstructionLength)
    } else {
        None
    }
}

/// The two amounts of a record of the given kind: nothing where the record
/// is not the swap that `selector` names, an error where it is and breaks
/// the layout.
pub open spec fn spec_decode_amounts(kind: ChainKind, selector: Seq<u8>, rec: RawRecordView)
    -> Result<Option<(nat, nat)>, DecodeError> {
    match kind {
        ChainKind::Evm => {
            if !spec_is_evm_swap(selector, rec) {
                Ok(None)
            } else {
                match spec_evm_layout_error(rec) {
                    Some(e) => Err(e),
                    None => Ok(
                        Some(
                            (
                                be_value(rec.data.subrange(0, 32)),
                                be_value(rec.data.subrange(32, 64)),
                            ),
                        ),
                    ),
                }
            }
        },
        ChainKind::Solana => {
            if !spec_is_solana_swap(selector, rec) {
                Ok(None)
            } else {
                match spec_solana_layout_error(selector, rec) {
                    Some(e) => Err(e),
                    None => {
                        let n = selector.len() as int;
                        Ok(
                            Some(
                                (
                                    le_value(rec.data.subrange(n, n + 8)),
                                    le_value(rec.data.subrange(n + 8, n + 16)),
                                ),
                            ),
                        )
                    },
                }
            }
        },
    }
}

/// The swap that one record of a block at `height` holds.
pub open spec fn spec_decode_record(
    chain: ChainView,
    venues: Seq<Venue>,
    height: u64,
    rec: RawRecordView,
    observed_at: u64,
) -> Result<Option<SwapEventView>, DecodeError> {
    match spec_find_venue(venues, rec.source) {
        None => Ok(None),
        Some(i) => match spec_decode_amounts(chain.kind, venues[i]@.selector, rec) {
            Err(e) => Err(e),
            Ok(None) => Ok(None),
            Ok(Some(amounts)) => Ok(
                Some(
                    SwapEventView {
                        chain_id: chain.chain_id,
                        dex_address: rec.source,
                        pair_key: venues[i]@.pair_key,
                        amount_in: amounts.0,
                        amount_out: amounts.1,
                        block_height: height,
                        tx_index: rec.tx_index,
                        log_index: rec.index,
                        observed_at: observed_at,
                    },
                ),
            ),
        },
    }
}

/// The swaps of a sequence of records, in record order.
pub open spec fn spec_decode_events(
    chain: ChainView,
    venues: Seq<Venue>,
    height: u64,
    records: Seq<RawRecord>,
    observed_at: u64,
) -> Seq<SwapEventView>
    decreases records.len(),
{
    if records.len() == 0 {
        Seq::empty()
    } else {
        let rest = spec_decode_events(chain, venues, height, records.drop_last(), observed_at);
        match spec_decode_record(chain, venues, height, records.last()@, observed_at) {
            Ok(Some(e)) => rest.push(e),
            _ => rest,
        }
    }
}

/// The number of malformed records in a sequence of records.
pub open spec fn spec_decode_failures(
    chain: ChainView,
    venues: Seq<Venue>,
    height: u64,
    records: Seq<RawRecord>,
    observed_at: u64,
) -> nat
    decreases records.len(),
{
    if records.len() == 0 {
        0
    } else {
        let rest = spec_decode_failures(chain, venues, height, records.drop_last(), observed_at);
        match spec_decode_record(chain, venues, height, records.last()@, observed_at) {
            Err(_) => rest + 1,
            _ => rest,
        }
    }
}

/// The value of what `decode_record` returns.
pub open spec fn decoded_view(r: Result<Option<SwapEvent>, DecodeError>) -> Result<
    Option<SwapEventView>,
    DecodeError,
> {
    match r {
        Ok(Some(e)) => Ok(Some(e@)),
        Ok(None) => Ok(None),
        Err(e) => Err(e),
    }
}

/// The value of what the decoders of amounts return.
pub open spec fn amounts_view(r: Result<Option<(Amount, Amount)>, DecodeError>) -> Result<
    Option<(nat, nat)>,
    DecodeError,
> {
    match r {
        Ok(Some(p)) => Ok(Some((p.0@, p.1@))),
        Ok(None) => Ok(None),
        Err(e) => Err(e),
    }
}

/// Finds the first venue whose address is `source`.
pub fn find_venue(venues: &Vec<Venue>, source: &[u8]) -> (r: Option<usize>)
    ensures
        match r {
            Some(i) => i < venues@.len() && spec_find_venue(venues@, source@) == Some(i as int),
            None => spec_find_venue(venues@, source@) is None,
        },
{
    let mut i: usize = 0;
    while i < venues.len()
        invariant
            i <= venues@.len(),
            forall|j: int| 0 <= j < i ==> venues@[j]@.address != source@,
        decreases venues@.len() - i,
    {
        if bytes_eq(venues[i].address.as_slice(), source) {
            proof {
                lemma_find_venue(venues@, source@);
            }
            return Some(i);
        }
        i = i + 1;
    }
    proof {
        lemma_find_venue(venues@, source@);
    }
    None
}

/// Decodes the amounts of an EVM log emitted by a venue with the given
/// selector.
pub fn decode_evm_log(selector: &[u8], rec: &RawRecord) -> (r: Result<
    Option<(Amount, Amount)>,
    DecodeError,
>)
    ensures
        amounts_view(r) == spec_decode_amounts(ChainKind::Evm, selector@, rec@),
{
    if rec.topics.len() < 1 || !bytes_eq(rec.topics[0].as_slice(), selector) {
        return Ok(None);
    }
    if rec.topics.len() != 2 {
        return Err(DecodeError::TopicCount);
    }
    if !is_address_word(rec.topics[1].as_slice()) {
        return Err(DecodeError::SenderWord);
    }
    if rec.data.len() != 96 {
        return Err(DecodeError::DataLength);
    }
    let data = rec.data.as_slice();
    if !is_address_word(slice_subrange(data, 64, 96)) {
        return Err(DecodeError::RecipientWord);
    }
    let amount_in = Amount::from_be_bytes(slice_subrange(data, 0, 32));
    let amount_out = Amount::from_be_bytes(slice_subrange(data, 32, 64));
    match (amount_in, amount_out) {
        (Some(a), Some(b)) => Ok(Some((a, b))),
        _ => Err(DecodeError::DataLength),
    }
}

/// Decodes the amounts of a Solana instruction of a venue with the given
/// selector.
pub fn decode_solana_instruction(selector: &[u8], rec: &RawRecord) -> (r: Result<
    Option<(Amount, Amount)>,
    DecodeError,
>)
    ensures
        amounts_view(r) == spec_decode_amounts(ChainKind::Solana, selector@, rec@),
{
    let data = rec.data.as_slice();
    if !starts_with(data, selector) {
        return Ok(None);
    }
    if rec.topics.len() < 2 {
        return Err(DecodeError::AccountCount);
    }
    let n: usize = selector.len();
    if data.len() - n != 16 {
        return Err(DecodeError::InstructionLength);
    }
    let amount_in = le_u64(slice_subrange(data, n, n + 8));
    let amount_out = le_u64(slice_subrange(data, n + 8, n + 16));
    Ok(Some((Amount::from_u64(amount_in), Amount::from_u64(amount_out))))
}

/// Decodes one record of a block at `height`.
pub fn decode_record(
    chain: &Chain,
    venues: &Vec<Venue>,
    height: u64,
    rec: &RawRecord,
    observed_at: u64,
) -> (r: Result<Option<SwapEvent>, DecodeError>)
    ensures
        decoded_view(r) == spec_decode_record(chain@, venues@, height, rec@, observed_at),
{
    let found = find_venue(venues, rec.source.as_slice());
    match found {
        None => Ok(None),
        Some(i) => {
            let venue = &venues[i];
            let amounts = match chain.kind {
                ChainKind::Evm => decode_evm_log(venue.selector.as_slice(), rec),
                ChainKind::Solana => decode_solana_instruction(venue.selector.as_slice(), rec),
            };
            match amounts {
                Err(e) => Err(e),
                Ok(None) => Ok(None),
                Ok(Some(pair)) => Ok(
                    Some(
                        SwapEvent {
                            chain_id: chain.chain_id.clone(),
                            dex_address: copy_bytes(rec.source.as_slice()),
                            pair_key: venue.pair_key.clone(),
                            amount_in: pair.0,
                            amount_out: pair.1,
                            block_height: height,
                            tx_index: rec.tx_index,
                            log_index: rec.index,
                            observed_at: observed_at,
                        },
                    ),
                ),
            }
        },
    }
}

/// Decodes every record of a block. A malformed record is counted and does
/// not keep the others from being decoded.
pub fn decode_block(chain: &Chain, venues: &Vec<Venue>, block: &RawBlock, observed_at: u64) -> (r:
    DecodeOutcome)
    ensures
        event_views(r.events@) == spec_decode_events(
            chain@,
            venues@,
            block.height,
            block.records@,
            observed_at,
        ),
        r.failures == spec_decode_failures(
            chain@,
            venues@,
            block.height,
            block.records@,
            observed_at,
        ),
{
    let mut events: Vec<SwapEvent> = Vec::new();
    let mut failures: u64 = 0;
    let mut i: usize = 0;
    assert(block.records@.take(0) =~= Seq::<RawRecord>::empty());
    assert(event_views(events@) =~= Seq::<SwapEventView>::empty());
    while i < block.records.len()
        invariant
            i <= block.records@.len(),
            failures <= i,
            event_views(events@) == spec_decode_events(
                chain@,
                venues@,
                block.height,
                block.records@.take(i as int),
                observed_at,
            ),
            failures == spec_decode_failures(
                chain@,
                venues@,
                block.height,
                block.records@.take(i as int),
                observed_at,
            ),
        decreases block.records@.len() - i,
    {
        let decoded = decode_record(chain, venues, block.height, &block.records[i], observed_at);
        proof {
            let next = block.records@.take(i as int + 1);
            assert(next.drop_last() =~= block.records@.take(i as int));
            assert(next.last() == block.records@[i as int]);
        }
        match decoded {
            Ok(Some(event)) => {
                let ghost before = events@;
                events.push(event);
                assert(event_views(events@) =~= event_views(before).push(event@));
            },
            Ok(None) => {},
            Err(_) => {
                failures = failures + 1;
            },
        }
        i = i + 1;
    }
    assert(block.records@.take(i as int) =~= block.records@);
    DecodeOutcome { events, failures }
}

/// A malformed record does not change what the other records of its block
/// decode to: the block gives the same events as it would without that
/// record, and one failure more.
pub proof fn lemma_decode_isolation(
    chain: ChainView,
    venues: Seq<Venue>,
    height: u64,
    records: Seq<RawRecord>,
    k: int,
    observed_at: u64,
)
    requires
        0 <= k < records.len(),
        spec_decode_record(chain, venues, height, records[k]@, observed_at) is Err,
    ensures
        spec_decode_events(chain, venues, height, records, observed_at) == spec_decode_events(
            chain,
            venues,
            height,
            records.remove(k),
            observed_at,
        ),
        spec_decode_failures(chain, venues, height, records, observed_at) == spec_decode_failures(
            chain,
            venues,
            height,
            records.remove(k),
            observed_at,
        ) + 1,
    decreases records.len(),
{
    if k == records.len() - 1 {
        assert(records.remove(k) =~= records.drop_last());
    } else {
        lemma_decode_isolation(chain, venues, height, records.drop_last(), k, observed_at);
        assert(records.remove(k).drop_last() =~= records.drop_last().remove(k));
        assert(records.remove(k).last() == records.last());
    }
}

/// No two records have the same place in their block: the same transaction
/// index and the same index within it.
pub open spec fn spec_places_distinct(records: Seq<RawRecord>) -> bool {
    forall|i: int, j: int|
        0 <= i < j < records.len() ==> !((#[trigger] records[i]).tx_index == (
        #[trigger] records[j]).tx_index && records[i].index == records[j].index)
}

/// Whether the event has the place of one of the records.
pub open spec fn spec_event_from(e: SwapEventView, records: Seq<RawRecord>) -> bool {
    exists|i: int|
        0 <= i < records.len() && (#[trigger] records[i]).tx_index == e.tx_index
            && records[i].index == e.log_index
}

/// Every event of a block carries the chain and the height of the block and
/// the place of one of its records.
pub proof fn lemma_events_from_records(
    chain: ChainView,
    venues: Seq<Venue>,
    height: u64,
    records: Seq<RawRecord>,
    observed_at: u64,
)
    ensures
        forall|k: int|
            0 <= k < spec_decode_events(chain, venues, height, records, observed_at).len() ==> {
                let e = #[trigger] spec_decode_events(chain, venues, height, records, observed_at)[k];
                e.chain_id == chain.chain_id && e.block_height == height && spec_event_from(
                    e,
                    records,
                )
            },
    decreases records.len(),
{
    let events = spec_decode_events(chain, venues, height, records, observed_at);
    if records.len() > 0 {
        let front = records.drop_last();
        let rest = spec_decode_events(chain, venues, height, front, observed_at);
        lemma_events_from_records(chain, venues, height, front, observed_at);
        assert forall|k: int| 0 <= k < events.len() implies {
            let e = #[trigger] events[k];
            e.chain_id == chain.chain_id && e.block_height == height && spec_event_from(e, records)
        } by {
            let e = events[k];
            if k < rest.len() {
                assert(e == rest[k]);
                let i = choose|i: int|
                    0 <= i < front.len() && (#[trigger] front[i]).tx_index == e.tx_index
                        && front[i].index == e.log_index;
                assert(records[i] == front[i]);
            } else {
                assert(records[records.len() - 1].tx_index == e.tx_index);
            }
        }
    }
}

/// Where no two records of a block have the same place, no two of its
/// events have the same natural key.
pub proof fn lemma_event_keys_distinct(
    chain: ChainView,
    venues: Seq<Venue>,
    height: u64,
    records: Seq<RawRecord>,
    observed_at: u64,
)
    requires
        spec_places_distinct(records),
    ensures
        forall|k: int, l: int|
            0 <= k < l < spec_decode_events(chain, venues, height, records, observed_at).len()
                ==> spec_decode_events(chain, venues, height, records, observed_at)[k].key()
                != spec_decode_events(chain, venues, height, records, observed_at)[l].key(),
    decreases records.len(),
{
    let events = spec_decode_events(chain, venues, height, records, observed_at);
    if records.len() > 0 {
        let front = records.drop_last();
        let rest = spec_decode_events(chain, venues, height, front, observed_at);
        assert forall|i: int, j: int| 0 <= i < j < front.len() implies !((#[trigger] front[i]).tx_index
            == (#[trigger] front[j]).tx_index && front[i].index == front[j].index) by {
            assert(front[i] == records[i] && front[j] == records[j]);
        }
        lemma_event_keys_distinct(chain, venues, height, front, observed_at);
        lemma_events_from_records(chain, venues, height, front, observed_at);
        assert forall|k: int, l: int| 0 <= k < l < events.len() implies events[k].key()
            != events[l].key() by {
            if l < rest.len() {
                assert(events[k] == rest[k] && events[l] == rest[l]);
            } else {
                let e = rest[k];
                assert(events[k] == e);
                let i = choose|i: int|
                    0 <= i < front.len() && (#[trigger] front[i]).tx_index == e.tx_index
                        && front[i].index == e.log_index;
                assert(records[i] == front[i]);
                let last = records[records.len() - 1];
                assert(!(records[i].tx_index == last.tx_index && records[i].index == last.index));
                assert(events[l].tx_index == last.tx_index && events[l].log_index == last.index);
            }
        }
    }
}

} // verus!
