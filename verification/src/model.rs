//! The data model: chains, checkpoints, raw blocks, swap events and price
//! records, each with the mathematical value that contracts speak of.

use crate::amount::Amount;
use crate::price::Price;
use vstd::prelude::*;

verus! {

/// The family a chain belongs to, which decides how its records are laid out.
#[derive(Clone, Copy, Debug, PartialEq, Eq, Structural)]
pub enum ChainKind {
    Evm,
    Solana,
}

/// One configured chain. `confirmation_depth` is the number of blocks behind
/// the head that are treated as final.
#[derive(Clone, Debug, PartialEq, Eq)]
pub struct Chain {
    pub chain_id: String,
    pub kind: ChainKind,
    pub confirmation_depth: u64,
}

pub struct ChainView {
    pub chain_id: Seq<char>,
    pub kind: ChainKind,
    pub confirmation_depth: u64,
}

impl View for Chain {
    type V = ChainView;

    open spec fn view(&self) -> ChainView {
        ChainView {
            chain_id: self.chain_id@,
            kind: self.kind,
            confirmation_depth: self.confirmation_depth,
        }
    }
}

/// A position on a chain: a height and the identifier of the block there.
#[derive(Clone, Copy, Debug, PartialEq, Eq)]
pub struct BlockRef {
    pub height: u64,
    pub hash: [u8; 32],
}

/// The last position of a chain that was fully processed.
#[derive(Clone, Debug, PartialEq, Eq)]
pub struct Checkpoint {
    pub chain_id: String,
    pub last_processed_height: u64,
    pub last_processed_hash: [u8; 32],
}

pub struct CheckpointView {
    pub chain_id: Seq<char>,
    pub last_processed_height: u64,
    pub last_processed_hash: [u8; 32],
}

impl View for Checkpoint {
    type V = CheckpointView;

    open spec fn view(&self) -> CheckpointView {
        CheckpointView {
            chain_id: self.chain_id@,
            last_processed_height: self.last_processed_height,
            last_processed_hash: self.last_processed_hash,
        }
    }
}

impl Checkpoint {
    /// A copy of the checkpoint.
    pub fn duplicate(&self) -> (r: Checkpoint)
        ensures
            r@ == self@,
    {
        Checkpoint {
            chain_id: self.chain_id.clone(),
            last_processed_height: self.last_processed_height,
            last_processed_hash: self.last_processed_hash,
        }
    }

    /// The position that the checkpoint records.
    pub fn position(&self) -> (r: BlockRef)
        ensures
            r.height == self.last_processed_height,
            r.hash == self.last_processed_hash,
    {
        BlockRef { height: self.last_processed_height, hash: self.last_processed_hash }
    }
}

/// A venue whose swaps are indexed. `address` is the emitting contract or
/// program; `selector` identifies the swap among what the venue emits: the
/// first topic of an EVM log, the leading bytes of a Solana instruction.
#[derive(Clone, Debug, PartialEq, Eq)]
pub struct Venue {
    pub address: Vec<u8>,
    pub selector: Vec<u8>,
    pub pair_key: String,
    pub decimals_in: u8,
    pub decimals_out: u8,
}

pub struct VenueView {
    pub address: Seq<u8>,
    pub selector: Seq<u8>,
    pub pair_key: Seq<char>,
    pub decimals_in: u8,
    pub decimals_out: u8,
}

impl View for Venue {
    type V = VenueView;

    open spec fn view(&self) -> VenueView {
        VenueView {
            address: self.address@,
            selector: self.selector@,
            pair_key: self.pair_key@,
            decimals_in: self.decimals_in,
            decimals_out: self.decimals_out,
        }
    }
}

/// One raw record of a block: an EVM receipt log or a Solana instruction.
/// `source` is the emitting address or the invoked program, `topics` the
/// indexed topics of a log or the accounts of an instruction.
#[derive(Clone, Debug, PartialEq, Eq)]
pub struct RawRecord {
    pub tx_index: u64,
    pub index: u64,
    pub source: Vec<u8>,
    pub topics: Vec<Vec<u8>>,
    pub data: Vec<u8>,
}

pub struct RawRecordView {
    pub tx_index: u64,
    pub index: u64,
    pub source: Seq<u8>,
    pub topics: Seq<Seq<u8>>,
    pub data: Seq<u8>,
}

impl View for RawRecord {
    type V = RawRecordView;

    open spec fn view(&self) -> RawRecordView {
        RawRecordView {
            tx_index: self.tx_index,
            index: self.index,
            source: self.source@,
            topics: self.topics@.map_values(|t: Vec<u8>| t@),
            data: self.data@,
        }
    }
}

/// A block as the chain reported it, with its records in chain order.
#[derive(Clone, Debug, PartialEq, Eq)]
pub struct RawBlock {
    pub height: u64,
    pub hash: [u8; 32],
    pub parent_hash: [u8; 32],
    pub records: Vec<RawRecord>,
}

impl RawBlock {
    /// The position of the block.
    pub fn position(&self) -> (r: BlockRef)
        ensures
            r.height == self.height,
            r.hash == self.hash,
    {
        BlockRef { height: self.height, hash: self.hash }
    }
}

/// The identity of a swap: chain, block height, transaction index and the
/// index of the log or instruction.
pub struct NaturalKey {
    pub chain_id: Seq<char>,
    pub block_height: u64,
    pub tx_index: u64,
    pub log_index: u64,
}

/// A decoded swap, in raw integer amounts.
#[derive(Clone, Debug, PartialEq, Eq)]
pub struct SwapEvent {
    pub chain_id: String,
    pub dex_address: Vec<u8>,
    pub pair_key: String,
    pub amount_in: Amount,
    pub amount_out: Amount,
    pub block_height: u64,
    pub tx_index: u64,
    pub log_index: u64,
    pub observed_at: u64,
}

pub struct SwapEventView {
    pub chain_id: Seq<char>,
    pub dex_address: Seq<u8>,
    pub pair_key: Seq<char>,
    pub amount_in: nat,
    pub amount_out: nat,
    pub block_height: u64,
    pub tx_index: u64,
    pub log_index: u64,
    pub observed_at: u64,
}

impl SwapEventView {
    pub open spec fn key(self) -> NaturalKey {
        NaturalKey {
            chain_id: self.chain_id,
            block_height: self.block_height,
            tx_index: self.tx_index,
            log_index: self.log_index,
        }
    }
}

impl View for SwapEvent {
    type V = SwapEventView;

    open spec fn view(&self) -> SwapEventView {
        SwapEventView {
            chain_id: self.chain_id@,
            dex_address: self.dex_address@,
            pair_key: self.pair_key@,
            amount_in: self.amount_in@,
            amount_out: self.amount_out@,
            block_height: self.block_height,
            tx_index: self.tx_index,
            log_index: self.log_index,
            observed_at: self.observed_at,
        }
    }
}

/// A stored price. `price` is `None` where none could be derived from the
/// swap: the swap is recorded all the same.
#[derive(Clone, Debug, PartialEq, Eq)]
pub struct PriceRecord {
    pub pair_key: String,
    pub price: Option<Price>,
    pub chain_id: String,
    pub block_height: u64,
    pub tx_index: u64,
    pub log_index: u64,
    pub inserted_at: u64,
}

pub struct PriceRecordView {
    pub pair_key: Seq<char>,
    pub price: Option<nat>,
    pub chain_id: Seq<char>,
    pub block_height: u64,
    pub tx_index: u64,
    pub log_index: u64,
    pub inserted_at: u64,
}

impl PriceRecordView {
    pub open spec fn key(self) -> NaturalKey {
        NaturalKey {
            chain_id: self.chain_id,
            block_height: self.block_height,
            tx_index: self.tx_index,
            log_index: self.log_index,
        }
    }
}

impl View for PriceRecord {
    type V = PriceRecordView;

    open spec fn view(&self) -> PriceRecordView {
        PriceRecordView {
            pair_key: self.pair_key@,
            price: match self.price {
                Some(p) => Some(p@),
                None => None,
            },
            chain_id: self.chain_id@,
            block_height: self.block_height,
            tx_index: self.tx_index,
            log_index: self.log_index,
            inserted_at: self.inserted_at,
        }
    }
}

impl PriceRecord {
    /// A copy of the record.
    pub fn duplicate(&self) -> (r: PriceRecord)
        ensures
            r@ == self@,
    {
        PriceRecord {
            pair_key: self.pair_key.clone(),
            price: self.price,
            chain_id: self.chain_id.clone(),
            block_height: self.block_height,
            tx_index: self.tx_index,
            log_index: self.log_index,
            inserted_at: self.inserted_at,
        }
    }

    /// Whether two records describe the same swap.
    pub fn same_key(&self, other: &PriceRecord) -> (r: bool)
        ensures
            r == (self@.key() == other@.key()),
    {
        self.block_height == other.block_height && self.tx_index == other.tx_index
            && self.log_index == other.log_index && self.chain_id == other.chain_id
    }
}

/// The values of a sequence of price records.
pub open spec fn record_views(records: Seq<PriceRecord>) -> Seq<PriceRecordView> {
    records.map_values(|r: PriceRecord| r@)
}

/// The values of a sequence of swap events.
pub open spec fn event_views(events: Seq<SwapEvent>) -> Seq<SwapEventView> {
    events.map_values(|e: SwapEvent| e@)
}

} // verus!
