//! The chain watcher: the decisions that drive one chain from its last
//! checkpoint to the chain's head.
//!
//! The watcher neither waits nor talks to a chain or a database. It is a
//! state machine: [`Watcher::step`] takes what happened (an [`Event`]) and
//! answers with what to do next (an [`Action`]); whoever runs the watcher
//! performs the action and reports its outcome as the next event. One cycle
//! is: poll the head, fetch the confirmed range, decode and price it, have
//! the batch persisted as a whole, and only then have the checkpoint
//! advanced. Decoding happens inside the step that receives the blocks.

use crate::bytes::hash_eq;
use crate::error::IndexerError;
use crate::model::{BlockRef, Chain, PriceRecord, PriceRecordView, RawBlock, Venue, record_views};
use crate::pipeline::{build_batch, spec_batch_failures, spec_batch_records, spec_saturate};
use crate::schedule::{
    backoff_delay, blocks_linked, fetch_range, next_history, positions, reorg_bound,
    spec_backoff, spec_blocks_linked, spec_fetch_range, spec_next_history, spec_positions,
    lemma_history_after_rollback, spec_reorg_bound, spec_stored_hash, stored_hash,
};
use vstd::prelude::*;
use vstd::string::StringExecFns;

verus! {

/// What a watcher is configured with. Times are in milliseconds.
#[derive(Clone, Debug)]
pub struct WatcherConfig {
    pub chain: Chain,
    pub venues: Vec<Venue>,
    /// Most heights fetched in one cycle.
    pub max_batch_size: u64,
    /// Where to start when the chain has no checkpoint yet; the head if absent.
    pub start_height: Option<u64>,
    /// The idle sleep while no new height is confirmed.
    pub poll_interval_ms: u64,
    /// The first delay after a failed chain request; it doubles up to the cap.
    pub retry_base_ms: u64,
    pub retry_cap_ms: u64,
    /// Retries of a chain request before the cycle is given up.
    pub max_attempts: u32,
    /// The delay before a cycle that was given up is tried again.
    pub cycle_retry_ms: u64,
}

/// Where a watcher stands in its cycle.
#[derive(Clone, Copy, Debug, PartialEq, Eq, Structural)]
pub enum Phase {
    /// Waiting for the stored checkpoint.
    Initializing,
    /// No checkpoint is stored: waiting for the position to start from.
    Seeding,
    /// Waiting for the head of the chain, or asleep between polls.
    Polling,
    /// Waiting for the blocks of the range.
    Fetching { first: u64, last: u64 },
    /// Waiting for the batch to be written.
    Persisting,
    /// Waiting for the advanced checkpoint to be written.
    Checkpointing,
    /// The chain no longer builds on the checkpoint: walking back, waiting
    /// for the chain's block at `probe`; `remaining` more may be asked for.
    ReorgRecovery { probe: u64, remaining: u64 },
    /// Waiting for the checkpoint to be written back to the common ancestor.
    RollingBack,
    /// Halted for good.
    Failed,
}

/// What happened since the last action.
#[derive(Clone, Debug)]
pub enum Event {
    /// The watcher is started, or a sleep is over.
    Wake,
    /// The stored checkpoint of the chain was read.
    CheckpointLoaded(Option<BlockRef>),
    /// The chain reported its head.
    Head(BlockRef),
    /// The chain returned the blocks of the range asked for.
    Blocks(Vec<RawBlock>),
    /// The chain reported its block at the height asked for.
    Ancestor(BlockRef),
    /// The batch is durably written.
    Persisted,
    /// A write to the database failed.
    PersistFailed,
    /// The checkpoint is durably written.
    CheckpointSaved,
    /// A request to the chain failed.
    ChainAccessFailed,
}

/// What to do next.
#[derive(Clone, Debug)]
pub enum Action {
    LoadCheckpoint,
    QueryHead,
    FetchBlocks { first: u64, last: u64 },
    FetchAncestor { height: u64 },
    /// Write the batch in one transaction.
    Persist(Vec<PriceRecord>),
    SaveCheckpoint(BlockRef),
    Sleep { millis: u64 },
    /// The watcher has failed: report it and stop.
    Halt,
    /// Nothing: the event was not one the watcher was waiting for.
    Idle,
}

pub enum ActionView {
    LoadCheckpoint,
    QueryHead,
    FetchBlocks { first: u64, last: u64 },
    FetchAncestor { height: u64 },
    Persist(Seq<PriceRecordView>),
    SaveCheckpoint(BlockRef),
    Sleep { millis: u64 },
    Halt,
    Idle,
}

impl View for Action {
    type V = ActionView;

    open spec fn view(&self) -> ActionView {
        match self {
            Action::LoadCheckpoint => ActionView::LoadCheckpoint,
            Action::QueryHead => ActionView::QueryHead,
            Action::FetchBlocks { first, last } => ActionView::FetchBlocks {
                first: *first,
                last: *last,
            },
            Action::FetchAncestor { height } => ActionView::FetchAncestor { height: *height },
            Action::Persist(records) => ActionView::Persist(record_views(records@)),
            Action::SaveCheckpoint(p) => ActionView::SaveCheckpoint(*p),
            Action::Sleep { millis } => ActionView::Sleep { millis: *millis },
            Action::Halt => ActionView::Halt,
            Action::Idle => ActionView::Idle,
        }
    }
}

/// The watcher of one chain.
#[derive(Clone, Debug)]
pub struct Watcher {
    pub config: WatcherConfig,
    pub phase: Phase,
    /// The last position that is durably processed.
    pub checkpoint: Option<BlockRef>,
    /// The positions that become final with the checkpoint write under way;
    /// the last of them is the checkpoint being written.
    pub pending: Vec<BlockRef>,
    /// Recently accepted positions, which reorg recovery compares the chain
    /// against.
    pub history: Vec<BlockRef>,
    /// Failed chain requests in a row.
    pub attempts: u32,
    /// Malformed records skipped so far; the count saturates.
    pub failures: u64,
}

pub struct WatcherView {
    pub phase: Phase,
    pub checkpoint: Option<BlockRef>,
    pub pending: Seq<BlockRef>,
    pub history: Seq<BlockRef>,
    pub attempts: u32,
    pub failures: u64,
}

impl View for Watcher {
    type V = WatcherView;

    open spec fn view(&self) -> WatcherView {
        WatcherView {
            phase: self.phase,
            checkpoint: self.checkpoint,
            pending: self.pending@,
            history: self.history@,
            attempts: self.attempts,
            failures: self.failures,
        }
    }
}

/// The request that a watcher in this state is waiting on, to be made
/// again after a sleep.
pub open spec fn spec_request(config: WatcherConfig, s: WatcherView) -> ActionView {
    match s.phase {
        Phase::Initializing => ActionView::LoadCheckpoint,
        Phase::Seeding => match config.start_height {
            Some(h) => ActionView::FetchAncestor { height: h },
            None => ActionView::QueryHead,
        },
        Phase::Polling => ActionView::QueryHead,
        Phase::Fetching { first, last } => ActionView::FetchBlocks { first, last },
        Phase::Persisting => ActionView::Idle,
        Phase::Checkpointing | Phase::RollingBack => if s.pending.len() > 0 {
            ActionView::SaveCheckpoint(s.pending.last())
        } else {
            ActionView::Idle
        },
        Phase::ReorgRecovery { probe, remaining } => ActionView::FetchAncestor { height: probe },
        Phase::Failed => ActionView::Halt,
    }
}

/// The stored checkpoint was read: go on from it, or seed one.
pub open spec fn spec_on_checkpoint_loaded(
    config: WatcherConfig,
    s: WatcherView,
    stored: Option<BlockRef>,
) -> (WatcherView, ActionView) {
    if s.phase != Phase::Initializing {
        (s, ActionView::Idle)
    } else {
        match stored {
            Some(p) => (
                WatcherView { phase: Phase::Polling, checkpoint: Some(p), attempts: 0, ..s },
                ActionView::QueryHead,
            ),
            None => {
                let next = WatcherView { phase: Phase::Seeding, attempts: 0, ..s };
                (next, spec_request(config, next))
            },
        }
    }
}

/// The chain reported its head: seed the checkpoint with it, or fetch the
/// next confirmed range, or sleep while there is none.
pub open spec fn spec_on_head(config: WatcherConfig, s: WatcherView, head: BlockRef) -> (
    WatcherView,
    ActionView,
) {
    match s.phase {
        Phase::Seeding => if config.start_height is None {
            (
                WatcherView {
                    phase: Phase::Checkpointing,
                    pending: seq![head],
                    attempts: 0,
                    ..s
                },
                ActionView::SaveCheckpoint(head),
            )
        } else {
            (s, ActionView::Idle)
        },
        Phase::Polling => match s.checkpoint {
            None => (s, ActionView::Idle),
            Some(cp) => match spec_fetch_range(
                cp.height,
                head.height,
                config.chain.confirmation_depth,
                config.max_batch_size,
            ) {
                None => (
                    WatcherView { attempts: 0, ..s },
                    ActionView::Sleep { millis: config.poll_interval_ms },
                ),
                Some((first, last)) => (
                    WatcherView { phase: Phase::Fetching { first, last }, attempts: 0, ..s },
                    ActionView::FetchBlocks { first, last },
                ),
            },
        },
        _ => (s, ActionView::Idle),
    }
}

/// A request to the chain failed: sleep and retry, each time twice as
/// long; after the last retry give the cycle up and start it anew after
/// the longer delay. The watcher does not fail over this.
pub open spec fn spec_on_chain_failure(config: WatcherConfig, s: WatcherView) -> (
    WatcherView,
    ActionView,
) {
    match s.phase {
        Phase::Seeding | Phase::Polling | Phase::Fetching { .. } | Phase::ReorgRecovery { .. } => {
            if s.attempts < config.max_attempts {
                (
                    WatcherView { attempts: (s.attempts + 1) as u32, ..s },
                    ActionView::Sleep {
                        millis: spec_backoff(config.retry_base_ms, s.attempts, config.retry_cap_ms),
                    },
                )
            } else {
                (
                    WatcherView {
                        phase: if s.phase == Phase::Seeding {
                            Phase::Seeding
                        } else {
                            Phase::Polling
                        },
                        attempts: 0,
                        ..s
                    },
                    ActionView::Sleep { millis: config.cycle_retry_ms },
                )
            }
        },
        _ => (s, ActionView::Idle),
    }
}

/// The chain does not build on the checkpoint: start walking back from the
/// height below it, or fail where no step back is allowed.
pub open spec fn spec_begin_recovery(config: WatcherConfig, s: WatcherView, cp: BlockRef) -> (
    WatcherView,
    ActionView,
) {
    let bound = spec_reorg_bound(config.chain.confirmation_depth);
    if bound == 0 || cp.height == 0 {
        (WatcherView { phase: Phase::Failed, ..s }, ActionView::Halt)
    } else {
        (
            WatcherView {
                phase: Phase::ReorgRecovery {
                    probe: (cp.height - 1) as u64,
                    remaining: (bound - 1) as u64,
                },
                attempts: 0,
                ..s
            },
            ActionView::FetchAncestor { height: (cp.height - 1) as u64 },
        )
    }
}

/// The blocks of the range arrived. Blocks that are not the range asked
/// for count as a failed request. Where the first does not name the
/// checkpoint as its parent, recovery begins. Else the blocks are decoded
/// and priced, and the batch is handed over to be written.
pub open spec fn spec_on_blocks(
    config: WatcherConfig,
    s: WatcherView,
    blocks: Seq<RawBlock>,
    now: u64,
) -> (WatcherView, ActionView) {
    match s.phase {
        Phase::Fetching { first, last } => match s.checkpoint {
            None => (s, ActionView::Idle),
            Some(cp) => if !spec_blocks_linked(blocks, first, last) {
                spec_on_chain_failure(config, s)
            } else if blocks[0].parent_hash != cp.hash {
                spec_begin_recovery(config, s, cp)
            } else {
                (
                    WatcherView {
                        phase: Phase::Persisting,
                        pending: spec_positions(blocks),
                        attempts: 0,
                        failures: spec_saturate(
                            s.failures as nat + spec_saturate(
                                spec_batch_failures(config.chain@, config.venues@, blocks, now),
                            ) as nat,
                        ),
                        ..s
                    },
                    ActionView::Persist(
                        spec_batch_records(config.chain@, config.venues@, blocks, now),
                    ),
                )
            },
        },
        _ => (s, ActionView::Idle),
    }
}

/// The chain reported its block at the height asked for. While seeding it
/// is the position to start from. In recovery it is compared with what is
/// stored for the height: where they agree the checkpoint is rolled back to
/// it; where they do not, the walk goes one height down, and fails where
/// the bound or the first height is reached.
pub open spec fn spec_on_ancestor(config: WatcherConfig, s: WatcherView, a: BlockRef) -> (
    WatcherView,
    ActionView,
) {
    match s.phase {
        Phase::Seeding => if config.start_height == Some(a.height) {
            (
                WatcherView { phase: Phase::Checkpointing, pending: seq![a], attempts: 0, ..s },
                ActionView::SaveCheckpoint(a),
            )
        } else {
            (s, ActionView::Idle)
        },
        Phase::ReorgRecovery { probe, remaining } => if a.height != probe {
            (s, ActionView::Idle)
        } else if spec_stored_hash(s.history, probe) == Some(a.hash) {
            (
                WatcherView { phase: Phase::RollingBack, pending: seq![a], attempts: 0, ..s },
                ActionView::SaveCheckpoint(a),
            )
        } else if remaining == 0 || probe == 0 {
            (WatcherView { phase: Phase::Failed, ..s }, ActionView::Halt)
        } else {
            (
                WatcherView {
                    phase: Phase::ReorgRecovery {
                        probe: (probe - 1) as u64,
                        remaining: (remaining - 1) as u64,
                    },
                    attempts: 0,
                    ..s
                },
                ActionView::FetchAncestor { height: (probe - 1) as u64 },
            )
        },
        _ => (s, ActionView::Idle),
    }
}

/// The batch is written: now, and only now, have the checkpoint advanced.
pub open spec fn spec_on_persisted(s: WatcherView) -> (WatcherView, ActionView) {
    if s.phase == Phase::Persisting && s.pending.len() > 0 {
        (
            WatcherView { phase: Phase::Checkpointing, ..s },
            ActionView::SaveCheckpoint(s.pending.last()),
        )
    } else {
        (s, ActionView::Idle)
    }
}

/// A write failed: the batch or checkpoint under way is dropped, the
/// checkpoint stays as it is, and the cycle starts anew after a delay.
pub open spec fn spec_on_persist_failed(config: WatcherConfig, s: WatcherView) -> (
    WatcherView,
    ActionView,
) {
    match s.phase {
        Phase::Initializing => (s, ActionView::Sleep { millis: config.cycle_retry_ms }),
        Phase::Persisting | Phase::Checkpointing | Phase::RollingBack => (
            WatcherView {
                phase: if s.checkpoint is None {
                    Phase::Seeding
                } else {
                    Phase::Polling
                },
                pending: Seq::empty(),
                attempts: 0,
                ..s
            },
            ActionView::Sleep { millis: config.cycle_retry_ms },
        ),
        _ => (s, ActionView::Idle),
    }
}

/// The checkpoint is written: it is now the watcher's checkpoint, the
/// positions it covers enter the history, and the next poll begins.
pub open spec fn spec_on_checkpoint_saved(config: WatcherConfig, s: WatcherView) -> (
    WatcherView,
    ActionView,
) {
    if (s.phase == Phase::Checkpointing || s.phase == Phase::RollingBack) && s.pending.len() > 0 {
        (
            WatcherView {
                phase: Phase::Polling,
                checkpoint: Some(s.pending.last()),
                history: spec_next_history(
                    s.history,
                    s.pending,
                    spec_reorg_bound(config.chain.confirmation_depth),
                ),
                pending: Seq::empty(),
                attempts: 0,
                ..s
            },
            ActionView::QueryHead,
        )
    } else {
        (s, ActionView::Idle)
    }
}

/// The state after an event, and the action to take. A failed watcher
/// stays failed.
pub open spec fn spec_step(config: WatcherConfig, s: WatcherView, event: Event, now: u64) -> (
    WatcherView,
    ActionView,
) {
    if s.phase == Phase::Failed {
        (s, ActionView::Halt)
    } else {
        match event {
            Event::Wake => (s, spec_request(config, s)),
            Event::CheckpointLoaded(stored) => spec_on_checkpoint_loaded(config, s, stored),
            Event::Head(head) => spec_on_head(config, s, head),
            Event::Blocks(blocks) => spec_on_blocks(config, s, blocks@, now),
            Event::Ancestor(a) => spec_on_ancestor(config, s, a),
            Event::Persisted => spec_on_persisted(s),
            Event::PersistFailed => spec_on_persist_failed(config, s),
            Event::CheckpointSaved => spec_on_checkpoint_saved(config, s),
            Event::ChainAccessFailed => spec_on_chain_failure(config, s),
        }
    }
}

/// What holds of a watcher between steps.
pub open spec fn spec_consistent(s: WatcherView) -> bool {
    match s.phase {
        Phase::Initializing | Phase::Seeding => s.checkpoint is None,
        Phase::Polling | Phase::Failed => s.checkpoint is Some,
        Phase::Fetching { first, last } => s.checkpoint matches Some(cp) && first == cp.height + 1
            && first <= last,
        Phase::Persisting => s.pending.len() > 0 && (s.checkpoint matches Some(cp)
            && s.pending.last().height > cp.height),
        Phase::Checkpointing => s.pending.len() > 0 && (s.checkpoint matches Some(cp)
            ==> s.pending.last().height > cp.height),
        Phase::ReorgRecovery { probe, remaining } => s.checkpoint matches Some(cp) && probe
            < cp.height,
        Phase::RollingBack => s.pending.len() > 0 && (s.checkpoint matches Some(cp)
            && s.pending.last().height < cp.height),
    }
}

/// The state of a watcher that has not taken a step.
pub open spec fn spec_initial() -> WatcherView {
    WatcherView {
        phase: Phase::Initializing,
        checkpoint: None,
        pending: Seq::empty(),
        history: Seq::empty(),
        attempts: 0,
        failures: 0,
    }
}

/// Whether a configuration can be run: the chain has a name and a cycle
/// fetches at least one height.
pub open spec fn spec_config_valid(config: WatcherConfig) -> bool {
    config.chain.chain_id@.len() > 0 && config.max_batch_size >= 1
}

impl Watcher {
    /// A watcher that has not taken a step. A configuration that cannot be
    /// run is refused.
    pub fn new(config: WatcherConfig) -> (r: Result<Watcher, IndexerError>)
        ensures
            r is Ok <==> spec_config_valid(config),
            r matches Ok(w) ==> w.config == config && w@ == spec_initial(),
            r matches Err(e) ==> e matches IndexerError::ConfigError(m) && m@ == (if config.chain.chain_id@.len()
                == 0 {
                "chain_id must not be empty"@
            } else {
                "max_batch_size must be at least 1"@
            }),
    {
        if config.chain.chain_id.as_str().unicode_len() == 0 {
            return Err(IndexerError::ConfigError(String::from_str("chain_id must not be empty")));
        }
        if config.max_batch_size == 0 {
            return Err(
                IndexerError::ConfigError(String::from_str("max_batch_size must be at least 1")),
            );
        }
        Ok(
            Watcher {
                config,
                phase: Phase::Initializing,
                checkpoint: None,
                pending: Vec::new(),
                history: Vec::new(),
                attempts: 0,
                failures: 0,
            },
        )
    }

    /// The request that the watcher is waiting on.
    pub fn request(&self) -> (action: Action)
        ensures
            action@ == spec_request(self.config, self@),
    {
        match self.phase {
            Phase::Initializing => Action::LoadCheckpoint,
            Phase::Seeding => match self.config.start_height {
                Some(h) => Action::FetchAncestor { height: h },
                None => Action::QueryHead,
            },
            Phase::Polling => Action::QueryHead,
            Phase::Fetching { first, last } => Action::FetchBlocks { first, last },
            Phase::Persisting => Action::Idle,
            Phase::Checkpointing | Phase::RollingBack => {
                if self.pending.len() > 0 {
                    Action::SaveCheckpoint(self.pending[self.pending.len() - 1])
                } else {
                    Action::Idle
                }
            },
            Phase::ReorgRecovery { probe, remaining } => Action::FetchAncestor { height: probe },
            Phase::Failed => Action::Halt,
        }
    }

    fn on_checkpoint_loaded(&mut self, stored: Option<BlockRef>) -> (action: Action)
        ensures
            (final(self)@, action@) == spec_on_checkpoint_loaded(
                old(self).config,
                old(self)@,
                stored,
            ),
            final(self).config == old(self).config,
    {
        match self.phase {
            Phase::Initializing => {
                self.attempts = 0;
                match stored {
                    Some(p) => {
                        self.phase = Phase::Polling;
                        self.checkpoint = Some(p);
                        Action::QueryHead
                    },
                    None => {
                        self.phase = Phase::Seeding;
                        self.request()
                    },
                }
            },
            _ => Action::Idle,
        }
    }

    fn on_head(&mut self, head: BlockRef) -> (action: Action)
        ensures
            (final(self)@, action@) == spec_on_head(old(self).config, old(self)@, head),
            final(self).config == old(self).config,
    {
        match self.phase {
            Phase::Seeding => {
                if self.config.start_height.is_none() {
                    let mut pending: Vec<BlockRef> = Vec::new();
                    pending.push(head);
                    self.phase = Phase::Checkpointing;
                    self.pending = pending;
                    self.attempts = 0;
                    Action::SaveCheckpoint(head)
                } else {
                    Action::Idle
                }
            },
            Phase::Polling => match self.checkpoint {
                None => Action::Idle,
                Some(cp) => {
                    match fetch_range(
                        cp.height,
                        head.height,
                        self.config.chain.confirmation_depth,
                        self.config.max_batch_size,
                    ) {
                        None => {
                            self.attempts = 0;
                            Action::Sleep { millis: self.config.poll_interval_ms }
                        },
                        Some((first, last)) => {
                            self.phase = Phase::Fetching { first, last };
                            self.attempts = 0;
                            Action::FetchBlocks { first, last }
                        },
                    }
                },
            },
            _ => Action::Idle,
        }
    }

    fn on_chain_failure(&mut self) -> (action: Action)
        ensures
            (final(self)@, action@) == spec_on_chain_failure(old(self).config, old(self)@),
            final(self).config == old(self).config,
    {
        match self.phase {
            Phase::Seeding | Phase::Polling | Phase::Fetching { .. } | Phase::ReorgRecovery { .. } => {
                if self.attempts < self.config.max_attempts {
                    let millis = backoff_delay(
                        self.config.retry_base_ms,
                        self.attempts,
                        self.config.retry_cap_ms,
                    );
                    self.attempts = self.attempts + 1;
                    Action::Sleep { millis }
                } else {
                    match self.phase {
                        Phase::Seeding => {},
                        _ => {
                            self.phase = Phase::Polling;
                        },
                    }
                    self.attempts = 0;
                    Action::Sleep { millis: self.config.cycle_retry_ms }
                }
            },
            _ => Action::Idle,
        }
    }

    fn begin_recovery(&mut self, cp: BlockRef) -> (action: Action)
        ensures
            (final(self)@, action@) == spec_begin_recovery(old(self).config, old(self)@, cp),
            final(self).config == old(self).config,
    {
        let bound = reorg_bound(self.config.chain.confirmation_depth);
        if bound == 0 || cp.height == 0 {
            self.phase = Phase::Failed;
            Action::Halt
        } else {
            self.phase = Phase::ReorgRecovery { probe: cp.height - 1, remaining: bound - 1 };
            self.attempts = 0;
            Action::FetchAncestor { height: cp.height - 1 }
        }
    }

    fn on_blocks(&mut self, blocks: &Vec<RawBlock>, now: u64) -> (action: Action)
        ensures
            (final(self)@, action@) == spec_on_blocks(old(self).config, old(self)@, blocks@, now),
            final(self).config == old(self).config,
    {
        match self.phase {
            Phase::Fetching { first, last } => match self.checkpoint {
                None => Action::Idle,
                Some(cp) => {
                    if !blocks_linked(blocks, first, last) {
                        self.on_chain_failure()
                    } else if !hash_eq(&blocks[0].parent_hash, &cp.hash) {
                        self.begin_recovery(cp)
                    } else {
                        let batch = build_batch(&self.config.chain, &self.config.venues, blocks, now);
                        self.failures = match self.failures.checked_add(batch.failures) {
                            Some(sum) => sum,
                            None => u64::MAX,
                        };
                        self.pending = positions(blocks);
                        self.phase = Phase::Persisting;
                        self.attempts = 0;
                        Action::Persist(batch.records)
                    }
                },
            },
            _ => Action::Idle,
        }
    }

    fn on_ancestor(&mut self, a: BlockRef) -> (action: Action)
        ensures
            (final(self)@, action@) == spec_on_ancestor(old(self).config, old(self)@, a),
            final(self).config == old(self).config,
    {
        match self.phase {
            Phase::Seeding => match self.config.start_height {
                Some(h) => {
                    if h == a.height {
                        let mut pending: Vec<BlockRef> = Vec::new();
                        pending.push(a);
                        self.phase = Phase::Checkpointing;
                        self.pending = pending;
                        self.attempts = 0;
                        Action::SaveCheckpoint(a)
                    } else {
                        Action::Idle
                    }
                },
                None => Action::Idle,
            },
            Phase::ReorgRecovery { probe, remaining } => {
                if a.height != probe {
                    return Action::Idle;
                }
                let agrees = match stored_hash(&self.history, probe) {
                    Some(h) => hash_eq(&h, &a.hash),
                    None => false,
                };
                if agrees {
                    let mut pending: Vec<BlockRef> = Vec::new();
                    pending.push(a);
                    self.phase = Phase::RollingBack;
                    self.pending = pending;
                    self.attempts = 0;
                    Action::SaveCheckpoint(a)
                } else if remaining == 0 || probe == 0 {
                    self.phase = Phase::Failed;
                    Action::Halt
                } else {
                    self.phase = Phase::ReorgRecovery { probe: probe - 1, remaining: remaining - 1 };
                    self.attempts = 0;
                    Action::FetchAncestor { height: probe - 1 }
                }
            },
            _ => Action::Idle,
        }
    }

    fn on_persisted(&mut self) -> (action: Action)
        ensures
            (final(self)@, action@) == spec_on_persisted(old(self)@),
            final(self).config == old(self).config,
    {
        match self.phase {
            Phase::Persisting => {
                if self.pending.len() > 0 {
                    self.phase = Phase::Checkpointing;
                    Action::SaveCheckpoint(self.pending[self.pending.len() - 1])
                } else {
                    Action::Idle
                }
            },
            _ => Action::Idle,
        }
    }

    fn on_persist_failed(&mut self) -> (action: Action)
        ensures
            (final(self)@, action@) == spec_on_persist_failed(old(self).config, old(self)@),
            final(self).config == old(self).config,
    {
        match self.phase {
            Phase::Initializing => Action::Sleep { millis: self.config.cycle_retry_ms },
            Phase::Persisting | Phase::Checkpointing | Phase::RollingBack => {
                self.phase = if self.checkpoint.is_none() {
                    Phase::Seeding
                } else {
                    Phase::Polling
                };
                self.pending = Vec::new();
                self.attempts = 0;
                Action::Sleep { millis: self.config.cycle_retry_ms }
            },
            _ => Action::Idle,
        }
    }

    fn on_checkpoint_saved(&mut self) -> (action: Action)
        ensures
            (final(self)@, action@) == spec_on_checkpoint_saved(old(self).config, old(self)@),
            final(self).config == old(self).config,
    {
        match self.phase {
            Phase::Checkpointing | Phase::RollingBack => {
                if self.pending.len() > 0 {
                    let bound = reorg_bound(self.config.chain.confirmation_depth);
                    let history = next_history(&self.history, &self.pending, bound);
                    self.checkpoint = Some(self.pending[self.pending.len() - 1]);
                    self.history = history;
                    self.pending = Vec::new();
                    self.phase = Phase::Polling;
                    self.attempts = 0;
                    Action::QueryHead
                } else {
                    Action::Idle
                }
            },
            _ => Action::Idle,
        }
    }

    /// Takes one step: the watcher learns what happened and says what to
    /// do next. `now` is the time that swaps decoded in this step are
    /// recorded with.
    pub fn step(&mut self, event: Event, now: u64) -> (action: Action)
        ensures
            (final(self)@, action@) == spec_step(old(self).config, old(self)@, event, now),
            final(self).config == old(self).config,
    {
        match self.phase {
            Phase::Failed => {
                return Action::Halt;
            },
            _ => {},
        }
        match event {
            Event::Wake => self.request(),
            Event::CheckpointLoaded(stored) => self.on_checkpoint_loaded(stored),
            Event::Head(head) => self.on_head(head),
            Event::Blocks(blocks) => self.on_blocks(&blocks, now),
            Event::Ancestor(a) => self.on_ancestor(a),
            Event::Persisted => self.on_persisted(),
            Event::PersistFailed => self.on_persist_failed(),
            Event::CheckpointSaved => self.on_checkpoint_saved(),
            Event::ChainAccessFailed => self.on_chain_failure(),
        }
    }
}

/// Every step keeps a consistent watcher consistent.
pub proof fn lemma_step_keeps_consistent(config: WatcherConfig, s: WatcherView, event: Event, now: u64)
    requires
        spec_consistent(s),
    ensures
        spec_consistent(spec_step(config, s, event, now).0),
{
    match event {
        Event::Blocks(blocks) => {
            match s.phase {
                Phase::Fetching { first, last } => {
                    if spec_blocks_linked(blocks@, first, last) {
                        let p = spec_positions(blocks@);
                        assert(p.last().height == blocks@[blocks@.len() - 1].height);
                    }
                },
                _ => {},
            }
        },
        _ => {},
    }
}

/// The watcher's checkpoint never moves down, except where it is rolled
/// back after a reorganization. A step that writes no rollback leaves the
/// checkpoint where it is or moves it up, and a checkpoint that it asks to
/// have written is above the one in force.
pub proof fn lemma_checkpoint_monotonic(config: WatcherConfig, s: WatcherView, event: Event, now: u64)
    requires
        spec_consistent(s),
        s.phase != Phase::RollingBack,
    ensures
        s.checkpoint matches Some(before) ==> (spec_step(config, s, event, now).0.checkpoint matches Some(
            after,
        ) && after.height >= before.height),
        s.checkpoint matches Some(before) ==> (spec_step(config, s, event, now).1 matches ActionView::SaveCheckpoint(
            p,
        ) ==> p.height > before.height || spec_step(config, s, event, now).0.phase
            == Phase::RollingBack),
{
}

/// The checkpoint changes only when a checkpoint write is confirmed, or
/// when the stored checkpoint is first read; and the write of an advanced
/// checkpoint is asked for only once the batch it covers is written.
pub proof fn lemma_checkpoint_after_persist(config: WatcherConfig, s: WatcherView, event: Event, now: u64)
    ensures
        spec_step(config, s, event, now).0.checkpoint != s.checkpoint ==> (event
            is CheckpointSaved || event is CheckpointLoaded),
        s.phase != Phase::Checkpointing && spec_step(config, s, event, now).0.phase
            == Phase::Checkpointing ==> (s.phase == Phase::Persisting && event is Persisted)
            || s.phase == Phase::Seeding,
{
}

/// A failed write leaves the checkpoint and the history untouched and
/// drops what was under way; the next poll then asks for the very range
/// that any watcher at this checkpoint asks for.
pub proof fn lemma_persist_failure_keeps_checkpoint(
    config: WatcherConfig,
    s: WatcherView,
    other: WatcherView,
    head: BlockRef,
    now: u64,
)
    requires
        spec_consistent(s),
        s.phase == Phase::Persisting,
        other.phase == Phase::Polling,
        other.checkpoint == s.checkpoint,
    ensures
        ({
            let failed = spec_step(config, s, Event::PersistFailed, now);
            &&& failed.0.checkpoint == s.checkpoint
            &&& failed.0.history == s.history
            &&& failed.0.pending.len() == 0
            &&& failed.0.phase == Phase::Polling
            &&& failed.1 == ActionView::Sleep { millis: config.cycle_retry_ms }
            &&& spec_step(config, failed.0, Event::Head(head), now).1 == spec_step(
                config,
                other,
                Event::Head(head),
                now,
            ).1
        }),
{
}

/// Where recovery finds the chain's block at the probed height to be the
/// one stored, the checkpoint is rolled back to it: the watcher asks for
/// that write, and once it is confirmed the checkpoint is that block, the
/// history ends with it and holds nothing above it, and polling goes on.
pub proof fn lemma_rollback_to_ancestor(config: WatcherConfig, s: WatcherView, a: BlockRef, now: u64)
    requires
        s.phase matches Phase::ReorgRecovery { probe, remaining } && probe == a.height,
        spec_stored_hash(s.history, a.height) == Some(a.hash),
    ensures
        ({
            let found = spec_step(config, s, Event::Ancestor(a), now);
            let saved = spec_step(config, found.0, Event::CheckpointSaved, now);
            &&& found.1 == ActionView::SaveCheckpoint(a)
            &&& found.0.phase == Phase::RollingBack
            &&& found.0.checkpoint == s.checkpoint
            &&& saved.0.phase == Phase::Polling
            &&& saved.0.checkpoint == Some(a)
            &&& saved.1 == ActionView::QueryHead
            &&& saved.0.history.len() > 0 && saved.0.history.last() == a
            &&& forall|i: int|
                0 <= i < saved.0.history.len() ==> (#[trigger] saved.0.history[i]).height
                    <= a.height
        }),
{
    lemma_history_after_rollback(
        s.history,
        a,
        spec_reorg_bound(config.chain.confirmation_depth),
    );
}

/// Recovery never walks past its bound: each step back uses up one of the
/// steps that remain, and with none left the watcher fails.
pub proof fn lemma_recovery_bounded(config: WatcherConfig, s: WatcherView, a: BlockRef, now: u64)
    requires
        s.phase matches Phase::ReorgRecovery { probe, remaining } && probe == a.height,
        spec_stored_hash(s.history, a.height) != Some(a.hash),
    ensures
        ({
            let next = spec_step(config, s, Event::Ancestor(a), now);
            match s.phase {
                Phase::ReorgRecovery { probe, remaining } => if remaining == 0 || probe == 0 {
                    next.0.phase == Phase::Failed && next.1 == ActionView::Halt
                } else {
                    next.0.phase == Phase::ReorgRecovery {
                        probe: (probe - 1) as u64,
                        remaining: (remaining - 1) as u64,
                    } && next.1 == ActionView::FetchAncestor { height: (probe - 1) as u64 }
                },
                _ => true,
            }
        }),
        spec_step(config, s, Event::Ancestor(a), now).0.checkpoint == s.checkpoint,
{
}

/// A watcher that has not taken a step is consistent.
pub proof fn lemma_initial_consistent()
    ensures
        spec_consistent(spec_initial()),
{
}

} // verus!
