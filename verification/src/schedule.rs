//! The arithmetic of a watcher's cycle: which heights are confirmed, which
//! range is fetched next, how long to wait after a failed request, and the
//! bookkeeping of recently accepted blocks that reorg recovery compares the
//! chain against.

use crate::bytes::hash_eq;
use crate::model::{BlockRef, RawBlock};
use vstd::prelude::*;

verus! {

/// The highest confirmed height: `depth` blocks behind the head. There is
/// none while the chain is shorter than the depth.
pub open spec fn spec_target(head: u64, depth: u64) -> Option<u64> {
    if head >= depth {
        Some((head - depth) as u64)
    } else {
        None
    }
}

/// The range of heights to fetch next: from the height after the checkpoint
/// to the confirmed target, at most `max_batch` heights. There is none while
/// the target is not beyond the checkpoint.
pub open spec fn spec_fetch_range(checkpoint: u64, head: u64, depth: u64, max_batch: u64)
    -> Option<(u64, u64)> {
    match spec_target(head, depth) {
        None => None,
        Some(target) => if target <= checkpoint || max_batch == 0 {
            None
        } else {
            let last = if target <= checkpoint + max_batch {
                target as int
            } else {
                checkpoint + max_batch
            };
            Some(((checkpoint + 1) as u64, last as u64))
        },
    }
}

/// Two to the power `n`.
pub open spec fn spec_pow2(n: nat) -> nat
    decreases n,
{
    if n == 0 {
        1
    } else {
        2 * spec_pow2((n - 1) as nat)
    }
}

/// The delay before retry number `attempt` (counted from zero): the base
/// delay doubled `attempt` times, at most `cap`.
pub open spec fn spec_backoff(base: u64, attempt: u32, cap: u64) -> u64 {
    if base * spec_pow2(attempt as nat) >= cap {
        cap
    } else {
        (base * spec_pow2(attempt as nat)) as u64
    }
}

/// How far back reorg recovery walks: four times the confirmation depth.
pub open spec fn spec_reorg_bound(depth: u64) -> u64 {
    if depth * 4 <= u64::MAX {
        (depth * 4) as u64
    } else {
        u64::MAX
    }
}

/// The identifier stored for a height: that of the most recent entry with
/// the height.
pub open spec fn spec_stored_hash(history: Seq<BlockRef>, height: u64) -> Option<[u8; 32]>
    decreases history.len(),
{
    if history.len() == 0 {
        None
    } else if history.last().height == height {
        Some(history.last().hash)
    } else {
        spec_stored_hash(history.drop_last(), height)
    }
}

/// The entries with a height from `lo` to `hi`, in their order.
pub open spec fn spec_retain(entries: Seq<BlockRef>, lo: u64, hi: u64) -> Seq<BlockRef>
    decreases entries.len(),
{
    if entries.len() == 0 {
        Seq::empty()
    } else {
        let rest = spec_retain(entries.drop_last(), lo, hi);
        if lo <= entries.last().height <= hi {
            rest.push(entries.last())
        } else {
            rest
        }
    }
}

/// The history after the positions in `accepted` became final: what the
/// history held below the first of them, then they themselves, all within
/// `bound` heights of the last.
pub open spec fn spec_next_history(history: Seq<BlockRef>, accepted: Seq<BlockRef>, bound: u64)
    -> Seq<BlockRef> {
    if accepted.len() == 0 {
        history
    } else {
        let top = accepted.last().height;
        let lo = if top >= bound {
            (top - bound) as u64
        } else {
            0u64
        };
        let kept = if accepted[0].height == 0 {
            Seq::empty()
        } else {
            spec_retain(history, lo, (accepted[0].height - 1) as u64)
        };
        kept + spec_retain(accepted, lo, u64::MAX)
    }
}

/// The positions of a run of blocks.
pub open spec fn spec_positions(blocks: Seq<RawBlock>) -> Seq<BlockRef> {
    blocks.map_values(|b: RawBlock| BlockRef { height: b.height, hash: b.hash })
}

/// Whether the blocks are the heights `first` to `last`, one each and in
/// order, each naming the one before it as its parent.
pub open spec fn spec_blocks_linked(blocks: Seq<RawBlock>, first: u64, last: u64) -> bool {
    &&& first <= last
    &&& blocks.len() == last - first + 1
    &&& forall|i: int| 0 <= i < blocks.len() ==> (#[trigger] blocks[i]).height == first + i
    &&& forall|i: int|
        1 <= i < blocks.len() ==> (#[trigger] blocks[i]).parent_hash == blocks[i - 1].hash
}

/// `spec_pow2` never decreases.
pub proof fn lemma_pow2_monotonic(a: nat, b: nat)
    requires
        a <= b,
    ensures
        1 <= spec_pow2(a) <= spec_pow2(b),
    decreases b,
{
    if b == 0 {
    } else if a == b {
        lemma_pow2_monotonic((a - 1) as nat, (b - 1) as nat);
    } else {
        lemma_pow2_monotonic(a, (b - 1) as nat);
    }
}

/// The highest confirmed height.
pub fn confirmed_target(head: u64, depth: u64) -> (r: Option<u64>)
    ensures
        r == spec_target(head, depth),
{
    if head >= depth {
        Some(head - depth)
    } else {
        None
    }
}

/// The range of heights to fetch next.
pub fn fetch_range(checkpoint: u64, head: u64, depth: u64, max_batch: u64) -> (r: Option<
    (u64, u64),
>)
    ensures
        r == spec_fetch_range(checkpoint, head, depth, max_batch),
        r matches Some((first, last)) ==> first == checkpoint + 1 && first <= last && last + depth
            <= head && last - checkpoint <= max_batch,
{
    match confirmed_target(head, depth) {
        None => None,
        Some(target) => {
            if target <= checkpoint || max_batch == 0 {
                None
            } else if target - checkpoint <= max_batch {
                Some((checkpoint + 1, target))
            } else {
                Some((checkpoint + 1, checkpoint + max_batch))
            }
        },
    }
}

/// The delay before retry number `attempt`.
pub fn backoff_delay(base: u64, attempt: u32, cap: u64) -> (r: u64)
    ensures
        r == spec_backoff(base, attempt, cap),
{
    let mut delay: u64 = if base >= cap {
        cap
    } else {
        base
    };
    let mut i: u32 = 0;
    assert(base * spec_pow2(0) == base) by (nonlinear_arith)
        requires
            spec_pow2(0) == 1,
    ;
    while i < attempt && delay < cap && delay > 0
        invariant
            i <= attempt,
            delay == spec_backoff(base, i, cap),
        decreases attempt - i,
    {
        let ghost p = spec_pow2(i as nat);
        assert(spec_pow2((i + 1) as nat) == 2 * p);
        assert(base * (2 * p) == 2 * (base * p)) by (nonlinear_arith);
        delay = if delay >= cap - delay {
            cap
        } else {
            delay + delay
        };
        i = i + 1;
    }
    proof {
        if i < attempt {
            lemma_pow2_monotonic(i as nat, attempt as nat);
            let p = spec_pow2(i as nat);
            let q = spec_pow2(attempt as nat);
            if delay >= cap {
                assert(base * q >= base * p) by (nonlinear_arith)
                    requires
                        q >= p,
                ;
            } else {
                assert(base * p == 0);
                assert(base == 0) by (nonlinear_arith)
                    requires
                        base * p == 0,
                        p >= 1,
                ;
                assert(base * q == 0) by (nonlinear_arith)
                    requires
                        base == 0,
                ;
            }
        }
    }
    delay
}

/// How far back reorg recovery walks.
pub fn reorg_bound(depth: u64) -> (r: u64)
    ensures
        r == spec_reorg_bound(depth),
{
    match depth.checked_mul(4) {
        Some(b) => b,
        None => u64::MAX,
    }
}

/// The identifier stored for a height, if the history has the height.
pub fn stored_hash(history: &Vec<BlockRef>, height: u64) -> (r: Option<[u8; 32]>)
    ensures
        r == spec_stored_hash(history@, height),
{
    let mut i: usize = history.len();
    assert(history@.take(i as int) =~= history@);
    while i > 0
        invariant
            i <= history@.len(),
            spec_stored_hash(history@, height) == spec_stored_hash(history@.take(i as int), height),
        decreases i,
    {
        proof {
            let part = history@.take(i as int);
            assert(part.drop_last() =~= history@.take(i as int - 1));
            assert(part.last() == history@[i as int - 1]);
        }
        i = i - 1;
        if history[i].height == height {
            return Some(history[i].hash);
        }
    }
    None
}

/// Appends to `target` the entries of `source` with a height from `lo` to `hi`.
pub fn retain_into(source: &Vec<BlockRef>, lo: u64, hi: u64, target: &mut Vec<BlockRef>)
    ensures
        final(target)@ == old(target)@ + spec_retain(source@, lo, hi),
{
    let mut i: usize = 0;
    assert(source@.take(0) =~= Seq::<BlockRef>::empty());
    assert(target@ =~= old(target)@ + Seq::<BlockRef>::empty());
    while i < source.len()
        invariant
            i <= source@.len(),
            target@ == old(target)@ + spec_retain(source@.take(i as int), lo, hi),
        decreases source@.len() - i,
    {
        proof {
            let part = source@.take(i as int + 1);
            assert(part.drop_last() =~= source@.take(i as int));
            assert(part.last() == source@[i as int]);
        }
        let entry = source[i];
        if lo <= entry.height && entry.height <= hi {
            target.push(entry);
            assert(target@ =~= old(target)@ + spec_retain(source@.take(i as int), lo, hi).push(
                entry,
            ));
        }
        i = i + 1;
    }
    assert(source@.take(i as int) =~= source@);
}

/// The history after the positions in `accepted` became final.
pub fn next_history(history: &Vec<BlockRef>, accepted: &Vec<BlockRef>, bound: u64) -> (r: Vec<
    BlockRef,
>)
    ensures
        r@ == spec_next_history(history@, accepted@, bound),
{
    let mut out: Vec<BlockRef> = Vec::new();
    if accepted.len() == 0 {
        retain_into(history, 0, u64::MAX, &mut out);
        proof {
            lemma_retain_all(history@);
            assert(out@ =~= history@);
        }
        return out;
    }
    let top: u64 = accepted[accepted.len() - 1].height;
    let lo: u64 = if top >= bound {
        top - bound
    } else {
        0
    };
    let floor: u64 = accepted[0].height;
    if floor > 0 {
        retain_into(history, lo, floor - 1, &mut out);
    }
    assert(out@ =~= if floor == 0 {
        Seq::<BlockRef>::empty()
    } else {
        spec_retain(history@, lo, (floor - 1) as u64)
    });
    retain_into(accepted, lo, u64::MAX, &mut out);
    out
}

/// Retaining every height keeps every entry.
pub proof fn lemma_retain_all(entries: Seq<BlockRef>)
    ensures
        spec_retain(entries, 0, u64::MAX) == entries,
    decreases entries.len(),
{
    if entries.len() > 0 {
        lemma_retain_all(entries.drop_last());
        assert(entries.drop_last().push(entries.last()) =~= entries);
    }
}

/// Whether the blocks are the heights `first` to `last`, one each and in
/// order, each naming the one before it as its parent.
pub fn blocks_linked(blocks: &Vec<RawBlock>, first: u64, last: u64) -> (r: bool)
    ensures
        r == spec_blocks_linked(blocks@, first, last),
{
    if first > last {
        return false;
    }
    let span: u64 = last - first;
    if blocks.len() == 0 || (blocks.len() - 1) as u64 != span {
        return false;
    }
    let mut i: usize = 0;
    while i < blocks.len()
        invariant
            i <= blocks@.len(),
            first <= last,
            blocks@.len() == last - first + 1,
            forall|j: int| 0 <= j < i ==> (#[trigger] blocks@[j]).height == first + j,
            forall|j: int| 1 <= j < i ==> (#[trigger] blocks@[j]).parent_hash == blocks@[j - 1].hash,
        decreases blocks@.len() - i,
    {
        if blocks[i].height < first || blocks[i].height - first != i as u64 {
            assert(blocks@[i as int].height != first + i);
            return false;
        }
        if i > 0 && !hash_eq(&blocks[i].parent_hash, &blocks[i - 1].hash) {
            return false;
        }
        i = i + 1;
    }
    true
}

/// The positions of a run of blocks.
pub fn positions(blocks: &Vec<RawBlock>) -> (r: Vec<BlockRef>)
    ensures
        r@ == spec_positions(blocks@),
{
    let mut out: Vec<BlockRef> = Vec::new();
    let mut i: usize = 0;
    while i < blocks.len()
        invariant
            i <= blocks@.len(),
            out@.len() == i,
            forall|j: int| 0 <= j < i ==> out@[j] == spec_positions(blocks@)[j],
        decreases blocks@.len() - i,
    {
        out.push(blocks[i].position());
        i = i + 1;
    }
    assert(out@ =~= spec_positions(blocks@));
    out
}

/// What is retained lies within the bounds and was among the entries.
pub proof fn lemma_retain_members(entries: Seq<BlockRef>, lo: u64, hi: u64)
    ensures
        forall|i: int|
            0 <= i < spec_retain(entries, lo, hi).len() ==> {
                let r = #[trigger] spec_retain(entries, lo, hi)[i];
                lo <= r.height <= hi && entries.contains(r)
            },
    decreases entries.len(),
{
    if entries.len() > 0 {
        let front = entries.drop_last();
        let kept = spec_retain(front, lo, hi);
        lemma_retain_members(front, lo, hi);
        assert forall|i: int| 0 <= i < spec_retain(entries, lo, hi).len() implies {
            let r = #[trigger] spec_retain(entries, lo, hi)[i];
            lo <= r.height <= hi && entries.contains(r)
        } by {
            let r = spec_retain(entries, lo, hi)[i];
            if i < kept.len() {
                assert(r == kept[i]);
                assert(front.contains(r));
                let w = choose|w: int| 0 <= w < front.len() && front[w] == r;
                assert(entries[w] == r);
            } else {
                assert(r == entries[entries.len() - 1]);
            }
        }
    }
}

/// After a rollback to the position `a` the history ends with `a`, and
/// holds nothing above it.
pub proof fn lemma_history_after_rollback(history: Seq<BlockRef>, a: BlockRef, bound: u64)
    ensures
        spec_next_history(history, seq![a], bound).len() > 0,
        spec_next_history(history, seq![a], bound).last() == a,
        forall|i: int|
            0 <= i < spec_next_history(history, seq![a], bound).len() ==> (
            #[trigger] spec_next_history(history, seq![a], bound)[i]).height <= a.height,
        spec_stored_hash(spec_next_history(history, seq![a], bound), a.height) == Some(a.hash),
{
    let accepted = seq![a];
    let lo = if a.height >= bound {
        (a.height - bound) as u64
    } else {
        0u64
    };
    assert(accepted.drop_last() =~= Seq::<BlockRef>::empty());
    assert(spec_retain(accepted.drop_last(), lo, u64::MAX) =~= Seq::<BlockRef>::empty());
    assert(spec_retain(accepted, lo, u64::MAX) =~= seq![a]);
    let kept = if a.height == 0 {
        Seq::<BlockRef>::empty()
    } else {
        spec_retain(history, lo, (a.height - 1) as u64)
    };
    if a.height > 0 {
        lemma_retain_members(history, lo, (a.height - 1) as u64);
    }
    let next = spec_next_history(history, accepted, bound);
    assert(next =~= kept + seq![a]);
    assert(next.last() == a);
    assert forall|i: int| 0 <= i < next.len() implies (#[trigger] next[i]).height <= a.height by {
        if i < kept.len() {
            assert(next[i] == kept[i]);
        }
    }
}

} // verus!
