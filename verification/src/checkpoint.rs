//! The checkpoint store: the last processed position of each chain.

use crate::bytes::str_eq;
use crate::model::{Checkpoint, CheckpointView};
use vstd::prelude::*;

verus! {

/// Whether the entries hold a checkpoint of the chain.
pub open spec fn spec_has_chain(entries: Seq<CheckpointView>, id: Seq<char>) -> bool {
    exists|i: int| 0 <= i < entries.len() && (#[trigger] entries[i]).chain_id == id
}

/// No two entries are of the same chain.
pub open spec fn spec_chains_distinct(entries: Seq<CheckpointView>) -> bool {
    forall|i: int, j: int|
        0 <= i < j < entries.len() ==> (#[trigger] entries[i]).chain_id != (
        #[trigger] entries[j]).chain_id
}

/// The checkpoint of the chain among the entries.
pub open spec fn spec_entry_of(entries: Seq<CheckpointView>, id: Seq<char>) -> CheckpointView {
    entries[choose|i: int| 0 <= i < entries.len() && (#[trigger] entries[i]).chain_id == id]
}

/// The entries as a map from chain to checkpoint.
pub open spec fn spec_as_map(entries: Seq<CheckpointView>) -> Map<Seq<char>, CheckpointView> {
    Map::new(|id: Seq<char>| spec_has_chain(entries, id), |id: Seq<char>| spec_entry_of(entries, id))
}

proof fn lemma_entry_unique(entries: Seq<CheckpointView>, i: int)
    requires
        spec_chains_distinct(entries),
        0 <= i < entries.len(),
    ensures
        spec_has_chain(entries, entries[i].chain_id),
        spec_entry_of(entries, entries[i].chain_id) == entries[i],
{
    let id = entries[i].chain_id;
    let j = choose|j: int| 0 <= j < entries.len() && (#[trigger] entries[j]).chain_id == id;
    if j < i {
        assert(entries[j].chain_id != entries[i].chain_id);
    } else if i < j {
        assert(entries[i].chain_id != entries[j].chain_id);
    }
}

proof fn lemma_replaced(entries: Seq<CheckpointView>, k: int, cp: CheckpointView)
    requires
        spec_chains_distinct(entries),
        0 <= k < entries.len(),
        entries[k].chain_id == cp.chain_id,
    ensures
        spec_chains_distinct(entries.update(k, cp)),
        spec_as_map(entries.update(k, cp)) == spec_as_map(entries).insert(cp.chain_id, cp),
{
    let after = entries.update(k, cp);
    assert forall|i: int, j: int| 0 <= i < j < after.len() implies (#[trigger] after[i]).chain_id != (
    #[trigger] after[j]).chain_id by {
        assert(entries[i].chain_id != entries[j].chain_id);
    }
    let left = spec_as_map(after);
    let right = spec_as_map(entries).insert(cp.chain_id, cp);
    assert forall|id: Seq<char>| left.dom().contains(id) == right.dom().contains(id) by {
        if spec_has_chain(after, id) {
            let i = choose|i: int| 0 <= i < after.len() && (#[trigger] after[i]).chain_id == id;
            assert(entries[i].chain_id == id);
        }
        if spec_has_chain(entries, id) {
            let i = choose|i: int| 0 <= i < entries.len() && (#[trigger] entries[i]).chain_id == id;
            assert(after[i].chain_id == id);
        }
        if id == cp.chain_id {
            assert(after[k].chain_id == id);
        }
    }
    assert forall|id: Seq<char>| #[trigger] left.dom().contains(id) implies left[id] == right[id] by {
        let i = choose|i: int| 0 <= i < after.len() && (#[trigger] after[i]).chain_id == id;
        lemma_entry_unique(after, i);
        if id != cp.chain_id {
            assert(i != k);
            lemma_entry_unique(entries, i);
        } else {
            lemma_entry_unique(after, k);
        }
    }
    assert(left =~= right);
}

proof fn lemma_appended(entries: Seq<CheckpointView>, cp: CheckpointView)
    requires
        spec_chains_distinct(entries),
        !spec_has_chain(entries, cp.chain_id),
    ensures
        spec_chains_distinct(entries.push(cp)),
        spec_as_map(entries.push(cp)) == spec_as_map(entries).insert(cp.chain_id, cp),
{
    let after = entries.push(cp);
    assert forall|i: int, j: int| 0 <= i < j < after.len() implies (#[trigger] after[i]).chain_id != (
    #[trigger] after[j]).chain_id by {
        if j < entries.len() {
            assert(entries[i].chain_id != entries[j].chain_id);
        } else {
            assert(entries[i].chain_id != cp.chain_id);
        }
    }
    let left = spec_as_map(after);
    let right = spec_as_map(entries).insert(cp.chain_id, cp);
    assert forall|id: Seq<char>| left.dom().contains(id) == right.dom().contains(id) by {
        if spec_has_chain(after, id) {
            let i = choose|i: int| 0 <= i < after.len() && (#[trigger] after[i]).chain_id == id;
            if i < entries.len() {
                assert(entries[i].chain_id == id);
            }
        }
        if spec_has_chain(entries, id) {
            let i = choose|i: int| 0 <= i < entries.len() && (#[trigger] entries[i]).chain_id == id;
            assert(after[i].chain_id == id);
        }
        if id == cp.chain_id {
            assert(after[entries.len() as int].chain_id == id);
        }
    }
    assert forall|id: Seq<char>| #[trigger] left.dom().contains(id) implies left[id] == right[id] by {
        let i = choose|i: int| 0 <= i < after.len() && (#[trigger] after[i]).chain_id == id;
        lemma_entry_unique(after, i);
        if id != cp.chain_id {
            assert(i < entries.len());
            lemma_entry_unique(entries, i);
        } else {
            lemma_entry_unique(after, entries.len() as int);
        }
    }
    assert(left =~= right);
}

/// An in-memory checkpoint store with at most one checkpoint per chain.
#[derive(Clone, Debug)]
pub struct CheckpointStore {
    entries: Vec<Checkpoint>,
}

impl CheckpointStore {
    /// The checkpoints in the order in which their chains were first set.
    pub closed spec fn entries(&self) -> Seq<CheckpointView> {
        self.entries@.map_values(|c: Checkpoint| c@)
    }

    /// The invariant of the store: one checkpoint per chain.
    pub open spec fn wf(&self) -> bool {
        spec_chains_distinct(self.entries())
    }

    /// An empty store.
    pub fn new() -> (r: CheckpointStore)
        ensures
            r@ == Map::<Seq<char>, CheckpointView>::empty(),
            r.wf(),
    {
        let r = CheckpointStore { entries: Vec::new() };
        assert(r@ =~= Map::<Seq<char>, CheckpointView>::empty());
        r
    }

    fn find(&self, chain_id: &str) -> (r: Option<usize>)
        ensures
            match r {
                Some(i) => i < self.entries().len() && self.entries()[i as int].chain_id
                    == chain_id@,
                None => !spec_has_chain(self.entries(), chain_id@),
            },
    {
        let mut i: usize = 0;
        while i < self.entries.len()
            invariant
                i <= self.entries@.len(),
                forall|j: int| 0 <= j < i ==> (#[trigger] self.entries()[j]).chain_id != chain_id@,
            decreases self.entries@.len() - i,
        {
            if str_eq(self.entries[i].chain_id.as_str(), chain_id) {
                return Some(i);
            }
            i = i + 1;
        }
        None
    }

    /// The checkpoint of a chain, if one was set.
    pub fn get(&self, chain_id: &str) -> (r: Option<Checkpoint>)
        requires
            self.wf(),
        ensures
            match r {
                Some(cp) => self@.contains_key(chain_id@) && self@[chain_id@] == cp@,
                None => !self@.contains_key(chain_id@),
            },
    {
        match self.find(chain_id) {
            Some(i) => {
                proof {
                    lemma_entry_unique(self.entries(), i as int);
                }
                Some(self.entries[i].duplicate())
            },
            None => None,
        }
    }

    /// Sets the checkpoint of its chain; those of other chains stay.
    pub fn set(&mut self, checkpoint: Checkpoint)
        requires
            old(self).wf(),
        ensures
            final(self).wf(),
            final(self)@ == old(self)@.insert(checkpoint@.chain_id, checkpoint@),
    {
        match self.find(checkpoint.chain_id.as_str()) {
            Some(i) => {
                proof {
                    lemma_replaced(self.entries(), i as int, checkpoint@);
                }
                self.entries.set(i, checkpoint);
                assert(self.entries() =~= old(self).entries().update(i as int, checkpoint@));
            },
            None => {
                proof {
                    lemma_appended(self.entries(), checkpoint@);
                }
                self.entries.push(checkpoint);
                assert(self.entries() =~= old(self).entries().push(checkpoint@));
            },
        }
    }
}

impl View for CheckpointStore {
    type V = Map<Seq<char>, CheckpointView>;

    closed spec fn view(&self) -> Map<Seq<char>, CheckpointView> {
        spec_as_map(self.entries())
    }
}

} // verus!
