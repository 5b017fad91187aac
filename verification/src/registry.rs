use vstd::prelude::*;
use std::collections::HashMap;
use crate::tracker::{
    fresh_model, gap_count, spec_update, stats_message_of, ConnectionStats, TrackerModel,
};

verus! {

broadcast use vstd::std_specs::hash::group_hash_axioms;

/// Whether one update step fits in the tracker's machine counters:
/// the message counter and the miss counter must not wrap.
pub open spec fn update_fits(t: TrackerModel, seq: u64) -> bool {
    &&& t.received < u64::MAX
    &&& t.total + gap_count(t, seq as int) <= u64::MAX
}

/// What one registry `update` call does to the map of tracker states, and
/// which periodic statistics snapshot it hands back: an absent id is a
/// benign no-op; an update that would wrap a counter is refused unchanged;
/// otherwise the tracker steps, and the snapshot is produced exactly when
/// the new message count is a multiple of one hundred.
pub open spec fn update_effect(
    pre: Map<u64, TrackerModel>,
    post: Map<u64, TrackerModel>,
    id: u64,
    seq: u64,
    log: Option<String>,
) -> bool {
    if !pre.contains_key(id) {
        post == pre && log is None
    } else if !update_fits(pre[id], seq) {
        post == pre && log is None
    } else {
        let t2 = spec_update(pre[id], seq as int);
        &&& post == pre.insert(id, t2)
        &&& if t2.received % 100 == 0 {
            log matches Some(s) && s@ == stats_message_of(t2)
        } else {
            log is None
        }
    }
}

/// The shared mapping from connection identifier to its tracker, together
/// with the identifier allocator. One instance serves the whole process;
/// the owner serializes calls (each operation here is one critical section).
pub struct ConnectionRegistry {
    next_id: u64,
    map: HashMap<u64, ConnectionStats>,
}

impl ConnectionRegistry {
    /// The value handed out by the most recent allocation; zero initially.
    pub closed spec fn counter(self) -> int {
        self.next_id as int
    }

    /// The tracker state recorded for each live connection id.
    pub closed spec fn trackers(self) -> Map<u64, TrackerModel> {
        self.map@.map_values(|t: ConnectionStats| t@)
    }

    /// Every stored tracker keeps its internal counters consistent.
    pub closed spec fn wf(self) -> bool {
        forall|id: u64| self.map@.contains_key(id) ==> (#[trigger] self.map@[id]).wf()
    }

    /// An empty registry; the first allocated identifier will be one.
    pub fn new() -> (r: Self)
        ensures
            r.wf(),
            r.counter() == 0,
            r.trackers() == Map::<u64, TrackerModel>::empty(),
    {
        let r = ConnectionRegistry { next_id: 0, map: HashMap::new() };
        proof {
            assert(r.trackers() =~= Map::<u64, TrackerModel>::empty());
        }
        r
    }

    /// Hand out a fresh identifier, strictly larger than every one handed
    /// out before, so no identifier is ever reused within the process.
    pub fn allocate_id(&mut self) -> (id: u64)
        requires
            old(self).wf(),
            old(self).counter() < u64::MAX,
        ensures
            final(self).wf(),
            id == old(self).counter() + 1,
            final(self).counter() == old(self).counter() + 1,
            final(self).trackers() == old(self).trackers(),
    {
        self.next_id = self.next_id + 1;
        self.next_id
    }

    /// How many identifiers have been handed out so far; equally, the most
    /// recently allocated identifier. Lets a caller see that the allocator
    /// still has room before asking for another identifier.
    pub fn allocated_count(&self) -> (r: u64)
        ensures
            r as int == self.counter(),
    {
        self.next_id
    }

    /// Create a fresh tracker for `id`, replacing any previous entry;
    /// with identifiers from `allocate_id` no entry is ever replaced.
    pub fn insert(&mut self, id: u64)
        requires
            old(self).wf(),
        ensures
            final(self).wf(),
            final(self).counter() == old(self).counter(),
            final(self).trackers() == old(self).trackers().insert(id, fresh_model()),
    {
        let t = ConnectionStats::new();
        self.map.insert(id, t);
        proof {
            assert(self.trackers() =~= old(self).trackers().insert(id, fresh_model()));
        }
    }

    /// Apply one tracker update for `id` in place, and hand back the
    /// periodic statistics snapshot when one is due. An id that is not
    /// present (a late message racing a removal) is a benign no-op.
    pub fn update(&mut self, id: u64, seq: u64) -> (log: Option<String>)
        requires
            old(self).wf(),
        ensures
            final(self).wf(),
            final(self).counter() == old(self).counter(),
            update_effect(old(self).trackers(), final(self).trackers(), id, seq, log),
    {
        let taken = self.map.remove(&id);
        match taken {
            None => {
                proof {
                    assert(self.trackers() =~= old(self).trackers());
                }
                None
            },
            Some(mut t) => {
                let fits: bool = t.messages_received < u64::MAX && (seq <= t.last_sequence
                    || t.messages_received == 0 || t.total_missed as u128 + (seq - t.last_sequence
                    - 1) as u128 <= u64::MAX as u128);
                if !fits {
                    self.map.insert(id, t);
                    proof {
                        assert(self.trackers() =~= old(self).trackers());
                        assert(!update_fits(old(self).trackers()[id], seq));
                    }
                    None
                } else {
                    proof {
                        assert(update_fits(old(self).trackers()[id], seq));
                    }
                    t.update(seq);
                    let due: bool = t.messages_received % 100 == 0;
                    let log: Option<String> = if due {
                        Some(t.get_stats_message())
                    } else {
                        None
                    };
                    self.map.insert(id, t);
                    proof {
                        assert(self.trackers() =~= old(self).trackers().insert(
                            id,
                            spec_update(old(self).trackers()[id], seq as int),
                        ));
                    }
                    log
                }
            },
        }
    }

    /// Borrow the tracker for `id` for a non-mutating snapshot, if present.
    pub fn read(&self, id: u64) -> (r: Option<&ConnectionStats>)
        requires
            self.wf(),
        ensures
            match r {
                Some(t) => self.trackers().contains_key(id) && t@ == self.trackers()[id] && t.wf(),
                None => !self.trackers().contains_key(id),
            },
    {
        self.map.get(&id)
    }

    /// Delete and return the tracker for `id`. Idempotent: once an id has
    /// been removed, a second call returns nothing and changes nothing.
    pub fn remove(&mut self, id: u64) -> (r: Option<ConnectionStats>)
        requires
            old(self).wf(),
        ensures
            final(self).wf(),
            final(self).counter() == old(self).counter(),
            final(self).trackers() == old(self).trackers().remove(id),
            match r {
                Some(t) => old(self).trackers().contains_key(id) && t@ == old(self).trackers()[id]
                    && t.wf(),
                None => !old(self).trackers().contains_key(id),
            },
    {
        let r = self.map.remove(&id);
        proof {
            assert(self.trackers() =~= old(self).trackers().remove(id));
        }
        r
    }
}

/// Law: removal is idempotent. After a removal the id is gone, and removing
/// it again leaves the map of trackers exactly as it was — so a second
/// `remove` call for the same id returns nothing and changes nothing.
pub proof fn lemma_remove_idempotent(m: Map<u64, TrackerModel>, id: u64)
    ensures
        !m.remove(id).contains_key(id),
        m.remove(id).remove(id) =~= m.remove(id),
{
}

} // verus!
