use crate::key::Pubkey;
use dashmap::DashMap;
use vstd::prelude::*;

verus! {

/// The index without any queue.
pub open spec fn no_pending() -> Map<Pubkey, i64> {
    Map::empty()
}

/// What a queue-to-due-timestamp map holds.
pub uninterp spec fn pending_entries(m: DashMap<Pubkey, i64>) -> Map<Pubkey, i64>;

/// Relies on `DashMap::new`: the new map is empty.
#[verifier::external_body]
fn pending_new() -> (r: DashMap<Pubkey, i64>)
    ensures
        pending_entries(r) == no_pending(),
{
    DashMap::new()
}

/// Relies on `DashMap::insert`: the key is bound to the value, replacing any
/// earlier binding.
#[verifier::external_body]
fn pending_insert(m: &mut DashMap<Pubkey, i64>, queue: Pubkey, due: i64)
    ensures
        pending_entries(*final(m)) == pending_entries(*old(m)).insert(queue, due),
{
    m.insert(queue, due);
}

/// Relies on `DashMap::remove`: the binding of the key, if any, is taken out.
#[verifier::external_body]
fn pending_remove(m: &mut DashMap<Pubkey, i64>, queue: Pubkey)
    ensures
        pending_entries(*final(m)) == pending_entries(*old(m)).remove(queue),
{
    m.remove(&queue);
}

/// Relies on `DashMap::get`: the value bound to the key, if any.
#[verifier::external_body]
fn pending_get(m: &DashMap<Pubkey, i64>, queue: Pubkey) -> (r: Option<i64>)
    ensures
        r == (if pending_entries(*m).contains_key(queue) {
            Some(pending_entries(*m)[queue])
        } else {
            None
        }),
{
    m.get(&queue).map(|e| *e.value())
}

/// Relies on `DashMap::iter`: every key of the map once, in an order that the
/// hasher decides.
#[verifier::external_body]
fn pending_queues(m: &DashMap<Pubkey, i64>) -> (r: Vec<Pubkey>)
    ensures
        r@.no_duplicates(),
        r@.to_set() == pending_entries(*m).dom(),
{
    m.iter().map(|e| *e.key()).collect()
}

/// Queues awaiting execution, each with its due timestamp. A queue is keyed
/// by itself, so it stands in one due-timestamp bucket at most.
pub struct PendingIndex {
    due: DashMap<Pubkey, i64>,
}

impl View for PendingIndex {
    type V = Map<Pubkey, i64>;

    closed spec fn view(&self) -> Map<Pubkey, i64> {
        pending_entries(self.due)
    }
}

/// The queues of the bucket of timestamp `t`.
pub open spec fn bucket(m: Map<Pubkey, i64>, t: i64) -> Set<Pubkey> {
    m.dom().filter(|q: Pubkey| m[q] == t)
}

/// The queues whose due timestamp is at or before `now`.
pub open spec fn due_by(m: Map<Pubkey, i64>, now: i64) -> Set<Pubkey> {
    m.dom().filter(|q: Pubkey| m[q] <= now)
}

/// The index once the queues due by `now` are taken out.
pub open spec fn after_drain(m: Map<Pubkey, i64>, now: i64) -> Map<Pubkey, i64> {
    m.restrict(m.dom().filter(|q: Pubkey| m[q] > now))
}

impl PendingIndex {
    pub fn new() -> (r: PendingIndex)
        ensures
            r@ == no_pending(),
    {
        PendingIndex { due: pending_new() }
    }

    /// Puts `queue` in the bucket of `due_timestamp`, out of any other bucket.
    /// Inserting twice has the effect of inserting once.
    pub fn insert(&mut self, due_timestamp: i64, queue: Pubkey)
        ensures
            final(self)@ == old(self)@.insert(queue, due_timestamp),
    {
        pending_insert(&mut self.due, queue, due_timestamp);
    }

    /// Takes `queue` out of the index.
    pub fn remove_queue(&mut self, queue: Pubkey)
        ensures
            final(self)@ == old(self)@.remove(queue),
    {
        pending_remove(&mut self.due, queue);
    }

    /// The due timestamp of `queue`, if it is pending.
    pub fn due_at(&self, queue: Pubkey) -> (r: Option<i64>)
        ensures
            r == (if self@.contains_key(queue) { Some(self@[queue]) } else { None }),
    {
        pending_get(&self.due, queue)
    }

    /// Removes and returns, each once, the queues whose due timestamp is at or
    /// before `confirmed_timestamp`.
    pub fn drain_due(&mut self, confirmed_timestamp: i64) -> (r: Vec<Pubkey>)
        ensures
            r@.no_duplicates(),
            r@.to_set() == due_by(old(self)@, confirmed_timestamp),
            final(self)@ == after_drain(old(self)@, confirmed_timestamp),
    {
        let queues = pending_queues(&self.due);
        let ghost start = self@;
        let mut out: Vec<Pubkey> = Vec::new();
        let mut i: usize = 0;
        while i < queues.len()
            invariant
                0 <= i <= queues@.len(),
                queues@.no_duplicates(),
                queues@.to_set() == start.dom(),
                forall|j: int|
                    0 <= j < i && start[#[trigger] queues@[j]] <= confirmed_timestamp
                        ==> !self@.contains_key(queues@[j]) && out@.contains(queues@[j]),
                forall|j: int| i <= j < queues@.len() ==> self@.contains_key(#[trigger] queues@[j]),
                forall|q: Pubkey|
                    #[trigger] self@.contains_key(q) ==> start.contains_key(q) && self@[q]
                        == start[q],
                forall|q: Pubkey|
                    #[trigger] start.contains_key(q) && start[q] > confirmed_timestamp
                        ==> self@.contains_key(q),
                out@.no_duplicates(),
                forall|k: int|
                    0 <= k < out@.len() ==> start.contains_key(#[trigger] out@[k]) && start[out@[k]]
                        <= confirmed_timestamp && !self@.contains_key(out@[k]),
            decreases queues@.len() - i,
        {
            let q = queues[i];
            proof {
                assert(queues@.to_set().contains(q));
            }
            let ghost before = out@;
            let d = pending_get(&self.due, q);
            match d {
                Some(t) => {
                    if t <= confirmed_timestamp {
                        pending_remove(&mut self.due, q);
                        out.push(q);
                    }
                },
                None => {},
            }
            proof {
                assert forall|j: int|
                    0 <= j < i + 1 && start[#[trigger] queues@[j]] <= confirmed_timestamp
                        implies !self@.contains_key(queues@[j]) && out@.contains(queues@[j]) by {
                    if j < i {
                        let k = choose|k: int| 0 <= k < before.len() && before[k] == queues@[j];
                        assert(out@[k] == queues@[j]);
                    } else {
                        assert(out@[out@.len() - 1] == q);
                    }
                };
            }
            i = i + 1;
        }
        proof {
            assert forall|q: Pubkey| start.dom().contains(q) implies queues@.contains(q) by {
                assert(queues@.to_set().contains(q));
            };
            assert(self@ =~= after_drain(start, confirmed_timestamp));
            assert forall|q: Pubkey|
                due_by(start, confirmed_timestamp).contains(q) implies out@.contains(q) by {
                let j = choose|j: int| 0 <= j < queues@.len() && queues@[j] == q;
            };
            assert(out@.to_set() =~= due_by(start, confirmed_timestamp));
        }
        out
    }
}

/// Every queue that `drain_due` hands out was due by the confirmed timestamp,
/// and is gone from the index afterwards, so a later `drain_due` hands it out
/// again only if it was inserted again in between.
pub proof fn lemma_drained_once(m: Map<Pubkey, i64>, now: i64, later: i64, q: Pubkey)
    requires
        due_by(m, now).contains(q),
    ensures
        m[q] <= now,
        !after_drain(m, now).contains_key(q),
        !due_by(after_drain(m, now), later).contains(q),
{
}

} // verus!
