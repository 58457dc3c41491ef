use crate::actionable::{no_actionable, promoted, ActionableSet};
use crate::builder::{
    build_error, build_queue_tx, plan_views, queue_plans, BuildError, Queue, Task, TxPlan,
    TxPlanView,
};
use crate::clock_index::{after_confirmed, no_samples, ClockIndex};
use crate::delegation::PoolPosition;
use crate::key::Pubkey;
use crate::pending_index::{after_drain, due_by, no_pending, PendingIndex};
use vstd::prelude::*;

verus! {

/// A queue read from the ledger for a dispatch sweep, with its tasks from the
/// first unexecuted one on.
#[derive(Debug)]
pub struct QueueAccounts {
    pub key: Pubkey,
    pub queue: Queue,
    pub tasks: Vec<Task>,
}

/// What the scheduler knows: clock samples of unconfirmed slots, pending
/// queues with their due timestamps, and the queues eligible for dispatch.
pub struct ObserverView {
    pub timestamps: Map<u64, i64>,
    pub pending: Map<Pubkey, i64>,
    pub actionable: Set<Pubkey>,
}

/// The reactive scheduler of a worker node.
pub struct QueueObserver {
    actionable_queues: ActionableSet,
    pending_queues: PendingIndex,
    unix_timestamps: ClockIndex,
}

impl View for QueueObserver {
    type V = ObserverView;

    closed spec fn view(&self) -> ObserverView {
        ObserverView {
            timestamps: self.unix_timestamps@,
            pending: self.pending_queues@,
            actionable: self.actionable_queues@,
        }
    }
}

/// The pairs of a sweep over `fetched`: for each queue that builds, in order,
/// its address and its transactions.
pub open spec fn sweep_views(
    fetched: Seq<QueueAccounts>,
    now: i64,
    position: PoolPosition,
    delegate: Pubkey,
    max_tasks: u64,
) -> Seq<(Pubkey, Seq<TxPlanView>)>
    decreases fetched.len(),
{
    if fetched.len() == 0 {
        Seq::empty()
    } else {
        let f = fetched.last();
        let prev = sweep_views(fetched.drop_last(), now, position, delegate, max_tasks);
        if build_error(f.queue, f.tasks@.len(), now, position, max_tasks).is_none() {
            prev.push((f.key, queue_plans(f.key, f.queue, f.tasks@, delegate, max_tasks)))
        } else {
            prev
        }
    }
}

/// The addresses of `fetched`.
pub open spec fn fetched_keys(fetched: Seq<QueueAccounts>) -> Set<Pubkey> {
    fetched.map_values(|f: QueueAccounts| f.key).to_set()
}

/// The views of a sweep's result.
pub open spec fn swept_views(out: Seq<(Pubkey, Vec<TxPlan>)>) -> Seq<(Pubkey, Seq<TxPlanView>)> {
    out.map_values(|e: (Pubkey, Vec<TxPlan>)| (e.0, plan_views(e.1@)))
}

impl QueueObserver {
    /// A queue is never both pending and actionable.
    pub open spec fn wf(&self) -> bool {
        forall|q: Pubkey| #[trigger] self@.pending.contains_key(q) ==> !self@.actionable.contains(q)
    }

    pub fn new() -> (r: QueueObserver)
        ensures
            r.wf(),
            r@.timestamps == no_samples(),
            r@.pending == no_pending(),
            r@.actionable == no_actionable(),
    {
        QueueObserver {
            actionable_queues: ActionableSet::new(),
            pending_queues: PendingIndex::new(),
            unix_timestamps: ClockIndex::new(),
        }
    }

    /// On confirmation of `confirmed_slot`: consumes its clock sample and, if
    /// there was one, moves every queue due by that timestamp from the pending
    /// index to the actionable set.
    pub fn handle_confirmed_slot(&mut self, confirmed_slot: u64)
        requires
            old(self).wf(),
        ensures
            final(self).wf(),
            final(self)@.timestamps == after_confirmed(old(self)@.timestamps, confirmed_slot),
            old(self)@.timestamps.contains_key(confirmed_slot) ==> {
                let t = old(self)@.timestamps[confirmed_slot];
                &&& final(self)@.pending == after_drain(old(self)@.pending, t)
                &&& final(self)@.actionable == old(self)@.actionable.union(
                    due_by(old(self)@.pending, t),
                )
            },
            !old(self)@.timestamps.contains_key(confirmed_slot) ==> {
                &&& final(self)@.pending == old(self)@.pending
                &&& final(self)@.actionable == old(self)@.actionable
            },
    {
        let ghost a = self@;
        let found = self.unix_timestamps.consume_confirmed(confirmed_slot);
        match found {
            Some(t) => {
                let due = self.pending_queues.drain_due(t);
                self.actionable_queues.promote(&due);
                proof {
                    assert forall|q: Pubkey| #[trigger]
                        self@.pending.contains_key(q) implies !self@.actionable.contains(q) by {
                        assert(a.pending.contains_key(q));
                        assert(!due_by(a.pending, t).contains(q));
                    };
                }
            },
            None => {
                assert(self@.pending == a.pending);
                assert(self@.actionable == a.actionable);
            },
        }
    }

    /// On an update of the clock account: records the timestamp of `slot`.
    pub fn handle_updated_clock(&mut self, slot: u64, unix_timestamp: i64)
        requires
            old(self).wf(),
        ensures
            final(self).wf(),
            final(self)@.timestamps == old(self)@.timestamps.insert(slot, unix_timestamp),
            final(self)@.pending == old(self)@.pending,
            final(self)@.actionable == old(self)@.actionable,
    {
        let ghost a = self@;
        self.unix_timestamps.record_sample(slot, unix_timestamp);
        assert(self@.pending == a.pending);
        assert(self@.actionable == a.actionable);
    }

    /// On an update of the queue at `queue_pubkey`: it stops being actionable,
    /// and is pending at its due timestamp if it has one, else not at all.
    pub fn handle_updated_queue(&mut self, queue: &Queue, queue_pubkey: Pubkey)
        requires
            old(self).wf(),
        ensures
            final(self).wf(),
            final(self)@.timestamps == old(self)@.timestamps,
            final(self)@.actionable == old(self)@.actionable.remove(queue_pubkey),
            final(self)@.pending == match queue.exec_at {
                Some(t) => old(self)@.pending.insert(queue_pubkey, t),
                None => old(self)@.pending.remove(queue_pubkey),
            },
    {
        let ghost a = self@;
        self.actionable_queues.evict(queue_pubkey);
        match queue.exec_at {
            Some(t) => self.pending_queues.insert(t, queue_pubkey),
            None => self.pending_queues.remove_queue(queue_pubkey),
        }
        proof {
            assert forall|q: Pubkey| #[trigger]
                self@.pending.contains_key(q) implies !self@.actionable.contains(q) by {
                if q != queue_pubkey {
                    assert(a.pending.contains_key(q));
                }
            };
        }
    }

    /// Drops `queue` from the actionable set after a dispatch attempt that
    /// never reached the builder.
    pub fn evict(&mut self, queue: Pubkey)
        requires
            old(self).wf(),
        ensures
            final(self).wf(),
            final(self)@.timestamps == old(self)@.timestamps,
            final(self)@.pending == old(self)@.pending,
            final(self)@.actionable == old(self)@.actionable.remove(queue),
    {
        let ghost a = self@;
        self.actionable_queues.evict(queue);
        assert(self@.pending == a.pending);
        assert(self@.timestamps == a.timestamps);
    }

    /// The clock sample of `slot`, if it is recorded.
    pub fn timestamp_at(&self, slot: u64) -> (r: Option<i64>)
        ensures
            r == (if self@.timestamps.contains_key(slot) {
                Some(self@.timestamps[slot])
            } else {
                None
            }),
    {
        self.unix_timestamps.timestamp_at(slot)
    }

    /// Whether `queue` is eligible for dispatch.
    pub fn is_actionable(&self, queue: Pubkey) -> (r: bool)
        ensures
            r == self@.actionable.contains(queue),
    {
        self.actionable_queues.contains(queue)
    }

    /// The due timestamp of `queue`, if it is pending.
    pub fn pending_due_at(&self, queue: Pubkey) -> (r: Option<i64>)
        ensures
            r == (if self@.pending.contains_key(queue) {
                Some(self@.pending[queue])
            } else {
                None
            }),
    {
        self.pending_queues.due_at(queue)
    }

    /// The actionable queues at the time of the call, each once.
    pub fn actionable_snapshot(&self) -> (r: Vec<Pubkey>)
        ensures
            r@.no_duplicates(),
            r@.to_set() == self@.actionable,
    {
        self.actionable_queues.snapshot()
    }

    /// A dispatch sweep over the queues `fetched`: each is evicted from the
    /// actionable set, whatever comes of it, and each that builds contributes
    /// its address and its transactions; one that does not build is skipped.
    pub fn build_queue_txs(
        &mut self,
        fetched: &Vec<QueueAccounts>,
        now: i64,
        position: &PoolPosition,
        delegate: Pubkey,
        max_tasks: u64,
    ) -> (r: Vec<(Pubkey, Vec<TxPlan>)>)
        requires
            old(self).wf(),
        ensures
            final(self).wf(),
            final(self)@.timestamps == old(self)@.timestamps,
            final(self)@.pending == old(self)@.pending,
            final(self)@.actionable == old(self)@.actionable.difference(fetched_keys(fetched@)),
            swept_views(r@) == sweep_views(fetched@, now, *position, delegate, max_tasks),
    {
        let ghost start = self@;
        let mut out: Vec<(Pubkey, Vec<TxPlan>)> = Vec::new();
        let mut i: usize = 0;
        while i < fetched.len()
            invariant
                0 <= i <= fetched@.len(),
                self.wf(),
                self@.timestamps == start.timestamps,
                self@.pending == start.pending,
                self@.actionable == start.actionable.difference(
                    fetched_keys(fetched@.subrange(0, i as int)),
                ),
                swept_views(out@) == sweep_views(
                    fetched@.subrange(0, i as int),
                    now,
                    *position,
                    delegate,
                    max_tasks,
                ),
            decreases fetched@.len() - i,
        {
            let f = &fetched[i];
            self.actionable_queues.evict(f.key);
            let built = build_queue_tx(f.key, &f.queue, &f.tasks, now, position, delegate, max_tasks);
            let ghost before = out@;
            match built {
                Ok(plans) => {
                    out.push((f.key, plans));
                    proof {
                        assert(swept_views(out@) =~= swept_views(before).push(
                            (f.key, plan_views(plans@)),
                        ));
                    }
                },
                Err(_) => {},
            }
            proof {
                let s = fetched@.subrange(0, i + 1);
                assert(s.drop_last() =~= fetched@.subrange(0, i as int));
                assert(s.last() == *f);
                assert(s.map_values(|g: QueueAccounts| g.key) =~= fetched@.subrange(0, i as int).map_values(
                    |g: QueueAccounts| g.key,
                ).push(f.key));
                fetched@.subrange(0, i as int).map_values(|g: QueueAccounts| g.key).lemma_push_to_set_commute(f.key);
                assert(self@.actionable =~= start.actionable.difference(fetched_keys(s)));
            }
            i = i + 1;
        }
        proof {
            assert(fetched@.subrange(0, fetched@.len() as int) =~= fetched@);
        }
        out
    }
}

} // verus!
