use dashmap::DashMap;
use vstd::prelude::*;

verus! {

/// The map without any sample.
pub open spec fn no_samples() -> Map<u64, i64> {
    Map::empty()
}

/// What a slot-to-timestamp map holds.
pub uninterp spec fn sample_entries(m: DashMap<u64, i64>) -> Map<u64, i64>;

/// Relies on `DashMap::new`: the new map is empty.
#[verifier::external_body]
fn samples_new() -> (r: DashMap<u64, i64>)
    ensures
        sample_entries(r) == no_samples(),
{
    DashMap::new()
}

/// Relies on `DashMap::insert`: the key is bound to the value, replacing any
/// earlier binding.
#[verifier::external_body]
fn samples_insert(m: &mut DashMap<u64, i64>, slot: u64, ts: i64)
    ensures
        sample_entries(*final(m)) == sample_entries(*old(m)).insert(slot, ts),
{
    m.insert(slot, ts);
}

/// Relies on `DashMap::remove`: the binding of the key, if any, is taken out
/// and its value returned.
#[verifier::external_body]
fn samples_remove(m: &mut DashMap<u64, i64>, slot: u64) -> (r: Option<i64>)
    ensures
        sample_entries(*final(m)) == sample_entries(*old(m)).remove(slot),
        r == (if sample_entries(*old(m)).contains_key(slot) {
            Some(sample_entries(*old(m))[slot])
        } else {
            None
        }),
{
    m.remove(&slot).map(|(_, v)| v)
}

/// Relies on `DashMap::get`: the value bound to the key, if any.
#[verifier::external_body]
fn samples_get(m: &DashMap<u64, i64>, slot: u64) -> (r: Option<i64>)
    ensures
        r == (if sample_entries(*m).contains_key(slot) {
            Some(sample_entries(*m)[slot])
        } else {
            None
        }),
{
    m.get(&slot).map(|e| *e.value())
}

/// Relies on `DashMap::iter`: every key of the map once, in an order that the
/// hasher decides.
#[verifier::external_body]
fn samples_slots(m: &DashMap<u64, i64>) -> (r: Vec<u64>)
    ensures
        r@.no_duplicates(),
        r@.to_set() == sample_entries(*m).dom(),
{
    m.iter().map(|e| *e.key()).collect()
}

/// Slot-to-timestamp samples of slots that are not confirmed yet.
pub struct ClockIndex {
    samples: DashMap<u64, i64>,
}

impl View for ClockIndex {
    type V = Map<u64, i64>;

    closed spec fn view(&self) -> Map<u64, i64> {
        sample_entries(self.samples)
    }
}

/// The samples that remain once `confirmed` is confirmed: those of later slots.
pub open spec fn after_confirmed(m: Map<u64, i64>, confirmed: u64) -> Map<u64, i64> {
    m.restrict(m.dom().filter(|s: u64| s > confirmed))
}

impl ClockIndex {
    pub fn new() -> (r: ClockIndex)
        ensures
            r@ == no_samples(),
    {
        ClockIndex { samples: samples_new() }
    }

    /// Inserts or overwrites the sample of `slot`.
    pub fn record_sample(&mut self, slot: u64, timestamp: i64)
        ensures
            final(self)@ == old(self)@.insert(slot, timestamp),
    {
        samples_insert(&mut self.samples, slot, timestamp);
    }

    /// The timestamp recorded for `slot`, if any.
    pub fn timestamp_at(&self, slot: u64) -> (r: Option<i64>)
        ensures
            r == (if self@.contains_key(slot) { Some(self@[slot]) } else { None }),
    {
        samples_get(&self.samples, slot)
    }

    /// Takes out the sample of `confirmed_slot` and discards every sample of a
    /// slot at or before it; returns the confirmed slot's timestamp if it was
    /// recorded.
    pub fn consume_confirmed(&mut self, confirmed_slot: u64) -> (r: Option<i64>)
        ensures
            r == (if old(self)@.contains_key(confirmed_slot) {
                Some(old(self)@[confirmed_slot])
            } else {
                None
            }),
            final(self)@ == after_confirmed(old(self)@, confirmed_slot),
    {
        let found = samples_get(&self.samples, confirmed_slot);
        let slots = samples_slots(&self.samples);
        let ghost start = self@;
        let mut i: usize = 0;
        while i < slots.len()
            invariant
                0 <= i <= slots@.len(),
                slots@.no_duplicates(),
                slots@.to_set() == start.dom(),
                forall|j: int|
                    0 <= j < i && #[trigger] slots@[j] <= confirmed_slot
                        ==> !self@.contains_key(slots@[j]),
                forall|j: int| i <= j < slots@.len() ==> self@.contains_key(#[trigger] slots@[j]),
                forall|s: u64|
                    #[trigger] self@.contains_key(s) ==> start.contains_key(s) && self@[s]
                        == start[s],
                forall|s: u64|
                    #[trigger] start.contains_key(s) && s > confirmed_slot
                        ==> self@.contains_key(s),
            decreases slots@.len() - i,
        {
            let s = slots[i];
            proof {
                assert(slots@.to_set().contains(s));
            }
            if s <= confirmed_slot {
                samples_remove(&mut self.samples, s);
            }
            i = i + 1;
        }
        proof {
            assert forall|t: u64| start.dom().contains(t) implies slots@.contains(t) by {
                assert(slots@.to_set().contains(t));
            };
            assert(self@ =~= after_confirmed(start, confirmed_slot));
        }
        found
    }
}

/// Consuming a confirmation hands back only the sample of the confirmed slot
/// itself, and leaves no sample of that slot or an earlier one.
pub proof fn lemma_consumed_leaves_no_stale(m: Map<u64, i64>, confirmed: u64, s: u64)
    requires
        s <= confirmed,
    ensures
        !after_confirmed(m, confirmed).contains_key(s),
        forall|t: u64| #[trigger] after_confirmed(m, confirmed).contains_key(t) ==> t > confirmed,
{
}

} // verus!
