use crate::key::Pubkey;
use dashmap::DashSet;
use vstd::prelude::*;

verus! {

/// The set without any queue.
pub open spec fn no_actionable() -> Set<Pubkey> {
    Set::empty()
}

/// What a concurrent set of queues holds.
pub uninterp spec fn actionable_members(s: DashSet<Pubkey>) -> Set<Pubkey>;

/// Relies on `DashSet::new`: the new set is empty.
#[verifier::external_body]
fn members_new() -> (r: DashSet<Pubkey>)
    ensures
        actionable_members(r) == no_actionable(),
{
    DashSet::new()
}

/// Relies on `DashSet::insert`: the key is a member afterwards.
#[verifier::external_body]
fn members_insert(s: &mut DashSet<Pubkey>, queue: Pubkey)
    ensures
        actionable_members(*final(s)) == actionable_members(*old(s)).insert(queue),
{
    s.insert(queue);
}

/// Relies on `DashSet::remove`: the key is no member afterwards.
#[verifier::external_body]
fn members_remove(s: &mut DashSet<Pubkey>, queue: Pubkey)
    ensures
        actionable_members(*final(s)) == actionable_members(*old(s)).remove(queue),
{
    s.remove(&queue);
}

/// Relies on `DashSet::contains`: whether the key is a member.
#[verifier::external_body]
fn members_contains(s: &DashSet<Pubkey>, queue: Pubkey) -> (r: bool)
    ensures
        r == actionable_members(*s).contains(queue),
{
    s.contains(&queue)
}

/// Relies on `DashSet::iter`: every member once, in an order that the hasher
/// decides.
#[verifier::external_body]
fn members_list(s: &DashSet<Pubkey>) -> (r: Vec<Pubkey>)
    ensures
        r@.no_duplicates(),
        r@.to_set() == actionable_members(*s),
{
    s.iter().map(|e| *e.key()).collect()
}

/// Queues that are eligible for dispatch.
pub struct ActionableSet {
    members: DashSet<Pubkey>,
}

impl View for ActionableSet {
    type V = Set<Pubkey>;

    closed spec fn view(&self) -> Set<Pubkey> {
        actionable_members(self.members)
    }
}

/// The set once `queues` are promoted into it.
pub open spec fn promoted(s: Set<Pubkey>, queues: Seq<Pubkey>) -> Set<Pubkey> {
    s.union(queues.to_set())
}

impl ActionableSet {
    pub fn new() -> (r: ActionableSet)
        ensures
            r@ == no_actionable(),
    {
        ActionableSet { members: members_new() }
    }

    /// Adds every queue of `queues`; a queue already present stays once.
    pub fn promote(&mut self, queues: &Vec<Pubkey>)
        ensures
            final(self)@ == promoted(old(self)@, queues@),
    {
        let ghost start = self@;
        let mut i: usize = 0;
        while i < queues.len()
            invariant
                0 <= i <= queues@.len(),
                self@ == promoted(start, queues@.subrange(0, i as int)),
            decreases queues@.len() - i,
        {
            let q = queues[i];
            members_insert(&mut self.members, q);
            proof {
                assert(queues@.subrange(0, i + 1) =~= queues@.subrange(0, i as int).push(q));
                assert(queues@.subrange(0, i as int).push(q).to_set() =~= queues@.subrange(
                    0,
                    i as int,
                ).to_set().insert(q)) by {
                    queues@.subrange(0, i as int).lemma_push_to_set_commute(q);
                }
                assert(self@ =~= promoted(start, queues@.subrange(0, i + 1)));
            }
            i = i + 1;
        }
        proof {
            assert(queues@.subrange(0, queues@.len() as int) =~= queues@);
        }
    }

    /// Takes `queue` out after a dispatch attempt, whatever its outcome.
    pub fn evict(&mut self, queue: Pubkey)
        ensures
            final(self)@ == old(self)@.remove(queue),
    {
        members_remove(&mut self.members, queue);
    }

    /// Whether `queue` is eligible for dispatch.
    pub fn contains(&self, queue: Pubkey) -> (r: bool)
        ensures
            r == self@.contains(queue),
    {
        members_contains(&self.members, queue)
    }

    /// The members at the time of the call, each once.
    pub fn snapshot(&self) -> (r: Vec<Pubkey>)
        ensures
            r@.no_duplicates(),
            r@.to_set() == self@,
    {
        members_list(&self.members)
    }
}

/// Promoting the same queues a second time changes nothing.
pub proof fn lemma_promote_idempotent(s: Set<Pubkey>, queues: Seq<Pubkey>)
    ensures
        promoted(promoted(s, queues), queues) == promoted(s, queues),
{
    assert(promoted(promoted(s, queues), queues) =~= promoted(s, queues));
}

} // verus!
