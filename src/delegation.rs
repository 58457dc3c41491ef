use vstd::prelude::*;

verus! {

/// Seconds of ledger time after a queue's due timestamp from which any node
/// may execute it.
pub const GRACE_PERIOD_SECONDS: i64 = 10;

/// This node's place in the rotating delegate pool.
#[derive(Clone, Copy, Debug, PartialEq, Eq, Structural)]
pub struct PoolPosition {
    /// The node's rank while it holds a delegate slot; `None` when it holds none.
    pub current_position: Option<u64>,
}

/// Whether a node at `position` may execute a queue due at `due` at time `now`.
pub open spec fn may_act_spec(position: PoolPosition, now: i64, due: i64, grace: i64) -> bool {
    position.current_position.is_some() || now >= due + grace
}

/// Whether this node may execute a queue due at `queue_due_timestamp` now: it
/// may while it holds a delegate slot, and any node may once the grace period
/// after the due timestamp has run out.
pub fn may_act(
    position: &PoolPosition,
    current_timestamp: i64,
    queue_due_timestamp: i64,
    grace_period_seconds: i64,
) -> (r: bool)
    ensures
        r == may_act_spec(*position, current_timestamp, queue_due_timestamp, grace_period_seconds),
{
    match position.current_position {
        Some(_) => true,
        None => (current_timestamp as i128) >= (queue_due_timestamp as i128) + (
        grace_period_seconds as i128),
    }
}

/// The delegate may always act; a node without a slot may act exactly once
/// the grace period has run out.
pub proof fn lemma_delegation_rule(position: PoolPosition, now: i64, due: i64, grace: i64)
    ensures
        position.current_position.is_some() ==> may_act_spec(position, now, due, grace),
        position.current_position.is_none() && now >= due + grace ==> may_act_spec(
            position,
            now,
            due,
            grace,
        ),
        position.current_position.is_none() && now < due + grace ==> !may_act_spec(
            position,
            now,
            due,
            grace,
        ),
{
}

} // verus!
