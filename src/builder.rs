use crate::accounts::{merge_account, merged, AccountMeta, AccountRequest};
use crate::delegation::{may_act, may_act_spec, PoolPosition, GRACE_PERIOD_SECONDS};
use crate::key::Pubkey;
use vstd::prelude::*;

verus! {

/// Where a queue stands.
#[derive(Clone, Copy, Debug, PartialEq, Eq, Structural)]
pub enum QueueStatus {
    /// Due, not started: its run begins with a start instruction.
    Pending,
    /// Started; `task_id` is the next task to execute.
    Processing { task_id: u64 },
    /// Not to be executed until it is resumed.
    Paused,
}

/// The scheduler's read-only copy of a queue account.
#[derive(Clone, Copy, Debug, PartialEq, Eq)]
pub struct Queue {
    pub manager: Pubkey,
    pub status: QueueStatus,
    pub task_count: u64,
    /// When the queue is next due; `None` while it is paused or never scheduled.
    pub exec_at: Option<i64>,
}

/// The address of an account named by a task's inner instruction.
#[derive(Clone, Copy, Debug, PartialEq, Eq)]
pub enum AccountAddress {
    /// A fixed address.
    Fixed(Pubkey),
    /// Whichever node executes the task, as payer.
    RequiresDelegateSubstitution,
}

/// An account named by an inner instruction, with its mutability.
#[derive(Clone, Copy, Debug, PartialEq, Eq)]
pub struct InnerAccount {
    pub address: AccountAddress,
    pub is_writable: bool,
}

/// One instruction that a task runs.
#[derive(Debug)]
pub struct InnerInstruction {
    pub program_id: Pubkey,
    pub accounts: Vec<InnerAccount>,
    pub data: Vec<u8>,
}

/// One task of a queue: the instructions it runs, in order.
#[derive(Debug)]
pub struct Task {
    pub ixs: Vec<InnerInstruction>,
}

/// An instruction of an execution transaction.
#[derive(Clone, Copy, Debug, PartialEq, Eq, Structural)]
pub enum PlannedInstruction {
    /// Starts the queue's run.
    QueueStart,
    /// Executes the queue's task of index `task_id`.
    TaskExec { task_id: u64 },
}

/// An execution transaction before signing: its instructions in order, and
/// the accounts that the tasks' inner instructions need, each listed once.
#[derive(Debug)]
pub struct TxPlan {
    pub queue: Pubkey,
    pub manager: Pubkey,
    /// Fee payer and executing delegate.
    pub payer: Pubkey,
    pub instructions: Vec<PlannedInstruction>,
    pub accounts: Vec<AccountMeta>,
}

/// What a planned transaction is, as plain values.
pub struct TxPlanView {
    pub queue: Pubkey,
    pub manager: Pubkey,
    pub payer: Pubkey,
    pub instructions: Seq<PlannedInstruction>,
    pub accounts: Seq<AccountMeta>,
}

impl View for TxPlan {
    type V = TxPlanView;

    open spec fn view(&self) -> TxPlanView {
        TxPlanView {
            queue: self.queue,
            manager: self.manager,
            payer: self.payer,
            instructions: self.instructions@,
            accounts: self.accounts@,
        }
    }
}

/// Why no transaction was built for a queue.
#[derive(Clone, Copy, Debug, PartialEq, Eq, Structural)]
pub enum BuildError {
    /// The queue has no due timestamp.
    NotDue,
    /// This node is no delegate and the grace period has not run out.
    NotAuthorized,
    /// The queue is paused.
    QueuePaused,
    /// An account or the signature could not be had from the ledger.
    SubmissionPrepFailed,
    /// No task fits in one transaction.
    OversizedQueue,
}

/// The address that `a` stands for when `delegate` executes.
pub open spec fn resolve(a: AccountAddress, delegate: Pubkey) -> Pubkey {
    match a {
        AccountAddress::Fixed(p) => p,
        AccountAddress::RequiresDelegateSubstitution => delegate,
    }
}

/// The requests of one inner instruction: its program, read-only, then each
/// of its accounts.
pub open spec fn ix_requests(ix: InnerInstruction, delegate: Pubkey) -> Seq<AccountRequest> {
    seq![(ix.program_id, false)] + ix.accounts@.map_values(
        |a: InnerAccount| (resolve(a.address, delegate), a.is_writable),
    )
}

/// The requests of inner instructions, in order.
pub open spec fn ixs_requests(ixs: Seq<InnerInstruction>, delegate: Pubkey) -> Seq<AccountRequest>
    decreases ixs.len(),
{
    if ixs.len() == 0 {
        Seq::empty()
    } else {
        ixs_requests(ixs.drop_last(), delegate) + ix_requests(ixs.last(), delegate)
    }
}

/// The requests of tasks, in order.
pub open spec fn tasks_requests(tasks: Seq<Task>, delegate: Pubkey) -> Seq<AccountRequest>
    decreases tasks.len(),
{
    if tasks.len() == 0 {
        Seq::empty()
    } else {
        tasks_requests(tasks.drop_last(), delegate) + ixs_requests(tasks.last().ixs@, delegate)
    }
}

/// The instructions of a transaction that executes `n` tasks from `first` on.
pub open spec fn planned(with_start: bool, first: int, n: nat) -> Seq<PlannedInstruction> {
    (if with_start {
        seq![PlannedInstruction::QueueStart]
    } else {
        Seq::empty()
    }) + Seq::new(n, |i: int| PlannedInstruction::TaskExec { task_id: (first + i) as u64 })
}

/// The transaction that executes `tasks`, the first of index `first`.
pub open spec fn chunk_view(
    queue: Pubkey,
    manager: Pubkey,
    tasks: Seq<Task>,
    first: int,
    with_start: bool,
    delegate: Pubkey,
) -> TxPlanView {
    TxPlanView {
        queue,
        manager,
        payer: delegate,
        instructions: planned(with_start, first, tasks.len()),
        accounts: merged(tasks_requests(tasks, delegate)),
    }
}

/// Builds the transaction that executes `tasks[lo..hi]`, of indices from
/// `first_id` on.
pub fn build_chunk(
    queue: Pubkey,
    manager: Pubkey,
    tasks: &Vec<Task>,
    lo: usize,
    hi: usize,
    first_id: u64,
    with_start: bool,
    delegate: Pubkey,
) -> (r: TxPlan)
    requires
        lo <= hi <= tasks@.len(),
        first_id + (hi - lo) <= u64::MAX,
    ensures
        r@ == chunk_view(queue, manager, tasks@.subrange(lo as int, hi as int), first_id as int, with_start, delegate),
{
    let mut instructions: Vec<PlannedInstruction> = Vec::new();
    if with_start {
        instructions.push(PlannedInstruction::QueueStart);
    }
    let ghost head = instructions@;
    let mut accounts: Vec<AccountMeta> = Vec::new();
    let ghost mut done: Seq<AccountRequest> = Seq::empty();
    let mut t: usize = lo;
    while t < hi
        invariant
            lo <= t <= hi <= tasks@.len(),
            first_id + (hi - lo) <= u64::MAX,
            head == (if with_start { seq![PlannedInstruction::QueueStart] } else { Seq::empty() }),
            instructions@ == head + Seq::new(
                (t - lo) as nat,
                |i: int| PlannedInstruction::TaskExec { task_id: (first_id + i) as u64 },
            ),
            done == tasks_requests(tasks@.subrange(lo as int, t as int), delegate),
            accounts@ == merged(done),
        decreases hi - t,
    {
        let task = &tasks[t];
        let ghost before = done;
        let mut k: usize = 0;
        while k < task.ixs.len()
            invariant
                0 <= k <= task.ixs@.len(),
                done == before + ixs_requests(task.ixs@.subrange(0, k as int), delegate),
                accounts@ == merged(done),
            decreases task.ixs@.len() - k,
        {
            let ix = &task.ixs[k];
            let ghost before_ix = done;
            merge_account(&mut accounts, ix.program_id, false);
            proof {
                assert(done.push((ix.program_id, false)).drop_last() =~= done);
                done = done.push((ix.program_id, false));
            }
            let mut a: usize = 0;
            while a < ix.accounts.len()
                invariant
                    0 <= a <= ix.accounts@.len(),
                    done == before_ix + seq![(ix.program_id, false)] + ix.accounts@.subrange(0, a as int).map_values(
                        |acc: InnerAccount| (resolve(acc.address, delegate), acc.is_writable),
                    ),
                    accounts@ == merged(done),
                decreases ix.accounts@.len() - a,
            {
                let acc = ix.accounts[a];
                let p = match acc.address {
                    AccountAddress::Fixed(p) => p,
                    AccountAddress::RequiresDelegateSubstitution => delegate,
                };
                merge_account(&mut accounts, p, acc.is_writable);
                proof {
                    assert(done.push((p, acc.is_writable)).drop_last() =~= done);
                    done = done.push((p, acc.is_writable));
                    assert(done =~= before_ix + seq![(ix.program_id, false)] + ix.accounts@.subrange(0, a + 1).map_values(
                        |acc: InnerAccount| (resolve(acc.address, delegate), acc.is_writable),
                    ));
                }
                a = a + 1;
            }
            proof {
                assert(ix.accounts@.subrange(0, ix.accounts@.len() as int) =~= ix.accounts@);
                let s = task.ixs@.subrange(0, k + 1);
                assert(s.drop_last() =~= task.ixs@.subrange(0, k as int));
                assert(done =~= before + ixs_requests(s, delegate));
            }
            k = k + 1;
        }
        proof {
            assert(task.ixs@.subrange(0, task.ixs@.len() as int) =~= task.ixs@);
            let s = tasks@.subrange(lo as int, t + 1);
            assert(s.drop_last() =~= tasks@.subrange(lo as int, t as int));
        }
        instructions.push(PlannedInstruction::TaskExec { task_id: first_id + (t - lo) as u64 });
        proof {
            assert(instructions@ =~= head + Seq::new(
                (t + 1 - lo) as nat,
                |i: int| PlannedInstruction::TaskExec { task_id: (first_id + i) as u64 },
            ));
        }
        t = t + 1;
    }
    TxPlan { queue, manager, payer: delegate, instructions, accounts }
}

/// The index of the first task that a run of `q` executes.
pub open spec fn first_task(q: Queue) -> u64 {
    match q.status {
        QueueStatus::Processing { task_id } => task_id,
        _ => 0,
    }
}

/// How many tasks of `q` are left to execute.
pub open spec fn remaining(q: Queue) -> nat {
    if first_task(q) < q.task_count {
        (q.task_count - first_task(q)) as nat
    } else {
        0
    }
}

/// The transactions that execute `tasks`, the first of index `first`, at most
/// `max` tasks in each; only the first of them starts the run if `with_start`.
pub open spec fn chunk_views(
    queue: Pubkey,
    manager: Pubkey,
    tasks: Seq<Task>,
    first: int,
    with_start: bool,
    delegate: Pubkey,
    max: nat,
) -> Seq<TxPlanView>
    decreases tasks.len(),
{
    if max == 0 {
        Seq::empty()
    } else if tasks.len() == 0 {
        if with_start {
            seq![chunk_view(queue, manager, tasks, first, true, delegate)]
        } else {
            Seq::empty()
        }
    } else {
        let n = if tasks.len() < max { tasks.len() } else { max };
        seq![chunk_view(queue, manager, tasks.take(n as int), first, with_start, delegate)]
            + chunk_views(queue, manager, tasks.skip(n as int), first + n, false, delegate, max)
    }
}

/// Why `build_queue_tx` builds nothing for `q`, if it does not.
pub open spec fn build_error(
    q: Queue,
    n_tasks: nat,
    now: i64,
    position: PoolPosition,
    max_tasks: u64,
) -> Option<BuildError> {
    if q.exec_at.is_none() {
        Some(BuildError::NotDue)
    } else if !may_act_spec(position, now, q.exec_at.unwrap(), GRACE_PERIOD_SECONDS) {
        Some(BuildError::NotAuthorized)
    } else if q.status == QueueStatus::Paused {
        Some(BuildError::QueuePaused)
    } else if max_tasks == 0 {
        Some(BuildError::OversizedQueue)
    } else if n_tasks < remaining(q) {
        Some(BuildError::SubmissionPrepFailed)
    } else {
        None
    }
}

/// The views of `plans`, in order.
pub open spec fn plan_views(plans: Seq<TxPlan>) -> Seq<TxPlanView> {
    plans.map_values(|p: TxPlan| p@)
}

/// The transactions that execute the queue `q`, at `queue_key`, at time `now`.
pub open spec fn queue_plans(
    queue_key: Pubkey,
    q: Queue,
    tasks: Seq<Task>,
    delegate: Pubkey,
    max_tasks: u64,
) -> Seq<TxPlanView> {
    chunk_views(
        queue_key,
        q.manager,
        tasks.take(remaining(q) as int),
        first_task(q) as int,
        q.status == QueueStatus::Pending,
        delegate,
        max_tasks as nat,
    )
}

/// Builds the transactions that execute what is left of the queue `queue` at
/// `queue_key`, with `delegate` as payer and at most `max_tasks` tasks in
/// each. `tasks` holds the queue's tasks from its first unexecuted one on;
/// `now` is the ledger time and `position` this node's pool position.
pub fn build_queue_tx(
    queue_key: Pubkey,
    queue: &Queue,
    tasks: &Vec<Task>,
    now: i64,
    position: &PoolPosition,
    delegate: Pubkey,
    max_tasks: u64,
) -> (r: Result<Vec<TxPlan>, BuildError>)
    ensures
        match r {
            Ok(plans) => build_error(*queue, tasks@.len(), now, *position, max_tasks).is_none()
                && plan_views(plans@) == queue_plans(queue_key, *queue, tasks@, delegate, max_tasks),
            Err(e) => build_error(*queue, tasks@.len(), now, *position, max_tasks) == Some(e),
        },
{
    let due = match queue.exec_at {
        None => return Err(BuildError::NotDue),
        Some(t) => t,
    };
    if !may_act(position, now, due, GRACE_PERIOD_SECONDS) {
        return Err(BuildError::NotAuthorized);
    }
    let (first, with_start) = match queue.status {
        QueueStatus::Paused => return Err(BuildError::QueuePaused),
        QueueStatus::Pending => (0u64, true),
        QueueStatus::Processing { task_id } => (task_id, false),
    };
    if max_tasks == 0 {
        return Err(BuildError::OversizedQueue);
    }
    let count: u64 = if first < queue.task_count { queue.task_count - first } else { 0 };
    if (tasks.len() as u64) < count {
        return Err(BuildError::SubmissionPrepFailed);
    }
    let n = count as usize;
    let ghost all = tasks@.take(n as int);
    let ghost goal = queue_plans(queue_key, *queue, tasks@, delegate, max_tasks);
    let mut plans: Vec<TxPlan> = Vec::new();
    let mut lo: usize = 0;
    let mut start = with_start;
    while lo < n || start
        invariant
            lo <= n <= tasks@.len(),
            n == remaining(*queue),
            first == first_task(*queue),
            first + n <= u64::MAX,
            max_tasks > 0,
            all == tasks@.take(n as int),
            goal == chunk_views(queue_key, queue.manager, all, first as int, with_start, delegate, max_tasks as nat),
            start ==> lo == 0 && start == with_start,
            plan_views(plans@) + chunk_views(
                queue_key,
                queue.manager,
                tasks@.subrange(lo as int, n as int),
                first + lo,
                start,
                delegate,
                max_tasks as nat,
            ) == goal,
        decreases n - lo + (if start { 1int } else { 0 }),
    {
        let hi: usize = if ((n - lo) as u64) > max_tasks { lo + max_tasks as usize } else { n };
        let plan = build_chunk(queue_key, queue.manager, tasks, lo, hi, first + lo as u64, start, delegate);
        proof {
            let rest = tasks@.subrange(lo as int, n as int);
            assert(rest.take((hi - lo) as int) =~= tasks@.subrange(lo as int, hi as int));
            assert(rest.skip((hi - lo) as int) =~= tasks@.subrange(hi as int, n as int));
            if lo == 0 {
                assert(rest =~= all);
            }
            assert(plan_views(plans@.push(plan)) =~= plan_views(plans@).push(plan@));
        }
        plans.push(plan);
        proof {
            let rest = tasks@.subrange(lo as int, n as int);
            if rest.len() == 0 {
                assert(chunk_views(queue_key, queue.manager, tasks@.subrange(hi as int, n as int), first + hi, false, delegate, max_tasks as nat) =~= Seq::empty());
            }
            assert(plan_views(plans@) + chunk_views(
                queue_key,
                queue.manager,
                tasks@.subrange(hi as int, n as int),
                first + hi,
                false,
                delegate,
                max_tasks as nat,
            ) =~= goal);
        }
        lo = hi;
        start = false;
    }
    proof {
        assert(tasks@.subrange(lo as int, n as int).len() == 0);
        assert(plan_views(plans@) =~= goal);
    }
    Ok(plans)
}

} // verus!
