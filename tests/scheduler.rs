use cronos_scheduler::accounts::{merge_account, AccountMeta};
use cronos_scheduler::actionable::ActionableSet;
use cronos_scheduler::builder::{
    build_queue_tx, AccountAddress, BuildError, InnerAccount, InnerInstruction, PlannedInstruction,
    Queue, QueueStatus, Task,
};
use cronos_scheduler::clock_index::ClockIndex;
use cronos_scheduler::delegation::{may_act, PoolPosition, GRACE_PERIOD_SECONDS};
use cronos_scheduler::key::{key_eq, Pubkey};
use cronos_scheduler::observer::{QueueAccounts, QueueObserver};
use cronos_scheduler::pending_index::PendingIndex;

fn key(n: u64) -> Pubkey {
    (n, 0, 0, 0)
}

fn sorted(mut v: Vec<Pubkey>) -> Vec<Pubkey> {
    v.sort();
    v
}

fn no_slot() -> PoolPosition {
    PoolPosition { current_position: None }
}

fn ix(program: Pubkey, accounts: Vec<(AccountAddress, bool)>) -> InnerInstruction {
    InnerInstruction {
        program_id: program,
        accounts: accounts
            .into_iter()
            .map(|(address, is_writable)| InnerAccount { address, is_writable })
            .collect(),
        data: vec![1, 2, 3],
    }
}

fn plain_task(program: u64) -> Task {
    Task { ixs: vec![ix(key(program), vec![])] }
}

fn queue(status: QueueStatus, task_count: u64, exec_at: Option<i64>) -> Queue {
    Queue { manager: key(900), status, task_count, exec_at }
}

fn meta(n: u64, is_writable: bool) -> AccountMeta {
    AccountMeta { pubkey: key(n), is_signer: false, is_writable }
}

#[test]
fn key_equality() {
    assert!(key_eq(&key(3), &key(3)));
    assert!(!key_eq(&key(3), &(3, 0, 0, 1)));
}

#[test]
fn clock_consume_confirmed_prunes_stale_samples() {
    let mut clock = ClockIndex::new();
    clock.record_sample(5, 100);
    clock.record_sample(6, 110);
    clock.record_sample(8, 130);
    clock.record_sample(6, 111);
    assert_eq!(clock.timestamp_at(6), Some(111));
    assert_eq!(clock.consume_confirmed(6), Some(111));
    assert_eq!(clock.timestamp_at(5), None);
    assert_eq!(clock.timestamp_at(6), None);
    assert_eq!(clock.timestamp_at(8), Some(130));
}

#[test]
fn clock_consume_without_sample_still_prunes() {
    let mut clock = ClockIndex::new();
    clock.record_sample(3, 30);
    clock.record_sample(9, 90);
    assert_eq!(clock.consume_confirmed(7), None);
    assert_eq!(clock.timestamp_at(3), None);
    assert_eq!(clock.timestamp_at(9), Some(90));
    assert_eq!(clock.consume_confirmed(9), Some(90));
    assert_eq!(clock.consume_confirmed(9), None);
}

#[test]
fn pending_drain_returns_due_queues_once() {
    let mut pending = PendingIndex::new();
    pending.insert(1000, key(1));
    pending.insert(1000, key(2));
    pending.insert(1000, key(1));
    pending.insert(2000, key(3));
    assert_eq!(sorted(pending.drain_due(1500)), vec![key(1), key(2)]);
    assert_eq!(pending.due_at(key(1)), None);
    assert_eq!(pending.due_at(key(3)), Some(2000));
    assert!(pending.drain_due(1500).is_empty());
    assert_eq!(pending.drain_due(2000), vec![key(3)]);
    assert!(pending.drain_due(i64::MAX).is_empty());
}

#[test]
fn pending_reinsert_moves_queue_to_new_bucket() {
    let mut pending = PendingIndex::new();
    pending.insert(1000, key(1));
    pending.insert(3000, key(1));
    assert!(pending.drain_due(2000).is_empty());
    pending.remove_queue(key(1));
    assert!(pending.drain_due(5000).is_empty());
}

#[test]
fn actionable_promote_twice_is_promote_once() {
    let ids = vec![key(4), key(2), key(4)];
    let mut once = ActionableSet::new();
    once.promote(&ids);
    let mut twice = ActionableSet::new();
    twice.promote(&ids);
    twice.promote(&ids);
    assert_eq!(sorted(once.snapshot()), vec![key(2), key(4)]);
    assert_eq!(sorted(twice.snapshot()), sorted(once.snapshot()));
    twice.evict(key(2));
    assert!(!twice.contains(key(2)));
    assert!(twice.contains(key(4)));
}

#[test]
fn delegate_may_always_act() {
    let pos = PoolPosition { current_position: Some(0) };
    assert!(may_act(&pos, 0, 1000, GRACE_PERIOD_SECONDS));
    assert!(may_act(&pos, i64::MIN, i64::MAX, GRACE_PERIOD_SECONDS));
}

#[test]
fn non_delegate_waits_for_grace_period() {
    assert_eq!(GRACE_PERIOD_SECONDS, 10);
    assert!(!may_act(&no_slot(), 1009, 1000, GRACE_PERIOD_SECONDS));
    assert!(may_act(&no_slot(), 1010, 1000, GRACE_PERIOD_SECONDS));
    assert!(may_act(&no_slot(), 2000, 1000, GRACE_PERIOD_SECONDS));
    assert!(!may_act(&no_slot(), i64::MAX, i64::MAX, GRACE_PERIOD_SECONDS));
}

#[test]
fn merge_account_upgrades_to_writable() {
    let mut metas = Vec::new();
    merge_account(&mut metas, key(1), false);
    merge_account(&mut metas, key(2), false);
    merge_account(&mut metas, key(1), true);
    merge_account(&mut metas, key(1), false);
    assert_eq!(metas, vec![meta(1, true), meta(2, false)]);
}

#[test]
fn builder_dedups_accounts_across_tasks() {
    let program = 50;
    let shared = 60;
    let tasks = vec![
        Task { ixs: vec![ix(key(program), vec![(AccountAddress::Fixed(key(shared)), false)])] },
        Task { ixs: vec![ix(key(program), vec![(AccountAddress::Fixed(key(shared)), true)])] },
    ];
    let q = queue(QueueStatus::Processing { task_id: 0 }, 2, Some(0));
    let plans = build_queue_tx(key(1), &q, &tasks, 100, &no_slot(), key(77), 10).unwrap();
    assert_eq!(plans.len(), 1);
    assert_eq!(plans[0].accounts, vec![meta(program, false), meta(shared, true)]);
    let entries = plans[0].accounts.iter().filter(|m| m.pubkey == key(shared)).count();
    assert_eq!(entries, 1);
}

#[test]
fn builder_substitutes_delegate_for_payer_placeholder() {
    let tasks = vec![Task {
        ixs: vec![ix(
            key(50),
            vec![
                (AccountAddress::RequiresDelegateSubstitution, true),
                (AccountAddress::Fixed(key(61)), false),
            ],
        )],
    }];
    let q = queue(QueueStatus::Processing { task_id: 3 }, 4, Some(0));
    let plans = build_queue_tx(key(1), &q, &tasks, 100, &no_slot(), key(77), 10).unwrap();
    assert_eq!(plans[0].payer, key(77));
    assert_eq!(plans[0].queue, key(1));
    assert_eq!(plans[0].manager, key(900));
    assert_eq!(plans[0].instructions, vec![PlannedInstruction::TaskExec { task_id: 3 }]);
    assert_eq!(plans[0].accounts, vec![meta(50, false), meta(77, true), meta(61, false)]);
}

#[test]
fn builder_errors() {
    let tasks = vec![plain_task(50), plain_task(51)];
    let pos = PoolPosition { current_position: Some(1) };
    let not_due = queue(QueueStatus::Pending, 2, None);
    assert_eq!(build_queue_tx(key(1), &not_due, &tasks, 0, &pos, key(7), 5).unwrap_err(), BuildError::NotDue);
    let paused = queue(QueueStatus::Paused, 2, Some(0));
    assert_eq!(build_queue_tx(key(1), &paused, &tasks, 0, &pos, key(7), 5).unwrap_err(), BuildError::QueuePaused);
    let pending = queue(QueueStatus::Pending, 2, Some(0));
    assert_eq!(build_queue_tx(key(1), &pending, &tasks, 0, &pos, key(7), 0).unwrap_err(), BuildError::OversizedQueue);
    let three = queue(QueueStatus::Pending, 3, Some(0));
    assert_eq!(
        build_queue_tx(key(1), &three, &tasks, 0, &pos, key(7), 5).unwrap_err(),
        BuildError::SubmissionPrepFailed
    );
    assert_eq!(
        build_queue_tx(key(1), &pending, &tasks, 5, &no_slot(), key(7), 5).unwrap_err(),
        BuildError::NotAuthorized
    );
}

#[test]
fn builder_chunks_tasks_by_limit() {
    let tasks: Vec<Task> = (0..5).map(|i| plain_task(50 + i)).collect();
    let q = queue(QueueStatus::Pending, 5, Some(0));
    let plans = build_queue_tx(key(1), &q, &tasks, 100, &no_slot(), key(7), 2).unwrap();
    assert_eq!(plans.len(), 3);
    assert_eq!(
        plans[0].instructions,
        vec![
            PlannedInstruction::QueueStart,
            PlannedInstruction::TaskExec { task_id: 0 },
            PlannedInstruction::TaskExec { task_id: 1 },
        ]
    );
    assert_eq!(
        plans[1].instructions,
        vec![PlannedInstruction::TaskExec { task_id: 2 }, PlannedInstruction::TaskExec { task_id: 3 }]
    );
    assert_eq!(plans[2].instructions, vec![PlannedInstruction::TaskExec { task_id: 4 }]);
    assert_eq!(plans[2].accounts, vec![meta(54, false)]);
}

#[test]
fn builder_pending_queue_without_tasks_only_starts() {
    let q = queue(QueueStatus::Pending, 0, Some(0));
    let plans = build_queue_tx(key(1), &q, &Vec::new(), 100, &no_slot(), key(7), 2).unwrap();
    assert_eq!(plans.len(), 1);
    assert_eq!(plans[0].instructions, vec![PlannedInstruction::QueueStart]);
    assert!(plans[0].accounts.is_empty());
    let done = queue(QueueStatus::Processing { task_id: 4 }, 4, Some(0));
    assert!(build_queue_tx(key(1), &done, &Vec::new(), 100, &no_slot(), key(7), 2).unwrap().is_empty());
}

#[test]
fn end_to_end_grace_period_then_start_and_two_tasks() {
    let mut observer = QueueObserver::new();
    let q = queue(QueueStatus::Pending, 2, Some(1000));
    observer.handle_updated_clock(50, 1005);
    observer.handle_updated_queue(&q, key(1));
    assert_eq!(observer.pending_due_at(key(1)), Some(1000));
    observer.handle_confirmed_slot(50);
    assert!(observer.is_actionable(key(1)));
    assert_eq!(observer.pending_due_at(key(1)), None);
    assert_eq!(observer.timestamp_at(50), None);
    assert_eq!(observer.actionable_snapshot(), vec![key(1)]);

    let tasks = vec![plain_task(50), plain_task(51)];
    for now in [1005, 1009] {
        assert_eq!(
            build_queue_tx(key(1), &q, &tasks, now, &no_slot(), key(7), 10).unwrap_err(),
            BuildError::NotAuthorized
        );
    }
    let plans = build_queue_tx(key(1), &q, &tasks, 1010, &no_slot(), key(7), 10).unwrap();
    assert_eq!(plans.len(), 1);
    assert_eq!(
        plans[0].instructions,
        vec![
            PlannedInstruction::QueueStart,
            PlannedInstruction::TaskExec { task_id: 0 },
            PlannedInstruction::TaskExec { task_id: 1 },
        ]
    );
}

#[test]
fn confirmed_slot_without_sample_moves_nothing() {
    let mut observer = QueueObserver::new();
    observer.handle_updated_queue(&queue(QueueStatus::Pending, 1, Some(10)), key(1));
    observer.handle_confirmed_slot(3);
    assert!(!observer.is_actionable(key(1)));
    assert_eq!(observer.pending_due_at(key(1)), Some(10));
}

#[test]
fn queue_update_evicts_from_actionable_set() {
    let mut observer = QueueObserver::new();
    let q = queue(QueueStatus::Pending, 1, Some(1000));
    observer.handle_updated_clock(7, 2000);
    observer.handle_updated_queue(&q, key(1));
    observer.handle_confirmed_slot(7);
    assert!(observer.is_actionable(key(1)));
    observer.handle_updated_queue(&q, key(1));
    assert!(!observer.is_actionable(key(1)));
    assert_eq!(observer.pending_due_at(key(1)), Some(1000));
    observer.handle_updated_queue(&queue(QueueStatus::Paused, 1, None), key(1));
    assert_eq!(observer.pending_due_at(key(1)), None);
}

#[test]
fn sweep_evicts_all_and_keeps_going_past_failures() {
    let mut observer = QueueObserver::new();
    observer.handle_updated_clock(7, 2000);
    observer.handle_updated_queue(&queue(QueueStatus::Pending, 1, Some(1000)), key(1));
    observer.handle_updated_queue(&queue(QueueStatus::Pending, 1, Some(1000)), key(2));
    observer.handle_confirmed_slot(7);
    let fetched = vec![
        QueueAccounts { key: key(1), queue: queue(QueueStatus::Paused, 1, Some(1000)), tasks: vec![plain_task(50)] },
        QueueAccounts { key: key(2), queue: queue(QueueStatus::Pending, 1, Some(1000)), tasks: vec![plain_task(51)] },
    ];
    let out = observer.build_queue_txs(&fetched, 2000, &no_slot(), key(7), 10);
    assert_eq!(out.len(), 1);
    assert_eq!(out[0].0, key(2));
    assert_eq!(out[0].1.len(), 1);
    assert_eq!(out[0].1[0].accounts, vec![meta(51, false)]);
    assert!(observer.actionable_snapshot().is_empty());
}
