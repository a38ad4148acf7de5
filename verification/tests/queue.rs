use jobtracker::collector_run::{RunQueue, RunStatus};

#[test]
fn enqueue_sets_pending_and_requested_at() {
    let mut q = RunQueue::new();
    let run = q.enqueue("hiringcafe", "manual", 100);
    assert_eq!(run.collector_name, "hiringcafe");
    assert_eq!(run.run_kind, "manual");
    assert_eq!(run.status, RunStatus::Pending);
    assert_eq!(run.requested_at, 100);
    assert!(run.started_at.is_none());
    assert!(run.finished_at.is_none());
    assert!(run.jobs_found.is_none());
    assert!(run.error.is_none());
}

#[test]
fn claim_returns_each_pending_run_once_then_none() {
    let mut q = RunQueue::new();
    let a = q.enqueue("hiringcafe", "manual", 10);
    let b = q.enqueue("hiringcafe", "manual", 20);
    let c = q.enqueue("hiringcafe", "manual", 30);

    let r1 = q.claim_next("hiringcafe", 40).expect("first claim");
    let r2 = q.claim_next("hiringcafe", 41).expect("second claim");
    let r3 = q.claim_next("hiringcafe", 42).expect("third claim");
    assert!(q.claim_next("hiringcafe", 43).is_none());

    let mut ids = vec![r1.id, r2.id, r3.id];
    ids.sort();
    let mut expected = vec![a.id, b.id, c.id];
    expected.sort();
    assert_eq!(ids, expected);
    assert_eq!(r1.status, RunStatus::Running);
    assert_eq!(r1.started_at, Some(40));
}

#[test]
fn claim_takes_oldest_requested_first() {
    let mut q = RunQueue::new();
    let newer = q.enqueue("hiringcafe", "manual", 50);
    let older = q.enqueue("hiringcafe", "manual", 20);
    let r = q.claim_next("hiringcafe", 60).expect("claim");
    assert_eq!(r.id, older.id);
    let r2 = q.claim_next("hiringcafe", 61).expect("claim");
    assert_eq!(r2.id, newer.id);
}

#[test]
fn claim_breaks_ties_by_insertion_order() {
    let mut q = RunQueue::new();
    let first = q.enqueue("hiringcafe", "manual", 7);
    let second = q.enqueue("hiringcafe", "manual", 7);
    let r = q.claim_next("hiringcafe", 8).expect("claim");
    assert_eq!(r.id, first.id);
    let r2 = q.claim_next("hiringcafe", 9).expect("claim");
    assert_eq!(r2.id, second.id);
}

#[test]
fn claim_ignores_other_collectors() {
    let mut q = RunQueue::new();
    q.enqueue("otherboard", "manual", 1);
    assert!(q.claim_next("hiringcafe", 2).is_none());
    let r = q.claim_next("otherboard", 3).expect("claim");
    assert_eq!(r.collector_name, "otherboard");
}

#[test]
fn mark_succeeded_stores_counts_and_finish_time() {
    let mut q = RunQueue::new();
    let run = q.enqueue("hiringcafe", "manual", 1);
    let claimed = q.claim_next("hiringcafe", 2).expect("claim");
    assert_eq!(claimed.id, run.id);
    q.mark_succeeded(run.id, 5, 3, 2, 9);
    let rows = q.recent(Some("hiringcafe"), 10);
    assert_eq!(rows.len(), 1);
    assert_eq!(rows[0].status, RunStatus::Succeeded);
    assert_eq!(rows[0].jobs_found, Some(5));
    assert_eq!(rows[0].jobs_new, Some(3));
    assert_eq!(rows[0].jobs_updated, Some(2));
    assert_eq!(rows[0].finished_at, Some(9));
    assert_eq!(rows[0].started_at, Some(2));
}

#[test]
fn mark_failed_stores_message() {
    let mut q = RunQueue::new();
    let run = q.enqueue("hiringcafe", "manual", 1);
    q.claim_next("hiringcafe", 2);
    q.mark_failed(run.id, "429 Too Many Requests", 9);
    let rows = q.recent(None, 10);
    assert_eq!(rows.len(), 1);
    assert_eq!(rows[0].status, RunStatus::Failed);
    assert_eq!(rows[0].error.as_deref(), Some("429 Too Many Requests"));
    assert_eq!(rows[0].finished_at, Some(9));
}

#[test]
fn recover_stale_fails_only_this_collectors_running_runs() {
    let mut q = RunQueue::new();
    let mine = q.enqueue("hiringcafe", "manual", 1);
    let other = q.enqueue("otherboard", "manual", 1);
    let pending = q.enqueue("hiringcafe", "manual", 2);
    q.claim_next("hiringcafe", 3);
    q.claim_next("otherboard", 3);

    let swept = q.recover_stale("hiringcafe", 10);
    assert_eq!(swept, 1);

    let rows = q.recent(None, 10);
    let find = |id: u64| rows.iter().find(|r| r.id == id).expect("run");
    let mine_row = find(mine.id);
    assert_eq!(mine_row.status, RunStatus::Failed);
    assert_eq!(mine_row.error.as_deref(), Some("Worker crashed (stale recovery)"));
    assert_eq!(mine_row.finished_at, Some(10));
    assert_eq!(find(other.id).status, RunStatus::Running);
    assert_eq!(find(pending.id).status, RunStatus::Pending);
}

#[test]
fn recover_stale_on_empty_collector_sweeps_nothing() {
    let mut q = RunQueue::new();
    q.enqueue("hiringcafe", "manual", 1);
    assert_eq!(q.recover_stale("hiringcafe", 2), 0);
}

#[test]
fn recent_orders_newest_first_and_truncates() {
    let mut q = RunQueue::new();
    q.enqueue("hiringcafe", "a", 10);
    q.enqueue("hiringcafe", "b", 30);
    q.enqueue("hiringcafe", "c", 20);
    q.enqueue("otherboard", "d", 99);

    let rows = q.recent(Some("hiringcafe"), 2);
    assert_eq!(rows.len(), 2);
    assert_eq!(rows[0].requested_at, 30);
    assert_eq!(rows[1].requested_at, 20);

    let all = q.recent(None, 10);
    assert_eq!(all.len(), 4);
    assert_eq!(all[0].requested_at, 99);
}

#[test]
fn recent_with_zero_limit_is_empty() {
    let mut q = RunQueue::new();
    q.enqueue("hiringcafe", "manual", 1);
    assert!(q.recent(None, 0).is_empty());
    assert!(q.recent(Some("hiringcafe"), 0).is_empty());
}
