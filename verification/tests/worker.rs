use jobtracker::api::{IngestJob, ingest, trigger_run};
use jobtracker::collector::{Collector, UpdateCollector};
use jobtracker::collector_run::{RunQueue, RunStatus};
use jobtracker::collectors::{CollectedJob, get_collector};
use jobtracker::error::AppError;
use jobtracker::hiringcafe::CollectError;
use jobtracker::json::JVal;
use jobtracker::runner::{process_outcome, worker_startup};
use jobtracker::store::Store;

fn collector_row(enabled: bool) -> Collector {
    Collector {
        id: 1,
        name: "hiringcafe".to_owned(),
        enabled,
        config: JVal::Obj(Vec::new()),
        last_run_at: None,
        last_error: None,
        created_at: 0,
        updated_at: 0,
    }
}

fn posting(source_id: &str) -> CollectedJob {
    CollectedJob {
        company_name: "Acme".to_owned(),
        title: "Engineer".to_owned(),
        url: None,
        location: None,
        remote_type: None,
        salary_min: None,
        salary_max: None,
        salary_currency: None,
        description: None,
        source: "hiringcafe".to_owned(),
        source_id: source_id.to_owned(),
        raw_data: None,
    }
}

#[test]
fn registry_knows_only_the_compiled_collector() {
    assert!(get_collector("hiringcafe").is_some());
    assert!(get_collector("otherboard").is_none());
    assert_eq!(get_collector("hiringcafe").unwrap().name(), "hiringcafe");
}

#[test]
fn startup_rejects_unknown_missing_and_disabled() {
    let unknown = worker_startup("otherboard", None).unwrap_err();
    assert!(matches!(unknown, AppError::NotFound(_)));
    assert_eq!(unknown.message(), "Not found: Unknown collector: otherboard");

    let missing = worker_startup("hiringcafe", None).unwrap_err();
    assert_eq!(missing.message(), "Not found: Collector 'hiringcafe' not found");

    let disabled_row = collector_row(false);
    let disabled = worker_startup("hiringcafe", Some(&disabled_row)).unwrap_err();
    assert!(matches!(disabled, AppError::BadRequest(_)));
    assert_eq!(disabled.message(), "Bad request: Collector 'hiringcafe' is disabled");

    let enabled_row = collector_row(true);
    assert!(worker_startup("hiringcafe", Some(&enabled_row)).is_ok());
}

#[test]
fn successful_outcome_reconciles_and_marks_succeeded() {
    let mut queue = RunQueue::new();
    let mut store = Store::new();
    queue.enqueue("hiringcafe", "manual", 1);
    let run = queue.claim_next("hiringcafe", 2).expect("claim");

    let booked = process_outcome(
        &mut queue,
        &mut store,
        run.id,
        Ok(vec![posting("p-1"), posting("p-2")]),
        3,
    );
    assert!(booked.is_none());

    let rows = queue.recent(None, 10);
    assert_eq!(rows[0].status, RunStatus::Succeeded);
    assert_eq!(rows[0].jobs_found, Some(2));
    assert_eq!(rows[0].jobs_new, Some(2));
    assert_eq!(rows[0].jobs_updated, Some(0));

    let acme = store.find_or_create("Acme", 9);
    assert_eq!(acme.created_at, 3);
}

#[test]
fn failed_outcome_marks_failed_with_the_message() {
    let mut queue = RunQueue::new();
    let mut store = Store::new();
    queue.enqueue("hiringcafe", "manual", 1);
    let run = queue.claim_next("hiringcafe", 2).expect("claim");

    let booked = process_outcome(&mut queue, &mut store, run.id, Err(CollectError::RateLimited), 3);
    assert_eq!(booked.as_deref(), Some("429 Too Many Requests"));

    let rows = queue.recent(None, 10);
    assert_eq!(rows[0].status, RunStatus::Failed);
    assert_eq!(rows[0].error.as_deref(), Some("429 Too Many Requests"));
}

#[test]
fn trigger_run_enqueues_manual_only_when_enabled() {
    let mut queue = RunQueue::new();
    let denied = trigger_run(&mut queue, &collector_row(false), 5).unwrap_err();
    assert_eq!(denied.message(), "Bad request: Collector 'hiringcafe' is disabled");
    assert!(queue.recent(None, 10).is_empty());

    let run = trigger_run(&mut queue, &collector_row(true), 6).expect("triggered");
    assert_eq!(run.run_kind, "manual");
    assert_eq!(run.status, RunStatus::Pending);
    assert_eq!(run.requested_at, 6);
}

#[test]
fn ingest_rejects_an_empty_batch() {
    let mut queue = RunQueue::new();
    let mut store = Store::new();
    let err = ingest(&mut queue, &mut store, "hiringcafe", Vec::new(), 1).unwrap_err();
    assert_eq!(err.message(), "Bad request: No jobs provided");
    assert!(queue.recent(None, 10).is_empty());
}

#[test]
fn ingest_runs_inline_and_reports_counts() {
    let mut queue = RunQueue::new();
    let mut store = Store::new();
    let job = |sid: &str| IngestJob {
        company_name: "Acme".to_owned(),
        title: "Engineer".to_owned(),
        url: None,
        location: None,
        remote_type: None,
        salary_min: None,
        salary_max: None,
        salary_currency: None,
        description: None,
        source: "push".to_owned(),
        source_id: sid.to_owned(),
        raw_data: None,
    };

    let first = ingest(&mut queue, &mut store, "pusher", vec![job("a"), job("b")], 10).expect("ok");
    assert_eq!(first.found, 2);
    assert_eq!(first.new, 2);
    assert_eq!(first.updated, 0);

    let second = ingest(&mut queue, &mut store, "pusher", vec![job("a")], 11).expect("ok");
    assert_eq!(second.found, 1);
    assert_eq!(second.new, 0);
    assert_eq!(second.updated, 1);
    assert_ne!(first.run_id, second.run_id);

    let rows = queue.recent(Some("pusher"), 10);
    assert_eq!(rows.len(), 2);
    assert!(rows.iter().all(|r| r.status == RunStatus::Succeeded && r.run_kind == "api"));
}

#[test]
fn collector_update_and_bookkeeping_merge() {
    let row = collector_row(true);
    let updated = row.apply_update(
        UpdateCollector { enabled: Some(false), config: None },
        50,
    );
    assert!(!updated.enabled);
    assert_eq!(updated.updated_at, 50);

    let booked = updated.apply_record_run(Some("boom".to_owned()), 60);
    assert_eq!(booked.last_run_at, Some(60));
    assert_eq!(booked.last_error.as_deref(), Some("boom"));

    let cleared = booked.apply_record_run(None, 70);
    assert!(cleared.last_error.is_none());
    assert_eq!(cleared.last_run_at, Some(70));
}
