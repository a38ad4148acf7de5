use jobtracker::collectors::CollectedJob;
use jobtracker::store::Store;

fn posting(company: &str, title: &str, source_id: &str, salary_min: Option<i32>) -> CollectedJob {
    CollectedJob {
        company_name: company.to_owned(),
        title: title.to_owned(),
        url: Some("https://example.test/apply".to_owned()),
        location: Some("Berlin".to_owned()),
        remote_type: Some("Remote".to_owned()),
        salary_min,
        salary_max: None,
        salary_currency: None,
        description: None,
        source: "hiringcafe".to_owned(),
        source_id: source_id.to_owned(),
        raw_data: None,
    }
}

#[test]
fn find_or_create_creates_then_finds() {
    let mut store = Store::new();
    let first = store.find_or_create("Acme", 10);
    let second = store.find_or_create("Acme", 20);
    assert_eq!(first.id, second.id);
    assert_eq!(second.name, "Acme");
    assert_eq!(second.created_at, 10);
    let other = store.find_or_create("Globex", 30);
    assert_ne!(other.id, first.id);
}

#[test]
fn reconcile_counts_new_and_updated() {
    let mut store = Store::new();
    let batch = vec![
        posting("Acme", "Engineer", "j-1", Some(100)),
        posting("Acme", "Designer", "j-2", None),
    ];
    let (found, new, updated) = store.upsert_jobs(batch, 5);
    assert_eq!((found, new, updated), (2, 2, 0));

    let batch2 = vec![posting("Acme", "Engineer II", "j-1", Some(120))];
    let (found2, new2, updated2) = store.upsert_jobs(batch2, 6);
    assert_eq!((found2, new2, updated2), (1, 0, 1));
}

#[test]
fn repeated_key_yields_one_row_with_second_values_and_first_found_at() {
    let mut store = Store::new();
    let (_, new1, updated1) = store.upsert_jobs(vec![posting("Acme", "Engineer", "j-1", Some(100))], 5);
    assert_eq!((new1, updated1), (1, 0));

    let company = store.find_or_create("Acme", 6);
    let input = posting("Acme", "Staff Engineer", "j-1", Some(150)).to_create(company.id);
    let (job, inserted) = store.upsert(input, 7);
    assert!(!inserted);
    assert_eq!(job.title, "Staff Engineer");
    assert_eq!(job.salary_min, Some(150));
    assert_eq!(job.found_at, 5);
    assert_eq!(job.updated_at, 7);
    assert_eq!(job.source_id.as_deref(), Some("j-1"));
}

#[test]
fn upsert_without_source_id_always_inserts() {
    let mut store = Store::new();
    let company = store.find_or_create("Acme", 1);
    let mut input = posting("Acme", "Engineer", "ignored", None).to_create(company.id);
    input.source_id = None;
    let (a, ins_a) = store.upsert(input, 2);
    let mut input2 = posting("Acme", "Engineer", "ignored", None).to_create(company.id);
    input2.source_id = None;
    let (b, ins_b) = store.upsert(input2, 3);
    assert!(ins_a && ins_b);
    assert_ne!(a.id, b.id);
}

#[test]
fn company_resolution_collapses_across_two_batches() {
    let mut store = Store::new();
    store.upsert_jobs(vec![posting("Initech", "Engineer", "a-1", None)], 1);
    store.upsert_jobs(vec![posting("Initech", "Manager", "a-2", None)], 2);
    let c1 = store.find_or_create("Initech", 3);
    assert_eq!(c1.created_at, 1);
}
