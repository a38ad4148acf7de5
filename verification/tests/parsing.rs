use jobtracker::hiringcafe::{
    CollectError, collect_cli_outcome, collect_native_outcome, extract_salary, parse_api_job,
    parse_cli_job, parse_results, should_fallback,
};
use jobtracker::json::JVal;

fn obj(fields: Vec<(&str, JVal)>) -> JVal {
    JVal::Obj(fields.into_iter().map(|(k, v)| (k.to_owned(), v)).collect())
}

fn str_val(v: &str) -> JVal {
    JVal::Str(v.to_owned())
}

fn api_hit(object_id: Option<&str>) -> JVal {
    let mut fields: Vec<(String, JVal)> = Vec::new();
    if let Some(id) = object_id {
        fields.push(("objectID".to_owned(), str_val(id)));
    }
    fields.push((
        "v5_processed_job_data".to_owned(),
        obj(vec![
            ("company_name", str_val("Acme")),
            ("core_job_title", str_val("Engineer")),
            ("formatted_workplace_location", str_val("Berlin, Germany")),
            ("workplace_type", str_val("Remote")),
            ("yearly_min_compensation", JVal::Num("90000.5".to_owned())),
            ("yearly_max_compensation", JVal::Num("120000".to_owned())),
            ("listed_compensation_currency", str_val("EUR")),
        ]),
    ));
    fields.push(("apply_url".to_owned(), str_val("https://example.test/a")));
    fields.push((
        "job_information".to_owned(),
        obj(vec![("description", str_val("Build things."))]),
    ));
    JVal::Obj(fields)
}

#[test]
fn api_job_parses_all_fields() {
    let job = parse_api_job(&api_hit(Some("oid-1"))).expect("parsed");
    assert_eq!(job.company_name, "Acme");
    assert_eq!(job.title, "Engineer");
    assert_eq!(job.source, "hiringcafe");
    assert_eq!(job.source_id, "oid-1");
    assert_eq!(job.location.as_deref(), Some("Berlin, Germany"));
    assert_eq!(job.remote_type.as_deref(), Some("Remote"));
    assert_eq!(job.salary_min, Some(90000));
    assert_eq!(job.salary_max, Some(120000));
    assert_eq!(job.salary_currency.as_deref(), Some("EUR"));
    assert_eq!(job.url.as_deref(), Some("https://example.test/a"));
    assert_eq!(job.description.as_deref(), Some("Build things."));
    assert!(job.raw_data.is_some());
}

#[test]
fn api_job_without_identifier_is_dropped() {
    assert!(parse_api_job(&api_hit(None)).is_none());
}

#[test]
fn api_job_falls_back_to_requisition_id_and_defaults() {
    let hit = obj(vec![
        ("requisition_id", str_val("req-9")),
        ("v5_processed_job_data", obj(vec![])),
    ]);
    let job = parse_api_job(&hit).expect("parsed");
    assert_eq!(job.source_id, "req-9");
    assert_eq!(job.company_name, "Unknown");
    assert_eq!(job.title, "Untitled");
    assert!(job.salary_min.is_none());
}

#[test]
fn results_without_identifier_are_excluded_from_the_sequence() {
    let data = obj(vec![(
        "results",
        JVal::Arr(vec![api_hit(Some("keep-1")), api_hit(None), api_hit(Some("keep-2"))]),
    )]);
    let jobs = parse_results(&data).expect("ok");
    assert_eq!(jobs.len(), 2);
    assert_eq!(jobs[0].source_id, "keep-1");
    assert_eq!(jobs[1].source_id, "keep-2");
}

#[test]
fn missing_results_list_fails_the_parse() {
    let data = obj(vec![("unrelated", JVal::Null)]);
    let err = parse_results(&data).unwrap_err();
    assert!(matches!(err, CollectError::MissingResults));
    assert_eq!(err.message(), "Missing 'results' in response");
}

#[test]
fn salary_extraction_truncates_and_saturates() {
    let vpd = obj(vec![
        ("yearly_min_compensation", JVal::Num("-1200.75".to_owned())),
        ("yearly_max_compensation", JVal::Num("99999999999".to_owned())),
    ]);
    let (min, max) = extract_salary(&vpd);
    assert_eq!(min, Some(-1200));
    assert_eq!(max, Some(i32::MAX));

    let vpd2 = obj(vec![
        ("yearly_min_compensation", str_val("90000")),
        ("yearly_max_compensation", JVal::Num("1e5".to_owned())),
    ]);
    let (min2, max2) = extract_salary(&vpd2);
    assert!(min2.is_none());
    assert!(max2.is_none());
}

#[test]
fn cli_job_requires_title_and_id() {
    let full = obj(vec![
        ("title", str_val("Engineer")),
        ("id", str_val("cli-1")),
        ("company", str_val("Acme")),
        ("location", str_val("Remote, EU")),
        ("workplace_type", str_val("Remote")),
        ("apply_url", str_val("https://example.test/b")),
        ("description_html", str_val("<p>Things</p>")),
    ]);
    let job = parse_cli_job(&full).expect("parsed");
    assert_eq!(job.title, "Engineer");
    assert_eq!(job.source_id, "cli-1");
    assert_eq!(job.company_name, "Acme");
    assert!(job.salary_min.is_none());

    let no_title = obj(vec![("id", str_val("cli-2"))]);
    assert!(parse_cli_job(&no_title).is_none());
    let no_id = obj(vec![("title", str_val("Engineer"))]);
    assert!(parse_cli_job(&no_id).is_none());
}

#[test]
fn rate_limit_triggers_fallback_but_server_error_does_not() {
    let rate_limited = collect_native_outcome(429, "").unwrap_err();
    assert!(matches!(rate_limited, CollectError::RateLimited));
    assert!(should_fallback(&rate_limited));
    assert_eq!(rate_limited.message(), "429 Too Many Requests");

    let server_error = collect_native_outcome(500, "").unwrap_err();
    assert!(matches!(server_error, CollectError::HttpStatus(500)));
    assert!(!should_fallback(&server_error));
    assert_eq!(server_error.message(), "HiringCafe returned 500");
}

#[test]
fn successful_fetch_parses_the_body() {
    let body = "{\"results\":[{\"objectID\":\"x1\",\"v5_processed_job_data\":{\"company_name\":\"Acme\",\"core_job_title\":\"Engineer\"}}]}";
    let jobs = collect_native_outcome(200, body).expect("ok");
    assert_eq!(jobs.len(), 1);
    assert_eq!(jobs[0].source_id, "x1");
    assert_eq!(jobs[0].company_name, "Acme");

    let bad = collect_native_outcome(200, "not json").unwrap_err();
    assert!(matches!(bad, CollectError::BadBody));
}

#[test]
fn cli_outcome_reports_tool_failures() {
    let failed = collect_cli_outcome(false, "", "boom").unwrap_err();
    assert!(matches!(failed, CollectError::ToolFailed(_)));
    assert_eq!(failed.message(), "hiringcafe-cli failed: boom");

    let garbled = collect_cli_outcome(true, "not json", "").unwrap_err();
    assert!(matches!(garbled, CollectError::ToolOutput));

    let ok = collect_cli_outcome(true, "{\"jobs\":[{\"title\":\"T\",\"id\":\"i1\"}]}", "").expect("ok");
    assert_eq!(ok.len(), 1);
    assert_eq!(ok[0].source_id, "i1");

    let empty = collect_cli_outcome(true, "{}", "").expect("ok");
    assert!(empty.is_empty());
}

#[test]
fn transport_errors_carry_their_detail() {
    let e = CollectError::Transport("connection reset".to_owned());
    assert_eq!(e.message(), "HiringCafe request failed: connection reset");
    assert!(!should_fallback(&e));
}
