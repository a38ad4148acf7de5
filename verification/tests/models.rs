use sha2::Digest;

use jobtracker::application::{
    Application, CreateApplication, UpdateApplication, all_statuses, dashboard_stats,
};
use jobtracker::auth::{bearer_token, generate_token, hash_token, mint_token};
use jobtracker::company::{Company, UpdateCompany};
use jobtracker::config::{Command, Config};
use jobtracker::error::AppError;
use jobtracker::event::{CreateEvent, Event};
use jobtracker::forms::{CreateJobForm, JobListQuery, UpdateAppForm, total_pages};
use jobtracker::job::{Job, JobFilters, UpdateJob};

fn company() -> Company {
    Company {
        id: 1,
        name: "Acme".to_owned(),
        website: Some("https://acme.test".to_owned()),
        careers_url: None,
        ats_platform: None,
        notes: None,
        created_at: 1,
        updated_at: 1,
    }
}

fn job() -> Job {
    Job {
        id: 1,
        company_id: 1,
        title: "Engineer".to_owned(),
        url: None,
        location: Some("Berlin".to_owned()),
        remote_type: None,
        salary_min: Some(100),
        salary_max: None,
        salary_currency: None,
        description: None,
        requirements: None,
        source: "manual".to_owned(),
        source_id: None,
        found_at: 1,
        expires_at: None,
        raw_data: None,
        created_at: 1,
        updated_at: 1,
    }
}

#[test]
fn company_update_merges_present_fields_only() {
    let updated = company().apply_update(
        UpdateCompany {
            name: None,
            website: Some("https://new.test".to_owned()),
            careers_url: None,
            ats_platform: None,
            notes: Some("note".to_owned()),
        },
        9,
    );
    assert_eq!(updated.name, "Acme");
    assert_eq!(updated.website.as_deref(), Some("https://new.test"));
    assert_eq!(updated.notes.as_deref(), Some("note"));
    assert_eq!(updated.updated_at, 9);
    assert_eq!(updated.created_at, 1);
}

#[test]
fn job_update_merges_and_preserves_found_at() {
    let updated = job().apply_update(
        UpdateJob {
            title: Some("Staff Engineer".to_owned()),
            url: None,
            location: None,
            remote_type: None,
            salary_min: Some(200),
            salary_max: None,
            description: None,
            requirements: None,
            expires_at: Some(99),
        },
        9,
    );
    assert_eq!(updated.title, "Staff Engineer");
    assert_eq!(updated.location.as_deref(), Some("Berlin"));
    assert_eq!(updated.salary_min, Some(200));
    assert_eq!(updated.expires_at, Some(99));
    assert_eq!(updated.found_at, 1);
    assert_eq!(updated.updated_at, 9);
}

#[test]
fn page_window_defaults_and_caps() {
    let f = JobFilters { source: None, search: None, page: None, per_page: None };
    assert_eq!(f.page_window(), (50, 0));
    let f2 = JobFilters { source: None, search: None, page: Some(3), per_page: Some(500) };
    assert_eq!(f2.page_window(), (100, 200));
    let f3 = JobFilters { source: None, search: None, page: Some(-4), per_page: Some(10) };
    assert_eq!(f3.page_window(), (10, 0));
}

#[test]
fn application_creation_defaults_to_draft() {
    let app = Application::from_create(
        CreateApplication { job_id: 7, status: None, cv_variant: None, notes: None },
        3,
        40,
    );
    assert_eq!(app.status, "draft");
    assert_eq!(app.job_id, 7);
    assert_eq!(app.created_at, 40);

    let explicit = Application::from_create(
        CreateApplication {
            job_id: 7,
            status: Some("applied".to_owned()),
            cv_variant: None,
            notes: None,
        },
        4,
        41,
    );
    assert_eq!(explicit.status, "applied");
}

#[test]
fn application_update_merges() {
    let app = Application::from_create(
        CreateApplication { job_id: 7, status: None, cv_variant: None, notes: None },
        3,
        40,
    );
    let updated = app.apply_update(
        UpdateApplication {
            status: Some("interviewing".to_owned()),
            cv_variant: None,
            applied_at: Some(44),
            response_at: None,
            notes: None,
        },
        45,
    );
    assert_eq!(updated.status, "interviewing");
    assert_eq!(updated.applied_at, Some(44));
    assert_eq!(updated.updated_at, 45);
}

#[test]
fn statuses_are_the_known_seven() {
    let statuses = all_statuses();
    assert_eq!(
        statuses,
        vec!["draft", "applied", "interviewing", "rejected", "offer", "accepted", "withdrawn"]
    );
}

#[test]
fn dashboard_stats_sum_and_pick() {
    let counts = vec![
        ("applied".to_owned(), 4i64),
        ("interviewing".to_owned(), 2),
        ("offer".to_owned(), 1),
        ("accepted".to_owned(), 1),
        ("rejected".to_owned(), 5),
    ];
    let (total, interviewing, offers) = dashboard_stats(&counts);
    assert_eq!(total, 13);
    assert_eq!(interviewing, 2);
    assert_eq!(offers, 2);
}

#[test]
fn event_creation_defaults_occurred_at() {
    let event = Event::from_create(
        CreateEvent {
            application_id: Some(1),
            job_id: None,
            event_type: "note".to_owned(),
            description: None,
            occurred_at: None,
        },
        9,
        77,
    );
    assert_eq!(event.occurred_at, 77);
    assert_eq!(event.created_at, 77);

    let timed = Event::from_create(
        CreateEvent {
            application_id: None,
            job_id: Some(2),
            event_type: "note".to_owned(),
            description: None,
            occurred_at: Some(50),
        },
        10,
        77,
    );
    assert_eq!(timed.occurred_at, 50);
}

#[test]
fn forms_drop_empty_fields() {
    let update = UpdateAppForm {
        status: Some("".to_owned()),
        cv_variant: Some("v2".to_owned()),
        notes: None,
    }
    .to_update();
    assert!(update.status.is_none());
    assert_eq!(update.cv_variant.as_deref(), Some("v2"));

    let filters = JobListQuery {
        search: Some("".to_owned()),
        source: Some("hiringcafe".to_owned()),
        page: Some(-2),
    }
    .to_filters();
    assert!(filters.search.is_none());
    assert_eq!(filters.source.as_deref(), Some("hiringcafe"));
    assert_eq!(filters.page, Some(1));
    assert_eq!(filters.per_page, Some(50));

    let create = CreateJobForm {
        company_name: "Acme".to_owned(),
        title: "Engineer".to_owned(),
        url: Some("".to_owned()),
        location: None,
        remote_type: None,
        salary_min: None,
        salary_max: None,
        source: "manual".to_owned(),
    }
    .to_create(12);
    assert_eq!(create.company_id, 12);
    assert!(create.url.is_none());
    assert!(create.source_id.is_none());
}

#[test]
fn total_pages_rounds_up() {
    assert_eq!(total_pages(0, 50), 0);
    assert_eq!(total_pages(50, 50), 1);
    assert_eq!(total_pages(51, 50), 2);
}

#[test]
fn resolved_command_prefers_explicit_then_env() {
    let cfg = Config {
        database_url: "postgres://localhost/tracker".to_owned(),
        run_migrations: true,
        command: Some(Command::Collect { collector: "hiringcafe".to_owned(), poll_interval: 10 }),
    };
    match cfg.resolved_command(Some("127.0.0.1:9".to_owned())) {
        Command::Collect { collector, poll_interval } => {
            assert_eq!(collector, "hiringcafe");
            assert_eq!(poll_interval, 10);
        }
        Command::Serve { .. } => panic!("expected collect"),
    }

    let cfg2 = Config { database_url: String::new(), run_migrations: false, command: None };
    match cfg2.resolved_command(Some("127.0.0.1:9".to_owned())) {
        Command::Serve { listen_addr } => assert_eq!(listen_addr, "127.0.0.1:9"),
        Command::Collect { .. } => panic!("expected serve"),
    }
    match cfg2.resolved_command(None) {
        Command::Serve { listen_addr } => assert_eq!(listen_addr, "0.0.0.0:8080"),
        Command::Collect { .. } => panic!("expected serve"),
    }
}

#[test]
fn hash_token_matches_reference_digest() {
    let reference = hex::encode(sha2::Sha256::digest("abc".as_bytes()));
    assert_eq!(hash_token("abc"), reference);
    assert_eq!(
        hash_token("abc"),
        "ba7816bf8f01cfea414140de5dae2223b00361a396177a9cb410ff61f20015ad"
    );
}

#[test]
fn generated_tokens_are_long_and_fresh() {
    let a = generate_token();
    let b = generate_token();
    assert_eq!(a.len(), 64);
    assert!(a.chars().all(|c| c.is_ascii_hexdigit() && !c.is_ascii_uppercase()));
    assert_ne!(a, b);

    let (raw, hash) = mint_token();
    assert_eq!(hash, hash_token(&raw));
}

#[test]
fn bearer_token_requires_the_scheme() {
    let header = "Bearer secret-token".to_owned();
    assert_eq!(bearer_token(Some(&header)).unwrap(), "secret-token");

    let bad = "Basic secret".to_owned();
    assert!(matches!(bearer_token(Some(&bad)), Err(AppError::Unauthorized)));
    assert!(matches!(bearer_token(None), Err(AppError::Unauthorized)));
    let short = "Bear".to_owned();
    assert!(matches!(bearer_token(Some(&short)), Err(AppError::Unauthorized)));
}

#[test]
fn app_error_messages_and_statuses() {
    let nf = AppError::NotFound("Job 7 not found".to_owned());
    assert_eq!(nf.message(), "Not found: Job 7 not found");
    assert_eq!(nf.http_status(), 404);
    assert_eq!(nf.public_message(), "Job 7 not found");

    let internal = AppError::Internal("boom".to_owned());
    assert_eq!(internal.http_status(), 500);
    assert_eq!(internal.public_message(), "Internal server error");
    assert_eq!(AppError::Unauthorized.http_status(), 401);
    assert_eq!(AppError::BadRequest("x".to_owned()).http_status(), 400);
}
