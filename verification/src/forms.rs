//! The HTML form and query records the UI pages exchange, and their
//! conversions into the model types. Empty form fields read as absent.

use vstd::prelude::*;
use crate::application::{Application, ApplicationFilters, CreateApplication, UpdateApplication};
use crate::event::CreateEvent;
use crate::job::{CreateJob, JobFilters};
use crate::util::{drop_empty, spec_drop_empty, view_opt};

verus! {

/// An application enriched with its job and company names, as the list
/// page shows it.
#[derive(Debug)]
pub struct ApplicationRow {
    pub app: Application,
    pub job_title: String,
    pub company_name: String,
}

/// The admin form that names a new API token.
#[derive(Debug)]
pub struct CreateTokenForm {
    pub name: String,
}

/// The status filter of the applications page.
#[derive(Debug)]
pub struct AppListQuery {
    pub status: Option<String>,
}

impl AppListQuery {
    /// The filters this query stands for; an empty status means no filter.
    pub fn to_filters(self) -> (r: ApplicationFilters)
        ensures
            view_opt(r.status) == spec_drop_empty(view_opt(self.status)),
    {
        ApplicationFilters { status: drop_empty(self.status) }
    }
}

/// The form that starts tracking an application for a job.
#[derive(Debug)]
pub struct CreateAppForm {
    pub job_id: u64,
}

impl CreateAppForm {
    /// The creation record this form stands for: everything but the job
    /// starts unset.
    pub fn to_create(self) -> (r: CreateApplication)
        ensures
            r.job_id == self.job_id,
            r.status is None,
            r.cv_variant is None,
            r.notes is None,
    {
        CreateApplication { job_id: self.job_id, status: None, cv_variant: None, notes: None }
    }
}

/// The application-update form; empty fields leave the row alone.
#[derive(Debug)]
pub struct UpdateAppForm {
    pub status: Option<String>,
    pub cv_variant: Option<String>,
    pub notes: Option<String>,
}

impl UpdateAppForm {
    /// The update this form stands for: empty strings read as absent, the
    /// timestamps are never set from this form.
    pub fn to_update(self) -> (r: UpdateApplication)
        ensures
            view_opt(r.status) == spec_drop_empty(view_opt(self.status)),
            view_opt(r.cv_variant) == spec_drop_empty(view_opt(self.cv_variant)),
            view_opt(r.notes) == spec_drop_empty(view_opt(self.notes)),
            r.applied_at is None,
            r.response_at is None,
    {
        UpdateApplication {
            status: drop_empty(self.status),
            cv_variant: drop_empty(self.cv_variant),
            applied_at: None,
            response_at: None,
            notes: drop_empty(self.notes),
        }
    }
}

/// The form that adds a timeline event from a detail page.
#[derive(Debug)]
pub struct CreateEventForm {
    pub application_id: Option<u64>,
    pub job_id: Option<u64>,
    pub event_type: String,
    pub description: Option<String>,
}

impl CreateEventForm {
    /// The creation record this form stands for: an empty description
    /// reads as absent and the event time defaults later.
    pub fn to_create(self) -> (r: CreateEvent)
        ensures
            r.application_id == self.application_id,
            r.job_id == self.job_id,
            r.event_type@ == self.event_type@,
            view_opt(r.description) == spec_drop_empty(view_opt(self.description)),
            r.occurred_at is None,
    {
        CreateEvent {
            application_id: self.application_id,
            job_id: self.job_id,
            event_type: self.event_type,
            description: drop_empty(self.description),
            occurred_at: None,
        }
    }
}

/// The search, source and page of the jobs page.
#[derive(Debug)]
pub struct JobListQuery {
    pub search: Option<String>,
    pub source: Option<String>,
    pub page: Option<i64>,
}

/// The page the listing lands on: the requested one, at least 1.
pub open spec fn spec_listing_page(page: Option<i64>) -> i64 {
    let p = (match page {
        Some(p) => p,
        None => 1i64,
    });
    if p >= 1 {
        p
    } else {
        1
    }
}

impl JobListQuery {
    /// The filters the jobs page queries with: empty strings read as
    /// absent, the page is clamped to 1 and up, fifty rows per page.
    pub fn to_filters(self) -> (r: JobFilters)
        ensures
            view_opt(r.source) == spec_drop_empty(view_opt(self.source)),
            view_opt(r.search) == spec_drop_empty(view_opt(self.search)),
            r.page == Some(spec_listing_page(self.page)),
            r.per_page == Some(50i64),
    {
        let page = match self.page {
            Some(p) => if p >= 1 {
                p
            } else {
                1
            },
            None => 1,
        };
        JobFilters {
            source: drop_empty(self.source),
            search: drop_empty(self.search),
            page: Some(page),
            per_page: Some(50),
        }
    }
}

/// How many pages a listing spans: the total divided by the page size,
/// rounded up.
pub fn total_pages(total: i64, per_page: i64) -> (r: i64)
    requires
        0 <= total,
        0 < per_page,
        total + per_page - 1 <= i64::MAX,
    ensures
        r == (total + per_page - 1) / (per_page as int),
{
    (total + (per_page - 1)) / per_page
}

/// The form that files a job by hand from the UI.
#[derive(Debug)]
pub struct CreateJobForm {
    pub company_name: String,
    pub title: String,
    pub url: Option<String>,
    pub location: Option<String>,
    pub remote_type: Option<String>,
    pub salary_min: Option<i32>,
    pub salary_max: Option<i32>,
    pub source: String,
}

impl CreateJobForm {
    /// The creation record this form stands for, once the company name has
    /// resolved to an id; a hand-filed job has no source id.
    pub fn to_create(self, company_id: u64) -> (r: CreateJob)
        ensures
            r.company_id == company_id,
            r.title@ == self.title@,
            view_opt(r.url) == spec_drop_empty(view_opt(self.url)),
            view_opt(r.location) == spec_drop_empty(view_opt(self.location)),
            view_opt(r.remote_type) == spec_drop_empty(view_opt(self.remote_type)),
            r.salary_min == self.salary_min,
            r.salary_max == self.salary_max,
            r.salary_currency is None,
            r.description is None,
            r.requirements is None,
            r.source@ == self.source@,
            r.source_id is None,
            r.expires_at is None,
            r.raw_data is None,
    {
        CreateJob {
            company_id: company_id,
            title: self.title,
            url: drop_empty(self.url),
            location: drop_empty(self.location),
            remote_type: drop_empty(self.remote_type),
            salary_min: self.salary_min,
            salary_max: self.salary_max,
            salary_currency: None,
            description: None,
            requirements: None,
            source: self.source,
            source_id: None,
            expires_at: None,
            raw_data: None,
        }
    }
}

} // verus!
