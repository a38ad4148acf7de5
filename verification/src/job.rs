//! Jobs: durable rows keyed by (source, source_id) when a source id is
//! present, referencing a company.

use vstd::prelude::*;
use crate::util::{clone_opt_string, view_opt};

verus! {

/// A durable job row. Timestamps are seconds since the epoch; `raw_data`
/// holds the original payload as JSON text.
#[derive(Debug)]
pub struct Job {
    pub id: u64,
    pub company_id: u64,
    pub title: String,
    pub url: Option<String>,
    pub location: Option<String>,
    pub remote_type: Option<String>,
    pub salary_min: Option<i32>,
    pub salary_max: Option<i32>,
    pub salary_currency: Option<String>,
    pub description: Option<String>,
    pub requirements: Option<String>,
    pub source: String,
    pub source_id: Option<String>,
    pub found_at: u64,
    pub expires_at: Option<u64>,
    pub raw_data: Option<String>,
    pub created_at: u64,
    pub updated_at: u64,
}

/// Mathematical image of a job row.
#[verifier::ext_equal]
pub ghost struct JobModel {
    pub id: u64,
    pub company_id: u64,
    pub title: Seq<char>,
    pub url: Option<Seq<char>>,
    pub location: Option<Seq<char>>,
    pub remote_type: Option<Seq<char>>,
    pub salary_min: Option<i32>,
    pub salary_max: Option<i32>,
    pub salary_currency: Option<Seq<char>>,
    pub description: Option<Seq<char>>,
    pub requirements: Option<Seq<char>>,
    pub source: Seq<char>,
    pub source_id: Option<Seq<char>>,
    pub found_at: u64,
    pub expires_at: Option<u64>,
    pub raw_data: Option<Seq<char>>,
    pub created_at: u64,
    pub updated_at: u64,
}

impl View for Job {
    type V = JobModel;

    open spec fn view(&self) -> JobModel {
        JobModel {
            id: self.id,
            company_id: self.company_id,
            title: self.title@,
            url: view_opt(self.url),
            location: view_opt(self.location),
            remote_type: view_opt(self.remote_type),
            salary_min: self.salary_min,
            salary_max: self.salary_max,
            salary_currency: view_opt(self.salary_currency),
            description: view_opt(self.description),
            requirements: view_opt(self.requirements),
            source: self.source@,
            source_id: view_opt(self.source_id),
            found_at: self.found_at,
            expires_at: self.expires_at,
            raw_data: view_opt(self.raw_data),
            created_at: self.created_at,
            updated_at: self.updated_at,
        }
    }
}

impl Clone for Job {
    /// The copy has the same model.
    fn clone(&self) -> (r: Self)
        ensures
            r@ == self@,
    {
        Job {
            id: self.id,
            company_id: self.company_id,
            title: self.title.clone(),
            url: clone_opt_string(&self.url),
            location: clone_opt_string(&self.location),
            remote_type: clone_opt_string(&self.remote_type),
            salary_min: self.salary_min,
            salary_max: self.salary_max,
            salary_currency: clone_opt_string(&self.salary_currency),
            description: clone_opt_string(&self.description),
            requirements: clone_opt_string(&self.requirements),
            source: self.source.clone(),
            source_id: clone_opt_string(&self.source_id),
            found_at: self.found_at,
            expires_at: self.expires_at,
            raw_data: clone_opt_string(&self.raw_data),
            created_at: self.created_at,
            updated_at: self.updated_at,
        }
    }
}

/// Fields for creating (or upserting) a job.
#[derive(Debug)]
pub struct CreateJob {
    pub company_id: u64,
    pub title: String,
    pub url: Option<String>,
    pub location: Option<String>,
    pub remote_type: Option<String>,
    pub salary_min: Option<i32>,
    pub salary_max: Option<i32>,
    pub salary_currency: Option<String>,
    pub description: Option<String>,
    pub requirements: Option<String>,
    pub source: String,
    pub source_id: Option<String>,
    pub expires_at: Option<u64>,
    pub raw_data: Option<String>,
}

/// Mathematical image of the creation fields.
#[verifier::ext_equal]
pub ghost struct CreateJobModel {
    pub company_id: u64,
    pub title: Seq<char>,
    pub url: Option<Seq<char>>,
    pub location: Option<Seq<char>>,
    pub remote_type: Option<Seq<char>>,
    pub salary_min: Option<i32>,
    pub salary_max: Option<i32>,
    pub salary_currency: Option<Seq<char>>,
    pub description: Option<Seq<char>>,
    pub requirements: Option<Seq<char>>,
    pub source: Seq<char>,
    pub source_id: Option<Seq<char>>,
    pub expires_at: Option<u64>,
    pub raw_data: Option<Seq<char>>,
}

impl View for CreateJob {
    type V = CreateJobModel;

    open spec fn view(&self) -> CreateJobModel {
        CreateJobModel {
            company_id: self.company_id,
            title: self.title@,
            url: view_opt(self.url),
            location: view_opt(self.location),
            remote_type: view_opt(self.remote_type),
            salary_min: self.salary_min,
            salary_max: self.salary_max,
            salary_currency: view_opt(self.salary_currency),
            description: view_opt(self.description),
            requirements: view_opt(self.requirements),
            source: self.source@,
            source_id: view_opt(self.source_id),
            expires_at: self.expires_at,
            raw_data: view_opt(self.raw_data),
        }
    }
}

/// Partial update of a job; absent fields keep their current value.
#[derive(Debug)]
pub struct UpdateJob {
    pub title: Option<String>,
    pub url: Option<String>,
    pub location: Option<String>,
    pub remote_type: Option<String>,
    pub salary_min: Option<i32>,
    pub salary_max: Option<i32>,
    pub description: Option<String>,
    pub requirements: Option<String>,
    pub expires_at: Option<u64>,
}

/// What a partial update leaves in the row.
pub open spec fn spec_job_update(
    existing: JobModel,
    title: Option<Seq<char>>,
    url: Option<Seq<char>>,
    location: Option<Seq<char>>,
    remote_type: Option<Seq<char>>,
    salary_min: Option<i32>,
    salary_max: Option<i32>,
    description: Option<Seq<char>>,
    requirements: Option<Seq<char>>,
    expires_at: Option<u64>,
    now: u64,
) -> JobModel {
    JobModel {
        title: if title is Some { title->0 } else { existing.title },
        url: if url is Some { url } else { existing.url },
        location: if location is Some { location } else { existing.location },
        remote_type: if remote_type is Some { remote_type } else { existing.remote_type },
        salary_min: if salary_min is Some { salary_min } else { existing.salary_min },
        salary_max: if salary_max is Some { salary_max } else { existing.salary_max },
        description: if description is Some { description } else { existing.description },
        requirements: if requirements is Some { requirements } else { existing.requirements },
        expires_at: if expires_at is Some { expires_at } else { existing.expires_at },
        updated_at: now,
        ..existing
    }
}

impl Job {
    /// The row a partial update produces.
    pub fn apply_update(&self, input: UpdateJob, now: u64) -> (r: Job)
        ensures
            r@ == spec_job_update(
                self@,
                view_opt(input.title),
                view_opt(input.url),
                view_opt(input.location),
                view_opt(input.remote_type),
                input.salary_min,
                input.salary_max,
                view_opt(input.description),
                view_opt(input.requirements),
                input.expires_at,
                now,
            ),
    {
        Job {
            id: self.id,
            company_id: self.company_id,
            title: match input.title {
                Some(t) => t,
                None => self.title.clone(),
            },
            url: match input.url {
                Some(v) => Some(v),
                None => clone_opt_string(&self.url),
            },
            location: match input.location {
                Some(v) => Some(v),
                None => clone_opt_string(&self.location),
            },
            remote_type: match input.remote_type {
                Some(v) => Some(v),
                None => clone_opt_string(&self.remote_type),
            },
            salary_min: match input.salary_min {
                Some(v) => Some(v),
                None => self.salary_min,
            },
            salary_max: match input.salary_max {
                Some(v) => Some(v),
                None => self.salary_max,
            },
            salary_currency: clone_opt_string(&self.salary_currency),
            description: match input.description {
                Some(v) => Some(v),
                None => clone_opt_string(&self.description),
            },
            requirements: match input.requirements {
                Some(v) => Some(v),
                None => clone_opt_string(&self.requirements),
            },
            source: self.source.clone(),
            source_id: clone_opt_string(&self.source_id),
            found_at: self.found_at,
            expires_at: match input.expires_at {
                Some(v) => Some(v),
                None => self.expires_at,
            },
            raw_data: clone_opt_string(&self.raw_data),
            created_at: self.created_at,
            updated_at: now,
        }
    }
}

/// Paging filters for job listings.
#[derive(Debug)]
pub struct JobFilters {
    pub source: Option<String>,
    pub search: Option<String>,
    pub page: Option<i64>,
    pub per_page: Option<i64>,
}

/// The page window a listing uses: `per_page` defaults to 50 and is capped
/// at 100; the offset skips the earlier pages, never going negative.
pub open spec fn spec_page_window(page: Option<i64>, per_page: Option<i64>) -> (i64, i64) {
    let pp = if per_page is Some { per_page->0 } else { 50i64 };
    let pp_capped = if pp <= 100 { pp } else { 100i64 };
    let p = if page is Some { page->0 } else { 1i64 };
    let skip = if p - 1 >= 0 { p - 1 } else { 0int };
    (pp_capped, (skip * pp_capped) as i64)
}

impl JobFilters {
    /// The (limit, offset) pair of this filter's page window.
    pub fn page_window(&self) -> (r: (i64, i64))
        requires
            (match self.page {
                Some(p) => -0x7fff_ffff <= p <= 0x7fff_ffff,
                None => true,
            }),
            (match self.per_page {
                Some(pp) => -0x7fff_ffff <= pp <= 0x7fff_ffff,
                None => true,
            }),
        ensures
            r == spec_page_window(self.page, self.per_page),
    {
        let per_page_raw = match self.per_page {
            Some(pp) => pp,
            None => 50,
        };
        let per_page = if per_page_raw <= 100 {
            per_page_raw
        } else {
            100
        };
        let page = match self.page {
            Some(p) => p,
            None => 1,
        };
        let skip = if page - 1 >= 0 {
            page - 1
        } else {
            0
        };
        proof {
            assert((-0x7fff_ffff) * 0x7fff_ffff <= skip * per_page <= 0x7fff_ffff * 100)
                by (nonlinear_arith)
                requires
                    0 <= skip <= 0x7fff_ffff,
                    -0x7fff_ffff <= per_page <= 100,
            ;
        }
        (per_page, skip * per_page)
    }
}

} // verus!
