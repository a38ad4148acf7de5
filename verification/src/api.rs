//! The operations the HTTP layer calls into: triggering a run, the
//! synchronous ingest of pre-collected postings, and the plain request and
//! response records those endpoints exchange.

use vstd::prelude::*;
use vstd::string::StringExecFns;
use crate::collector::Collector;
use crate::collector_run::{
    CollectorRun, RunQueue, claimed, fresh_run, lemma_index_of_id_is, succeeded,
};
use crate::collectors::{CollectedJob, CollectedJobModel};
use crate::error::AppError;
use crate::store::{Store, spec_reconcile, store_wf};
use crate::util::view_opt;

verus! {

/// One posting pushed by a trusted external producer; the same shape a
/// collector returns, with the raw payload as JSON text.
#[derive(Debug)]
pub struct IngestJob {
    pub company_name: String,
    pub title: String,
    pub url: Option<String>,
    pub location: Option<String>,
    pub remote_type: Option<String>,
    pub salary_min: Option<i32>,
    pub salary_max: Option<i32>,
    pub salary_currency: Option<String>,
    pub description: Option<String>,
    pub source: String,
    pub source_id: String,
    pub raw_data: Option<String>,
}

impl View for IngestJob {
    type V = CollectedJobModel;

    open spec fn view(&self) -> CollectedJobModel {
        CollectedJobModel {
            company_name: self.company_name@,
            title: self.title@,
            url: view_opt(self.url),
            location: view_opt(self.location),
            remote_type: view_opt(self.remote_type),
            salary_min: self.salary_min,
            salary_max: self.salary_max,
            salary_currency: view_opt(self.salary_currency),
            description: view_opt(self.description),
            source: self.source@,
            source_id: self.source_id@,
            raw_data: view_opt(self.raw_data),
        }
    }
}

impl IngestJob {
    /// The posting this record stands for.
    pub fn to_collected(self) -> (r: CollectedJob)
        ensures
            r@ == self@,
    {
        CollectedJob {
            company_name: self.company_name,
            title: self.title,
            url: self.url,
            location: self.location,
            remote_type: self.remote_type,
            salary_min: self.salary_min,
            salary_max: self.salary_max,
            salary_currency: self.salary_currency,
            description: self.description,
            source: self.source,
            source_id: self.source_id,
            raw_data: self.raw_data,
        }
    }
}

/// A batch-ingest request.
#[derive(Debug)]
pub struct IngestRequest {
    pub collector_name: String,
    pub jobs: Vec<IngestJob>,
}

/// What a batch ingest reports back.
#[derive(Debug)]
pub struct IngestResponse {
    pub run_id: u64,
    pub found: i32,
    pub new: i32,
    pub updated: i32,
}

/// A find-or-create request for a company.
#[derive(Debug)]
pub struct FindOrCreateRequest {
    pub name: String,
}

/// An API token as listed: everything but the secret.
#[derive(Debug)]
pub struct TokenInfo {
    pub id: u64,
    pub name: String,
    pub expires_at: Option<u64>,
    pub created_at: u64,
    pub last_used: Option<u64>,
}

/// A request to create an API token.
#[derive(Debug)]
pub struct CreateToken {
    pub name: String,
    pub expires_at: Option<u64>,
}

/// A freshly created token, secret included — shown exactly once.
#[derive(Debug)]
pub struct CreatedToken {
    pub id: u64,
    pub name: String,
    pub token: String,
}

/// Triggers a manual run for a collector: enqueues a pending run tagged
/// "manual", rejected when the collector is disabled.
pub fn trigger_run(queue: &mut RunQueue, collector: &Collector, now: u64) -> (r: Result<
    CollectorRun,
    AppError,
>)
    requires
        old(queue).wf(),
        old(queue).spec_next_id() < u64::MAX,
    ensures
        final(queue).wf(),
        !collector.enabled ==> ({
            &&& final(queue)@ == old(queue)@
            &&& (r matches Err(e) && e matches AppError::BadRequest(m) && m@ == "Collector '"@
                + collector.name@ + "' is disabled"@)
        }),
        collector.enabled ==> (r matches Ok(run) && run@ == fresh_run(
            old(queue).spec_next_id(),
            collector.name@,
            "manual"@,
            now,
        ) && final(queue)@ == old(queue)@.push(run@)),
{
    if !collector.enabled {
        let mut m = "Collector '".to_owned();
        m.append(collector.name.as_str());
        m.append("' is disabled");
        return Err(AppError::BadRequest(m));
    }
    Ok(queue.enqueue(collector.name.as_str(), "manual", now))
}

/// The models of an ingest batch.
pub open spec fn ingest_view(jobs: Seq<IngestJob>) -> Seq<CollectedJobModel> {
    jobs.map_values(|j: IngestJob| j@)
}

/// Synchronous ingest: enqueues a run tagged "api", starts it at once,
/// reconciles the batch inline, and marks the run succeeded with the
/// counts. An empty batch is rejected and changes nothing. The response
/// reports the run and the (found, new, updated) counts.
#[verifier::loop_isolation(false)]
pub fn ingest(
    queue: &mut RunQueue,
    store: &mut Store,
    collector_name: &str,
    jobs: Vec<IngestJob>,
    now: u64,
) -> (r: Result<IngestResponse, AppError>)
    requires
        old(queue).wf(),
        old(queue).spec_next_id() < u64::MAX,
        store_wf(old(store)@),
        jobs@.len() <= 0x7fff_ffff,
        old(store)@.next_company_id + jobs@.len() < u64::MAX,
        old(store)@.next_job_id + jobs@.len() < u64::MAX,
    ensures
        final(queue).wf(),
        store_wf(final(store)@),
        jobs@.len() == 0 ==> ({
            &&& final(queue)@ == old(queue)@
            &&& final(store)@ == old(store)@
            &&& (r matches Err(e) && e matches AppError::BadRequest(m) && m@
                == "No jobs provided"@)
        }),
        jobs@.len() > 0 ==> ({
            let out = spec_reconcile(old(store)@, ingest_view(jobs@), now);
            let started = claimed(
                fresh_run(old(queue).spec_next_id(), collector_name@, "api"@, now),
                now,
            );
            &&& final(store)@ == out.store
            &&& final(queue)@ == old(queue)@.push(
                succeeded(started, jobs@.len() as i32, out.new as i32, out.updated as i32, now),
            )
            &&& (r matches Ok(resp) && resp.run_id == old(queue).spec_next_id() && resp.found
                == jobs@.len() && resp.new == out.new && resp.updated == out.updated)
        }),
{
    if jobs.len() == 0 {
        return Err(AppError::BadRequest("No jobs provided".to_owned()));
    }
    let ghost jv = ingest_view(jobs@);
    let run = queue.enqueue(collector_name, "api", now);
    let run_id = run.id;
    proof {
        lemma_index_of_id_is(queue@, run_id, queue@.len() - 1);
    }
    queue.start_inline(run_id, now);
    proof {
        lemma_index_of_id_is(queue@, run_id, queue@.len() - 1);
    }
    let mut collected: Vec<CollectedJob> = Vec::new();
    let n = jobs.len();
    let mut jobs = jobs;
    let mut i: usize = 0;
    while i < n
        invariant
            i <= n,
            jobs@.len() == n - i,
            collected@.map_values(|p: CollectedJob| p@) == jv.take(i as int),
            ingest_view(jobs@) == jv.skip(i as int),
        decreases n - i,
    {
        let ghost pre = jobs@;
        let job = jobs.remove(0);
        proof {
            assert(ingest_view(pre)[0] == job@);
            assert(jv.skip(i as int)[0] == jv[i as int]);
            assert(job@ == jv[i as int]);
            assert forall|k: int| 0 <= k < jobs@.len() implies ingest_view(jobs@)[k] == jv.skip(
                i + 1,
            )[k] by {
                assert(jobs@[k] == pre[k + 1]);
                assert(ingest_view(pre)[k + 1] == jv.skip(i as int)[k + 1]);
            }
            assert(ingest_view(jobs@) =~= jv.skip(i + 1));
        }
        collected.push(job.to_collected());
        proof {
            assert(collected@.map_values(|p: CollectedJob| p@) =~= jv.take(i + 1));
        }
        i = i + 1;
    }
    proof {
        assert(jv.take(n as int) =~= jv);
    }
    let (found, new, updated) = store.upsert_jobs(collected, now);
    queue.mark_succeeded(run_id, found, new, updated, now);
    proof {
        let started = claimed(
            fresh_run(old(queue).spec_next_id(), collector_name@, "api"@, now),
            now,
        );
        let out = spec_reconcile(old(store)@, jv, now);
        assert(queue@ =~= old(queue)@.push(
            succeeded(started, n as i32, out.new as i32, out.updated as i32, now),
        ));
    }
    Ok(IngestResponse { run_id: run_id, found: found, new: new, updated: updated })
}

} // verus!
