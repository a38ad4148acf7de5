//! The worker loop's decisions: startup validation, and the disposition of
//! a claimed run once the collector's outcome is in. The loop itself —
//! polling, sleeping, fetching — lives with the caller; every state change
//! it makes flows through here.

use vstd::prelude::*;
use vstd::string::StringExecFns;
use crate::collector::Collector;
use crate::collector_run::{RunQueue, failed, succeeded};
use crate::collectors::{CollectedJob, spec_known_collector};
use crate::error::AppError;
use crate::hiringcafe::{CollectError, spec_collect_message};
use crate::store::{Store, spec_reconcile, store_wf};

verus! {

/// Startup validation for a worker loop: the collector name must resolve
/// in the registry, the row must exist, and it must be enabled; each
/// failure is fatal to starting the loop.
pub fn worker_startup(collector_name: &str, collector: Option<&Collector>) -> (r: Result<
    (),
    AppError,
>)
    ensures
        !spec_known_collector(collector_name@) ==> (r matches Err(e) && e matches
            AppError::NotFound(m) && m@ == "Unknown collector: "@ + collector_name@),
        spec_known_collector(collector_name@) && collector is None ==> (r matches Err(e)
            && e matches AppError::NotFound(m) && m@ == "Collector '"@ + collector_name@
            + "' not found"@),
        spec_known_collector(collector_name@) ==> (collector matches Some(c) ==> (if c.enabled {
            r is Ok
        } else {
            r matches Err(e) && e matches AppError::BadRequest(m) && m@ == "Collector '"@
                + collector_name@ + "' is disabled"@
        })),
{
    if crate::collectors::get_collector(collector_name).is_none() {
        let mut m = "Unknown collector: ".to_owned();
        m.append(collector_name);
        return Err(AppError::NotFound(m));
    }
    match collector {
        None => {
            let mut m = "Collector '".to_owned();
            m.append(collector_name);
            m.append("' not found");
            Err(AppError::NotFound(m))
        },
        Some(c) => {
            if c.enabled {
                Ok(())
            } else {
                let mut m = "Collector '".to_owned();
                m.append(collector_name);
                m.append("' is disabled");
                Err(AppError::BadRequest(m))
            }
        },
    }
}

/// Records a claimed run's outcome: a successful collection reconciles the
/// postings and marks the run succeeded with the (found, new, updated)
/// counts; a failure marks the run failed with the error's message and
/// touches nothing else. Returns the error message to book on the
/// collector, `None` after success.
pub fn process_outcome(
    queue: &mut RunQueue,
    store: &mut Store,
    run_id: u64,
    outcome: Result<Vec<CollectedJob>, CollectError>,
    now: u64,
) -> (r: Option<String>)
    requires
        old(queue).wf(),
        RunQueue::has_id(old(queue)@, run_id),
        old(queue)@[RunQueue::index_of_id(old(queue)@, run_id)].status is Running,
        store_wf(old(store)@),
        (outcome matches Ok(jobs) ==> jobs@.len() <= 0x7fff_ffff
            && old(store)@.next_company_id + jobs@.len() < u64::MAX
            && old(store)@.next_job_id + jobs@.len() < u64::MAX),
    ensures
        final(queue).wf(),
        store_wf(final(store)@),
        (outcome matches Ok(jobs) ==> ({
            let out = spec_reconcile(old(store)@, jobs@.map_values(|p: CollectedJob| p@), now);
            &&& final(store)@ == out.store
            &&& r is None
            &&& final(queue)@ == old(queue)@.update(
                RunQueue::index_of_id(old(queue)@, run_id),
                succeeded(
                    old(queue)@[RunQueue::index_of_id(old(queue)@, run_id)],
                    jobs@.len() as i32,
                    out.new as i32,
                    out.updated as i32,
                    now,
                ),
            )
        })),
        (outcome matches Err(e) ==> ({
            &&& final(store)@ == old(store)@
            &&& (r matches Some(m) && m@ == spec_collect_message(e))
            &&& final(queue)@ == old(queue)@.update(
                RunQueue::index_of_id(old(queue)@, run_id),
                failed(
                    old(queue)@[RunQueue::index_of_id(old(queue)@, run_id)],
                    spec_collect_message(e),
                    now,
                ),
            )
        })),
{
    match outcome {
        Ok(jobs) => {
            let (found, new, updated) = store.upsert_jobs(jobs, now);
            queue.mark_succeeded(run_id, found, new, updated, now);
            None
        },
        Err(e) => {
            let message = e.message();
            queue.mark_failed(run_id, message.as_str(), now);
            Some(message)
        },
    }
}

} // verus!
