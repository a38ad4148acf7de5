//! The run queue: durable work items with a pending → running →
//! succeeded/failed lifecycle, an atomic oldest-first claim, and a startup
//! sweep that fails runs abandoned by a crashed worker.

use vstd::prelude::*;
use crate::util::{clone_opt_string, view_opt};

verus! {

/// Lifecycle state of one run.
#[derive(Clone, Copy, Debug, PartialEq, Eq, Structural)]
pub enum RunStatus {
    Pending,
    Running,
    Succeeded,
    Failed,
}

/// One collection attempt. Timestamps are seconds since the epoch, supplied
/// by the caller; the queue itself never reads a clock.
#[derive(Debug)]
pub struct CollectorRun {
    pub id: u64,
    pub collector_name: String,
    pub status: RunStatus,
    pub run_kind: String,
    pub jobs_found: Option<i32>,
    pub jobs_new: Option<i32>,
    pub jobs_updated: Option<i32>,
    pub error: Option<String>,
    pub requested_at: u64,
    pub started_at: Option<u64>,
    pub finished_at: Option<u64>,
}

/// Mathematical image of a run: strings as character sequences.
#[verifier::ext_equal]
pub ghost struct RunModel {
    pub id: u64,
    pub collector_name: Seq<char>,
    pub status: RunStatus,
    pub run_kind: Seq<char>,
    pub jobs_found: Option<i32>,
    pub jobs_new: Option<i32>,
    pub jobs_updated: Option<i32>,
    pub error: Option<Seq<char>>,
    pub requested_at: u64,
    pub started_at: Option<u64>,
    pub finished_at: Option<u64>,
}

impl View for CollectorRun {
    type V = RunModel;

    open spec fn view(&self) -> RunModel {
        RunModel {
            id: self.id,
            collector_name: self.collector_name@,
            status: self.status,
            run_kind: self.run_kind@,
            jobs_found: self.jobs_found,
            jobs_new: self.jobs_new,
            jobs_updated: self.jobs_updated,
            error: view_opt(self.error),
            requested_at: self.requested_at,
            started_at: self.started_at,
            finished_at: self.finished_at,
        }
    }
}

impl Clone for CollectorRun {
    /// The copy has the same model.
    fn clone(&self) -> (r: Self)
        ensures
            r@ == self@,
    {
        CollectorRun {
            id: self.id,
            collector_name: self.collector_name.clone(),
            status: self.status,
            run_kind: self.run_kind.clone(),
            jobs_found: self.jobs_found,
            jobs_new: self.jobs_new,
            jobs_updated: self.jobs_updated,
            error: clone_opt_string(&self.error),
            requested_at: self.requested_at,
            started_at: self.started_at,
            finished_at: self.finished_at,
        }
    }
}

/// The run-level invariant of the data model: timestamps mirror the status.
pub open spec fn run_wf(m: RunModel) -> bool {
    &&& (m.started_at is Some <==> !(m.status is Pending))
    &&& (m.finished_at is Some <==> (m.status is Succeeded || m.status is Failed))
}

/// A freshly enqueued run.
pub open spec fn fresh_run(id: u64, name: Seq<char>, kind: Seq<char>, now: u64) -> RunModel {
    RunModel {
        id: id,
        collector_name: name,
        status: RunStatus::Pending,
        run_kind: kind,
        jobs_found: None,
        jobs_new: None,
        jobs_updated: None,
        error: None,
        requested_at: now,
        started_at: None,
        finished_at: None,
    }
}

/// The claimed image of a pending run.
pub open spec fn claimed(m: RunModel, now: u64) -> RunModel {
    RunModel { status: RunStatus::Running, started_at: Some(now), ..m }
}

/// The succeeded image of a running run.
pub open spec fn succeeded(m: RunModel, found: i32, new: i32, updated: i32, now: u64) -> RunModel {
    RunModel {
        status: RunStatus::Succeeded,
        jobs_found: Some(found),
        jobs_new: Some(new),
        jobs_updated: Some(updated),
        finished_at: Some(now),
        ..m
    }
}

/// The failed image of a running run.
pub open spec fn failed(m: RunModel, error: Seq<char>, now: u64) -> RunModel {
    RunModel { status: RunStatus::Failed, error: Some(error), finished_at: Some(now), ..m }
}

/// The message written by the stale-run sweep.
pub open spec fn stale_message() -> Seq<char> {
    "Worker crashed (stale recovery)"@
}

/// Is this run a claim candidate for the collector?
pub open spec fn pending_for(m: RunModel, name: Seq<char>) -> bool {
    m.collector_name == name && m.status is Pending
}

/// Some run is pending for the collector.
pub open spec fn has_pending(s: Seq<RunModel>, name: Seq<char>) -> bool {
    exists|i: int| 0 <= i < s.len() && pending_for(#[trigger] s[i], name)
}

/// Index `i` holds the run a claim must take: pending for the collector,
/// with the smallest `requested_at`, and first in insertion order among its
/// ties.
pub open spec fn is_claim_choice(s: Seq<RunModel>, name: Seq<char>, i: int) -> bool {
    &&& 0 <= i < s.len()
    &&& pending_for(s[i], name)
    &&& forall|j: int|
        0 <= j < s.len() && pending_for(#[trigger] s[j], name) ==> s[i].requested_at
            <= s[j].requested_at
    &&& forall|j: int|
        0 <= j < i && pending_for(#[trigger] s[j], name) ==> s[i].requested_at
            < s[j].requested_at
}

/// The claim choice, when one exists.
pub open spec fn the_claim_choice(s: Seq<RunModel>, name: Seq<char>) -> int {
    choose|i: int| is_claim_choice(s, name, i)
}

/// At most one index can be the claim choice.
pub proof fn lemma_claim_choice_unique(s: Seq<RunModel>, name: Seq<char>, i1: int, i2: int)
    requires
        is_claim_choice(s, name, i1),
        is_claim_choice(s, name, i2),
    ensures
        i1 == i2,
{
    if i1 < i2 {
        assert(s[i2].requested_at < s[i1].requested_at);
        assert(s[i1].requested_at <= s[i2].requested_at);
    } else if i2 < i1 {
        assert(s[i1].requested_at < s[i2].requested_at);
        assert(s[i2].requested_at <= s[i1].requested_at);
    }
}

/// How many runs are pending for the collector.
pub open spec fn pending_count(s: Seq<RunModel>, name: Seq<char>) -> nat
    decreases s.len(),
{
    if s.len() == 0 {
        0
    } else {
        pending_count(s.drop_last(), name) + if pending_for(s.last(), name) {
            1nat
        } else {
            0nat
        }
    }
}

/// Is this run a running run of the collector?
pub open spec fn running_for(m: RunModel, name: Seq<char>) -> bool {
    m.collector_name == name && m.status is Running
}

/// How many runs are running for the collector.
pub open spec fn running_count(s: Seq<RunModel>, name: Seq<char>) -> nat
    decreases s.len(),
{
    if s.len() == 0 {
        0
    } else {
        running_count(s.drop_last(), name) + if running_for(s.last(), name) {
            1nat
        } else {
            0nat
        }
    }
}


/// Does a run pass the optional collector-name filter?
pub open spec fn matches_filter(m: RunModel, name: Option<Seq<char>>) -> bool {
    match name {
        Some(n) => m.collector_name == n,
        None => true,
    }
}

/// How many runs pass the filter.
pub open spec fn match_count(s: Seq<RunModel>, name: Option<Seq<char>>) -> nat
    decreases s.len(),
{
    if s.len() == 0 {
        0
    } else {
        match_count(s.drop_last(), name) + if matches_filter(s.last(), name) {
            1nat
        } else {
            0nat
        }
    }
}

/// How many runs pass the filter and are not yet taken.
pub open spec fn untaken_count(s: Seq<RunModel>, taken: Seq<bool>, name: Option<Seq<char>>) -> nat
    decreases s.len(),
{
    if s.len() == 0 || taken.len() != s.len() {
        0
    } else {
        untaken_count(s.drop_last(), taken.drop_last(), name) + if matches_filter(s.last(), name)
            && !taken.last() {
            1nat
        } else {
            0nat
        }
    }
}

/// With nothing taken, the untaken count is the match count.
proof fn lemma_untaken_all_false(s: Seq<RunModel>, taken: Seq<bool>, name: Option<Seq<char>>)
    requires
        taken.len() == s.len(),
        forall|i: int| 0 <= i < taken.len() ==> !(#[trigger] taken[i]),
    ensures
        untaken_count(s, taken, name) == match_count(s, name),
    decreases s.len(),
{
    if s.len() > 0 {
        assert(forall|i: int|
            0 <= i < taken.len() - 1 ==> taken.drop_last()[i] == (#[trigger] taken[i]));
        lemma_untaken_all_false(s.drop_last(), taken.drop_last(), name);
    }
}

/// Taking one untaken matching run lowers the untaken count by one.
proof fn lemma_untaken_take_one(
    s: Seq<RunModel>,
    taken: Seq<bool>,
    name: Option<Seq<char>>,
    i: int,
)
    requires
        taken.len() == s.len(),
        0 <= i < s.len(),
        matches_filter(s[i], name),
        !taken[i],
    ensures
        untaken_count(s, taken.update(i, true), name) == untaken_count(s, taken, name) - 1,
    decreases s.len(),
{
    let t = taken.update(i, true);
    if i == s.len() - 1 {
        assert(t.drop_last() =~= taken.drop_last());
        assert(t.last() == true);
    } else {
        assert(t.drop_last() =~= taken.drop_last().update(i, true));
        assert(t.last() == taken.last());
        lemma_untaken_take_one(s.drop_last(), taken.drop_last(), name, i);
    }
}

/// An untaken matching run keeps the untaken count positive.
proof fn lemma_untaken_nonzero(s: Seq<RunModel>, taken: Seq<bool>, name: Option<Seq<char>>, i: int)
    requires
        taken.len() == s.len(),
        0 <= i < s.len(),
        matches_filter(s[i], name),
        !taken[i],
    ensures
        untaken_count(s, taken, name) > 0,
    decreases s.len(),
{
    if i == s.len() - 1 {
        assert(s.last() == s[i] && taken.last() == taken[i]);
    } else {
        assert(s.drop_last()[i] == s[i] && taken.drop_last()[i] == taken[i]);
        lemma_untaken_nonzero(s.drop_last(), taken.drop_last(), name, i);
    }
}

/// When every run is taken or filtered out, the untaken count is zero.
proof fn lemma_untaken_zero(s: Seq<RunModel>, taken: Seq<bool>, name: Option<Seq<char>>)
    requires
        taken.len() == s.len(),
        forall|i: int| 0 <= i < s.len() ==> taken[i] || !matches_filter(#[trigger] s[i], name),
    ensures
        untaken_count(s, taken, name) == 0,
    decreases s.len(),
{
    if s.len() > 0 {
        assert(forall|i: int|
            0 <= i < taken.len() - 1 ==> taken.drop_last()[i] == (#[trigger] taken[i]));
        assert(forall|i: int|
            0 <= i < s.len() - 1 ==> s.drop_last()[i] == (#[trigger] s[i]));
        lemma_untaken_zero(s.drop_last(), taken.drop_last(), name);
    }
}

/// The models of a sequence of runs.
pub open spec fn runs_view(s: Seq<CollectorRun>) -> Seq<RunModel> {
    s.map_values(|x: CollectorRun| x@)
}

/// The queue of collector runs. Its real counterpart is a table; here the
/// rows sit in insertion order, which is what the claim choice's tie-break
/// refers to.
pub struct RunQueue {
    runs: Vec<CollectorRun>,
    next_id: u64,
}

impl View for RunQueue {
    type V = Seq<RunModel>;

    closed spec fn view(&self) -> Seq<RunModel> {
        runs_view(self.runs@)
    }
}

impl RunQueue {
    /// Queue invariant: ids are unique, below `next_id`, and every run's
    /// timestamps mirror its status.
    pub open spec fn wf(&self) -> bool {
        &&& forall|i: int, j: int| 0 <= i < j < self@.len() ==> self@[i].id != self@[j].id
        &&& forall|i: int| 0 <= i < self@.len() ==> (#[trigger] self@[i]).id < self.spec_next_id()
        &&& forall|i: int| 0 <= i < self@.len() ==> run_wf(#[trigger] self@[i])
    }

    /// The id counter, visible for contracts about freshly assigned ids.
    pub closed spec fn spec_next_id(&self) -> u64 {
        self.next_id
    }

    /// An empty queue.
    pub fn new() -> (q: RunQueue)
        ensures
            q.wf(),
            q@ == Seq::<RunModel>::empty(),
            q.spec_next_id() == 1,
    {
        let q = RunQueue { runs: Vec::new(), next_id: 1 };
        proof {
            assert(q@ =~= Seq::<RunModel>::empty());
        }
        q
    }

    /// Inserts a new pending run for the collector, stamped `requested_at =
    /// now`, and returns a copy of it.
    pub fn enqueue(&mut self, collector_name: &str, run_kind: &str, now: u64) -> (r: CollectorRun)
        requires
            old(self).wf(),
            old(self).spec_next_id() < u64::MAX,
        ensures
            final(self).wf(),
            r@ == fresh_run(old(self).spec_next_id(), collector_name@, run_kind@, now),
            final(self)@ == old(self)@.push(r@),
            final(self).spec_next_id() == old(self).spec_next_id() + 1,
    {
        let run = CollectorRun {
            id: self.next_id,
            collector_name: collector_name.to_owned(),
            status: RunStatus::Pending,
            run_kind: run_kind.to_owned(),
            jobs_found: None,
            jobs_new: None,
            jobs_updated: None,
            error: None,
            requested_at: now,
            started_at: None,
            finished_at: None,
        };
        let copy = run.clone();
        self.runs.push(run);
        self.next_id = self.next_id + 1;
        proof {
            assert(self@ =~= old(self)@.push(copy@));
        }
        copy
    }

    /// Atomically claims the next run for the collector: the pending run
    /// with the smallest `requested_at`, ties broken by insertion order,
    /// becomes running with `started_at = now`. Returns `None`, changing
    /// nothing, when no run is pending.
    #[verifier::loop_isolation(false)]
    pub fn claim_next(&mut self, collector_name: &str, now: u64) -> (r: Option<CollectorRun>)
        requires
            old(self).wf(),
        ensures
            final(self).wf(),
            final(self).spec_next_id() == old(self).spec_next_id(),
            r is Some <==> has_pending(old(self)@, collector_name@),
            r is None ==> final(self)@ == old(self)@,
            r matches Some(run) ==> is_claim_choice(
                old(self)@,
                collector_name@,
                the_claim_choice(old(self)@, collector_name@),
            ) && run@ == claimed(
                old(self)@[the_claim_choice(old(self)@, collector_name@)],
                now,
            ) && final(self)@ == old(self)@.update(
                the_claim_choice(old(self)@, collector_name@),
                run@,
            ),
    {
        let name = collector_name.to_owned();
        let mut best: usize = 0;
        let mut found: bool = false;
        let mut i: usize = 0;
        while i < self.runs.len()
            invariant
                self@ == old(self)@,
                self.spec_next_id() == old(self).spec_next_id(),
                i <= self.runs@.len(),
                !found ==> forall|j: int| 0 <= j < i ==> !pending_for(self@[j], name@),
                found ==> best < i && pending_for(self@[best as int], name@),
                found ==> forall|j: int|
                    0 <= j < i && pending_for(#[trigger] self@[j], name@)
                        ==> self@[best as int].requested_at <= self@[j].requested_at,
                found ==> forall|j: int|
                    0 <= j < best && pending_for(#[trigger] self@[j], name@)
                        ==> self@[best as int].requested_at < self@[j].requested_at,
            decreases self.runs@.len() - i,
        {
            let cand_pending = matches!(self.runs[i].status, RunStatus::Pending)
                && self.runs[i].collector_name.eq(&name);
            if cand_pending {
                if !found {
                    best = i;
                    found = true;
                } else if self.runs[i].requested_at < self.runs[best].requested_at {
                    best = i;
                }
            }
            i = i + 1;
        }
        if !found {
            assert(!has_pending(self@, collector_name@));
            return None;
        }
        assert(is_claim_choice(self@, collector_name@, best as int));
        proof {
            lemma_claim_choice_unique(
                self@,
                collector_name@,
                best as int,
                the_claim_choice(self@, collector_name@),
            );
        }
        let mut updated = self.runs[best].clone();
        updated.status = RunStatus::Running;
        updated.started_at = Some(now);
        let copy = updated.clone();
        proof {
            assert(copy@ =~= claimed(old(self)@[best as int], now));
        }
        self.runs.set(best, updated);
        proof {
            assert(self@ =~= old(self)@.update(best as int, copy@));
        }
        Some(copy)
    }

    /// The index of the run with this id, when the queue holds one.
    pub open spec fn index_of_id(s: Seq<RunModel>, id: u64) -> int {
        choose|i: int| 0 <= i < s.len() && s[i].id == id
    }

    /// Some run has this id.
    pub open spec fn has_id(s: Seq<RunModel>, id: u64) -> bool {
        exists|i: int| 0 <= i < s.len() && (#[trigger] s[i]).id == id
    }

    /// Marks a claimed run succeeded, storing the counts and stamping
    /// `finished_at = now`. Callers only mark runs they have claimed (or
    /// started inline), so the run must be running.
    #[verifier::loop_isolation(false)]
    pub fn mark_succeeded(&mut self, id: u64, jobs_found: i32, jobs_new: i32, jobs_updated: i32, now: u64)
        requires
            old(self).wf(),
            Self::has_id(old(self)@, id),
            old(self)@[Self::index_of_id(old(self)@, id)].status is Running,
        ensures
            final(self).wf(),
            final(self).spec_next_id() == old(self).spec_next_id(),
            final(self)@ == old(self)@.update(
                Self::index_of_id(old(self)@, id),
                succeeded(
                    old(self)@[Self::index_of_id(old(self)@, id)],
                    jobs_found,
                    jobs_new,
                    jobs_updated,
                    now,
                ),
            ),
    {
        let n = self.runs.len();
        let mut i: usize = 0;
        while i < n
            invariant
                self@ == old(self)@,
                self.spec_next_id() == old(self).spec_next_id(),
                i <= n,
                n == self.runs@.len(),
                forall|j: int| 0 <= j < i ==> (#[trigger] self@[j]).id != id,
            decreases n - i,
        {
            if self.runs[i].id == id {
                let mut updated = self.runs[i].clone();
                updated.status = RunStatus::Succeeded;
                updated.jobs_found = Some(jobs_found);
                updated.jobs_new = Some(jobs_new);
                updated.jobs_updated = Some(jobs_updated);
                updated.finished_at = Some(now);
                self.runs.set(i, updated);
                proof {
                    lemma_index_of_id_is(old(self)@, id, i as int);
                    assert(self@ =~= old(self)@.update(
                        i as int,
                        succeeded(old(self)@[i as int], jobs_found, jobs_new, jobs_updated, now),
                    ));
                }
                return;
            }
            i = i + 1;
        }
        proof {
            assert(!Self::has_id(self@, id));
        }
    }

    /// Marks a claimed run failed with the message, stamping `finished_at =
    /// now`. As with `mark_succeeded`, the run must be running.
    #[verifier::loop_isolation(false)]
    pub fn mark_failed(&mut self, id: u64, error: &str, now: u64)
        requires
            old(self).wf(),
            Self::has_id(old(self)@, id),
            old(self)@[Self::index_of_id(old(self)@, id)].status is Running,
        ensures
            final(self).wf(),
            final(self).spec_next_id() == old(self).spec_next_id(),
            final(self)@ == old(self)@.update(
                Self::index_of_id(old(self)@, id),
                failed(old(self)@[Self::index_of_id(old(self)@, id)], error@, now),
            ),
    {
        let n = self.runs.len();
        let mut i: usize = 0;
        while i < n
            invariant
                self@ == old(self)@,
                self.spec_next_id() == old(self).spec_next_id(),
                i <= n,
                n == self.runs@.len(),
                forall|j: int| 0 <= j < i ==> (#[trigger] self@[j]).id != id,
            decreases n - i,
        {
            if self.runs[i].id == id {
                let mut updated = self.runs[i].clone();
                updated.status = RunStatus::Failed;
                updated.error = Some(error.to_owned());
                updated.finished_at = Some(now);
                self.runs.set(i, updated);
                proof {
                    lemma_index_of_id_is(old(self)@, id, i as int);
                    assert(self@ =~= old(self)@.update(
                        i as int,
                        failed(old(self)@[i as int], error@, now),
                    ));
                }
                return;
            }
            i = i + 1;
        }
        proof {
            assert(!Self::has_id(self@, id));
        }
    }

    /// Starts a freshly enqueued run immediately, without going through a
    /// claim: the inline-ingest path creates a run and processes it in the
    /// same request. The run must still be pending.
    #[verifier::loop_isolation(false)]
    pub fn start_inline(&mut self, id: u64, now: u64)
        requires
            old(self).wf(),
            Self::has_id(old(self)@, id),
            old(self)@[Self::index_of_id(old(self)@, id)].status is Pending,
        ensures
            final(self).wf(),
            final(self).spec_next_id() == old(self).spec_next_id(),
            final(self)@ == old(self)@.update(
                Self::index_of_id(old(self)@, id),
                claimed(old(self)@[Self::index_of_id(old(self)@, id)], now),
            ),
    {
        let n = self.runs.len();
        let mut i: usize = 0;
        while i < n
            invariant
                self@ == old(self)@,
                self.spec_next_id() == old(self).spec_next_id(),
                i <= n,
                n == self.runs@.len(),
                forall|j: int| 0 <= j < i ==> (#[trigger] self@[j]).id != id,
            decreases n - i,
        {
            if self.runs[i].id == id {
                let mut updated = self.runs[i].clone();
                updated.status = RunStatus::Running;
                updated.started_at = Some(now);
                self.runs.set(i, updated);
                proof {
                    lemma_index_of_id_is(old(self)@, id, i as int);
                    assert(self@ =~= old(self)@.update(
                        i as int,
                        claimed(old(self)@[i as int], now),
                    ));
                }
                return;
            }
            i = i + 1;
        }
        proof {
            assert(!Self::has_id(self@, id));
        }
    }


    /// Read-only history: up to `limit` runs passing the optional
    /// collector-name filter, newest `requested_at` first. Every returned
    /// run is a distinct run of the queue; when the limit truncates, only
    /// runs no newer than the last returned one are left out.
    #[verifier::loop_isolation(false)]
    #[verifier::rlimit(60)]
    #[verifier::spinoff_prover]
    pub fn recent(&self, collector_name: Option<&str>, limit: usize) -> (r: Vec<CollectorRun>)
        requires
            self.wf(),
        ensures
            ({
                let fv = (match collector_name {
                    Some(n) => Some(n@),
                    None => None,
                });
                let rv = runs_view(r@);
                &&& rv.len() == (if match_count(self@, fv) <= limit {
                    match_count(self@, fv)
                } else {
                    limit as nat
                })
                &&& (forall|k: int| 0 <= k < rv.len() ==> matches_filter(#[trigger] rv[k], fv))
                &&& (forall|a: int, b: int|
                    0 <= a < b < rv.len() ==> rv[a].requested_at >= rv[b].requested_at)
                &&& (forall|k: int|
                    0 <= k < rv.len() ==> exists|i: int|
                        0 <= i < self@.len() && (#[trigger] rv[k]) == self@[i])
                &&& (forall|a: int, b: int| 0 <= a < b < rv.len() ==> rv[a].id != rv[b].id)
                &&& (forall|i: int|
                    0 <= i < self@.len() && matches_filter(#[trigger] self@[i], fv) && (forall|
                        k: int,
                    |
                        0 <= k < rv.len() ==> (#[trigger] rv[k]).id != self@[i].id) ==> rv.len()
                        == limit && (rv.len() > 0 ==> self@[i].requested_at <= rv[rv.len()
                        - 1].requested_at))
            }),
    {
        let ghost fv = (match collector_name {
            Some(n) => Some(n@),
            None => None,
        });
        let filter: Option<String> = match collector_name {
            Some(n) => Some(n.to_owned()),
            None => None,
        };
        let n = self.runs.len();
        let mut taken: Vec<bool> = Vec::new();
        while taken.len() < n
            invariant
                taken@.len() <= n,
                forall|i: int| 0 <= i < taken@.len() ==> !(#[trigger] taken@[i]),
            decreases n - taken.len(),
        {
            taken.push(false);
        }
        proof {
            lemma_untaken_all_false(self@, taken@, fv);
        }
        let mut out: Vec<CollectorRun> = Vec::new();
        let ghost mut picks: Seq<int> = Seq::empty();
        #[verifier::loop_isolation(true)]
        while out.len() < limit
            invariant
                out@.len() <= limit,
                taken@.len() == n,
                n == self@.len(),
                (match filter {
                    Some(f) => fv == Some(f@),
                    None => fv is None,
                }),
                forall|a: int, b: int| 0 <= a < b < n ==> self@[a].id != self@[b].id,
                untaken_count(self@, taken@, fv) == match_count(self@, fv) - out@.len(),
                picks.len() == out@.len(),
                forall|k: int| 0 <= k < picks.len() ==> 0 <= (#[trigger] picks[k]) < n,
                forall|k: int|
                    0 <= k < picks.len() ==> (#[trigger] out@[k])@ == self@[picks[k]],
                forall|k: int| 0 <= k < picks.len() ==> taken@[#[trigger] picks[k]],
                forall|a: int, b: int| 0 <= a < b < picks.len() ==> picks[a] != picks[b],
                forall|k: int|
                    0 <= k < picks.len() ==> matches_filter(self@[#[trigger] picks[k]], fv),
                forall|a: int, b: int|
                    0 <= a < b < picks.len() ==> self@[picks[a]].requested_at
                        >= self@[picks[b]].requested_at,
                forall|i: int|
                    0 <= i < n && (#[trigger] taken@[i]) ==> exists|k: int|
                        0 <= k < picks.len() && (#[trigger] picks[k]) == i,
                forall|i: int|
                    0 <= i < n && !(#[trigger] taken@[i]) && matches_filter(self@[i], fv)
                        && picks.len() > 0 ==> self@[i].requested_at <= self@[picks[picks.len()
                        - 1]].requested_at,
            ensures
                out@.len() <= limit,
                taken@.len() == n,
                untaken_count(self@, taken@, fv) == match_count(self@, fv) - out@.len(),
                out@.len() == limit || untaken_count(self@, taken@, fv) == 0,
                picks.len() == out@.len(),
                forall|k: int| 0 <= k < picks.len() ==> 0 <= (#[trigger] picks[k]) < n,
                forall|k: int|
                    0 <= k < picks.len() ==> (#[trigger] out@[k])@ == self@[picks[k]],
                forall|a: int, b: int| 0 <= a < b < picks.len() ==> picks[a] != picks[b],
                forall|k: int|
                    0 <= k < picks.len() ==> matches_filter(self@[#[trigger] picks[k]], fv),
                forall|a: int, b: int|
                    0 <= a < b < picks.len() ==> self@[picks[a]].requested_at
                        >= self@[picks[b]].requested_at,
                forall|i: int|
                    0 <= i < n && (#[trigger] taken@[i]) ==> exists|k: int|
                        0 <= k < picks.len() && (#[trigger] picks[k]) == i,
                forall|i: int|
                    0 <= i < n && !(#[trigger] taken@[i]) && matches_filter(self@[i], fv)
                        && picks.len() > 0 ==> self@[i].requested_at <= self@[picks[picks.len()
                        - 1]].requested_at,
            decreases limit - out.len(),
        {
            let mut best: usize = 0;
            let mut found = false;
            let mut i: usize = 0;
            while i < n
                invariant
                    i <= n,
                    n == self@.len(),
                    taken@.len() == n,
                    found ==> best < i && !taken@[best as int] && matches_filter(
                        self@[best as int],
                        fv,
                    ),
                    found ==> forall|j: int|
                        0 <= j < i && !taken@[j] && matches_filter(#[trigger] self@[j], fv)
                            ==> self@[j].requested_at <= self@[best as int].requested_at,
                    !found ==> forall|j: int|
                        0 <= j < i ==> taken@[j] || !matches_filter(#[trigger] self@[j], fv),
                decreases n - i,
            {
                let candidate = !taken[i] && (match &filter {
                    Some(f) => self.runs[i].collector_name.eq(f),
                    None => true,
                });
                if candidate {
                    if !found {
                        best = i;
                        found = true;
                    } else if self.runs[i].requested_at > self.runs[best].requested_at {
                        best = i;
                    }
                }
                i = i + 1;
            }
            if !found {
                proof {
                    lemma_untaken_zero(self@, taken@, fv);
                }
                break;
            }
            proof {
                lemma_untaken_take_one(self@, taken@, fv, best as int);
            }
            let ghost prev_taken = taken@;
            let ghost prev_picks = picks;
            taken.set(best, true);
            out.push(self.runs[best].clone());
            proof {
                picks = picks.push(best as int);
                assert forall|i2: int| 0 <= i2 < n && (#[trigger] taken@[i2]) implies exists|
                    k: int,
                |
                    0 <= k < picks.len() && (#[trigger] picks[k]) == i2 by {
                    if i2 == best {
                        assert(picks[picks.len() - 1] == i2);
                    } else {
                        assert(prev_taken[i2]);
                        let k = choose|k: int|
                            0 <= k < prev_picks.len() && (#[trigger] prev_picks[k]) == i2;
                        assert(picks[k] == i2);
                    }
                }
            }
        }
        proof {
            let rv = runs_view(out@);
            assert forall|k: int| 0 <= k < out@.len() implies (#[trigger] rv[k]) == out@[k]@ by {}
            assert forall|k: int|
                0 <= k < rv.len() implies exists|i: int|
                    0 <= i < self@.len() && (#[trigger] rv[k]) == self@[i] by {
                assert(0 <= picks[k] < self@.len() && rv[k] == self@[picks[k]]);
            }
            assert forall|i: int|
                0 <= i < self@.len() && matches_filter(#[trigger] self@[i], fv) && (forall|k: int|
                    0 <= k < rv.len() ==> (#[trigger] rv[k]).id != self@[i].id) implies rv.len()
                == limit && (rv.len() > 0 ==> self@[i].requested_at <= rv[rv.len()
                - 1].requested_at) by {
                if taken@[i] {
                    let k = choose|k: int| 0 <= k < picks.len() && (#[trigger] picks[k]) == i;
                    assert(rv[k] == self@[i]);
                    assert(rv[k].id == self@[i].id);
                } else {
                    lemma_untaken_nonzero(self@, taken@, fv, i);
                    assert(out@.len() == limit);
                    if rv.len() > 0 {
                        assert(rv[rv.len() - 1] == self@[picks[picks.len() - 1]]);
                    }
                }
            }
        }
        out
    }

    /// Startup sweep: every running run of this collector becomes failed
    /// with the distinguished crash message and `finished_at = now`; every
    /// other run, other collectors' running runs included, is untouched.
    /// Returns how many runs were swept.
    #[verifier::loop_isolation(false)]
    pub fn recover_stale(&mut self, collector_name: &str, now: u64) -> (count: u64)
        requires
            old(self).wf(),
        ensures
            final(self).wf(),
            final(self).spec_next_id() == old(self).spec_next_id(),
            final(self)@.len() == old(self)@.len(),
            forall|i: int|
                0 <= i < old(self)@.len() && running_for(#[trigger] old(self)@[i], collector_name@)
                    ==> final(self)@[i] == failed(old(self)@[i], stale_message(), now),
            forall|i: int|
                0 <= i < old(self)@.len() && !running_for(#[trigger] old(self)@[i], collector_name@)
                    ==> final(self)@[i] == old(self)@[i],
            count as int == running_count(old(self)@, collector_name@),
    {
        let name = collector_name.to_owned();
        let n = self.runs.len();
        let mut count: u64 = 0;
        let mut i: usize = 0;
        while i < n
            invariant
                i <= n,
                n == self.runs@.len(),
                self@.len() == old(self)@.len(),
                self.next_id == old(self).next_id,
                forall|j: int|
                    i <= j < old(self)@.len() ==> self@[j] == (#[trigger] old(self)@[j]),
                forall|j: int|
                    0 <= j < i && running_for(#[trigger] old(self)@[j], name@) ==> self@[j]
                        == failed(old(self)@[j], stale_message(), now),
                forall|j: int|
                    0 <= j < i && !running_for(#[trigger] old(self)@[j], name@) ==> self@[j]
                        == old(self)@[j],
                count as int == running_count(old(self)@.take(i as int), name@),
                count <= i,
            decreases n - i,
        {
            let is_stale = matches!(self.runs[i].status, RunStatus::Running)
                && self.runs[i].collector_name.eq(&name);
            if is_stale {
                let mut updated = self.runs[i].clone();
                updated.status = RunStatus::Failed;
                updated.error = Some("Worker crashed (stale recovery)".to_owned());
                updated.finished_at = Some(now);
                self.runs.set(i, updated);
                count = count + 1;
            }
            proof {
                assert(old(self)@.take(i + 1).drop_last() =~= old(self)@.take(i as int));
                assert(old(self)@.take(i + 1).last() == old(self)@[i as int]);
            }
            i = i + 1;
        }
        proof {
            assert(old(self)@.take(n as int) =~= old(self)@);
            assert forall|k: int| 0 <= k < self@.len() implies (#[trigger] self@[k]).id == old(
                self,
            )@[k].id && run_wf(self@[k]) by {
                assert(run_wf(old(self)@[k]));
                if running_for(old(self)@[k], name@) {
                    assert(self@[k] == failed(old(self)@[k], stale_message(), now));
                } else {
                    assert(self@[k] == old(self)@[k]);
                }
            }
        }
        count
    }
}

/// A run's pending count goes down by exactly one when a claim succeeds.
pub proof fn lemma_claim_decrements(pre: Seq<RunModel>, name: Seq<char>, i: int, now: u64)
    requires
        is_claim_choice(pre, name, i),
    ensures
        pending_count(pre.update(i, claimed(pre[i], now)), name) == pending_count(pre, name) - 1,
{
    lemma_pending_count_update(pre, name, i, claimed(pre[i], now));
}

/// Updating position `i` changes the pending count exactly by the
/// difference the two runs make at that position.
proof fn lemma_pending_count_update(s: Seq<RunModel>, name: Seq<char>, i: int, m: RunModel)
    requires
        0 <= i < s.len(),
    ensures
        pending_count(s.update(i, m), name) == pending_count(s, name)
            - (if pending_for(s[i], name) { 1int } else { 0 })
            + (if pending_for(m, name) { 1int } else { 0 }),
    decreases s.len(),
{
    let t = s.update(i, m);
    if i == s.len() - 1 {
        assert(t.drop_last() =~= s.drop_last());
        assert(t.last() == m);
    } else {
        assert(t.drop_last() =~= s.drop_last().update(i, m));
        assert(t.last() == s.last());
        lemma_pending_count_update(s.drop_last(), name, i, m);
    }
}

/// A queue with no pending run for the collector has pending count zero,
/// and the other way round.
pub proof fn lemma_pending_count_zero(s: Seq<RunModel>, name: Seq<char>)
    ensures
        pending_count(s, name) == 0 <==> !has_pending(s, name),
    decreases s.len(),
{
    if s.len() > 0 {
        lemma_pending_count_zero(s.drop_last(), name);
        assert(forall|i: int|
            0 <= i < s.len() - 1 ==> s.drop_last()[i] == (#[trigger] s[i]));
        if pending_count(s, name) == 0 {
            assert forall|i: int| 0 <= i < s.len() implies !pending_for(#[trigger] s[i], name) by {
                if i < s.len() - 1 {
                    assert(s.drop_last()[i] == s[i]);
                    assert(!has_pending(s.drop_last(), name));
                }
            }
        } else {
            if pending_for(s.last(), name) {
                assert(pending_for(s[s.len() - 1], name));
            } else {
                assert(has_pending(s.drop_last(), name));
                let i = choose|i: int|
                    0 <= i < s.drop_last().len() && pending_for(#[trigger] s.drop_last()[i], name);
                assert(pending_for(s[i], name));
            }
        }
    }
}

/// Law: two successive successful claims for one collector never hand out
/// the same run, whatever the claim times were. With the claim count law
/// (`lemma_claim_decrements`) and `lemma_pending_count_zero`, N pending runs
/// feed exactly N claims, each returning a distinct run, and the next claim
/// returns nothing.
pub proof fn lemma_claims_distinct(
    q0: Seq<RunModel>,
    name: Seq<char>,
    i1: int,
    i2: int,
    t1: u64,
    t2: u64,
)
    requires
        is_claim_choice(q0, name, i1),
        is_claim_choice(q0.update(i1, claimed(q0[i1], t1)), name, i2),
    ensures
        i1 != i2,
        q0.update(i1, claimed(q0[i1], t1))[i2].id == q0[i2].id,
{
    let q1 = q0.update(i1, claimed(q0[i1], t1));
    assert(q1[i1].status is Running);
    assert(pending_for(q1[i2], name));
}

/// The crash-recovery message is never empty, so a swept run always
/// carries a non-empty error.
pub proof fn lemma_stale_message_nonempty()
    ensures
        stale_message().len() > 0,
{
    reveal_strlit("Worker crashed (stale recovery)");
}

/// Law: the claim choice is the oldest pending run, ties broken by
/// insertion order — any other pending run for the collector either was
/// requested later, or was requested at the same time and inserted later.
pub proof fn lemma_claim_is_oldest(s: Seq<RunModel>, name: Seq<char>, i: int, j: int)
    requires
        is_claim_choice(s, name, i),
        0 <= j < s.len(),
        j != i,
        pending_for(s[j], name),
    ensures
        s[i].requested_at < s[j].requested_at || (s[i].requested_at == s[j].requested_at && i < j),
{
}


/// The best claim candidate among the first `k` runs, `-1` when none is
/// pending there: the spec-level image of the scan a claim performs.
pub open spec fn scan_choice(s: Seq<RunModel>, name: Seq<char>, k: int) -> int
    decreases k,
{
    if k <= 0 {
        -1
    } else {
        let prev = scan_choice(s, name, k - 1);
        if pending_for(s[k - 1], name) && (prev == -1 || s[k - 1].requested_at
            < s[prev].requested_at) {
            k - 1
        } else {
            prev
        }
    }
}

/// The scan finds the claim choice whenever something is pending.
pub proof fn lemma_claim_choice_exists(s: Seq<RunModel>, name: Seq<char>)
    requires
        has_pending(s, name),
    ensures
        is_claim_choice(s, name, scan_choice(s, name, s.len() as int)),
{
    lemma_scan_choice(s, name, s.len() as int);
    let c = scan_choice(s, name, s.len() as int);
    if c == -1 {
        let w = choose|i: int| 0 <= i < s.len() && pending_for(#[trigger] s[i], name);
        assert(false);
    }
}

/// Scan invariant: `-1` means no pending run among the first `k`; anything
/// else is the claim choice restricted to the first `k` runs.
proof fn lemma_scan_choice(s: Seq<RunModel>, name: Seq<char>, k: int)
    requires
        0 <= k <= s.len(),
    ensures
        ({
            let c = scan_choice(s, name, k);
            if c == -1 {
                forall|j: int| 0 <= j < k ==> !pending_for(#[trigger] s[j], name)
            } else {
                &&& 0 <= c < k
                &&& pending_for(s[c], name)
                &&& forall|j: int|
                    0 <= j < k && pending_for(#[trigger] s[j], name) ==> s[c].requested_at
                        <= s[j].requested_at
                &&& forall|j: int|
                    0 <= j < c && pending_for(#[trigger] s[j], name) ==> s[c].requested_at
                        < s[j].requested_at
            }
        }),
    decreases k,
{
    if k > 0 {
        lemma_scan_choice(s, name, k - 1);
    }
}

/// A sequence of claims applied one after the other, at the given times:
/// each step takes the claim choice of its moment's queue. The result is
/// the final queue and the claimed indices, in order.
pub open spec fn apply_claims(s: Seq<RunModel>, name: Seq<char>, times: Seq<u64>) -> (
    Seq<RunModel>,
    Seq<int>,
)
    decreases times.len(),
{
    if times.len() == 0 {
        (s, Seq::empty())
    } else if has_pending(s, name) {
        let i = the_claim_choice(s, name);
        let s1 = s.update(i, claimed(s[i], times[0]));
        let (sf, picks) = apply_claims(s1, name, times.drop_first());
        (sf, seq![i] + picks)
    } else {
        (s, Seq::empty())
    }
}

/// Law: with N pending runs for one collector, N claims — however many
/// callers they come from, in whatever order the atomic claims land —
/// return exactly N distinct runs, each of them pending beforehand, and
/// leave nothing pending, so the next claim returns none.
pub proof fn lemma_claims_exhaust_pending(s: Seq<RunModel>, name: Seq<char>, times: Seq<u64>)
    requires
        times.len() == pending_count(s, name),
    ensures
        ({
            let (sf, picks) = apply_claims(s, name, times);
            &&& picks.len() == times.len()
            &&& (forall|a: int, b: int| 0 <= a < b < picks.len() ==> picks[a] != picks[b])
            &&& (forall|k: int|
                0 <= k < picks.len() ==> 0 <= (#[trigger] picks[k]) < s.len() && pending_for(
                    s[picks[k]],
                    name,
                ))
            &&& pending_count(sf, name) == 0
            &&& !has_pending(sf, name)
        }),
    decreases times.len(),
{
    lemma_pending_count_zero(s, name);
    if times.len() == 0 {
    } else {
        assert(has_pending(s, name));
        lemma_claim_choice_exists(s, name);
        let i = the_claim_choice(s, name);
        assert(is_claim_choice(s, name, i));
        let s1 = s.update(i, claimed(s[i], times[0]));
        lemma_claim_decrements(s, name, i, times[0]);
        lemma_claims_exhaust_pending(s1, name, times.drop_first());
        let (sf, tail) = apply_claims(s1, name, times.drop_first());
        assert(apply_claims(s, name, times) == (sf, seq![i] + tail));
        let picks = seq![i] + tail;
        assert forall|k: int| 0 <= k < picks.len() implies 0 <= (#[trigger] picks[k]) < s.len()
            && pending_for(s[picks[k]], name) by {
            if k == 0 {
                assert(picks[0] == i);
            } else {
                assert(picks[k] == tail[k - 1]);
                assert(pending_for(s1[tail[k - 1]], name));
                assert(tail[k - 1] != i);
                assert(s1[tail[k - 1]] == s[tail[k - 1]]);
            }
        }
        assert forall|a: int, b: int| 0 <= a < b < picks.len() implies picks[a] != picks[b] by {
            if a == 0 {
                assert(picks[b] == tail[b - 1]);
                assert(pending_for(s1[tail[b - 1]], name));
                assert(tail[b - 1] != i);
            } else {
                assert(picks[a] == tail[a - 1] && picks[b] == tail[b - 1]);
            }
        }
    }
}

/// Helper: a found index with this id is the chosen one, since ids are
/// unique only up to what the caller knows; the witness fixes `choose`.
pub(crate) proof fn lemma_index_of_id_is(s: Seq<RunModel>, id: u64, i: int)
    requires
        0 <= i < s.len(),
        s[i].id == id,
        forall|a: int, b: int| 0 <= a < b < s.len() ==> s[a].id != s[b].id,
    ensures
        RunQueue::index_of_id(s, id) == i,
{
    let c = RunQueue::index_of_id(s, id);
    assert(0 <= c < s.len() && s[c].id == id);
    if c < i {
        assert(s[c].id != s[i].id);
    } else if i < c {
        assert(s[i].id != s[c].id);
    }
}

} // verus!
