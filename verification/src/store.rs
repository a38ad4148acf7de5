//! The persistent job store as the reconciler sees it: companies unique by
//! name, jobs keyed by (source, source_id), and the idempotent merge of
//! collected postings into both.

use vstd::prelude::*;
use crate::collectors::{CollectedJob, CollectedJobModel};
use crate::company::{Company, CompanyModel};
use crate::job::{CreateJob, CreateJobModel, Job, JobModel};
use crate::util::clone_opt_string;

verus! {

/// Mathematical image of the store.
#[verifier::ext_equal]
pub ghost struct StoreModel {
    pub companies: Seq<CompanyModel>,
    pub jobs: Seq<JobModel>,
    pub next_company_id: u64,
    pub next_job_id: u64,
}

/// Does some company carry this name?
pub open spec fn has_company_named(cs: Seq<CompanyModel>, name: Seq<char>) -> bool {
    exists|i: int| 0 <= i < cs.len() && (#[trigger] cs[i]).name == name
}

/// The index of the company with this name, when there is one.
pub open spec fn company_named_at(cs: Seq<CompanyModel>, name: Seq<char>) -> int {
    choose|i: int| 0 <= i < cs.len() && (#[trigger] cs[i]).name == name
}

/// How many companies carry this name.
pub open spec fn count_named(cs: Seq<CompanyModel>, name: Seq<char>) -> nat
    decreases cs.len(),
{
    if cs.len() == 0 {
        0
    } else {
        count_named(cs.drop_last(), name) + if cs.last().name == name {
            1nat
        } else {
            0nat
        }
    }
}

/// A company created from nothing but a name.
pub open spec fn fresh_company(id: u64, name: Seq<char>, now: u64) -> CompanyModel {
    CompanyModel {
        id: id,
        name: name,
        website: None,
        careers_url: None,
        ats_platform: None,
        notes: None,
        created_at: now,
        updated_at: now,
    }
}

/// Resolving a company name: the existing row when the name is taken,
/// otherwise a fresh row appended under the next id.
pub open spec fn spec_resolve(m: StoreModel, name: Seq<char>, now: u64) -> (StoreModel, CompanyModel) {
    if has_company_named(m.companies, name) {
        (m, m.companies[company_named_at(m.companies, name)])
    } else {
        let c = fresh_company(m.next_company_id, name, now);
        (
            StoreModel {
                companies: m.companies.push(c),
                next_company_id: (m.next_company_id + 1) as u64,
                ..m
            },
            c,
        )
    }
}

/// Does this job carry the (source, source_id) key?
pub open spec fn job_keyed(j: JobModel, source: Seq<char>, sid: Seq<char>) -> bool {
    j.source == source && j.source_id == Some(sid)
}

/// Does some job carry the key?
pub open spec fn has_job_keyed(js: Seq<JobModel>, source: Seq<char>, sid: Seq<char>) -> bool {
    exists|i: int| 0 <= i < js.len() && job_keyed(#[trigger] js[i], source, sid)
}

/// The index of the job with the key, when there is one.
pub open spec fn job_keyed_at(js: Seq<JobModel>, source: Seq<char>, sid: Seq<char>) -> int {
    choose|i: int| 0 <= i < js.len() && job_keyed(#[trigger] js[i], source, sid)
}

/// How many jobs carry the key.
pub open spec fn count_keyed(js: Seq<JobModel>, source: Seq<char>, sid: Seq<char>) -> nat
    decreases js.len(),
{
    if js.len() == 0 {
        0
    } else {
        count_keyed(js.drop_last(), source, sid) + if job_keyed(js.last(), source, sid) {
            1nat
        } else {
            0nat
        }
    }
}

/// The row an insert produces: every creation field, stamped throughout
/// with `now` (`found_at` included).
pub open spec fn new_job(id: u64, input: CreateJobModel, now: u64) -> JobModel {
    JobModel {
        id: id,
        company_id: input.company_id,
        title: input.title,
        url: input.url,
        location: input.location,
        remote_type: input.remote_type,
        salary_min: input.salary_min,
        salary_max: input.salary_max,
        salary_currency: input.salary_currency,
        description: input.description,
        requirements: input.requirements,
        source: input.source,
        source_id: input.source_id,
        found_at: now,
        expires_at: input.expires_at,
        raw_data: input.raw_data,
        created_at: now,
        updated_at: now,
    }
}

/// The row an upsert leaves when the key already exists: the mutable fields
/// (title, url, location, remote type, compensation, description, expiry,
/// raw payload) take the incoming values; identity, key, `found_at` and
/// `created_at` stay.
pub open spec fn upserted_job(existing: JobModel, input: CreateJobModel, now: u64) -> JobModel {
    JobModel {
        title: input.title,
        url: input.url,
        location: input.location,
        remote_type: input.remote_type,
        salary_min: input.salary_min,
        salary_max: input.salary_max,
        salary_currency: input.salary_currency,
        description: input.description,
        expires_at: input.expires_at,
        raw_data: input.raw_data,
        updated_at: now,
        ..existing
    }
}

/// Upserting a job: keyed by (source, source_id) when the source id is
/// present — insert if the key is absent, update the existing row's mutable
/// fields if not. Without a source id the row is plainly inserted.
pub open spec fn spec_upsert(m: StoreModel, input: CreateJobModel, now: u64) -> (
    StoreModel,
    JobModel,
    bool,
) {
    if input.source_id matches Some(sid) && has_job_keyed(m.jobs, input.source, sid) {
        let i = job_keyed_at(m.jobs, input.source, input.source_id->0);
        let j = upserted_job(m.jobs[i], input, now);
        (StoreModel { jobs: m.jobs.update(i, j), ..m }, j, false)
    } else {
        let j = new_job(m.next_job_id, input, now);
        (StoreModel { jobs: m.jobs.push(j), next_job_id: (m.next_job_id + 1) as u64, ..m }, j, true)
    }
}

/// The creation fields a posting turns into, once its company name has
/// resolved to an id.
pub open spec fn posting_create(p: CollectedJobModel, company_id: u64) -> CreateJobModel {
    CreateJobModel {
        company_id: company_id,
        title: p.title,
        url: p.url,
        location: p.location,
        remote_type: p.remote_type,
        salary_min: p.salary_min,
        salary_max: p.salary_max,
        salary_currency: p.salary_currency,
        description: p.description,
        requirements: None,
        source: p.source,
        source_id: Some(p.source_id),
        expires_at: None,
        raw_data: p.raw_data,
    }
}

/// Result of reconciling a batch.
#[verifier::ext_equal]
pub ghost struct ReconcileOut {
    pub store: StoreModel,
    pub new: int,
    pub updated: int,
}

/// Reconciling one posting: resolve the company, then upsert the job.
pub open spec fn spec_reconcile_step(m: StoreModel, p: CollectedJobModel, now: u64) -> (
    StoreModel,
    bool,
) {
    let (m1, c) = spec_resolve(m, p.company_name, now);
    let (m2, j, inserted) = spec_upsert(m1, posting_create(p, c.id), now);
    (m2, inserted)
}

/// Reconciling a batch, left to right.
pub open spec fn spec_reconcile(m: StoreModel, ps: Seq<CollectedJobModel>, now: u64) -> ReconcileOut
    decreases ps.len(),
{
    if ps.len() == 0 {
        ReconcileOut { store: m, new: 0, updated: 0 }
    } else {
        let prev = spec_reconcile(m, ps.drop_last(), now);
        let (m2, inserted) = spec_reconcile_step(prev.store, ps.last(), now);
        ReconcileOut {
            store: m2,
            new: prev.new + if inserted { 1int } else { 0 },
            updated: prev.updated + if inserted { 0int } else { 1 },
        }
    }
}

/// Store invariant: unique company ids and names, unique job ids and keys,
/// ids below their counters.
pub open spec fn store_wf(m: StoreModel) -> bool {
    &&& forall|i: int, j: int|
        0 <= i < j < m.companies.len() ==> m.companies[i].id != m.companies[j].id
    &&& forall|i: int, j: int|
        0 <= i < j < m.companies.len() ==> m.companies[i].name != m.companies[j].name
    &&& forall|i: int|
        0 <= i < m.companies.len() ==> (#[trigger] m.companies[i]).id < m.next_company_id
    &&& forall|i: int, j: int| 0 <= i < j < m.jobs.len() ==> m.jobs[i].id != m.jobs[j].id
    &&& forall|i: int, j: int|
        0 <= i < j < m.jobs.len() && m.jobs[i].source_id is Some && m.jobs[j].source_id is Some
            && m.jobs[i].source == m.jobs[j].source ==> m.jobs[i].source_id != m.jobs[j].source_id
    &&& forall|i: int| 0 <= i < m.jobs.len() ==> (#[trigger] m.jobs[i]).id < m.next_job_id
}

/// The persistent store: companies and jobs, with their id counters. Its
/// real counterpart is a pair of tables.
pub struct Store {
    companies: Vec<Company>,
    jobs: Vec<Job>,
    next_company_id: u64,
    next_job_id: u64,
}

impl View for Store {
    type V = StoreModel;

    closed spec fn view(&self) -> StoreModel {
        StoreModel {
            companies: self.companies@.map_values(|c: Company| c@),
            jobs: self.jobs@.map_values(|j: Job| j@),
            next_company_id: self.next_company_id,
            next_job_id: self.next_job_id,
        }
    }
}

impl Store {
    /// An empty store.
    pub fn new() -> (s: Store)
        ensures
            store_wf(s@),
            s@.companies == Seq::<CompanyModel>::empty(),
            s@.jobs == Seq::<JobModel>::empty(),
            s@.next_company_id == 1,
            s@.next_job_id == 1,
    {
        let s = Store { companies: Vec::new(), jobs: Vec::new(), next_company_id: 1, next_job_id: 1 };
        proof {
            assert(s@.companies =~= Seq::<CompanyModel>::empty());
            assert(s@.jobs =~= Seq::<JobModel>::empty());
        }
        s
    }

    /// Resolves a company by exact name, creating it when absent, and
    /// returns the row. Races between two resolvers of one new name are the
    /// store's concern; here resolution is atomic, so a second call finds
    /// the first call's row (`lemma_company_resolution_collapses`).
    #[verifier::loop_isolation(false)]
    pub fn find_or_create(&mut self, name: &str, now: u64) -> (r: Company)
        requires
            store_wf(old(self)@),
            old(self)@.next_company_id < u64::MAX,
        ensures
            store_wf(final(self)@),
            ({
                let (m1, c) = spec_resolve(old(self)@, name@, now);
                final(self)@ == m1 && r@ == c
            }),
    {
        let key = name.to_owned();
        let n = self.companies.len();
        let mut i: usize = 0;
        while i < n
            invariant
                *self == *old(self),
                i <= n,
                n == self@.companies.len(),
                forall|j: int| 0 <= j < i ==> (#[trigger] self@.companies[j]).name != key@,
            decreases n - i,
        {
            if self.companies[i].name.eq(&key) {
                proof {
                    lemma_company_named_at_is(self@.companies, key@, i as int);
                }
                return self.companies[i].clone();
            }
            i = i + 1;
        }
        assert(!has_company_named(self@.companies, name@));
        let c = Company {
            id: self.next_company_id,
            name: key,
            website: None,
            careers_url: None,
            ats_platform: None,
            notes: None,
            created_at: now,
            updated_at: now,
        };
        let copy = c.clone();
        self.companies.push(c);
        self.next_company_id = self.next_company_id + 1;
        proof {
            assert(self@.companies =~= old(self)@.companies.push(copy@));
            assert(self@ =~= spec_resolve(old(self)@, name@, now).0);
        }
        copy
    }

    /// Upserts a job by (source, source_id): inserts when the key is new
    /// (or absent altogether), else updates the existing row's mutable
    /// fields, preserving `found_at`. The flag says whether a row was
    /// inserted.
    #[verifier::loop_isolation(false)]
    pub fn upsert(&mut self, input: CreateJob, now: u64) -> (r: (Job, bool))
        requires
            store_wf(old(self)@),
            old(self)@.next_job_id < u64::MAX,
        ensures
            store_wf(final(self)@),
            ({
                let (m1, j, inserted) = spec_upsert(old(self)@, input@, now);
                final(self)@ == m1 && r.0@ == j && r.1 == inserted
            }),
    {
        let has_key = input.source_id.is_some();
        if has_key {
            let sid = match &input.source_id {
                Some(s) => s.clone(),
                None => String::new(),
            };
            let n = self.jobs.len();
            let mut i: usize = 0;
            while i < n
                invariant
                    *self == *old(self),
                    i <= n,
                    n == self@.jobs.len(),
                    input.source_id matches Some(s) && sid@ == s@,
                    forall|j: int|
                        0 <= j < i ==> !job_keyed(#[trigger] self@.jobs[j], input.source@, sid@),
                decreases n - i,
            {
                let candidate_keyed = match &self.jobs[i].source_id {
                    Some(s) => s.eq(&sid) && self.jobs[i].source.eq(&input.source),
                    None => false,
                };
                if candidate_keyed {
                    proof {
                        lemma_job_keyed_at_is(self@.jobs, input.source@, sid@, i as int);
                    }
                    let updated = self.jobs[i].apply_upsert(&input, now);
                    let copy = updated.clone();
                    self.jobs.set(i, updated);
                    proof {
                        assert(self@.jobs =~= old(self)@.jobs.update(i as int, copy@));
                        assert(self@ =~= spec_upsert(old(self)@, input@, now).0);
                    }
                    return (copy, false);
                }
                i = i + 1;
            }
            assert(!has_job_keyed(self@.jobs, input.source@, sid@));
        }
        let j = Job {
            id: self.next_job_id,
            company_id: input.company_id,
            title: input.title,
            url: input.url,
            location: input.location,
            remote_type: input.remote_type,
            salary_min: input.salary_min,
            salary_max: input.salary_max,
            salary_currency: input.salary_currency,
            description: input.description,
            requirements: input.requirements,
            source: input.source,
            source_id: input.source_id,
            found_at: now,
            expires_at: input.expires_at,
            raw_data: input.raw_data,
            created_at: now,
            updated_at: now,
        };
        let copy = j.clone();
        self.jobs.push(j);
        self.next_job_id = self.next_job_id + 1;
        proof {
            assert(self@.jobs =~= old(self)@.jobs.push(copy@));
            assert(self@ =~= spec_upsert(old(self)@, input@, now).0);
        }
        (copy, true)
    }

    /// Reconciles a batch of postings: resolves each company by name,
    /// upserts each job by key, and reports (found, new, updated). `found`
    /// counts every posting handed in; `new` and `updated` count the
    /// writes.
    #[verifier::loop_isolation(false)]
    pub fn upsert_jobs(&mut self, jobs: Vec<CollectedJob>, now: u64) -> (counts: (i32, i32, i32))
        requires
            store_wf(old(self)@),
            jobs@.len() <= 0x7fff_ffff,
            old(self)@.next_company_id + jobs@.len() < u64::MAX,
            old(self)@.next_job_id + jobs@.len() < u64::MAX,
        ensures
            store_wf(final(self)@),
            ({
                let out = spec_reconcile(old(self)@, jobs@.map_values(|p: CollectedJob| p@), now);
                final(self)@ == out.store && counts.0 == jobs@.len() && counts.1 == out.new
                    && counts.2 == out.updated
            }),
    {
        let ghost ps = jobs@.map_values(|p: CollectedJob| p@);
        let found: i32 = jobs.len() as i32;
        let mut new: i32 = 0;
        let mut updated: i32 = 0;
        let n = jobs.len();
        let mut i: usize = 0;
        while i < n
            invariant
                i <= n,
                n == jobs@.len(),
                ps == jobs@.map_values(|p: CollectedJob| p@),
                store_wf(self@),
                new >= 0,
                updated >= 0,
                new + updated == i,
                self@.next_company_id <= old(self)@.next_company_id + i,
                self@.next_job_id <= old(self)@.next_job_id + i,
                ({
                    let out = spec_reconcile(old(self)@, ps.take(i as int), now);
                    self@ == out.store && new == out.new && updated == out.updated
                }),
            decreases n - i,
        {
            let company = self.find_or_create(jobs[i].company_name.as_str(), now);
            let input = jobs[i].to_create(company.id);
            let (_job, inserted) = self.upsert(input, now);
            if inserted {
                new = new + 1;
            } else {
                updated = updated + 1;
            }
            proof {
                assert(ps.take(i + 1).drop_last() =~= ps.take(i as int));
                assert(ps.take(i + 1).last() == ps[i as int]);
            }
            i = i + 1;
        }
        proof {
            assert(ps.take(n as int) =~= ps);
        }
        (found, new, updated)
    }
}

impl CollectedJob {
    /// The creation fields this posting turns into for the given company.
    pub fn to_create(&self, company_id: u64) -> (r: CreateJob)
        ensures
            r@ == posting_create(self@, company_id),
    {
        CreateJob {
            company_id: company_id,
            title: self.title.clone(),
            url: clone_opt_string(&self.url),
            location: clone_opt_string(&self.location),
            remote_type: clone_opt_string(&self.remote_type),
            salary_min: self.salary_min,
            salary_max: self.salary_max,
            salary_currency: clone_opt_string(&self.salary_currency),
            description: clone_opt_string(&self.description),
            requirements: None,
            source: self.source.clone(),
            source_id: Some(self.source_id.clone()),
            expires_at: None,
            raw_data: clone_opt_string(&self.raw_data),
        }
    }
}

impl Job {
    /// The row an upsert's update leg produces.
    pub fn apply_upsert(&self, input: &CreateJob, now: u64) -> (r: Job)
        ensures
            r@ == upserted_job(self@, input@, now),
    {
        Job {
            id: self.id,
            company_id: self.company_id,
            title: input.title.clone(),
            url: clone_opt_string(&input.url),
            location: clone_opt_string(&input.location),
            remote_type: clone_opt_string(&input.remote_type),
            salary_min: input.salary_min,
            salary_max: input.salary_max,
            salary_currency: clone_opt_string(&input.salary_currency),
            description: clone_opt_string(&input.description),
            requirements: clone_opt_string(&self.requirements),
            source: self.source.clone(),
            source_id: clone_opt_string(&self.source_id),
            found_at: self.found_at,
            expires_at: input.expires_at,
            raw_data: clone_opt_string(&input.raw_data),
            created_at: self.created_at,
            updated_at: now,
        }
    }
}

/// A found index with this company name is the chosen one, names being
/// unique.
proof fn lemma_company_named_at_is(cs: Seq<CompanyModel>, name: Seq<char>, i: int)
    requires
        0 <= i < cs.len(),
        cs[i].name == name,
        forall|a: int, b: int| 0 <= a < b < cs.len() ==> cs[a].name != cs[b].name,
    ensures
        has_company_named(cs, name),
        company_named_at(cs, name) == i,
{
    assert(has_company_named(cs, name));
    let c = company_named_at(cs, name);
    assert(0 <= c < cs.len() && cs[c].name == name);
    if c < i {
        assert(cs[c].name != cs[i].name);
    } else if i < c {
        assert(cs[i].name != cs[c].name);
    }
}

/// A found index with this job key is the chosen one, keys being unique.
proof fn lemma_job_keyed_at_is(js: Seq<JobModel>, source: Seq<char>, sid: Seq<char>, i: int)
    requires
        0 <= i < js.len(),
        job_keyed(js[i], source, sid),
        forall|a: int, b: int|
            0 <= a < b < js.len() && js[a].source_id is Some && js[b].source_id is Some
                && js[a].source == js[b].source ==> js[a].source_id != js[b].source_id,
    ensures
        has_job_keyed(js, source, sid),
        job_keyed_at(js, source, sid) == i,
{
    assert(has_job_keyed(js, source, sid));
    let c = job_keyed_at(js, source, sid);
    assert(0 <= c < js.len() && job_keyed(js[c], source, sid));
    if c < i {
        assert(js[c].source_id != js[i].source_id);
    } else if i < c {
        assert(js[i].source_id != js[c].source_id);
    }
}

/// No company carries the name exactly when the name's count is zero.
pub proof fn lemma_count_named_zero(cs: Seq<CompanyModel>, name: Seq<char>)
    ensures
        count_named(cs, name) == 0 <==> !has_company_named(cs, name),
    decreases cs.len(),
{
    if cs.len() > 0 {
        lemma_count_named_zero(cs.drop_last(), name);
        assert(forall|i: int| 0 <= i < cs.len() - 1 ==> cs.drop_last()[i] == (#[trigger] cs[i]));
        if count_named(cs, name) == 0 {
            assert forall|i: int| 0 <= i < cs.len() implies (#[trigger] cs[i]).name != name by {
                if i < cs.len() - 1 {
                    assert(cs.drop_last()[i] == cs[i]);
                    assert(!has_company_named(cs.drop_last(), name));
                }
            }
        } else {
            if cs.last().name == name {
                assert(cs[cs.len() - 1].name == name);
            } else {
                let i = choose|i: int|
                    0 <= i < cs.drop_last().len() && (#[trigger] cs.drop_last()[i]).name == name;
                assert(cs[i].name == name);
            }
        }
    }
}

/// No job carries the key exactly when the key's count is zero.
pub proof fn lemma_count_keyed_zero(js: Seq<JobModel>, source: Seq<char>, sid: Seq<char>)
    ensures
        count_keyed(js, source, sid) == 0 <==> !has_job_keyed(js, source, sid),
    decreases js.len(),
{
    if js.len() > 0 {
        lemma_count_keyed_zero(js.drop_last(), source, sid);
        assert(forall|i: int| 0 <= i < js.len() - 1 ==> js.drop_last()[i] == (#[trigger] js[i]));
        if count_keyed(js, source, sid) == 0 {
            assert forall|i: int| 0 <= i < js.len() implies !job_keyed(#[trigger] js[i], source, sid) by {
                if i < js.len() - 1 {
                    assert(js.drop_last()[i] == js[i]);
                    assert(!has_job_keyed(js.drop_last(), source, sid));
                }
            }
        } else {
            if job_keyed(js.last(), source, sid) {
                assert(job_keyed(js[js.len() - 1], source, sid));
            } else {
                let i = choose|i: int|
                    0 <= i < js.drop_last().len() && job_keyed(#[trigger] js.drop_last()[i], source, sid);
                assert(job_keyed(js[i], source, sid));
            }
        }
    }
}

/// Updating a job row without touching its key leaves every key count as it
/// was; pushing a row adds one to its own key's count.
proof fn lemma_count_keyed_update(js: Seq<JobModel>, source: Seq<char>, sid: Seq<char>, i: int, j: JobModel)
    requires
        0 <= i < js.len(),
        job_keyed(js[i], source, sid) <==> job_keyed(j, source, sid),
    ensures
        count_keyed(js.update(i, j), source, sid) == count_keyed(js, source, sid),
    decreases js.len(),
{
    let t = js.update(i, j);
    if i == js.len() - 1 {
        assert(t.drop_last() =~= js.drop_last());
        assert(t.last() == j);
    } else {
        assert(t.drop_last() =~= js.drop_last().update(i, j));
        assert(t.last() == js.last());
        lemma_count_keyed_update(js.drop_last(), source, sid, i, j);
    }
}

/// Law: a company name unseen so far, resolved twice — by two postings, in
/// either order — collapses to exactly one company row, and the second
/// resolution returns the row the first created, changing nothing.
pub proof fn lemma_company_resolution_collapses(m0: StoreModel, name: Seq<char>, t1: u64, t2: u64)
    requires
        store_wf(m0),
        !has_company_named(m0.companies, name),
        m0.next_company_id < u64::MAX,
    ensures
        ({
            let (m1, c1) = spec_resolve(m0, name, t1);
            let (m2, c2) = spec_resolve(m1, name, t2);
            &&& m2 == m1
            &&& c2 == c1
            &&& c1.id == m0.next_company_id
            &&& count_named(m1.companies, name) == 1
        }),
{
    let (m1, c1) = spec_resolve(m0, name, t1);
    let cs1 = m0.companies.push(fresh_company(m0.next_company_id, name, t1));
    assert(m1.companies == cs1);
    assert(cs1[cs1.len() - 1].name == name);
    assert(has_company_named(cs1, name));
    assert forall|a: int, b: int| 0 <= a < b < cs1.len() implies cs1[a].name != cs1[b].name by {
        if b < cs1.len() - 1 {
            assert(cs1[a] == m0.companies[a] && cs1[b] == m0.companies[b]);
        } else {
            assert(cs1[a] == m0.companies[a]);
            assert(!(m0.companies[a].name == name));
        }
    }
    lemma_company_named_at_is(cs1, name, cs1.len() - 1);
    lemma_count_named_zero(m0.companies, name);
    assert(cs1.drop_last() =~= m0.companies);
    assert(count_named(cs1, name) == 1);
}

/// Law: two postings sharing a (source, source_id) key, reconciled one
/// after the other against a store that had never seen the key, leave
/// exactly one job row: the first batch inserts it (new = 1), the second
/// updates it in place (updated = 1, new = 0), keeps the original
/// `found_at`, and moves every mutable field to the second posting's value.
pub proof fn lemma_repeat_reconcile_updates(
    m0: StoreModel,
    p1: CollectedJobModel,
    p2: CollectedJobModel,
    t1: u64,
    t2: u64,
)
    requires
        store_wf(m0),
        p1.source == p2.source,
        p1.source_id == p2.source_id,
        !has_job_keyed(m0.jobs, p1.source, p1.source_id),
        m0.next_company_id < u64::MAX - 1,
        m0.next_job_id < u64::MAX - 1,
    ensures
        ({
            let r1 = spec_reconcile(m0, seq![p1], t1);
            let r2 = spec_reconcile(r1.store, seq![p2], t2);
            let i = job_keyed_at(r2.store.jobs, p2.source, p2.source_id);
            &&& r1.new == 1 && r1.updated == 0
            &&& r2.new == 0 && r2.updated == 1
            &&& count_keyed(r2.store.jobs, p2.source, p2.source_id) == 1
            &&& job_keyed(r2.store.jobs[i], p2.source, p2.source_id)
            &&& r2.store.jobs[i].found_at == t1
            &&& r2.store.jobs[i].title == p2.title
            &&& r2.store.jobs[i].url == p2.url
            &&& r2.store.jobs[i].location == p2.location
            &&& r2.store.jobs[i].remote_type == p2.remote_type
            &&& r2.store.jobs[i].salary_min == p2.salary_min
            &&& r2.store.jobs[i].salary_max == p2.salary_max
            &&& r2.store.jobs[i].salary_currency == p2.salary_currency
            &&& r2.store.jobs[i].description == p2.description
            &&& r2.store.jobs[i].raw_data == p2.raw_data
            &&& r2.store.jobs[i].updated_at == t2
        }),
{
    assert(seq![p1].drop_last() =~= Seq::<CollectedJobModel>::empty());
    assert(seq![p2].drop_last() =~= Seq::<CollectedJobModel>::empty());
    assert(seq![p1].last() == p1);
    assert(seq![p2].last() == p2);
    assert(spec_reconcile(m0, Seq::<CollectedJobModel>::empty(), t1) == ReconcileOut {
        store: m0,
        new: 0int,
        updated: 0int,
    });
    let r1 = spec_reconcile(m0, seq![p1], t1);
    let (ma, c1) = spec_resolve(m0, p1.company_name, t1);
    assert(ma.jobs == m0.jobs);
    let key_src = p1.source;
    let key_sid = p1.source_id;
    assert(!has_job_keyed(ma.jobs, key_src, key_sid));
    let inserted = new_job(ma.next_job_id, posting_create(p1, c1.id), t1);
    assert(r1.store.jobs == ma.jobs.push(inserted));
    assert(r1.new == 1 && r1.updated == 0);

    let js1 = r1.store.jobs;
    assert(job_keyed(js1[js1.len() - 1], key_src, key_sid));
    assert forall|a: int, b: int|
        0 <= a < b < js1.len() && js1[a].source_id is Some && js1[b].source_id is Some
            && js1[a].source == js1[b].source implies js1[a].source_id != js1[b].source_id by {
        if b < js1.len() - 1 {
            assert(js1[a] == m0.jobs[a] && js1[b] == m0.jobs[b]);
        } else {
            assert(js1[a] == m0.jobs[a]);
            assert(!job_keyed(m0.jobs[a], key_src, key_sid));
        }
    }
    lemma_job_keyed_at_is(js1, key_src, key_sid, js1.len() - 1);

    assert(spec_reconcile(r1.store, Seq::<CollectedJobModel>::empty(), t2) == ReconcileOut {
        store: r1.store,
        new: 0int,
        updated: 0int,
    });
    let r2 = spec_reconcile(r1.store, seq![p2], t2);
    let (mb, c2) = spec_resolve(r1.store, p2.company_name, t2);
    assert(mb.jobs == js1);
    let k = job_keyed_at(mb.jobs, key_src, key_sid);
    assert(k == js1.len() - 1);
    let merged = upserted_job(js1[k], posting_create(p2, c2.id), t2);
    assert(r2.store.jobs == js1.update(k, merged));
    assert(r2.new == 0 && r2.updated == 1);
    assert(merged.found_at == t1);
    assert(job_keyed(merged, key_src, key_sid));

    let js2 = r2.store.jobs;
    assert forall|a: int, b: int|
        0 <= a < b < js2.len() && js2[a].source_id is Some && js2[b].source_id is Some
            && js2[a].source == js2[b].source implies js2[a].source_id != js2[b].source_id by {
        if b < js2.len() - 1 {
            assert(js2[a] == m0.jobs[a] && js2[b] == m0.jobs[b]);
        } else {
            assert(js2[a] == js1[a]);
        }
    }
    lemma_job_keyed_at_is(js2, key_src, key_sid, js2.len() - 1);

    lemma_count_keyed_zero(m0.jobs, key_src, key_sid);
    assert(js1.drop_last() =~= m0.jobs);
    assert(count_keyed(js1, key_src, key_sid) == 1);
    lemma_count_keyed_update(js1, key_src, key_sid, k, merged);
}

} // verus!
