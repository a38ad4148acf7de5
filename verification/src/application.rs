//! Applications: the tracker's own records of job applications. Collection
//! never writes these; the update-merging and status rules live here for
//! the HTTP layer.

use vstd::prelude::*;
use vstd::string::StringExecFns;
use crate::util::{clone_opt_string, view_opt};

verus! {

/// An application row. Timestamps are seconds since the epoch.
#[derive(Debug)]
pub struct Application {
    pub id: u64,
    pub job_id: u64,
    pub status: String,
    pub cv_variant: Option<String>,
    pub applied_at: Option<u64>,
    pub response_at: Option<u64>,
    pub notes: Option<String>,
    pub created_at: u64,
    pub updated_at: u64,
}

/// Mathematical image of an application row.
#[verifier::ext_equal]
pub ghost struct ApplicationModel {
    pub id: u64,
    pub job_id: u64,
    pub status: Seq<char>,
    pub cv_variant: Option<Seq<char>>,
    pub applied_at: Option<u64>,
    pub response_at: Option<u64>,
    pub notes: Option<Seq<char>>,
    pub created_at: u64,
    pub updated_at: u64,
}

impl View for Application {
    type V = ApplicationModel;

    open spec fn view(&self) -> ApplicationModel {
        ApplicationModel {
            id: self.id,
            job_id: self.job_id,
            status: self.status@,
            cv_variant: view_opt(self.cv_variant),
            applied_at: self.applied_at,
            response_at: self.response_at,
            notes: view_opt(self.notes),
            created_at: self.created_at,
            updated_at: self.updated_at,
        }
    }
}

/// Fields for creating an application; a missing status reads as "draft".
#[derive(Debug)]
pub struct CreateApplication {
    pub job_id: u64,
    pub status: Option<String>,
    pub cv_variant: Option<String>,
    pub notes: Option<String>,
}

/// Partial update of an application; absent fields keep their value.
#[derive(Debug)]
pub struct UpdateApplication {
    pub status: Option<String>,
    pub cv_variant: Option<String>,
    pub applied_at: Option<u64>,
    pub response_at: Option<u64>,
    pub notes: Option<String>,
}

/// Status filter for application listings.
#[derive(Debug)]
pub struct ApplicationFilters {
    pub status: Option<String>,
}

/// The row a creation produces under a given id and time.
pub open spec fn spec_new_application(
    id: u64,
    job_id: u64,
    status: Option<Seq<char>>,
    cv_variant: Option<Seq<char>>,
    notes: Option<Seq<char>>,
    now: u64,
) -> ApplicationModel {
    ApplicationModel {
        id: id,
        job_id: job_id,
        status: (match status {
            Some(s) => s,
            None => "draft"@,
        }),
        cv_variant: cv_variant,
        applied_at: None,
        response_at: None,
        notes: notes,
        created_at: now,
        updated_at: now,
    }
}

/// What a partial update leaves in the row.
pub open spec fn spec_application_update(
    existing: ApplicationModel,
    status: Option<Seq<char>>,
    cv_variant: Option<Seq<char>>,
    applied_at: Option<u64>,
    response_at: Option<u64>,
    notes: Option<Seq<char>>,
    now: u64,
) -> ApplicationModel {
    ApplicationModel {
        status: if status is Some { status->0 } else { existing.status },
        cv_variant: if cv_variant is Some { cv_variant } else { existing.cv_variant },
        applied_at: if applied_at is Some { applied_at } else { existing.applied_at },
        response_at: if response_at is Some { response_at } else { existing.response_at },
        notes: if notes is Some { notes } else { existing.notes },
        updated_at: now,
        ..existing
    }
}

impl Application {
    /// The row a creation produces, status defaulting to "draft".
    pub fn from_create(input: CreateApplication, id: u64, now: u64) -> (r: Application)
        ensures
            r@ == spec_new_application(
                id,
                input.job_id,
                view_opt(input.status),
                view_opt(input.cv_variant),
                view_opt(input.notes),
                now,
            ),
    {
        Application {
            id: id,
            job_id: input.job_id,
            status: (match input.status {
                Some(s) => s,
                None => "draft".to_owned(),
            }),
            cv_variant: input.cv_variant,
            applied_at: None,
            response_at: None,
            notes: input.notes,
            created_at: now,
            updated_at: now,
        }
    }

    /// The row a partial update produces.
    pub fn apply_update(&self, input: UpdateApplication, now: u64) -> (r: Application)
        ensures
            r@ == spec_application_update(
                self@,
                view_opt(input.status),
                view_opt(input.cv_variant),
                input.applied_at,
                input.response_at,
                view_opt(input.notes),
                now,
            ),
    {
        Application {
            id: self.id,
            job_id: self.job_id,
            status: (match input.status {
                Some(s) => s,
                None => self.status.clone(),
            }),
            cv_variant: (match input.cv_variant {
                Some(v) => Some(v),
                None => clone_opt_string(&self.cv_variant),
            }),
            applied_at: (match input.applied_at {
                Some(v) => Some(v),
                None => self.applied_at,
            }),
            response_at: (match input.response_at {
                Some(v) => Some(v),
                None => self.response_at,
            }),
            notes: (match input.notes {
                Some(v) => Some(v),
                None => clone_opt_string(&self.notes),
            }),
            created_at: self.created_at,
            updated_at: now,
        }
    }
}

/// Every application status the tracker knows, in display order.
pub fn all_statuses() -> (r: Vec<String>)
    ensures
        r@.len() == 7,
        r@[0]@ == "draft"@,
        r@[1]@ == "applied"@,
        r@[2]@ == "interviewing"@,
        r@[3]@ == "rejected"@,
        r@[4]@ == "offer"@,
        r@[5]@ == "accepted"@,
        r@[6]@ == "withdrawn"@,
{
    let mut v: Vec<String> = Vec::new();
    v.push("draft".to_owned());
    v.push("applied".to_owned());
    v.push("interviewing".to_owned());
    v.push("rejected".to_owned());
    v.push("offer".to_owned());
    v.push("accepted".to_owned());
    v.push("withdrawn".to_owned());
    v
}

/// The total of a list of status counts.
pub open spec fn spec_count_sum(counts: Seq<(Seq<char>, i64)>) -> int
    decreases counts.len(),
{
    if counts.len() == 0 {
        0
    } else {
        spec_count_sum(counts.drop_last()) + counts.last().1
    }
}

/// The total of the statuses a predicate keeps, here written out for the
/// two sums the dashboard shows.
pub open spec fn spec_count_of(counts: Seq<(Seq<char>, i64)>, status: Seq<char>) -> int
    decreases counts.len(),
{
    if counts.len() == 0 {
        0
    } else {
        spec_count_of(counts.drop_last(), status) + if counts.last().0 == status {
            counts.last().1
        } else {
            0
        }
    }
}

/// The view of a status-count list.
pub open spec fn counts_view(counts: Seq<(String, i64)>) -> Seq<(Seq<char>, i64)> {
    counts.map_values(|c: (String, i64)| (c.0@, c.1))
}

/// The dashboard's headline numbers from the per-status counts: total
/// applications, those interviewing, and offers (accepted ones included).
#[verifier::loop_isolation(false)]
pub fn dashboard_stats(counts: &Vec<(String, i64)>) -> (r: (i64, i64, i64))
    requires
        forall|i: int| 0 <= i < counts@.len() ==> 0 <= (#[trigger] counts@[i]).1,
        spec_count_sum(counts_view(counts@)) <= i64::MAX,
    ensures
        r.0 == spec_count_sum(counts_view(counts@)),
        r.1 == spec_count_of(counts_view(counts@), "interviewing"@),
        r.2 == spec_count_of(counts_view(counts@), "offer"@) + spec_count_of(
            counts_view(counts@),
            "accepted"@,
        ),
{
    let mut total: i64 = 0;
    let mut interviewing: i64 = 0;
    let mut offers: i64 = 0;
    let n = counts.len();
    let mut i: usize = 0;
    while i < n
        invariant
            i <= n,
            n == counts@.len(),
            total == spec_count_sum(counts_view(counts@).take(i as int)),
            interviewing == spec_count_of(counts_view(counts@).take(i as int), "interviewing"@),
            offers == spec_count_of(counts_view(counts@).take(i as int), "offer"@) + spec_count_of(
                counts_view(counts@).take(i as int),
                "accepted"@,
            ),
            0 <= total,
            0 <= interviewing <= total,
            0 <= offers <= total,
        decreases n - i,
    {
        proof {
            assert(counts_view(counts@).take(i + 1).drop_last() =~= counts_view(counts@).take(
                i as int,
            ));
            assert(counts_view(counts@).take(i + 1).last() == counts_view(counts@)[i as int]);
            assert forall|j: int| 0 <= j < counts_view(counts@).len() implies 0 <= (
            #[trigger] counts_view(counts@)[j]).1 by {
                assert(counts_view(counts@)[j] == (counts@[j].0@, counts@[j].1));
            }
            assert forall|j: int| 0 <= j < i + 1 implies 0 <= (#[trigger] counts_view(
                counts@,
            ).take(i + 1)[j]).1 by {
                assert(counts_view(counts@).take(i + 1)[j] == counts_view(counts@)[j]);
            }
            lemma_count_sum_prefix_bound(counts_view(counts@), i + 1);
            lemma_count_parts_bound(counts_view(counts@).take(i + 1), "interviewing"@);
            reveal_strlit("offer");
            reveal_strlit("accepted");
            assert("offer"@.len() == 5);
            assert("accepted"@.len() == 8);
            assert("offer"@ != "accepted"@);
            lemma_count_two_parts(counts_view(counts@).take(i + 1), "offer"@, "accepted"@);
        }
        let c = counts[i].1;
        total = total + c;
        let is_interviewing = counts[i].0.eq(&"interviewing".to_owned());
        let is_offer = counts[i].0.eq(&"offer".to_owned());
        let is_accepted = counts[i].0.eq(&"accepted".to_owned());
        if is_interviewing {
            interviewing = interviewing + c;
        }
        if is_offer || is_accepted {
            offers = offers + c;
        }
        i = i + 1;
    }
    proof {
        assert(counts_view(counts@).take(n as int) =~= counts_view(counts@));
    }
    (total, interviewing, offers)
}

/// A prefix's total never exceeds the whole list's, counts being
/// non-negative.
proof fn lemma_count_sum_prefix_bound(counts: Seq<(Seq<char>, i64)>, k: int)
    requires
        0 <= k <= counts.len(),
        forall|i: int| 0 <= i < counts.len() ==> 0 <= (#[trigger] counts[i]).1,
    ensures
        spec_count_sum(counts.take(k)) <= spec_count_sum(counts),
        0 <= spec_count_sum(counts.take(k)),
    decreases counts.len() - k,
{
    lemma_count_sum_nonneg(counts.take(k));
    if k < counts.len() {
        lemma_count_sum_prefix_bound(counts, k + 1);
        assert(counts.take(k + 1).drop_last() =~= counts.take(k));
        assert(counts.take(k + 1).last() == counts[k]);
    } else {
        assert(counts.take(k) =~= counts);
    }
}

/// A sum of non-negative counts is non-negative.
proof fn lemma_count_sum_nonneg(counts: Seq<(Seq<char>, i64)>)
    requires
        forall|i: int| 0 <= i < counts.len() ==> 0 <= (#[trigger] counts[i]).1,
    ensures
        0 <= spec_count_sum(counts),
    decreases counts.len(),
{
    if counts.len() > 0 {
        assert(forall|i: int|
            0 <= i < counts.len() - 1 ==> counts.drop_last()[i] == (#[trigger] counts[i]));
        lemma_count_sum_nonneg(counts.drop_last());
    }
}

/// Two different statuses' parts together stay within the total.
proof fn lemma_count_two_parts(counts: Seq<(Seq<char>, i64)>, s1: Seq<char>, s2: Seq<char>)
    requires
        s1 != s2,
        forall|i: int| 0 <= i < counts.len() ==> 0 <= (#[trigger] counts[i]).1,
    ensures
        0 <= spec_count_of(counts, s1) + spec_count_of(counts, s2) <= spec_count_sum(counts),
    decreases counts.len(),
{
    if counts.len() > 0 {
        assert(forall|i: int|
            0 <= i < counts.len() - 1 ==> counts.drop_last()[i] == (#[trigger] counts[i]));
        lemma_count_two_parts(counts.drop_last(), s1, s2);
    }
}

/// Per-status parts stay within the total, counts being non-negative.
proof fn lemma_count_parts_bound(counts: Seq<(Seq<char>, i64)>, status: Seq<char>)
    requires
        forall|i: int| 0 <= i < counts.len() ==> 0 <= (#[trigger] counts[i]).1,
    ensures
        0 <= spec_count_of(counts, status) <= spec_count_sum(counts),
    decreases counts.len(),
{
    if counts.len() > 0 {
        assert(forall|i: int|
            0 <= i < counts.len() - 1 ==> counts.drop_last()[i] == (#[trigger] counts[i]));
        lemma_count_parts_bound(counts.drop_last(), status);
    }
}

} // verus!
