//! Collector capability types: the posting a collector returns, and the
//! closed registry of collector names known at build time.

use vstd::prelude::*;
use crate::util::view_opt;

verus! {

/// A job as collected from an external source. Carries a company name, not
/// a company id: collectors do not know internal ids, the reconciler
/// resolves names. `raw_data` holds the original payload as JSON text.
#[derive(Debug)]
pub struct CollectedJob {
    pub company_name: String,
    pub title: String,
    pub url: Option<String>,
    pub location: Option<String>,
    pub remote_type: Option<String>,
    pub salary_min: Option<i32>,
    pub salary_max: Option<i32>,
    pub salary_currency: Option<String>,
    pub description: Option<String>,
    pub source: String,
    pub source_id: String,
    pub raw_data: Option<String>,
}

/// Mathematical image of a collected posting.
#[verifier::ext_equal]
pub ghost struct CollectedJobModel {
    pub company_name: Seq<char>,
    pub title: Seq<char>,
    pub url: Option<Seq<char>>,
    pub location: Option<Seq<char>>,
    pub remote_type: Option<Seq<char>>,
    pub salary_min: Option<i32>,
    pub salary_max: Option<i32>,
    pub salary_currency: Option<Seq<char>>,
    pub description: Option<Seq<char>>,
    pub source: Seq<char>,
    pub source_id: Seq<char>,
    pub raw_data: Option<Seq<char>>,
}

impl View for CollectedJob {
    type V = CollectedJobModel;

    open spec fn view(&self) -> CollectedJobModel {
        CollectedJobModel {
            company_name: self.company_name@,
            title: self.title@,
            url: view_opt(self.url),
            location: view_opt(self.location),
            remote_type: view_opt(self.remote_type),
            salary_min: self.salary_min,
            salary_max: self.salary_max,
            salary_currency: view_opt(self.salary_currency),
            description: view_opt(self.description),
            source: self.source@,
            source_id: self.source_id@,
            raw_data: view_opt(self.raw_data),
        }
    }
}

/// The one collector this build knows: a job-board client named
/// "hiringcafe".
pub struct HiringCafe;

impl HiringCafe {
    /// The registry name of this collector.
    pub fn name(&self) -> (r: &'static str)
        ensures
            r@ == "hiringcafe"@,
    {
        "hiringcafe"
    }
}

/// Does a collector with this name exist in the closed registry?
pub open spec fn spec_known_collector(name: Seq<char>) -> bool {
    name == "hiringcafe"@
}

/// Looks a collector up by name; the registry is closed, so only the names
/// compiled in resolve.
pub fn get_collector(name: &str) -> (r: Option<HiringCafe>)
    ensures
        r is Some <==> spec_known_collector(name@),
{
    let k = name.to_owned();
    if k.eq(&"hiringcafe".to_owned()) {
        Some(HiringCafe)
    } else {
        None
    }
}

} // verus!
