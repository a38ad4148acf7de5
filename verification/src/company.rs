//! Companies: durable rows unique by name, resolved or created from a
//! posting's company name during reconciliation.

use vstd::prelude::*;
use crate::util::{clone_opt_string, view_opt};

verus! {

/// A durable company row. Timestamps are seconds since the epoch.
#[derive(Debug)]
pub struct Company {
    pub id: u64,
    pub name: String,
    pub website: Option<String>,
    pub careers_url: Option<String>,
    pub ats_platform: Option<String>,
    pub notes: Option<String>,
    pub created_at: u64,
    pub updated_at: u64,
}

/// Mathematical image of a company row.
#[verifier::ext_equal]
pub ghost struct CompanyModel {
    pub id: u64,
    pub name: Seq<char>,
    pub website: Option<Seq<char>>,
    pub careers_url: Option<Seq<char>>,
    pub ats_platform: Option<Seq<char>>,
    pub notes: Option<Seq<char>>,
    pub created_at: u64,
    pub updated_at: u64,
}

impl View for Company {
    type V = CompanyModel;

    open spec fn view(&self) -> CompanyModel {
        CompanyModel {
            id: self.id,
            name: self.name@,
            website: view_opt(self.website),
            careers_url: view_opt(self.careers_url),
            ats_platform: view_opt(self.ats_platform),
            notes: view_opt(self.notes),
            created_at: self.created_at,
            updated_at: self.updated_at,
        }
    }
}

impl Clone for Company {
    /// The copy has the same model.
    fn clone(&self) -> (r: Self)
        ensures
            r@ == self@,
    {
        Company {
            id: self.id,
            name: self.name.clone(),
            website: clone_opt_string(&self.website),
            careers_url: clone_opt_string(&self.careers_url),
            ats_platform: clone_opt_string(&self.ats_platform),
            notes: clone_opt_string(&self.notes),
            created_at: self.created_at,
            updated_at: self.updated_at,
        }
    }
}

/// Fields for creating a company.
#[derive(Debug)]
pub struct CreateCompany {
    pub name: String,
    pub website: Option<String>,
    pub careers_url: Option<String>,
    pub ats_platform: Option<String>,
    pub notes: Option<String>,
}

/// Partial update of a company; absent fields keep their current value.
#[derive(Debug)]
pub struct UpdateCompany {
    pub name: Option<String>,
    pub website: Option<String>,
    pub careers_url: Option<String>,
    pub ats_platform: Option<String>,
    pub notes: Option<String>,
}

/// What a partial update leaves in the row: present fields replace, absent
/// fields keep the stored value, `updated_at` is stamped.
pub open spec fn spec_company_update(
    existing: CompanyModel,
    name: Option<Seq<char>>,
    website: Option<Seq<char>>,
    careers_url: Option<Seq<char>>,
    ats_platform: Option<Seq<char>>,
    notes: Option<Seq<char>>,
    now: u64,
) -> CompanyModel {
    CompanyModel {
        name: if name is Some { name->0 } else { existing.name },
        website: if website is Some { website } else { existing.website },
        careers_url: if careers_url is Some { careers_url } else { existing.careers_url },
        ats_platform: if ats_platform is Some { ats_platform } else { existing.ats_platform },
        notes: if notes is Some { notes } else { existing.notes },
        updated_at: now,
        ..existing
    }
}

impl Company {
    /// The row a partial update produces.
    pub fn apply_update(&self, input: UpdateCompany, now: u64) -> (r: Company)
        ensures
            r@ == spec_company_update(
                self@,
                view_opt(input.name),
                view_opt(input.website),
                view_opt(input.careers_url),
                view_opt(input.ats_platform),
                view_opt(input.notes),
                now,
            ),
    {
        Company {
            id: self.id,
            name: match input.name {
                Some(n) => n,
                None => self.name.clone(),
            },
            website: match input.website {
                Some(w) => Some(w),
                None => clone_opt_string(&self.website),
            },
            careers_url: match input.careers_url {
                Some(w) => Some(w),
                None => clone_opt_string(&self.careers_url),
            },
            ats_platform: match input.ats_platform {
                Some(w) => Some(w),
                None => clone_opt_string(&self.ats_platform),
            },
            notes: match input.notes {
                Some(w) => Some(w),
                None => clone_opt_string(&self.notes),
            },
            created_at: self.created_at,
            updated_at: now,
        }
    }
}

} // verus!
