//! Collector rows: a named strategy with an enabled flag, an open
//! configuration document, and last-run bookkeeping.

use vstd::prelude::*;
use crate::json::JVal;
use crate::util::view_opt;

verus! {

/// A collector row. The configuration is an open structured document that
/// only the matching source collector interprets.
#[derive(Debug)]
pub struct Collector {
    pub id: u64,
    pub name: String,
    pub enabled: bool,
    pub config: JVal,
    pub last_run_at: Option<u64>,
    pub last_error: Option<String>,
    pub created_at: u64,
    pub updated_at: u64,
}

/// Mathematical image of a collector row; the configuration document is
/// carried as it stands.
#[verifier::ext_equal]
pub ghost struct CollectorModel {
    pub id: u64,
    pub name: Seq<char>,
    pub enabled: bool,
    pub config: JVal,
    pub last_run_at: Option<u64>,
    pub last_error: Option<Seq<char>>,
    pub created_at: u64,
    pub updated_at: u64,
}

impl View for Collector {
    type V = CollectorModel;

    open spec fn view(&self) -> CollectorModel {
        CollectorModel {
            id: self.id,
            name: self.name@,
            enabled: self.enabled,
            config: self.config,
            last_run_at: self.last_run_at,
            last_error: view_opt(self.last_error),
            created_at: self.created_at,
            updated_at: self.updated_at,
        }
    }
}

/// Partial update of a collector: toggle the flag, replace the document.
#[derive(Debug)]
pub struct UpdateCollector {
    pub enabled: Option<bool>,
    pub config: Option<JVal>,
}

/// What a partial update leaves in the row: present fields replace, absent
/// fields keep the stored value, `updated_at` is stamped.
pub open spec fn spec_collector_update(
    existing: CollectorModel,
    enabled: Option<bool>,
    config: Option<JVal>,
    now: u64,
) -> CollectorModel {
    CollectorModel {
        enabled: if enabled is Some { enabled->0 } else { existing.enabled },
        config: if config is Some { config->0 } else { existing.config },
        updated_at: now,
        ..existing
    }
}

/// The bookkeeping a finished run leaves on its collector: the run time and
/// the run's error, if any.
pub open spec fn spec_record_run(existing: CollectorModel, error: Option<Seq<char>>, now: u64) -> CollectorModel {
    CollectorModel { last_run_at: Some(now), last_error: error, updated_at: now, ..existing }
}

impl Collector {
    /// The row a partial update produces.
    pub fn apply_update(self, input: UpdateCollector, now: u64) -> (r: Collector)
        ensures
            r@ == spec_collector_update(self@, input.enabled, input.config, now),
    {
        let enabled = match input.enabled {
            Some(e) => e,
            None => self.enabled,
        };
        let config = match input.config {
            Some(c) => c,
            None => self.config,
        };
        Collector {
            id: self.id,
            name: self.name,
            enabled: enabled,
            config: config,
            last_run_at: self.last_run_at,
            last_error: self.last_error,
            created_at: self.created_at,
            updated_at: now,
        }
    }

    /// The row after a run's bookkeeping: `last_run_at` stamped, the run's
    /// error stored (clearing any earlier one on success).
    pub fn apply_record_run(self, error: Option<String>, now: u64) -> (r: Collector)
        ensures
            r@ == spec_record_run(self@, view_opt(error), now),
    {
        Collector {
            id: self.id,
            name: self.name,
            enabled: self.enabled,
            config: self.config,
            last_run_at: Some(now),
            last_error: error,
            created_at: self.created_at,
            updated_at: now,
        }
    }
}

} // verus!
