//! Timeline events: free-form entries attached to an application or a job.

use vstd::prelude::*;
use crate::util::view_opt;

verus! {

/// An event row. Timestamps are seconds since the epoch.
#[derive(Debug)]
pub struct Event {
    pub id: u64,
    pub application_id: Option<u64>,
    pub job_id: Option<u64>,
    pub event_type: String,
    pub description: Option<String>,
    pub occurred_at: u64,
    pub created_at: u64,
}

/// Mathematical image of an event row.
#[verifier::ext_equal]
pub ghost struct EventModel {
    pub id: u64,
    pub application_id: Option<u64>,
    pub job_id: Option<u64>,
    pub event_type: Seq<char>,
    pub description: Option<Seq<char>>,
    pub occurred_at: u64,
    pub created_at: u64,
}

impl View for Event {
    type V = EventModel;

    open spec fn view(&self) -> EventModel {
        EventModel {
            id: self.id,
            application_id: self.application_id,
            job_id: self.job_id,
            event_type: self.event_type@,
            description: view_opt(self.description),
            occurred_at: self.occurred_at,
            created_at: self.created_at,
        }
    }
}

/// Fields for creating an event; a missing `occurred_at` reads as the
/// current time.
#[derive(Debug)]
pub struct CreateEvent {
    pub application_id: Option<u64>,
    pub job_id: Option<u64>,
    pub event_type: String,
    pub description: Option<String>,
    pub occurred_at: Option<u64>,
}

/// Filters for event listings.
#[derive(Debug)]
pub struct EventFilters {
    pub application_id: Option<u64>,
    pub job_id: Option<u64>,
}

/// The row a creation produces under a given id and time.
pub open spec fn spec_new_event(
    input_application_id: Option<u64>,
    input_job_id: Option<u64>,
    event_type: Seq<char>,
    description: Option<Seq<char>>,
    occurred_at: Option<u64>,
    id: u64,
    now: u64,
) -> EventModel {
    EventModel {
        id: id,
        application_id: input_application_id,
        job_id: input_job_id,
        event_type: event_type,
        description: description,
        occurred_at: (match occurred_at {
            Some(t) => t,
            None => now,
        }),
        created_at: now,
    }
}

impl Event {
    /// The row a creation produces, `occurred_at` defaulting to now.
    pub fn from_create(input: CreateEvent, id: u64, now: u64) -> (r: Event)
        ensures
            r@ == spec_new_event(
                input.application_id,
                input.job_id,
                input.event_type@,
                view_opt(input.description),
                input.occurred_at,
                id,
                now,
            ),
    {
        Event {
            id: id,
            application_id: input.application_id,
            job_id: input.job_id,
            event_type: input.event_type,
            description: input.description,
            occurred_at: (match input.occurred_at {
                Some(t) => t,
                None => now,
            }),
            created_at: now,
        }
    }
}

} // verus!
