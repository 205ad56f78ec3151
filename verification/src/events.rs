//! The events that are written down for a session.

use vstd::prelude::*;

use crate::model::{
    DetailView, EventDetail, EventRecord, EventView, SessionRecord, SessionView, Timestamp,
};
use crate::text::clone_opt_text;

verus! {

/// The event with which a session begins, at the instant of its creation.
pub open spec fn created(s: SessionView) -> EventView {
    EventView {
        ts: s.created_at,
        kind: "created"@,
        detail: DetailView::Created { name: s.current_name, mode: s.mode, sandbox: s.sandbox },
    }
}

/// The event that a session has a new name.
pub open spec fn renamed(s: SessionView, ts: Timestamp) -> EventView {
    EventView {
        ts,
        kind: "renamed"@,
        detail: DetailView::Renamed {
            current_name: s.current_name,
            started_name: s.started_name,
            id_hash: s.id_hash,
        },
    }
}

/// The event that a session failed to start.
pub open spec fn failed(s: SessionView, ts: Timestamp) -> EventView {
    EventView { ts, kind: "failed"@, detail: DetailView::Failed { reason: s.failure_reason } }
}

/// The event that a session runs.
pub open spec fn live(s: SessionView, ts: Timestamp) -> EventView {
    EventView {
        ts,
        kind: "live"@,
        detail: DetailView::Live { service_pid: s.service_pid, child_pid: s.child_pid },
    }
}

/// The event that a session exited.
pub open spec fn exited(exit_code: Option<i32>, ts: Timestamp) -> EventView {
    EventView { ts, kind: "exited"@, detail: DetailView::Exited { exit_code } }
}

/// The event that a signal was sent to a session.
pub open spec fn signaled(signal: Seq<char>, ts: Timestamp) -> EventView {
    EventView { ts, kind: "signal"@, detail: DetailView::Signal { signal } }
}

/// The event with which a session begins, at the instant of its creation.
pub fn created_event(session: &SessionRecord) -> (r: EventRecord)
    ensures
        r@ == created(session@),
{
    EventRecord {
        ts: session.created_at,
        kind: "created".to_owned(),
        detail: EventDetail::Created {
            name: session.current_name.clone(),
            mode: session.mode,
            sandbox: session.sandbox.clone(),
        },
    }
}

/// The event that a session has a new name.
pub fn renamed_event(session: &SessionRecord, ts: Timestamp) -> (r: EventRecord)
    ensures
        r@ == renamed(session@, ts),
{
    EventRecord {
        ts,
        kind: "renamed".to_owned(),
        detail: EventDetail::Renamed {
            current_name: session.current_name.clone(),
            started_name: session.started_name.clone(),
            id_hash: session.id_hash.clone(),
        },
    }
}

/// The event that a session failed to start.
pub fn failed_event(session: &SessionRecord, ts: Timestamp) -> (r: EventRecord)
    ensures
        r@ == failed(session@, ts),
{
    EventRecord {
        ts,
        kind: "failed".to_owned(),
        detail: EventDetail::Failed { reason: clone_opt_text(&session.failure_reason) },
    }
}

/// The event that a session runs.
pub fn live_event(session: &SessionRecord, ts: Timestamp) -> (r: EventRecord)
    ensures
        r@ == live(session@, ts),
{
    EventRecord {
        ts,
        kind: "live".to_owned(),
        detail: EventDetail::Live {
            service_pid: session.service_pid,
            child_pid: session.child_pid,
        },
    }
}

/// The event that a session exited.
pub fn exited_event(exit_code: Option<i32>, ts: Timestamp) -> (r: EventRecord)
    ensures
        r@ == exited(exit_code, ts),
{
    EventRecord { ts, kind: "exited".to_owned(), detail: EventDetail::Exited { exit_code } }
}

/// The event that a signal was sent to a session.
pub fn signal_event(signal: &str, ts: Timestamp) -> (r: EventRecord)
    ensures
        r@ == signaled(signal@, ts),
{
    EventRecord {
        ts,
        kind: "signal".to_owned(),
        detail: EventDetail::Signal { signal: signal.to_owned() },
    }
}

} // verus!
