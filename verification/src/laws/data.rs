//! What holds of the data: that what the contracts speak of is what is held.

use vstd::prelude::*;

use crate::env_map;
use crate::error::{ErrorView, TmuyError};
use crate::lookup;
use crate::model;
use crate::model::{
    DetailView, EventDetail, EventRecord, FsGrant, GrantView, SandboxSpec, SessionRecord,
    SessionScope, SessionStatus, SessionView, StateFile, Timestamp,
};
use crate::outside;
use crate::request::SessionOrder;
use crate::runtime::daemon;
use crate::runtime::daemon::{DaemonStep, DaemonStepView};
use crate::runtime::protocol::{InputStep, StepView};
use crate::store::CreateSessionRequest;
use crate::text;

verus! {

/// A list of texts holds the text of each string, in order.
pub proof fn lists_of_texts_hold_each_string(v: Seq<String>, o: Option<String>, s: Option<&str>)
    ensures
        text::texts(v).len() == v.len(),
        forall|i: int| 0 <= i < v.len() ==> #[trigger] text::texts(v)[i] == v[i]@,
        o is None <==> text::opt_text(o) is None,
        o is Some ==> text::opt_text(o) == Some(o->0@),
        s is None <==> text::opt_str(s) is None,
        s is Some ==> text::opt_str(s) == Some(s->0@),
{
}

/// A sandbox is seen with each of its grants, in order, and its network mode.
pub proof fn sandboxes_are_seen_whole(sandbox: SandboxSpec)
    ensures
        sandbox@.net == sandbox.net,
        sandbox@.fs == model::grants(sandbox.fs@),
        sandbox@.fs.len() == sandbox.fs@.len(),
        forall|i: int|
            0 <= i < sandbox.fs@.len() ==> #[trigger] sandbox@.fs[i] == match sandbox.fs@[i] {
                FsGrant::Full => GrantView::Full,
                FsGrant::ReadOnly(place) => GrantView::ReadOnly(place@),
                FsGrant::ReadWrite(place) => GrantView::ReadWrite(place@),
            },
{
}

/// A list of grants is seen with each of them, in order.
pub proof fn grants_are_seen_one_by_one(v: Seq<FsGrant>)
    ensures
        model::grants(v).len() == v.len(),
        forall|i: int|
            0 <= i < v.len() ==> #[trigger] model::grants(v)[i] == match v[i] {
                FsGrant::Full => GrantView::Full,
                FsGrant::ReadOnly(place) => GrantView::ReadOnly(place@),
                FsGrant::ReadWrite(place) => GrantView::ReadWrite(place@),
            },
{
}

/// A record is seen with all that it holds.
pub proof fn records_are_seen_whole(s: SessionRecord)
    ensures
        s@.id_hash == s.id_hash@,
        s@.started_name == s.started_name@,
        s@.current_name == s.current_name@,
        s@.created_at == s.created_at,
        s@.updated_at == s.updated_at,
        s@.cwd == s.cwd@,
        s@.command == text::texts(s.command@),
        s@.mode == s.mode,
        s@.sandbox == s.sandbox@,
        s@.status == s.status,
        s@.started_log_dir == s.started_log_dir@,
        s@.meta_path == s.meta_path@,
        s@.log_path == s.log_path@,
        s@.events_path == s.events_path@,
        s@.socket_path == s.socket_path@,
        s@.service_pid == s.service_pid,
        s@.child_pid == s.child_pid,
        s@.exit_code == s.exit_code,
        s@.failure_reason == text::opt_text(s.failure_reason),
        s@.env == s.env@,
        s@.detach_key == s.detach_key@,
{
}

/// The state is seen with each of its sessions, in order, and its number; the
/// first state has no sessions.
pub proof fn states_are_seen_whole(state: StateFile)
    ensures
        state@.next_numeric_name == state.next_numeric_name,
        state@.sessions == model::session_views(state.sessions@),
        state@.sessions.len() == state.sessions@.len(),
        forall|i: int|
            0 <= i < state.sessions@.len() ==> #[trigger] state@.sessions[i]
                == state.sessions@[i]@,
        model::empty_state().sessions.len() == 0,
        model::empty_state().next_numeric_name == 0,
{
}

/// A list of sessions is seen with each of them, in order.
pub proof fn sessions_are_seen_one_by_one(v: Seq<SessionRecord>)
    ensures
        model::session_views(v).len() == v.len(),
        forall|i: int| 0 <= i < v.len() ==> #[trigger] model::session_views(v)[i] == v[i]@,
{
}

/// A request is seen with all that it asks for.
pub proof fn requests_are_seen_whole(req: CreateSessionRequest, order: SessionOrder)
    ensures
        req@.explicit_name == text::opt_text(req.explicit_name),
        req@.cwd == req.cwd@,
        req@.command == text::texts(req.command@),
        req@.mode == req.mode,
        req@.sandbox == req.sandbox@,
        req@.detach_key == req.detach_key@,
        req@.env == req.env@,
        order@.name == text::opt_text(order.name),
        order@.cwd == order.cwd@,
        order@.fs == text::texts(order.fs@),
        order@.net == text::opt_text(order.net),
        order@.detach_key == order.detach_key@,
        order@.command == text::texts(order.command@),
        order@.env == order.env@,
        order@.shell == text::opt_text(order.shell),
{
}

/// An event is seen with its time, its kind and all of its detail.
pub proof fn events_are_seen_whole(event: EventRecord)
    ensures
        event@.ts == event.ts,
        event@.kind == event.kind@,
        event@.detail == match event.detail {
            EventDetail::Created { name, mode, sandbox } => DetailView::Created {
                name: name@,
                mode,
                sandbox: sandbox@,
            },
            EventDetail::Renamed { current_name, started_name, id_hash } => DetailView::Renamed {
                current_name: current_name@,
                started_name: started_name@,
                id_hash: id_hash@,
            },
            EventDetail::Failed { reason } => DetailView::Failed {
                reason: text::opt_text(reason),
            },
            EventDetail::Live { service_pid, child_pid } => DetailView::Live {
                service_pid,
                child_pid,
            },
            EventDetail::Exited { exit_code } => DetailView::Exited { exit_code },
            EventDetail::Signal { signal } => DetailView::Signal { signal: signal@ },
        },
{
}

/// What a step says is seen as it is.
pub proof fn steps_are_seen_whole(
    input: InputStep,
    step: DaemonStep,
    end: Result<(), TmuyError>,
    found: Result<SessionRecord, TmuyError>,
)
    ensures
        input@ == match input {
            InputStep::Wait => StepView::Wait,
            InputStep::Forward(bytes) => StepView::Forward(bytes@),
            InputStep::Close => StepView::Close,
        },
        step is PollHost ==> step@ == DaemonStepView::PollHost,
        step is Pause ==> step@ == DaemonStepView::Pause(step->Pause_0),
        step is Return ==> step@ == DaemonStepView::Return(daemon::ending(step->Return_0)),
        end is Ok ==> daemon::ending(end) == Ok::<(), ErrorView>(()),
        end is Err ==> daemon::ending(end) == Err::<(), ErrorView>(end->Err_0@),
        found is Ok ==> lookup::outcome(found) == Ok::<SessionView, ErrorView>(found->Ok_0@),
        found is Err ==> lookup::outcome(found) == Err::<SessionView, ErrorView>(found->Err_0@),
{
}

/// Sessions that start or run are live, those that exited or failed are dead,
/// and each scope holds what it is named after.
pub proof fn scopes_hold_what_they_name(status: SessionStatus)
    ensures
        status.live() <==> status == SessionStatus::Starting || status == SessionStatus::Live,
        SessionScope::LiveOnly.admits(status) <==> status == SessionStatus::Starting || status
            == SessionStatus::Live,
        SessionScope::DeadOnly.admits(status) <==> status == SessionStatus::Exited || status
            == SessionStatus::Failed,
        SessionScope::All.admits(status),
{
}

/// An instant comes before another by its seconds, and within a second by its
/// nanoseconds.
pub proof fn instants_are_ordered_by_time(a: Timestamp, b: Timestamp)
    requires
        a.nanos < 1_000_000_000,
        b.nanos < 1_000_000_000,
    ensures
        a.before(b) <==> a.secs * 1_000_000_000 + a.nanos < b.secs * 1_000_000_000 + b.nanos,
{
}

/// A reading of the clock is not before the epoch, counts its nanoseconds within
/// the second, and has a date and a text.
pub proof fn readings_have_a_date_and_a_text(at: Timestamp)
    requires
        at.is_reading(),
    ensures
        at.secs >= 0,
        at.nanos < 1_000_000_000,
        outside::utc_date_of(at.secs as int) is Some,
        outside::utc_text_of(at.secs as int, at.nanos as nat) is Some,
{
}

/// A list of variables stands for the map of its names to its values.
pub proof fn variables_have_their_values(v: Seq<(Seq<char>, Seq<char>)>, name: Seq<char>, i: int)
    requires
        env_map::sorted_by_name(v),
    ensures
        env_map::env_of(v).contains_key(name) <==> exists|k: int|
            0 <= k < v.len() && #[trigger] v[k].0 == name,
        0 <= i < v.len() ==> env_map::env_of(v).contains_key(v[i].0) && env_map::env_of(v)[v[i].0]
            == v[i].1,
{
    if 0 <= i < v.len() {
        env_map::lemma_env_at(v, i);
    }
}

/// Variables are sorted where each name comes before those behind it.
pub proof fn variables_are_sorted_by_name(v: Seq<(Seq<char>, Seq<char>)>)
    ensures
        env_map::sorted_by_name(v) <==> forall|i: int, j: int|
            0 <= i < j < v.len() ==> text::text_lt(#[trigger] v[i].0, #[trigger] v[j].0),
{
}

/// A list of variables is seen with the name and the value of each, in order.
pub proof fn variables_are_seen_one_by_one(v: Seq<(String, String)>)
    ensures
        env_map::pair_texts(v).len() == v.len(),
        forall|i: int|
            0 <= i < v.len() ==> #[trigger] env_map::pair_texts(v)[i] == (v[i].0@, v[i].1@),
{
}

} // verus!
