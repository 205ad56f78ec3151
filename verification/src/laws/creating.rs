//! What holds of creating and changing sessions: that a session is the one that
//! was asked for, and that a change changes what it says.

use vstd::prelude::*;

use crate::error::{ErrorView, TmuyError};
use crate::events;
use crate::lookup;
use crate::model::{
    CivilDate, DetailView, EventRecord, EventView, SessionRecord, SessionScope,
    SessionStatus, SessionView, StateView, Timestamp,
};
use crate::path;
use crate::runtime::server;
use crate::store;
use crate::store::RequestView;
use crate::text;

verus! {

/// A created session is the one that was asked for: it runs the command, in the
/// mode, the directory and the sandbox of the request, and is left by its
/// detach key. It has the name and the hash that it was given, and is starting.
pub proof fn created_sessions_are_as_asked_for(
    base: Seq<char>,
    req: RequestView,
    name: Seq<char>,
    hash: Seq<char>,
    now: Timestamp,
    date: CivilDate,
)
    ensures
        ({
            let s = store::created_session(base, req, name, hash, now, date);
            &&& s.command == req.command
            &&& s.mode == req.mode
            &&& s.cwd == req.cwd
            &&& s.sandbox.fs == req.sandbox.fs
            &&& s.sandbox.net == req.sandbox.net
            &&& s.detach_key == req.detach_key
            &&& s.id_hash == hash
            &&& s.started_name == name
            &&& s.current_name == name
            &&& s.created_at == now
            &&& s.updated_at == now
            &&& s.status == SessionStatus::Starting
            &&& s.service_pid is None
            &&& s.child_pid is None
            &&& s.exit_code is None
            &&& s.failure_reason is None
        }),
{
}

/// The variables of a created session are those of the request and the three
/// marks, of which the marks win.
pub proof fn created_sessions_have_the_variables_asked_for(
    base: Seq<char>,
    req: RequestView,
    name: Seq<char>,
    hash: Seq<char>,
    now: Timestamp,
    date: CivilDate,
)
    ensures
        store::created_session(base, req, name, hash, now, date).env == req.env.insert(
            "TMUY_SESSION_HASH"@,
            hash,
        ).insert("TMUY_SESSION_STARTED_NAME"@, name).insert("TMUY_INSIDE"@, "1"@),
{
}

/// The files of a session lie in a directory that is named after its name and
/// its hash, below the directory of the day of its creation; its socket is
/// named after its hash, among those of the live sessions.
pub proof fn files_are_named_after_the_session(
    base: Seq<char>,
    req: RequestView,
    name: Seq<char>,
    hash: Seq<char>,
    now: Timestamp,
    date: CivilDate,
)
    ensures
        ({
            let s = store::created_session(base, req, name, hash, now, date);
            let year = path::path_join(base, text::year_digits(date.year as int));
            let month = path::path_join(
                year,
                text::zero_padded(text::decimal(date.month as nat), 2),
            );
            let day = path::path_join(month, text::zero_padded(text::decimal(date.day as nat), 2));
            let dir = path::path_join(day, store::sanitized(name) + "-"@ + hash);
            &&& s.started_log_dir == dir
            &&& s.meta_path == path::path_join(dir, "meta.json"@)
            &&& s.log_path == path::path_join(dir, "pty.log"@)
            &&& s.events_path == path::path_join(dir, "events.jsonl"@)
            &&& s.socket_path == path::path_join(
                path::path_join(base, "live"@),
                hash + ".sock"@,
            )
            &&& store::live_dir_of(base) == path::path_join(base, "live"@)
        }),
{
}

/// A name is valid where it is not empty and holds only ASCII letters, digits,
/// dashes, underscores and dots.
pub proof fn names_hold_letters_digits_and_marks(name: Seq<char>)
    ensures
        name.len() == 0 ==> store::name_error(name) == Some(ErrorView::EmptyName),
        name.len() > 0 && (forall|i: int|
            #![trigger name[i]]
            0 <= i < name.len() ==> ('a' <= name[i] <= 'z' || 'A' <= name[i] <= 'Z' || '0'
                <= name[i] <= '9' || name[i] == '-' || name[i] == '_' || name[i] == '.'))
            ==> store::name_error(name) is None,
        name.len() > 0 && (exists|i: int|
            #![trigger name[i]]
            0 <= i < name.len() && !('a' <= name[i] <= 'z' || 'A' <= name[i] <= 'Z' || '0'
                <= name[i] <= '9' || name[i] == '-' || name[i] == '_' || name[i] == '.'))
            ==> store::name_error(name) == Some(ErrorView::InvalidName),
{
    if name.len() > 0 && exists|i: int|
        #![trigger name[i]]
        0 <= i < name.len() && !('a' <= name[i] <= 'z' || 'A' <= name[i] <= 'Z' || '0' <= name[i]
            <= '9' || name[i] == '-' || name[i] == '_' || name[i] == '.') {
        let i = choose|i: int|
            #![trigger name[i]]
            0 <= i < name.len() && !('a' <= name[i] <= 'z' || 'A' <= name[i] <= 'Z' || '0'
                <= name[i] <= '9' || name[i] == '-' || name[i] == '_' || name[i] == '.');
        assert(!store::is_name_char(name[i]));
    }
}

/// A name is made fit for a path character by character: one that a name may
/// hold stays, any other becomes an underscore.
pub proof fn names_are_made_fit_by_character(name: Seq<char>)
    ensures
        store::sanitized(name).len() == name.len(),
        forall|i: int|
            0 <= i < name.len() ==> #[trigger] store::sanitized(name)[i] == (if 'a' <= name[i]
                <= 'z' || 'A' <= name[i] <= 'Z' || '0' <= name[i] <= '9' || name[i] == '-'
                || name[i] == '_' || name[i] == '.' {
                name[i]
            } else {
                '_'
            }),
{
}

/// A new session is refused exactly where the name that was asked for is not
/// valid or is that of a live session; an unnamed one never is.
pub proof fn sessions_are_refused_by_name_only(state: StateView, req: RequestView)
    ensures
        req.explicit_name is None ==> store::create_refusal(state, req) is None,
        req.explicit_name is Some && store::name_error(req.explicit_name->0) is Some
            ==> store::create_refusal(state, req) == store::name_error(req.explicit_name->0),
        req.explicit_name is Some && store::name_error(req.explicit_name->0) is None && (exists|
            i: int,
        |
            0 <= i < state.sessions.len() && (#[trigger] state.sessions[i]).current_name
                == req.explicit_name->0 && (state.sessions[i].status is Starting
                || state.sessions[i].status is Live)) ==> store::create_refusal(state, req) == Some(
            ErrorView::LiveNameExists(req.explicit_name->0),
        ),
        req.explicit_name is Some && store::name_error(req.explicit_name->0) is None && (forall|
            i: int,
        |
            0 <= i < state.sessions.len() && (#[trigger] state.sessions[i]).current_name
                == req.explicit_name->0 ==> state.sessions[i].status is Exited
                || state.sessions[i].status is Failed) ==> store::create_refusal(state, req)
            is None,
{
    if let Some(name) = req.explicit_name {
        let p = lookup::live_named(name);
        if exists|i: int|
            0 <= i < state.sessions.len() && (#[trigger] state.sessions[i]).current_name == name
                && (state.sessions[i].status is Starting || state.sessions[i].status is Live) {
            let i = choose|i: int|
                0 <= i < state.sessions.len() && (#[trigger] state.sessions[i]).current_name
                    == name && (state.sessions[i].status is Starting
                    || state.sessions[i].status is Live);
            assert(p(state.sessions[i]));
        }
        if lookup::some_session(state.sessions, p) {
            let i = choose|i: int| 0 <= i < state.sessions.len() && p(#[trigger] state.sessions[i]);
            assert(state.sessions[i].current_name == name && state.sessions[i].status.live());
        }
    }
}

/// A new session has the name that was asked for, or else the next number,
/// where the first is one.
pub proof fn sessions_get_their_name_or_a_number(state: StateView, req: RequestView)
    ensures
        req.explicit_name is Some ==> store::new_name(state, req) == req.explicit_name->0,
        req.explicit_name is None && state.next_numeric_name > 0 ==> store::new_name(state, req)
            == text::decimal(state.next_numeric_name as nat),
        req.explicit_name is None && state.next_numeric_name == 0 ==> store::new_name(state, req)
            == text::decimal(1),
{
}

/// Creating a session puts it behind those that were there, which stay as they
/// were, and moves the number on where the session is unnamed.
pub proof fn creating_adds_one_session(state: StateView, req: RequestView, session: SessionView)
    requires
        state.next_numeric_name < u64::MAX,
    ensures
        ({
            let after = store::state_with(state, req, session);
            &&& after.sessions == state.sessions.push(session)
            &&& req.explicit_name is Some ==> after.next_numeric_name == state.next_numeric_name
            &&& req.explicit_name is None && state.next_numeric_name > 0
                ==> after.next_numeric_name == state.next_numeric_name + 1
            &&& req.explicit_name is None && state.next_numeric_name == 0
                ==> after.next_numeric_name == 2
        }),
{
}

/// A session that runs has the processes that were given, no longer a reason
/// of failure, and is otherwise as it was.
pub proof fn running_sessions_have_their_processes(
    s: SessionView,
    service_pid: u32,
    child_pid: Option<u32>,
    now: Timestamp,
)
    ensures
        ({
            let after = store::marked_live(s, service_pid, child_pid, now);
            &&& after.status == SessionStatus::Live
            &&& after.service_pid == Some(service_pid)
            &&& after.child_pid == child_pid
            &&& after.updated_at == now
            &&& after.failure_reason is None
            &&& after.exit_code == s.exit_code
            &&& after.current_name == s.current_name
            &&& (SessionView {
                status: s.status,
                service_pid: s.service_pid,
                child_pid: s.child_pid,
                updated_at: s.updated_at,
                failure_reason: s.failure_reason,
                ..after
            }) == s
        }),
{
}

/// A session that has exited has the exit code that was given and is otherwise
/// as it was.
pub proof fn exited_sessions_have_their_code(
    s: SessionView,
    exit_code: Option<i32>,
    now: Timestamp,
)
    ensures
        ({
            let after = store::marked_exited(s, exit_code, now);
            &&& after.status == SessionStatus::Exited
            &&& after.exit_code == exit_code
            &&& after.updated_at == now
            &&& (SessionView {
                status: s.status,
                exit_code: s.exit_code,
                updated_at: s.updated_at,
                ..after
            }) == s
        }),
{
}

/// A session that failed has the reason that was given and is otherwise as it was.
pub proof fn failed_sessions_have_their_reason(s: SessionView, reason: Seq<char>, now: Timestamp)
    ensures
        ({
            let after = store::marked_failed(s, reason, now);
            &&& after.status == SessionStatus::Failed
            &&& after.failure_reason == Some(reason)
            &&& after.updated_at == now
            &&& (SessionView {
                status: s.status,
                failure_reason: s.failure_reason,
                updated_at: s.updated_at,
                ..after
            }) == s
        }),
{
}

/// A renamed session has the new name, and is otherwise as it was.
pub proof fn renamed_sessions_have_their_name(s: SessionView, name: Seq<char>, now: Timestamp)
    ensures
        ({
            let after = store::renamed(s, name, now);
            &&& after.current_name == name
            &&& after.updated_at == now
            &&& (SessionView { current_name: s.current_name, updated_at: s.updated_at, ..after })
                == s
        }),
{
}

/// A hash is free where no session has it.
pub proof fn hashes_are_free_where_no_session_has_them(state: StateView, hash: Seq<char>)
    ensures
        store::hash_is_free(state, hash) <==> forall|i: int|
            0 <= i < state.sessions.len() ==> (#[trigger] state.sessions[i]).id_hash != hash,
{
    let p = lookup::with_hash(hash);
    if store::hash_is_free(state, hash) {
        assert forall|i: int| 0 <= i < state.sessions.len() implies (
        #[trigger] state.sessions[i]).id_hash != hash by {
            assert(!p(state.sessions[i]));
        }
    } else {
        let i = choose|i: int| 0 <= i < state.sessions.len() && p(#[trigger] state.sessions[i]);
        assert(state.sessions[i].id_hash == hash);
    }
}

/// The session of a hash is the first that has it, and putting another in its
/// place changes that place alone.
pub proof fn changes_are_made_in_place(
    state: StateView,
    hash: Seq<char>,
    changed: SessionView,
    i: int,
)
    requires
        0 <= i < state.sessions.len(),
        state.sessions[i].id_hash == hash,
        forall|k: int| 0 <= k < i ==> (#[trigger] state.sessions[k]).id_hash != hash,
    ensures
        store::session_of(state, hash) == state.sessions[i],
        store::put_session(state, hash, changed).sessions == state.sessions.update(i, changed),
        store::put_session(state, hash, changed).next_numeric_name == state.next_numeric_name,
{
    let p = lookup::with_hash(hash);
    assert(lookup::is_first(state.sessions, p, i)) by {
        assert forall|k: int| 0 <= k < i implies !p(#[trigger] state.sessions[k]) by {
        }
    }
    lookup::lemma_first(state.sessions, p, i);
}

/// A change of a session gives the changed session and leaves it in its place;
/// where no session has the hash it is refused, and nothing changes.
pub proof fn changes_are_made_or_refused(
    before: StateView,
    hash: Seq<char>,
    changed: SessionView,
    r: Result<SessionView, ErrorView>,
    after: StateView,
    i: int,
)
    requires
        store::is_change(before, hash, changed, r, after),
    ensures
        (forall|k: int|
            0 <= k < before.sessions.len() ==> (#[trigger] before.sessions[k]).id_hash != hash)
            ==> r == Err::<SessionView, ErrorView>(ErrorView::UnknownHash(hash)) && after
            == before,
        0 <= i < before.sessions.len() && before.sessions[i].id_hash == hash && (forall|k: int|
            0 <= k < i ==> (#[trigger] before.sessions[k]).id_hash != hash) ==> r == Ok::<
            SessionView,
            ErrorView,
        >(changed) && after.sessions == before.sessions.update(i, changed)
            && after.next_numeric_name == before.next_numeric_name,
{
    hashes_are_free_where_no_session_has_them(before, hash);
    if 0 <= i < before.sessions.len() && before.sessions[i].id_hash == hash && (forall|k: int|
        0 <= k < i ==> (#[trigger] before.sessions[k]).id_hash != hash) {
        changes_are_made_in_place(before, hash, changed, i);
    }
}

/// What is recorded of a session gives the changed record and the event for it.
pub proof fn changes_are_recorded_with_their_event(
    before: StateView,
    hash: Seq<char>,
    session: SessionView,
    event: EventView,
    r: Result<(SessionRecord, EventRecord), TmuyError>,
    after: StateView,
)
    requires
        server::is_recorded(before, hash, session, event, r, after),
    ensures
        store::hash_is_free(before, hash) ==> r is Err && r->Err_0@ == ErrorView::UnknownHash(hash)
            && after == before,
        !store::hash_is_free(before, hash) ==> r is Ok && r->Ok_0.0@ == session && r->Ok_0.1@
            == event && after == store::put_session(before, hash, session),
{
}

/// A rename is refused for a bad name, for the name of a live session, and
/// where the target is no live session, in this order.
pub proof fn renames_are_refused_in_order(state: StateView, target: Seq<char>, name: Seq<char>)
    ensures
        store::name_error(name) is Some ==> store::rename_target(state, target, name) == Err::<
            SessionView,
            ErrorView,
        >(store::name_error(name)->0),
        store::name_error(name) is None && (exists|i: int|
            0 <= i < state.sessions.len() && (#[trigger] state.sessions[i]).current_name == name
                && state.sessions[i].status.live()) ==> store::rename_target(state, target, name)
            == Err::<SessionView, ErrorView>(ErrorView::LiveNameExists(name)),
        store::name_error(name) is None && (forall|i: int|
            0 <= i < state.sessions.len() && (#[trigger] state.sessions[i]).current_name == name
                ==> !state.sessions[i].status.live()) ==> store::rename_target(state, target, name)
            == lookup::session_targeted(state.sessions, target, SessionScope::LiveOnly),
{
    let p = lookup::live_named(name);
    if exists|i: int|
        0 <= i < state.sessions.len() && (#[trigger] state.sessions[i]).current_name == name
            && state.sessions[i].status.live() {
        let i = choose|i: int|
            0 <= i < state.sessions.len() && (#[trigger] state.sessions[i]).current_name == name
                && state.sessions[i].status.live();
        assert(p(state.sessions[i]));
    }
    if lookup::some_session(state.sessions, p) {
        let i = choose|i: int| 0 <= i < state.sessions.len() && p(#[trigger] state.sessions[i]);
        assert(state.sessions[i].current_name == name && state.sessions[i].status.live());
    }
}

/// Each event says what happened, when, and what there is to tell of it.
pub proof fn events_tell_what_happened(
    s: SessionView,
    at: Timestamp,
    exit_code: Option<i32>,
    signal: Seq<char>,
)
    ensures
        events::created(s).ts == s.created_at,
        events::created(s).kind == "created"@,
        events::created(s).detail == (DetailView::Created {
            name: s.current_name,
            mode: s.mode,
            sandbox: s.sandbox,
        }),
        events::renamed(s, at).ts == at,
        events::renamed(s, at).kind == "renamed"@,
        events::renamed(s, at).detail == (DetailView::Renamed {
            current_name: s.current_name,
            started_name: s.started_name,
            id_hash: s.id_hash,
        }),
        events::failed(s, at).ts == at,
        events::failed(s, at).kind == "failed"@,
        events::failed(s, at).detail == (DetailView::Failed { reason: s.failure_reason }),
        events::live(s, at).ts == at,
        events::live(s, at).kind == "live"@,
        events::live(s, at).detail == (DetailView::Live {
            service_pid: s.service_pid,
            child_pid: s.child_pid,
        }),
        events::exited(exit_code, at).ts == at,
        events::exited(exit_code, at).kind == "exited"@,
        events::exited(exit_code, at).detail == (DetailView::Exited { exit_code }),
        events::signaled(signal, at).ts == at,
        events::signaled(signal, at).kind == "signal"@,
        events::signaled(signal, at).detail == (DetailView::Signal { signal }),
{
}

/// The event of a creation tells the mode and the sandbox that were asked for.
pub proof fn creations_are_told_as_asked_for(
    base: Seq<char>,
    req: RequestView,
    name: Seq<char>,
    hash: Seq<char>,
    now: Timestamp,
    date: CivilDate,
)
    ensures
        events::created(store::created_session(base, req, name, hash, now, date)).detail == (
        DetailView::Created { name, mode: req.mode, sandbox: req.sandbox }),
{
}

} // verus!
