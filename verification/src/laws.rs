//! What holds of the sessions as a whole, whatever is done with them.

use vstd::prelude::*;

pub mod asking;
pub mod creating;
pub mod data;
pub mod errors;
pub mod finding;
pub mod following;
pub mod output;
pub mod printing;
pub mod sandboxing;
pub mod texts;
pub mod typing;

use crate::error::ErrorView;
use crate::lookup;
use crate::model;
use crate::model::{
    CivilDate, SandboxView, SessionScope, SessionView, StateView, Timestamp,
};
use crate::path;
use crate::store;
use crate::store::RequestView;
use crate::text;

verus! {

/// Whether every session has a hash of seven hexadecimal digits, and no two the same one.
pub open spec fn hashes_are_unique(state: StateView) -> bool {
    &&& forall|i: int|
        0 <= i < state.sessions.len() ==> text::is_hash(#[trigger] state.sessions[i].id_hash)
    &&& forall|i: int, j: int|
        0 <= i < j < state.sessions.len() ==> (#[trigger] state.sessions[i]).id_hash != (
        #[trigger] state.sessions[j]).id_hash
}

/// Whether no two live sessions have the same name.
pub open spec fn live_names_are_unique(state: StateView) -> bool {
    forall|i: int, j: int|
        0 <= i < j < state.sessions.len() && state.sessions[i].status.live()
            && state.sessions[j].status.live() ==> (#[trigger] state.sessions[i]).current_name != (
        #[trigger] state.sessions[j]).current_name
}

proof fn lemma_free(state: StateView, hash: Seq<char>, i: int)
    requires
        store::hash_is_free(state, hash),
        0 <= i < state.sessions.len(),
    ensures
        state.sessions[i].id_hash != hash,
{
    assert(!lookup::with_hash(hash)(state.sessions[i]));
}

/// A hash that is not free is the hash of a session of the state.
pub proof fn taken_hashes_belong_to_sessions(state: StateView, hash: Seq<char>)
    requires
        !store::hash_is_free(state, hash),
    ensures
        0 <= lookup::first_place(state.sessions, lookup::with_hash(hash)) < state.sessions.len(),
        store::session_of(state, hash).id_hash == hash,
{
    let p = lookup::with_hash(hash);
    let i = choose|i: int| 0 <= i < state.sessions.len() && p(#[trigger] state.sessions[i]);
    lookup::lemma_first_exists(state.sessions, p, i);
}

/// A new session with a free hash leaves all hashes unique.
pub proof fn creating_keeps_hashes_unique(state: StateView, req: RequestView, session: SessionView)
    requires
        hashes_are_unique(state),
        text::is_hash(session.id_hash),
        store::hash_is_free(state, session.id_hash),
    ensures
        hashes_are_unique(store::state_with(state, req, session)),
{
    let after = store::state_with(state, req, session);
    assert forall|i: int, j: int| 0 <= i < j < after.sessions.len() implies (
    #[trigger] after.sessions[i]).id_hash != (#[trigger] after.sessions[j]).id_hash by {
        lemma_free(state, session.id_hash, i);
    }
}

/// A session that is put in the place of the one with its hash leaves all hashes unique.
pub proof fn changing_keeps_hashes_unique(state: StateView, hash: Seq<char>, changed: SessionView)
    requires
        hashes_are_unique(state),
        !store::hash_is_free(state, hash),
        changed.id_hash == hash,
    ensures
        hashes_are_unique(store::put_session(state, hash, changed)),
{
    taken_hashes_belong_to_sessions(state, hash);
}

/// What happens to a session changes neither its hash nor the name that it was
/// started with, nor its files, its command, its sandbox, its variables or the
/// instant of its creation.
pub proof fn sessions_keep_their_identity(
    s: SessionView,
    name: Seq<char>,
    service_pid: u32,
    child_pid: Option<u32>,
    exit_code: Option<i32>,
    reason: Seq<char>,
    now: Timestamp,
)
    ensures
        same_identity(s, store::renamed(s, name, now)),
        same_identity(s, store::marked_live(s, service_pid, child_pid, now)),
        same_identity(s, store::marked_exited(s, exit_code, now)),
        same_identity(s, store::marked_failed(s, reason, now)),
{
}

/// Whether two records are of one session: they agree in everything that is
/// fixed at its creation.
pub open spec fn same_identity(a: SessionView, b: SessionView) -> bool {
    &&& a.id_hash == b.id_hash
    &&& a.started_name == b.started_name
    &&& a.created_at == b.created_at
    &&& a.cwd == b.cwd
    &&& a.command == b.command
    &&& a.mode == b.mode
    &&& a.sandbox == b.sandbox
    &&& a.started_log_dir == b.started_log_dir
    &&& a.meta_path == b.meta_path
    &&& a.log_path == b.log_path
    &&& a.events_path == b.events_path
    &&& a.socket_path == b.socket_path
    &&& a.env == b.env
    &&& a.detach_key == b.detach_key
}

/// Renaming a session changes its name and the instant of its last change, nothing else.
pub proof fn renaming_changes_the_name_alone(s: SessionView, name: Seq<char>, now: Timestamp)
    ensures
        store::renamed(s, name, now) == (SessionView { current_name: name, updated_at: now, ..s }),
        store::renamed(s, name, now).status == s.status,
        store::renamed(s, name, now).service_pid == s.service_pid,
        store::renamed(s, name, now).child_pid == s.child_pid,
        store::renamed(s, name, now).exit_code == s.exit_code,
        store::renamed(s, name, now).failure_reason == s.failure_reason,
{
}

/// After a change the session with that hash is the changed one, and the
/// sessions with other hashes are as they were.
pub proof fn changes_are_read_back(
    state: StateView,
    hash: Seq<char>,
    changed: SessionView,
    other: Seq<char>,
)
    requires
        !store::hash_is_free(state, hash),
        changed.id_hash == hash,
        other != hash,
    ensures
        ({
            let after = store::put_session(state, hash, changed);
            &&& !store::hash_is_free(after, hash)
            &&& store::session_of(after, hash) == changed
            &&& store::hash_is_free(after, other) == store::hash_is_free(state, other)
            &&& !store::hash_is_free(state, other) ==> store::session_of(after, other)
                == store::session_of(state, other)
        }),
{
    let after = store::put_session(state, hash, changed);
    let place = lookup::first_place(state.sessions, lookup::with_hash(hash));
    taken_hashes_belong_to_sessions(state, hash);
    let p = lookup::with_hash(hash);
    let i = choose|i: int| 0 <= i < state.sessions.len() && p(#[trigger] state.sessions[i]);
    lookup::lemma_first_exists(state.sessions, p, i);
    assert(lookup::is_first(after.sessions, p, place)) by {
        assert forall|k: int| 0 <= k < place implies !p(#[trigger] after.sessions[k]) by {
            assert(!p(state.sessions[k]));
        }
    }
    lookup::lemma_first(after.sessions, p, place);
    let q = lookup::with_hash(other);
    if !store::hash_is_free(state, other) {
        let j = choose|j: int| 0 <= j < state.sessions.len() && q(#[trigger] state.sessions[j]);
        lookup::lemma_first_exists(state.sessions, q, j);
        let k = lookup::first_place(state.sessions, q);
        assert(lookup::is_first(after.sessions, q, k)) by {
            assert(after.sessions[k] == state.sessions[k]);
            assert forall|m: int| 0 <= m < k implies !q(#[trigger] after.sessions[m]) by {
                assert(!q(state.sessions[m]));
            }
        }
        lookup::lemma_first(after.sessions, q, k);
    } else {
        assert forall|m: int| 0 <= m < after.sessions.len() implies !q(
            #[trigger] after.sessions[m],
        ) by {
            assert(!q(state.sessions[m]));
        }
    }
}

/// A session that was created is the one with its hash, and the sessions that
/// were there before are as they were.
pub proof fn created_sessions_are_found_by_hash(
    state: StateView,
    req: RequestView,
    session: SessionView,
    other: Seq<char>,
)
    requires
        store::hash_is_free(state, session.id_hash),
        other != session.id_hash,
    ensures
        ({
            let after = store::state_with(state, req, session);
            &&& !store::hash_is_free(after, session.id_hash)
            &&& store::session_of(after, session.id_hash) == session
            &&& store::hash_is_free(after, other) == store::hash_is_free(state, other)
            &&& !store::hash_is_free(state, other) ==> store::session_of(after, other)
                == store::session_of(state, other)
        }),
{
    let after = store::state_with(state, req, session);
    let n = state.sessions.len() as int;
    let p = lookup::with_hash(session.id_hash);
    assert(after.sessions[n] == session);
    assert(lookup::is_first(after.sessions, p, n)) by {
        assert forall|k: int| 0 <= k < n implies !p(#[trigger] after.sessions[k]) by {
            assert(!p(state.sessions[k]));
        }
    }
    lookup::lemma_first(after.sessions, p, n);
    let q = lookup::with_hash(other);
    if !store::hash_is_free(state, other) {
        let j = choose|j: int| 0 <= j < n && q(#[trigger] state.sessions[j]);
        lookup::lemma_first_exists(state.sessions, q, j);
        let k = lookup::first_place(state.sessions, q);
        assert(lookup::is_first(after.sessions, q, k)) by {
            assert(after.sessions[k] == state.sessions[k]);
            assert forall|m: int| 0 <= m < k implies !q(#[trigger] after.sessions[m]) by {
                assert(!q(state.sessions[m]));
            }
        }
        lookup::lemma_first(after.sessions, q, k);
    } else {
        assert forall|m: int| 0 <= m < after.sessions.len() implies !q(
            #[trigger] after.sessions[m],
        ) by {
            if m < n {
                assert(!q(state.sessions[m]));
            }
        }
    }
}

/// The hash of a session of the scope is a target that stands for it, unless
/// another session of the scope is called by that hash.
pub proof fn hashes_are_stable_targets(state: StateView, i: int, scope: SessionScope)
    requires
        hashes_are_unique(state),
        0 <= i < state.sessions.len(),
        scope.admits(state.sessions[i].status),
        forall|j: int|
            0 <= j < state.sessions.len() && j != i && scope.admits(state.sessions[j].status) ==> (
            #[trigger] state.sessions[j]).current_name != state.sessions[i].id_hash,
    ensures
        lookup::session_targeted(state.sessions, state.sessions[i].id_hash, scope) == Ok::<
            SessionView,
            ErrorView,
        >(state.sessions[i]),
{
    let s = state.sessions;
    let hash = s[i].id_hash;
    let p = lookup::hashed_in(hash, scope);
    assert(lookup::is_first(s, p, i)) by {
        assert forall|k: int| 0 <= k < i implies !p(#[trigger] s[k]) by {
            assert(s[k].id_hash != s[i].id_hash);
        }
    }
    lookup::lemma_first(s, p, i);
    if lookup::session_named(s, hash, scope) is Ok {
        lookup::named_session_is_of_the_scope(s, hash, scope);
        let named = lookup::session_named(s, hash, scope)->Ok_0;
        let j = choose|j: int| 0 <= j < s.len() && s[j] == named;
        assert(s[j].current_name == hash);
        assert(j == i);
    }
}

/// The name of a live session is a target that stands for it, also among all
/// sessions, unless another session of the scope has that name for a hash.
pub proof fn live_names_are_targets(state: StateView, i: int, scope: SessionScope)
    requires
        hashes_are_unique(state),
        live_names_are_unique(state),
        0 <= i < state.sessions.len(),
        state.sessions[i].status.live(),
        scope != SessionScope::DeadOnly,
        forall|j: int|
            0 <= j < state.sessions.len() && j != i && scope.admits(state.sessions[j].status) ==> (
            #[trigger] state.sessions[j]).id_hash != state.sessions[i].current_name,
    ensures
        lookup::session_targeted(state.sessions, state.sessions[i].current_name, scope) == Ok::<
            SessionView,
            ErrorView,
        >(state.sessions[i]),
{
    let s = state.sessions;
    let name = s[i].current_name;
    lookup::live_session_answers_to_its_name(s, i, scope);
    let p = lookup::hashed_in(name, scope);
    if lookup::some_session(s, p) {
        let k = choose|k: int| 0 <= k < s.len() && p(#[trigger] s[k]);
        lookup::lemma_first_exists(s, p, k);
        let f = lookup::first_place(s, p);
        assert(s[f].id_hash == name);
        assert(f == i);
    }
}

/// A session with a name that was asked for leaves the names of live sessions unique.
pub proof fn creating_keeps_live_names_unique(
    state: StateView,
    req: RequestView,
    session: SessionView,
)
    requires
        live_names_are_unique(state),
        store::create_refusal(state, req) is None,
        req.explicit_name == Some(session.current_name),
    ensures
        live_names_are_unique(store::state_with(state, req, session)),
{
    let after = store::state_with(state, req, session);
    let p = lookup::live_named(session.current_name);
    assert forall|i: int, j: int|
        0 <= i < j < after.sessions.len() && after.sessions[i].status.live()
            && after.sessions[j].status.live() implies (#[trigger] after.sessions[i]).current_name
        != (#[trigger] after.sessions[j]).current_name by {
        if j == state.sessions.len() {
            assert(!p(state.sessions[i]));
        }
    }
}

/// Renaming a live session leaves the names of live sessions unique.
pub proof fn renaming_keeps_live_names_unique(
    state: StateView,
    target: Seq<char>,
    name: Seq<char>,
    now: Timestamp,
)
    requires
        hashes_are_unique(state),
        live_names_are_unique(state),
        store::rename_target(state, target, name) is Ok,
    ensures
        ({
            let hash = store::rename_target(state, target, name)->Ok_0.id_hash;
            let session = store::session_of(state, hash);
            live_names_are_unique(store::put_session(state, hash, store::renamed(session, name, now)))
        }),
{
    let found = store::rename_target(state, target, name)->Ok_0;
    let p = lookup::live_named(name);
    lookup::target_is_a_session_of_the_scope(state.sessions, target, SessionScope::LiveOnly);
    let f = choose|f: int| 0 <= f < state.sessions.len() && state.sessions[f] == found;
    assert(lookup::with_hash(found.id_hash)(state.sessions[f]));
    taken_hashes_belong_to_sessions(state, found.id_hash);
    let session = store::session_of(state, found.id_hash);
    let after = store::put_session(state, found.id_hash, store::renamed(session, name, now));
    assert forall|i: int, j: int|
        0 <= i < j < after.sessions.len() && after.sessions[i].status.live()
            && after.sessions[j].status.live() implies (#[trigger] after.sessions[i]).current_name
        != (#[trigger] after.sessions[j]).current_name by {
        assert(!p(state.sessions[i]));
        assert(!p(state.sessions[j]));
    }
}

/// A session that ends leaves the names of live sessions unique.
pub proof fn ending_keeps_live_names_unique(state: StateView, hash: Seq<char>, changed: SessionView)
    requires
        live_names_are_unique(state),
        !store::hash_is_free(state, hash),
        !changed.status.live(),
    ensures
        live_names_are_unique(store::put_session(state, hash, changed)),
{
    taken_hashes_belong_to_sessions(state, hash);
}

/// A name that only dead sessions have can be given again.
pub proof fn dead_names_can_be_reused(state: StateView, req: RequestView, name: Seq<char>)
    requires
        req.explicit_name == Some(name),
        store::name_error(name) is None,
        forall|i: int|
            0 <= i < state.sessions.len() && (#[trigger] state.sessions[i]).current_name == name
                ==> !state.sessions[i].status.live(),
    ensures
        store::create_refusal(state, req) is None,
{
    let p = lookup::live_named(name);
    assert forall|i: int| 0 <= i < state.sessions.len() implies !p(#[trigger] state.sessions[i]) by {
    }
}

/// The name of a live session is refused to a new one.
pub proof fn live_names_are_refused(state: StateView, req: RequestView, i: int)
    requires
        0 <= i < state.sessions.len(),
        state.sessions[i].status.live(),
        store::name_error(state.sessions[i].current_name) is None,
        req.explicit_name == Some(state.sessions[i].current_name),
    ensures
        store::create_refusal(state, req) == Some(
            ErrorView::LiveNameExists(state.sessions[i].current_name),
        ),
{
    assert(lookup::live_named(state.sessions[i].current_name)(state.sessions[i]));
}

/// Sessions without a name are numbered upwards from one: each creation of such
/// a session moves the number on, no other creation and no change of a session does.
pub proof fn unnamed_sessions_count_up(
    state: StateView,
    req: RequestView,
    session: SessionView,
    hash: Seq<char>,
)
    requires
        state.next_numeric_name < u64::MAX,
    ensures
        store::next_number(state) >= 1,
        req.explicit_name is None ==> store::next_number(store::state_with(state, req, session))
            == store::next_number(state) + 1,
        req.explicit_name is Some ==> store::next_number(store::state_with(state, req, session))
            == store::next_number(state),
        store::next_number(store::put_session(state, hash, session)) == store::next_number(state),
{
}

/// Two sessions that got different numbers have different names.
pub proof fn numbers_give_different_names(
    first: StateView,
    second: StateView,
    first_req: RequestView,
    second_req: RequestView,
)
    requires
        first_req.explicit_name is None,
        second_req.explicit_name is None,
        store::next_number(first) != store::next_number(second),
    ensures
        store::new_name(first, first_req) != store::new_name(second, second_req),
{
    if store::new_name(first, first_req) == store::new_name(second, second_req) {
        text::decimal_is_injective(store::next_number(first), store::next_number(second));
    }
}

/// Every session is either live or dead: the live ones and the dead ones
/// together are as many as all, and all are in the scope of all.
pub proof fn live_and_dead_make_up_all(s: Seq<SessionView>)
    ensures
        s.filter(lookup::in_scope(SessionScope::All)) == s,
        s.filter(lookup::in_scope(SessionScope::LiveOnly)).len() + s.filter(
            lookup::in_scope(SessionScope::DeadOnly),
        ).len() == s.len(),
        s.filter(lookup::in_scope(SessionScope::LiveOnly)).to_multiset().add(
            s.filter(lookup::in_scope(SessionScope::DeadOnly)).to_multiset(),
        ) == s.to_multiset(),
    decreases s.len(),
{
    broadcast use vstd::seq_lib::group_to_multiset_ensures;
    reveal(Seq::filter);
    let all = lookup::in_scope(SessionScope::All);
    let live = lookup::in_scope(SessionScope::LiveOnly);
    let dead = lookup::in_scope(SessionScope::DeadOnly);
    if s.len() > 0 {
        let rest = s.drop_last();
        live_and_dead_make_up_all(rest);
        assert(rest.push(s.last()) =~= s);
        assert(s.filter(all) =~= s);
        let l = rest.filter(live).to_multiset();
        let d = rest.filter(dead).to_multiset();
        assert(s.to_multiset() =~= rest.to_multiset().insert(s.last()));
        if s.last().status.live() {
            assert(l.insert(s.last()).add(d) =~= l.add(d).insert(s.last()));
        } else {
            assert(l.add(d.insert(s.last())) =~= l.add(d).insert(s.last()));
        }
    } else {
        assert(s.filter(all) =~= s);
        assert(s.filter(live).to_multiset().add(s.filter(dead).to_multiset()) =~= s.to_multiset());
    }
}

proof fn lemma_filter_count(s: Seq<SessionView>, p: spec_fn(SessionView) -> bool, v: SessionView)
    requires
        p(v),
    ensures
        s.filter(p).to_multiset().count(v) == s.to_multiset().count(v),
    decreases s.len(),
{
    broadcast use vstd::seq_lib::group_to_multiset_ensures;
    reveal(Seq::filter);
    if s.len() > 0 {
        lemma_filter_count(s.drop_last(), p, v);
        assert(s.drop_last().push(s.last()) =~= s);
    }
}

/// A listing holds the sessions that it lists, each as often as it was there.
pub proof fn listings_hold_the_sessions(listed: Seq<SessionView>, s: Seq<SessionView>)
    requires
        lookup::is_listing(listed, s),
    ensures
        listed.to_multiset() == s.to_multiset(),
        listed.len() == s.len(),
{
    broadcast use vstd::seq_lib::group_to_multiset_ensures;
    assert forall|v: SessionView| listed.to_multiset().count(v) == s.to_multiset().count(v) by {
        let p = lookup::created_at(v.created_at);
        lemma_filter_count(listed, p, v);
        lemma_filter_count(s, p, v);
        assert(listed.filter(p) == s.filter(p));
    }
    assert(listed.to_multiset() =~= s.to_multiset());
    assert(listed.to_multiset().len() == listed.len());
    assert(s.to_multiset().len() == s.len());
}

proof fn lemma_filter_first(s: Seq<SessionView>, p: spec_fn(SessionView) -> bool)
    requires
        s.len() > 0,
    ensures
        p(s[0]) ==> s.filter(p) == seq![s[0]] + s.drop_first().filter(p),
        !p(s[0]) ==> s.filter(p) == s.drop_first().filter(p),
{
    assert(s =~= seq![s[0]] + s.drop_first());
    Seq::filter_distributes_over_add(seq![s[0]], s.drop_first(), p);
    reveal(Seq::filter);
    assert(seq![s[0]].drop_last() =~= Seq::empty());
    assert(Seq::<SessionView>::empty().filter(p) =~= Seq::empty());
    if p(s[0]) {
        assert(seq![s[0]].filter(p) =~= seq![s[0]]);
    } else {
        assert(seq![s[0]].filter(p) =~= Seq::empty());
        assert(Seq::<SessionView>::empty() + s.drop_first().filter(p) =~= s.drop_first().filter(p));
    }
}

/// There is one listing of a list of sessions.
pub proof fn listings_are_unique(a: Seq<SessionView>, b: Seq<SessionView>, s: Seq<SessionView>)
    requires
        lookup::is_listing(a, s),
        lookup::is_listing(b, s),
    ensures
        a == b,
{
    assert forall|at: Timestamp|
        #![trigger a.filter(lookup::created_at(at))]
        #![trigger b.filter(lookup::created_at(at))]
        a.filter(lookup::created_at(at)) == b.filter(lookup::created_at(at)) by {
        assert(a.filter(lookup::created_at(at)) == s.filter(lookup::created_at(at)));
        assert(b.filter(lookup::created_at(at)) == s.filter(lookup::created_at(at)));
    }
    lemma_same_listing(a, b);
}

proof fn lemma_same_listing(a: Seq<SessionView>, b: Seq<SessionView>)
    requires
        lookup::is_listing(a, b),
        lookup::newest_first(b),
    ensures
        a == b,
    decreases a.len(),
{
    listings_hold_the_sessions(a, b);
    if a.len() > 0 {
        lemma_heads_agree(a, b);
        lemma_heads_agree(b, a);
        let t = a[0].created_at;
        let p = lookup::created_at(t);
        lemma_filter_first(a, p);
        lemma_filter_first(b, p);
        assert(a.filter(p) == b.filter(p));
        assert(a.filter(p)[0] == a[0]);
        assert(b.filter(p)[0] == b[0]);
        let x = a.drop_first();
        let y = b.drop_first();
        assert forall|at: Timestamp|
            #![trigger x.filter(lookup::created_at(at))]
            #![trigger y.filter(lookup::created_at(at))]
            x.filter(lookup::created_at(at)) == y.filter(lookup::created_at(at)) by {
            let q = lookup::created_at(at);
            lemma_filter_first(a, q);
            lemma_filter_first(b, q);
            assert(a.filter(q) == b.filter(q));
            if at == t {
                assert(x.filter(q) =~= a.filter(q).drop_first());
                assert(y.filter(q) =~= b.filter(q).drop_first());
            }
        }
        assert forall|i: int, j: int| 0 <= i < j < x.len() implies !(
        #[trigger] x[i]).created_at.before((#[trigger] x[j]).created_at) by {
            assert(x[i] == a[i + 1] && x[j] == a[j + 1]);
        }
        assert forall|i: int, j: int| 0 <= i < j < y.len() implies !(
        #[trigger] y[i]).created_at.before((#[trigger] y[j]).created_at) by {
            assert(y[i] == b[i + 1] && y[j] == b[j + 1]);
        }
        lemma_same_listing(x, y);
        assert(a =~= seq![a[0]] + x);
        assert(b =~= seq![b[0]] + y);
    } else {
        assert(a =~= b);
    }
}

/// The first of a listing is not older than the first of another.
proof fn lemma_heads_agree(a: Seq<SessionView>, b: Seq<SessionView>)
    requires
        a.len() > 0,
        b.len() > 0,
        lookup::newest_first(a),
        forall|at: Timestamp|
            #![trigger a.filter(lookup::created_at(at))]
            a.filter(lookup::created_at(at)) == b.filter(lookup::created_at(at)),
    ensures
        !a[0].created_at.before(b[0].created_at),
{
    let p = lookup::created_at(b[0].created_at);
    lookup::lemma_filter_keeps(b, p, 0);
    assert(a.filter(p) == b.filter(p));
    let k = choose|k: int| 0 <= k < a.filter(p).len() && a.filter(p)[k] == b[0];
    lookup::lemma_filter_member(a, p, k);
    let j = choose|j: int| 0 <= j < a.len() && a[j] == b[0];
    if j > 0 {
        assert(!a[0].created_at.before(a[j].created_at));
    }
}

/// What a session file is called is not an absolute path.
proof fn lemma_relative_names(date: CivilDate, name: Seq<char>, hash: Seq<char>)
    requires
        text::is_hash(hash),
    ensures
        !path::path_is_absolute(text::year_digits(date.year as int)),
        !path::path_is_absolute(text::zero_padded(text::decimal(date.month as nat), 2)),
        !path::path_is_absolute(text::zero_padded(text::decimal(date.day as nat), 2)),
        !path::path_is_absolute(store::sanitized(name) + "-"@ + hash),
        !path::path_is_absolute(hash + ".sock"@),
        !path::path_is_absolute("live"@),
        !path::path_is_absolute("meta.json"@),
        !path::path_is_absolute("pty.log"@),
        !path::path_is_absolute("events.jsonl"@),
{
    reveal_strlit("-");
    reveal_strlit("live");
    reveal_strlit("meta.json");
    reveal_strlit("pty.log");
    reveal_strlit("events.jsonl");
    text::lemma_padded_starts_with_a_digit(date.month as nat, 2);
    text::lemma_padded_starts_with_a_digit(date.day as nat, 2);
    if date.year >= 0 {
        text::lemma_padded_starts_with_a_digit(date.year as nat, 4);
    }
    assert(text::is_hex_char(hash[0]));
    if name.len() > 0 {
        assert((store::sanitized(name) + "-"@ + hash)[0] == store::sanitized(name)[0]);
    } else {
        assert((store::sanitized(name) + "-"@ + hash)[0] == "-"@[0]);
    }
}

/// Sessions with different hashes have different sockets and different log directories.
pub proof fn different_hashes_have_different_files(
    base: Seq<char>,
    first_date: CivilDate,
    second_date: CivilDate,
    first_name: Seq<char>,
    second_name: Seq<char>,
    first: Seq<char>,
    second: Seq<char>,
)
    requires
        text::is_hash(first),
        text::is_hash(second),
        first != second,
    ensures
        store::socket_of(base, first) != store::socket_of(base, second),
        store::log_dir(base, first_date, first_name, first) != store::log_dir(
            base,
            second_date,
            second_name,
            second,
        ),
{
    if store::socket_of(base, first) == store::socket_of(base, second) {
        let a = first + ".sock"@;
        let b = second + ".sock"@;
        path::lemma_join_ends_with_tail(store::live_dir_of(base), a);
        path::lemma_join_ends_with_tail(store::live_dir_of(base), b);
        assert(a == b);
        assert(first =~= a.take(7));
        assert(second =~= b.take(7));
    }
    let a = store::sanitized(first_name) + "-"@ + first;
    let b = store::sanitized(second_name) + "-"@ + second;
    let c = store::log_dir(base, first_date, first_name, first);
    let d = store::log_dir(base, second_date, second_name, second);
    if c == d {
        path::lemma_join_ends_with_tail(store::day_dir(base, first_date), a);
        path::lemma_join_ends_with_tail(store::day_dir(base, second_date), b);
        assert(c.skip(c.len() - a.len()) == a);
        assert(d.skip(d.len() - b.len()) == b);
        lemma_same_end(c, a, first);
        lemma_same_end(d, b, second);
    }
}

/// What stands at the end of a text that stands at the end of another is at the end of both.
proof fn lemma_same_end(whole: Seq<char>, part: Seq<char>, end: Seq<char>)
    requires
        end.len() <= part.len() <= whole.len(),
        whole.skip(whole.len() - part.len()) == part,
        part.skip(part.len() - end.len()) =~= end,
    ensures
        whole.skip(whole.len() - end.len()) == end,
{
    assert(whole.skip(whole.len() - end.len()) =~= part.skip(part.len() - end.len()));
}

/// All files of a session lie under the directory of the store.
pub proof fn session_files_lie_under_the_base(
    base: Seq<char>,
    req: RequestView,
    name: Seq<char>,
    hash: Seq<char>,
    now: Timestamp,
    date: CivilDate,
)
    requires
        text::is_hash(hash),
    ensures
        ({
            let s = store::created_session(base, req, name, hash, now, date);
            &&& path::path_within(s.started_log_dir, base)
            &&& path::path_within(s.meta_path, base)
            &&& path::path_within(s.log_path, base)
            &&& path::path_within(s.events_path, base)
            &&& path::path_within(s.socket_path, base)
        }),
{
    lemma_relative_names(date, name, hash);
    let year = path::path_join(base, text::year_digits(date.year as int));
    let month = path::path_join(year, text::zero_padded(text::decimal(date.month as nat), 2));
    let day = store::day_dir(base, date);
    let dir = store::log_dir(base, date, name, hash);
    lemma_within_join(base, base, text::year_digits(date.year as int));
    lemma_within_join(year, base, text::zero_padded(text::decimal(date.month as nat), 2));
    lemma_within_join(month, base, text::zero_padded(text::decimal(date.day as nat), 2));
    lemma_within_join(day, base, store::sanitized(name) + "-"@ + hash);
    lemma_within_join(dir, base, "meta.json"@);
    lemma_within_join(dir, base, "pty.log"@);
    lemma_within_join(dir, base, "events.jsonl"@);
    lemma_within_join(base, base, "live"@);
    lemma_within_join(store::live_dir_of(base), base, hash + ".sock"@);
}

proof fn lemma_within_join(dir: Seq<char>, base: Seq<char>, tail: Seq<char>)
    requires
        dir == base || path::path_within(dir, base),
        !path::path_is_absolute(tail),
    ensures
        path::path_within(path::path_join(dir, tail), base),
{
    path::joined_path_lies_within_base(dir, tail);
    let a = path::path_components(base);
    let b = path::path_components(dir);
    let c = path::path_components(path::path_join(dir, tail));
    if dir != base {
        assert(a =~= c.subrange(0, a.len() as int)) by {
            assert forall|i: int| 0 <= i < a.len() implies a[i] == c[i] by {
                assert(a[i] == b.subrange(0, a.len() as int)[i]);
                assert(b[i] == c.subrange(0, b.len() as int)[i]);
            }
        }
    }
}

/// The processes of a session see its hash and the name that it was started
/// with, and apart from these marks the variables that were asked for.
pub proof fn sessions_are_marked_in_their_variables(
    base: Seq<char>,
    req: RequestView,
    name: Seq<char>,
    hash: Seq<char>,
    now: Timestamp,
    date: CivilDate,
    other: Seq<char>,
)
    requires
        other != "TMUY_SESSION_HASH"@,
        other != "TMUY_SESSION_STARTED_NAME"@,
        other != "TMUY_INSIDE"@,
    ensures
        ({
            let env = store::created_session(base, req, name, hash, now, date).env;
            &&& env.contains_pair("TMUY_SESSION_HASH"@, hash)
            &&& env.contains_pair("TMUY_SESSION_STARTED_NAME"@, name)
            &&& env.contains_pair("TMUY_INSIDE"@, "1"@)
            &&& env.contains_key(other) == req.env.contains_key(other)
            &&& req.env.contains_key(other) ==> env[other] == req.env[other]
        }),
{
    reveal_strlit("TMUY_SESSION_HASH");
    reveal_strlit("TMUY_SESSION_STARTED_NAME");
    reveal_strlit("TMUY_INSIDE");
    assert("TMUY_SESSION_HASH"@.len() != "TMUY_INSIDE"@.len());
    assert("TMUY_SESSION_HASH"@.len() != "TMUY_SESSION_STARTED_NAME"@.len());
    assert("TMUY_INSIDE"@.len() != "TMUY_SESSION_STARTED_NAME"@.len());
}

/// A session is live from its creation until it ends: what is recorded while it
/// runs keeps it live, and what is recorded at its end makes it dead.
pub proof fn sessions_live_until_they_end(
    base: Seq<char>,
    req: RequestView,
    s: SessionView,
    name: Seq<char>,
    hash: Seq<char>,
    date: CivilDate,
    service_pid: u32,
    child_pid: Option<u32>,
    exit_code: Option<i32>,
    reason: Seq<char>,
    now: Timestamp,
)
    ensures
        store::created_session(base, req, name, hash, now, date).status.live(),
        store::marked_live(s, service_pid, child_pid, now).status.live(),
        store::renamed(s, name, now).status.live() == s.status.live(),
        !store::marked_exited(s, exit_code, now).status.live(),
        !store::marked_failed(s, reason, now).status.live(),
{
}

/// A session that is followed or waited for by its hash is not lost when it
/// gets a new name: it is found as before, with the same files and status.
pub proof fn followed_sessions_survive_renaming(
    state: StateView,
    target: Seq<char>,
    name: Seq<char>,
    now: Timestamp,
    hash: Seq<char>,
)
    requires
        store::rename_target(state, target, name) is Ok,
        !store::hash_is_free(state, hash),
    ensures
        ({
            let renamed_hash = store::rename_target(state, target, name)->Ok_0.id_hash;
            let after = store::put_session(
                state,
                renamed_hash,
                store::renamed(store::session_of(state, renamed_hash), name, now),
            );
            &&& !store::hash_is_free(after, hash)
            &&& store::session_of(after, hash).log_path == store::session_of(state, hash).log_path
            &&& store::session_of(after, hash).events_path == store::session_of(
                state,
                hash,
            ).events_path
            &&& store::session_of(after, hash).status == store::session_of(state, hash).status
        }),
{
    let found = store::rename_target(state, target, name)->Ok_0;
    lookup::target_is_a_session_of_the_scope(state.sessions, target, SessionScope::LiveOnly);
    let f = choose|f: int| 0 <= f < state.sessions.len() && state.sessions[f] == found;
    assert(lookup::with_hash(found.id_hash)(state.sessions[f]));
    taken_hashes_belong_to_sessions(state, found.id_hash);
    let changed = store::renamed(store::session_of(state, found.id_hash), name, now);
    if hash == found.id_hash {
        let other = hash.push('x');
        assert(other.len() != hash.len());
        changes_are_read_back(state, hash, changed, other);
    } else {
        changes_are_read_back(state, found.id_hash, changed, hash);
    }
}

/// Without flags a session is not restricted.
pub proof fn no_flags_ask_for_the_default_sandbox(cwd: Seq<char>)
    ensures
        store::sandbox_of(Seq::empty(), None, cwd) == Ok::<SandboxView, ErrorView>(
            model::default_sandbox(),
        ),
{
}

} // verus!
