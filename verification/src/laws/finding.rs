//! What holds of finding and listing sessions.

use vstd::prelude::*;

use crate::error::ErrorView;
use crate::lookup;
use crate::model::{SessionScope, SessionView, Timestamp};

verus! {

/// A name that no session of the scope has is unknown.
pub proof fn unknown_names_are_refused(s: Seq<SessionView>, name: Seq<char>, scope: SessionScope)
    requires
        forall|i: int|
            0 <= i < s.len() && scope.admits((#[trigger] s[i]).status) ==> s[i].current_name
                != name,
    ensures
        lookup::session_named(s, name, scope) == Err::<SessionView, ErrorView>(
            ErrorView::UnknownTarget(name),
        ),
{
    let q = lookup::named_in(name, scope);
    let matches = s.filter(q);
    if matches.len() > 0 {
        lookup::lemma_filter_member(s, q, 0);
        let i = choose|i: int| 0 <= i < s.len() && s[i] == matches[0];
        assert(s[i].current_name == name);
    }
}

/// A name that one session of the scope has stands for that session.
pub proof fn names_stand_for_their_session(
    s: Seq<SessionView>,
    name: Seq<char>,
    scope: SessionScope,
    i: int,
)
    requires
        0 <= i < s.len(),
        s[i].current_name == name,
        scope.admits(s[i].status),
        forall|j: int|
            0 <= j < s.len() && j != i && scope.admits((#[trigger] s[j]).status)
                ==> s[j].current_name != name,
    ensures
        lookup::session_named(s, name, scope) == Ok::<SessionView, ErrorView>(s[i]),
{
    lemma_only_match(s, name, scope, i);
}

proof fn lemma_only_match(s: Seq<SessionView>, name: Seq<char>, scope: SessionScope, i: int)
    requires
        0 <= i < s.len(),
        s[i].current_name == name,
        scope.admits(s[i].status),
        forall|j: int|
            0 <= j < s.len() && j != i && scope.admits((#[trigger] s[j]).status)
                ==> s[j].current_name != name,
    ensures
        s.filter(lookup::named_in(name, scope)) == seq![s[i]],
    decreases s.len(),
{
    let q = lookup::named_in(name, scope);
    reveal(Seq::filter);
    let rest = s.drop_last();
    if i == s.len() - 1 {
        lemma_no_match(rest, name, scope);
        assert(s.filter(q) =~= seq![s[i]]);
    } else {
        assert forall|j: int|
            0 <= j < rest.len() && j != i && scope.admits((#[trigger] rest[j]).status)
            implies rest[j].current_name != name by {
            assert(rest[j] == s[j]);
        }
        lemma_only_match(rest, name, scope, i);
        assert(!q(s.last())) by {
            assert(s.last() == s[s.len() - 1]);
        }
    }
}

proof fn lemma_no_match(s: Seq<SessionView>, name: Seq<char>, scope: SessionScope)
    requires
        forall|j: int|
            0 <= j < s.len() && scope.admits((#[trigger] s[j]).status) ==> s[j].current_name
                != name,
    ensures
        s.filter(lookup::named_in(name, scope)) == Seq::<SessionView>::empty(),
    decreases s.len(),
{
    reveal(Seq::filter);
    if s.len() > 0 {
        let rest = s.drop_last();
        assert forall|j: int| 0 <= j < rest.len() && scope.admits((#[trigger] rest[j]).status)
            implies rest[j].current_name != name by {
            assert(rest[j] == s[j]);
        }
        lemma_no_match(rest, name, scope);
        assert(s.last() == s[s.len() - 1]);
    }
}

/// A name that two sessions of the scope have is refused, unless all sessions
/// are meant and one of them is live.
pub proof fn shared_names_are_refused(
    s: Seq<SessionView>,
    name: Seq<char>,
    scope: SessionScope,
    i: int,
    j: int,
)
    requires
        0 <= i < j < s.len(),
        s[i].current_name == name,
        s[j].current_name == name,
        scope.admits(s[i].status),
        scope.admits(s[j].status),
        scope == SessionScope::All ==> forall|k: int|
            0 <= k < s.len() && (#[trigger] s[k]).current_name == name ==> !s[k].status.live(),
    ensures
        lookup::session_named(s, name, scope) == Err::<SessionView, ErrorView>(
            ErrorView::AmbiguousTarget(name),
        ),
{
    let q = lookup::named_in(name, scope);
    let matches = s.filter(q);
    lemma_two_matches(s, q, i, j);
    if scope == SessionScope::All && lookup::some_session(matches, lookup::is_live()) {
        let m = choose|m: int|
            0 <= m < matches.len() && lookup::is_live()(#[trigger] matches[m]);
        lookup::lemma_filter_member(s, q, m);
        let k = choose|k: int| 0 <= k < s.len() && s[k] == matches[m];
        assert(s[k].current_name == name && s[k].status.live());
    }
}

proof fn lemma_two_matches(
    s: Seq<SessionView>,
    q: spec_fn(SessionView) -> bool,
    i: int,
    j: int,
)
    requires
        0 <= i < j < s.len(),
        q(s[i]),
        q(s[j]),
    ensures
        s.filter(q).len() >= 2,
    decreases s.len(),
{
    reveal(Seq::filter);
    let rest = s.drop_last();
    if j == s.len() - 1 {
        lookup::lemma_filter_keeps(rest, q, i);
        assert(rest.filter(q).len() > 0);
    } else {
        lemma_two_matches(rest, q, i, j);
    }
}

/// Among all sessions a name that live ones have stands for the first of these,
/// whatever dead ones have it too.
pub proof fn live_sessions_win_their_name(s: Seq<SessionView>, name: Seq<char>, i: int)
    requires
        0 <= i < s.len(),
        s[i].current_name == name,
        s[i].status.live(),
        forall|k: int|
            0 <= k < i && (#[trigger] s[k]).current_name == name ==> !s[k].status.live(),
    ensures
        lookup::session_named(s, name, SessionScope::All) == Ok::<SessionView, ErrorView>(s[i]),
{
    let q = lookup::named_in(name, SessionScope::All);
    let matches = s.filter(q);
    lemma_first_live_match(s, name, i);
    let k = lookup::first_place(matches, lookup::is_live());
    if matches.len() == 1 {
        assert(k == 0);
    }
}

proof fn lemma_first_live_match(s: Seq<SessionView>, name: Seq<char>, i: int)
    requires
        0 <= i < s.len(),
        s[i].current_name == name,
        s[i].status.live(),
        forall|k: int|
            0 <= k < i && (#[trigger] s[k]).current_name == name ==> !s[k].status.live(),
    ensures
        ({
            let matches = s.filter(lookup::named_in(name, SessionScope::All));
            let k = lookup::first_place(matches, lookup::is_live());
            &&& lookup::some_session(matches, lookup::is_live())
            &&& 0 <= k < matches.len()
            &&& matches[k] == s[i]
        }),
{
    let q = lookup::named_in(name, SessionScope::All);
    let low = s.take(i);
    let high = s.skip(i + 1);
    assert(s =~= low + seq![s[i]] + high);
    Seq::filter_distributes_over_add(low + seq![s[i]], high, q);
    Seq::filter_distributes_over_add(low, seq![s[i]], q);
    assert(seq![s[i]].filter(q) == seq![s[i]]) by {
        reveal(Seq::filter);
        assert(seq![s[i]].drop_last() =~= Seq::empty());
        assert(seq![s[i]].filter(q) =~= seq![s[i]]);
    }
    let before = low.filter(q);
    let matches = s.filter(q);
    assert(matches =~= before + seq![s[i]] + high.filter(q));
    let n = before.len() as int;
    assert(matches[n] == s[i]);
    assert(lookup::is_first(matches, lookup::is_live(), n)) by {
        assert forall|k: int| 0 <= k < n implies !lookup::is_live()(#[trigger] matches[k]) by {
            lookup::lemma_filter_member(low, q, k);
            assert(matches[k] == before[k]);
            let j = choose|j: int| 0 <= j < low.len() && low[j] == before[k];
            assert(s[j] == before[k]);
            assert(s[j].current_name == name);
        }
    }
    lookup::lemma_first(matches, lookup::is_live(), n);
}

/// A target that is the hash of no session of the scope is a name.
pub proof fn targets_may_be_names(s: Seq<SessionView>, target: Seq<char>, scope: SessionScope)
    requires
        forall|i: int|
            0 <= i < s.len() && scope.admits((#[trigger] s[i]).status) ==> s[i].id_hash != target,
    ensures
        lookup::session_targeted(s, target, scope) == lookup::session_named(s, target, scope),
{
    let p = lookup::hashed_in(target, scope);
    assert forall|i: int| 0 <= i < s.len() implies !p(#[trigger] s[i]) by {
    }
}

/// A target that is the hash of a session of the scope stands for that session,
/// unless it is the name of another one: then it is refused, and both are named.
pub proof fn targets_are_hashes_first(
    s: Seq<SessionView>,
    target: Seq<char>,
    scope: SessionScope,
    i: int,
)
    requires
        0 <= i < s.len(),
        s[i].id_hash == target,
        scope.admits(s[i].status),
        forall|k: int|
            0 <= k < i && scope.admits((#[trigger] s[k]).status) ==> s[k].id_hash != target,
    ensures
        ({
            let named = lookup::session_named(s, target, scope);
            let found = lookup::session_targeted(s, target, scope);
            &&& named is Err || named->Ok_0.id_hash == target ==> found == Ok::<
                SessionView,
                ErrorView,
            >(s[i])
            &&& named is Ok && named->Ok_0.id_hash != target ==> found == Err::<
                SessionView,
                ErrorView,
            >(
                ErrorView::AmbiguousHashAndName {
                    target,
                    hash_ref: s[i].current_name + " ("@ + s[i].id_hash + ")"@,
                    name_ref: named->Ok_0.current_name + " ("@ + named->Ok_0.id_hash + ")"@,
                },
            )
        }),
{
    let p = lookup::hashed_in(target, scope);
    assert(lookup::is_first(s, p, i)) by {
        assert forall|k: int| 0 <= k < i implies !p(#[trigger] s[k]) by {
        }
    }
    lookup::lemma_first(s, p, i);
}

/// The first of some sessions is the one before which there is no other of them.
pub proof fn first_sessions_come_first(
    s: Seq<SessionView>,
    p: spec_fn(SessionView) -> bool,
    i: int,
)
    ensures
        lookup::is_first(s, p, i) <==> 0 <= i < s.len() && p(s[i]) && forall|k: int|
            0 <= k < i ==> !p(#[trigger] s[k]),
        lookup::some_session(s, p) <==> exists|k: int| 0 <= k < s.len() && p(#[trigger] s[k]),
{
}

/// The predicates by which sessions are looked for say what they are named after.
pub proof fn sessions_are_looked_for_by_what_they_have(
    s: SessionView,
    text: Seq<char>,
    scope: SessionScope,
    at: Timestamp,
)
    ensures
        lookup::with_hash(text)(s) <==> s.id_hash == text,
        lookup::live_named(text)(s) <==> s.current_name == text && s.status.live(),
        lookup::is_live()(s) <==> s.status.live(),
        lookup::in_scope(scope)(s) <==> scope.admits(s.status),
        lookup::hashed_in(text, scope)(s) <==> s.id_hash == text && scope.admits(s.status),
        lookup::named_in(text, scope)(s) <==> s.current_name == text && scope.admits(s.status),
        lookup::created_at(at)(s) <==> s.created_at == at,
{
}

/// A listing is in the order of time, the newest first.
pub proof fn listings_are_newest_first(
    listed: Seq<SessionView>,
    s: Seq<SessionView>,
    i: int,
    j: int,
)
    requires
        lookup::is_listing(listed, s),
        0 <= i < j < listed.len(),
    ensures
        listed[i].created_at.secs > listed[j].created_at.secs || (listed[i].created_at.secs
            == listed[j].created_at.secs && listed[i].created_at.nanos
            >= listed[j].created_at.nanos),
{
}

/// A listing of a scope holds a session exactly where it is in the state and of
/// the scope.
pub proof fn listings_hold_the_scope(
    listed: Seq<SessionView>,
    s: Seq<SessionView>,
    scope: SessionScope,
    session: SessionView,
)
    requires
        lookup::is_listing(listed, s.filter(lookup::in_scope(scope))),
    ensures
        listed.contains(session) <==> s.contains(session) && scope.admits(session.status),
        listed.len() == s.filter(lookup::in_scope(scope)).len(),
{
    broadcast use vstd::seq_lib::group_to_multiset_ensures;
    let p = lookup::in_scope(scope);
    let kept = s.filter(p);
    crate::laws::listings_hold_the_sessions(listed, kept);
    assert(listed.contains(session) <==> listed.to_multiset().count(session) > 0);
    assert(kept.contains(session) <==> kept.to_multiset().count(session) > 0);
    if s.contains(session) && scope.admits(session.status) {
        let i = choose|i: int| 0 <= i < s.len() && s[i] == session;
        lookup::lemma_filter_keeps(s, p, i);
    }
    if kept.contains(session) {
        let k = choose|k: int| 0 <= k < kept.len() && kept[k] == session;
        lookup::lemma_filter_member(s, p, k);
    }
}

/// Sessions of one instant are listed in the order in which they were created.
pub proof fn listings_keep_the_order_of_one_instant(
    listed: Seq<SessionView>,
    s: Seq<SessionView>,
    at: Timestamp,
)
    requires
        lookup::is_listing(listed, s),
    ensures
        listed.filter(|v: SessionView| v.created_at == at) == s.filter(
            |v: SessionView| v.created_at == at,
        ),
{
    let p = |v: SessionView| v.created_at == at;
    assert(p =~= lookup::created_at(at));
    assert(listed.filter(lookup::created_at(at)) == s.filter(lookup::created_at(at)));
}

} // verus!
