//! Finding sessions by hash and by name, and listing them.

use vstd::prelude::*;

use crate::error::{ErrorView, TmuyError};
use crate::model;
use crate::model::{SessionRecord, SessionScope, SessionView, StateFile, Timestamp};
use crate::text::same_text;

verus! {

/// The sessions with the given hash.
pub open spec fn with_hash(hash: Seq<char>) -> spec_fn(SessionView) -> bool {
    |s: SessionView| s.id_hash == hash
}

/// The live sessions with the given name.
pub open spec fn live_named(name: Seq<char>) -> spec_fn(SessionView) -> bool {
    |s: SessionView| s.current_name == name && s.status.live()
}

/// The live sessions.
pub open spec fn is_live() -> spec_fn(SessionView) -> bool {
    |s: SessionView| s.status.live()
}

/// The sessions of the scope.
pub open spec fn in_scope(scope: SessionScope) -> spec_fn(SessionView) -> bool {
    |s: SessionView| scope.admits(s.status)
}

/// The sessions of the scope with the given hash.
pub open spec fn hashed_in(hash: Seq<char>, scope: SessionScope) -> spec_fn(SessionView) -> bool {
    |s: SessionView| s.id_hash == hash && scope.admits(s.status)
}

/// The sessions of the scope with the given name.
pub open spec fn named_in(name: Seq<char>, scope: SessionScope) -> spec_fn(SessionView) -> bool {
    |s: SessionView| s.current_name == name && scope.admits(s.status)
}

/// Whether the session at `i` is the first for which `p` holds.
pub open spec fn is_first(s: Seq<SessionView>, p: spec_fn(SessionView) -> bool, i: int) -> bool {
    0 <= i < s.len() && p(s[i]) && forall|k: int| 0 <= k < i ==> !p(#[trigger] s[k])
}

/// Where the first session for which `p` holds stands.
pub open spec fn first_place(s: Seq<SessionView>, p: spec_fn(SessionView) -> bool) -> int {
    choose|i: int| is_first(s, p, i)
}

/// Whether there is a session for which `p` holds.
pub open spec fn some_session(s: Seq<SessionView>, p: spec_fn(SessionView) -> bool) -> bool {
    exists|i: int| 0 <= i < s.len() && p(#[trigger] s[i])
}

/// The first session for which `p` holds.
pub open spec fn first_session(s: Seq<SessionView>, p: spec_fn(SessionView) -> bool) -> Option<
    SessionView,
> {
    if some_session(s, p) {
        Some(s[first_place(s, p)])
    } else {
        None
    }
}

/// The session that a name stands for: the only one of that name in the scope,
/// or, among all sessions, the first live one.
pub open spec fn session_named(
    s: Seq<SessionView>,
    name: Seq<char>,
    scope: SessionScope,
) -> Result<SessionView, ErrorView> {
    let matches = s.filter(named_in(name, scope));
    if matches.len() == 0 {
        Err(ErrorView::UnknownTarget(name))
    } else if matches.len() == 1 {
        Ok(matches[0])
    } else if scope == SessionScope::All && some_session(matches, is_live()) {
        Ok(matches[first_place(matches, is_live())])
    } else {
        Err(ErrorView::AmbiguousTarget(name))
    }
}

/// The session that a target stands for: the one with that hash, or the one
/// with that name, where the two are not different sessions.
pub open spec fn session_targeted(
    s: Seq<SessionView>,
    target: Seq<char>,
    scope: SessionScope,
) -> Result<SessionView, ErrorView> {
    let by_name = session_named(s, target, scope);
    match first_session(s, hashed_in(target, scope)) {
        None => by_name,
        Some(by_hash) => match by_name {
            Ok(named) if named.id_hash != by_hash.id_hash => Err(
                ErrorView::AmbiguousHashAndName {
                    target,
                    hash_ref: by_hash.short_ref(),
                    name_ref: named.short_ref(),
                },
            ),
            _ => Ok(by_hash),
        },
    }
}

/// What a lookup gives, as text.
pub open spec fn outcome(r: Result<SessionRecord, TmuyError>) -> Result<SessionView, ErrorView> {
    match r {
        Ok(session) => Ok(session@),
        Err(e) => Err(e@),
    }
}

/// There is no more than one first session.
pub proof fn lemma_first(s: Seq<SessionView>, p: spec_fn(SessionView) -> bool, i: int)
    requires
        is_first(s, p, i),
    ensures
        some_session(s, p),
        first_place(s, p) == i,
        first_session(s, p) == Some(s[i]),
{
    let j = first_place(s, p);
    assert(is_first(s, p, j));
}

/// Where there is a session for which `p` holds there is a first one.
pub proof fn lemma_first_exists(s: Seq<SessionView>, p: spec_fn(SessionView) -> bool, i: int)
    requires
        0 <= i < s.len(),
        p(s[i]),
    ensures
        some_session(s, p),
        is_first(s, p, first_place(s, p)),
        first_place(s, p) <= i,
    decreases i,
{
    if exists|k: int| 0 <= k < i && p(#[trigger] s[k]) {
        let k = choose|k: int| 0 <= k < i && p(#[trigger] s[k]);
        lemma_first_exists(s, p, k);
    } else {
        assert(is_first(s, p, i));
        lemma_first(s, p, i);
    }
}

/// What a filter keeps is a session of the list for which `p` holds.
pub proof fn lemma_filter_member(s: Seq<SessionView>, p: spec_fn(SessionView) -> bool, i: int)
    requires
        0 <= i < s.filter(p).len(),
    ensures
        s.contains(s.filter(p)[i]),
        p(s.filter(p)[i]),
    decreases s.len(),
{
    reveal(Seq::filter);
    if s.len() > 0 {
        let kept = s.drop_last().filter(p);
        if i < kept.len() {
            lemma_filter_member(s.drop_last(), p, i);
            let j = choose|j: int| 0 <= j < s.drop_last().len() && s.drop_last()[j] == kept[i];
            assert(s[j] == kept[i]);
        } else {
            assert(s[s.len() - 1] == s.last());
        }
    }
}

/// The session that a name stands for is one of those in the scope, and has that name.
pub proof fn named_session_is_of_the_scope(
    s: Seq<SessionView>,
    name: Seq<char>,
    scope: SessionScope,
)
    requires
        session_named(s, name, scope) is Ok,
    ensures
        ({
            let found = session_named(s, name, scope)->Ok_0;
            &&& s.contains(found)
            &&& scope.admits(found.status)
            &&& found.current_name == name
        }),
{
    let q = named_in(name, scope);
    let matches = s.filter(q);
    if matches.len() == 1 {
        lemma_filter_member(s, q, 0);
    } else {
        let i = choose|i: int| 0 <= i < matches.len() && is_live()(#[trigger] matches[i]);
        lemma_first_exists(matches, is_live(), i);
        lemma_filter_member(s, q, first_place(matches, is_live()));
    }
}

/// A filter keeps every session for which `p` holds.
pub proof fn lemma_filter_keeps(s: Seq<SessionView>, p: spec_fn(SessionView) -> bool, i: int)
    requires
        0 <= i < s.len(),
        p(s[i]),
    ensures
        s.filter(p).contains(s[i]),
    decreases s.len(),
{
    reveal(Seq::filter);
    let kept = s.drop_last().filter(p);
    if i == s.len() - 1 {
        assert(s.filter(p)[kept.len() as int] == s[i]);
    } else {
        lemma_filter_keeps(s.drop_last(), p, i);
        let k = choose|k: int| 0 <= k < kept.len() && kept[k] == s.drop_last()[i];
        assert(s.filter(p)[k] == s[i]);
    }
}

/// A live session whose name no other live session has answers to that name,
/// among the live sessions and among all.
pub proof fn live_session_answers_to_its_name(s: Seq<SessionView>, i: int, scope: SessionScope)
    requires
        0 <= i < s.len(),
        s[i].status.live(),
        scope != SessionScope::DeadOnly,
        forall|j: int|
            0 <= j < s.len() && j != i && s[j].status.live() ==> (#[trigger] s[j]).current_name
                != s[i].current_name,
    ensures
        session_named(s, s[i].current_name, scope) == Ok::<SessionView, ErrorView>(s[i]),
{
    let name = s[i].current_name;
    let q = named_in(name, scope);
    let matches = s.filter(q);
    lemma_filter_keeps(s, q, i);
    let k = choose|k: int| 0 <= k < matches.len() && matches[k] == s[i];
    assert forall|m: int| 0 <= m < matches.len() && (#[trigger] matches[m]).status.live() implies matches[m]
        == s[i] by {
        lemma_filter_member(s, q, m);
        let j = choose|j: int| 0 <= j < s.len() && s[j] == matches[m];
        assert(s[j].current_name == name);
    }
    assert(is_live()(matches[k]));
    lemma_first_exists(matches, is_live(), k);
    assert(matches[first_place(matches, is_live())].status.live());
    if scope == SessionScope::LiveOnly {
        lemma_live_matches(s, i, name);
    }
}

/// Among the live sessions a name that only one of them has is met once.
proof fn lemma_live_matches(s: Seq<SessionView>, i: int, name: Seq<char>)
    requires
        0 <= i < s.len(),
        s[i].status.live(),
        s[i].current_name == name,
        forall|j: int|
            0 <= j < s.len() && j != i && s[j].status.live() ==> (#[trigger] s[j]).current_name
                != name,
    ensures
        s.filter(named_in(name, SessionScope::LiveOnly)) == seq![s[i]],
    decreases s.len(),
{
    let q = named_in(name, SessionScope::LiveOnly);
    reveal(Seq::filter);
    let rest = s.drop_last();
    if i == s.len() - 1 {
        assert forall|j: int| 0 <= j < rest.len() implies !q(#[trigger] rest[j]) by {
            assert(rest[j] == s[j]);
        }
        lemma_filter_none(rest, q);
        assert(s.filter(q) =~= seq![s[i]]);
    } else {
        assert forall|j: int| 0 <= j < rest.len() && j != i && rest[j].status.live() implies (
        #[trigger] rest[j]).current_name != name by {
            assert(rest[j] == s[j]);
        }
        lemma_live_matches(rest, i, name);
        assert(!q(s.last())) by {
            assert(s.last() == s[s.len() - 1]);
        }
    }
}

/// The session that a target stands for is one of those in the scope, and has
/// the target as its hash or as its name.
pub proof fn target_is_a_session_of_the_scope(
    s: Seq<SessionView>,
    target: Seq<char>,
    scope: SessionScope,
)
    requires
        session_targeted(s, target, scope) is Ok,
    ensures
        ({
            let found = session_targeted(s, target, scope)->Ok_0;
            &&& s.contains(found)
            &&& scope.admits(found.status)
            &&& found.id_hash == target || found.current_name == target
        }),
{
    let p = hashed_in(target, scope);
    if some_session(s, p) {
        let i = choose|i: int| 0 <= i < s.len() && p(#[trigger] s[i]);
        lemma_first_exists(s, p, i);
    } else {
        named_session_is_of_the_scope(s, target, scope);
    }
}

/// Whether a session is among those of the scope.
pub fn session_matches_scope(session: &SessionRecord, scope: SessionScope) -> (r: bool)
    ensures
        r == scope.admits(session.status),
{
    match scope {
        SessionScope::LiveOnly => session.status.is_live(),
        SessionScope::DeadOnly => !session.status.is_live(),
        SessionScope::All => true,
    }
}

/// Where the first session with the given hash stands.
pub fn place_of_hash(sessions: &Vec<SessionRecord>, hash: &str) -> (r: Option<usize>)
    ensures
        match r {
            Some(i) => is_first(model::session_views(sessions@), with_hash(hash@), i as int),
            None => !some_session(model::session_views(sessions@), with_hash(hash@)),
        },
{
    let ghost views = model::session_views(sessions@);
    let mut i: usize = 0;
    while i < sessions.len()
        invariant
            i <= sessions@.len(),
            views == model::session_views(sessions@),
            forall|k: int| 0 <= k < i ==> !with_hash(hash@)(#[trigger] views[k]),
        decreases sessions@.len() - i,
    {
        assert(views[i as int] == sessions@[i as int]@);
        if same_text(sessions[i].id_hash.as_str(), hash) {
            return Some(i);
        }
        i = i + 1;
    }
    None
}

/// Whether a live session has the name.
pub fn live_name_taken(sessions: &Vec<SessionRecord>, name: &str) -> (r: bool)
    ensures
        r == some_session(model::session_views(sessions@), live_named(name@)),
{
    let ghost views = model::session_views(sessions@);
    let mut i: usize = 0;
    while i < sessions.len()
        invariant
            i <= sessions@.len(),
            views == model::session_views(sessions@),
            forall|k: int| 0 <= k < i ==> !live_named(name@)(#[trigger] views[k]),
        decreases sessions@.len() - i,
    {
        assert(views[i as int] == sessions@[i as int]@);
        if same_text(sessions[i].current_name.as_str(), name) && sessions[i].status.is_live() {
            return true;
        }
        i = i + 1;
    }
    false
}

/// The session that a name stands for among those of the scope.
pub fn resolve_name_in_state(state: &StateFile, name: &str, scope: SessionScope) -> (r: Result<
    SessionRecord,
    TmuyError,
>)
    ensures
        outcome(r) == session_named(state@.sessions, name@, scope),
{
    let ghost views = state@.sessions;
    let ghost p = named_in(name@, scope);
    let mut matches: Vec<SessionRecord> = Vec::new();
    let mut i: usize = 0;
    proof {
        reveal(Seq::filter);
        assert(views.take(0).filter(p) =~= Seq::empty());
        assert(model::session_views(matches@) =~= Seq::empty());
    }
    while i < state.sessions.len()
        invariant
            i <= state.sessions@.len(),
            views == model::session_views(state.sessions@),
            p == named_in(name@, scope),
            model::session_views(matches@) == views.take(i as int).filter(p),
        decreases state.sessions@.len() - i,
    {
        let ghost before = matches@;
        proof {
            reveal(Seq::filter);
            assert(views.take(i + 1).drop_last() =~= views.take(i as int));
            assert(views[i as int] == state.sessions@[i as int]@);
        }
        if same_text(state.sessions[i].current_name.as_str(), name) && session_matches_scope(
            &state.sessions[i],
            scope,
        ) {
            let session = state.sessions[i].clone();
            matches.push(session);
            proof {
                assert(model::session_views(matches@) =~= model::session_views(before).push(
                    session@,
                ));
            }
        }
        i = i + 1;
    }
    let ghost found = model::session_views(matches@);
    proof {
        assert(views.take(i as int) =~= views);
        assert(found.len() == matches@.len());
    }
    if matches.len() == 0 {
        return Err(TmuyError::UnknownTarget(name.to_owned()));
    }
    if matches.len() == 1 {
        assert(found[0] == matches@[0]@);
        return Ok(matches[0].clone());
    }
    if scope == SessionScope::All {
        let mut j: usize = 0;
        while j < matches.len()
            invariant
                j <= matches@.len(),
                found == model::session_views(matches@),
                found == views.filter(p),
                views == state@.sessions,
                p == named_in(name@, scope),
                scope == SessionScope::All,
                found.len() > 1,
                forall|k: int| 0 <= k < j ==> !is_live()(#[trigger] found[k]),
            decreases matches@.len() - j,
        {
            assert(found[j as int] == matches@[j as int]@);
            if matches[j].status.is_live() {
                proof {
                    lemma_first(found, is_live(), j as int);
                }
                return Ok(matches[j].clone());
            }
            j = j + 1;
        }
    }
    Err(TmuyError::AmbiguousTarget(name.to_owned()))
}

/// The session that a target stands for among those of the scope.
pub fn resolve_target_in_state(state: &StateFile, target: &str, scope: SessionScope) -> (r: Result<
    SessionRecord,
    TmuyError,
>)
    ensures
        outcome(r) == session_targeted(state@.sessions, target@, scope),
{
    let ghost views = state@.sessions;
    let ghost p = hashed_in(target@, scope);
    let by_name = resolve_name_in_state(state, target, scope);
    let mut i: usize = 0;
    while i < state.sessions.len()
        invariant
            i <= state.sessions@.len(),
            views == model::session_views(state.sessions@),
            p == hashed_in(target@, scope),
            forall|k: int| 0 <= k < i ==> !p(#[trigger] views[k]),
            outcome(by_name) == session_named(views, target@, scope),
        decreases state.sessions@.len() - i,
    {
        assert(views[i as int] == state.sessions@[i as int]@);
        if same_text(state.sessions[i].id_hash.as_str(), target) && session_matches_scope(
            &state.sessions[i],
            scope,
        ) {
            proof {
                lemma_first(views, p, i as int);
            }
            let by_hash = &state.sessions[i];
            if let Ok(named) = &by_name {
                if !same_text(named.id_hash.as_str(), by_hash.id_hash.as_str()) {
                    return Err(
                        TmuyError::AmbiguousHashAndName {
                            target: target.to_owned(),
                            hash_ref: by_hash.short_ref(),
                            name_ref: named.short_ref(),
                        },
                    );
                }
            }
            return Ok(by_hash.clone());
        }
        i = i + 1;
    }
    by_name
}

/// The sessions that were created at the given instant.
pub open spec fn created_at(at: Timestamp) -> spec_fn(SessionView) -> bool {
    |s: SessionView| s.created_at == at
}

/// Whether no session stands before one that was created after it.
pub open spec fn newest_first(s: Seq<SessionView>) -> bool {
    forall|i: int, j: int|
        0 <= i < j < s.len() ==> !(#[trigger] s[i]).created_at.before((#[trigger] s[j]).created_at)
}

/// Whether `listed` holds the sessions of `s`, the newest first, those of one
/// instant in the order in which they stand in `s`.
pub open spec fn is_listing(listed: Seq<SessionView>, s: Seq<SessionView>) -> bool {
    &&& newest_first(listed)
    &&& forall|at: Timestamp|
        #![trigger listed.filter(created_at(at))]
        #![trigger s.filter(created_at(at))]
        listed.filter(created_at(at)) == s.filter(created_at(at))
}

proof fn lemma_filter_none(s: Seq<SessionView>, p: spec_fn(SessionView) -> bool)
    requires
        forall|i: int| 0 <= i < s.len() ==> !p(#[trigger] s[i]),
    ensures
        s.filter(p) == Seq::<SessionView>::empty(),
    decreases s.len(),
{
    reveal(Seq::filter);
    if s.len() > 0 {
        lemma_filter_none(s.drop_last(), p);
    }
}

proof fn lemma_listing_insert(
    listed: Seq<SessionView>,
    s: Seq<SessionView>,
    place: int,
    session: SessionView,
)
    requires
        is_listing(listed, s),
        0 <= place <= listed.len(),
        forall|k: int|
            0 <= k < place ==> !(#[trigger] listed[k]).created_at.before(session.created_at),
        place < listed.len() ==> listed[place].created_at.before(session.created_at),
    ensures
        is_listing(listed.insert(place, session), s.push(session)),
{
    let after = listed.insert(place, session);
    let low = listed.take(place);
    let high = listed.skip(place);
    assert(listed =~= low + high);
    assert(after =~= low.push(session) + high);
    assert forall|k: int| place <= k < listed.len() implies (#[trigger] listed[k]).created_at.before(
        session.created_at,
    ) by {
        if k > place {
            assert(!listed[place].created_at.before(listed[k].created_at));
        }
    }
    assert forall|at: Timestamp| after.filter(created_at(at)) == s.push(session).filter(
        created_at(at),
    ) by {
        let p = created_at(at);
        reveal(Seq::filter);
        assert(s.push(session).drop_last() =~= s);
        assert(low.push(session).drop_last() =~= low);
        Seq::filter_distributes_over_add(low.push(session), high, p);
        Seq::filter_distributes_over_add(low, high, p);
        assert(listed.filter(p) == s.filter(p));
        if p(session) {
            assert forall|k: int| 0 <= k < high.len() implies !p(#[trigger] high[k]) by {
                assert(high[k] == listed[place + k]);
            }
            lemma_filter_none(high, p);
        }
        assert(after.filter(p) =~= s.push(session).filter(p));
    }
    assert forall|i: int, j: int| 0 <= i < j < after.len() implies !(
    #[trigger] after[i]).created_at.before((#[trigger] after[j]).created_at) by {
        if i != place {
            assert(after[i] == listed[if i < place { i } else { i - 1 }]);
        }
        if j != place {
            assert(after[j] == listed[if j < place { j } else { j - 1 }]);
        }
    }
}

/// The sessions of the scope, the newest first.
pub fn list_in_state(state: &StateFile, scope: SessionScope) -> (r: Vec<SessionRecord>)
    ensures
        is_listing(model::session_views(r@), state@.sessions.filter(in_scope(scope))),
{
    let ghost views = state@.sessions;
    let ghost p = in_scope(scope);
    let mut out: Vec<SessionRecord> = Vec::new();
    let mut i: usize = 0;
    proof {
        reveal(Seq::filter);
        assert(views.take(0).filter(p) =~= Seq::empty());
        assert(model::session_views(out@) =~= Seq::empty());
    }
    while i < state.sessions.len()
        invariant
            i <= state.sessions@.len(),
            views == model::session_views(state.sessions@),
            p == in_scope(scope),
            is_listing(model::session_views(out@), views.take(i as int).filter(p)),
        decreases state.sessions@.len() - i,
    {
        proof {
            reveal(Seq::filter);
            assert(views.take(i + 1).drop_last() =~= views.take(i as int));
            assert(views[i as int] == state.sessions@[i as int]@);
        }
        if session_matches_scope(&state.sessions[i], scope) {
            let session = state.sessions[i].clone();
            let ghost listed = model::session_views(out@);
            let mut place: usize = 0;
            while place < out.len() && !out[place].created_at.is_before(&session.created_at)
                invariant
                    place <= out@.len(),
                    listed == model::session_views(out@),
                    forall|k: int|
                        0 <= k < place ==> !(#[trigger] listed[k]).created_at.before(
                            session.created_at,
                        ),
                decreases out@.len() - place,
            {
                assert(listed[place as int] == out@[place as int]@);
                place = place + 1;
            }
            proof {
                if place < out@.len() {
                    assert(listed[place as int] == out@[place as int]@);
                }
                lemma_listing_insert(
                    listed,
                    views.take(i as int).filter(p),
                    place as int,
                    session@,
                );
            }
            out.insert(place, session);
            assert(model::session_views(out@) =~= listed.insert(place as int, session@));
        }
        i = i + 1;
    }
    proof {
        assert(views.take(i as int) =~= views);
    }
    out
}

} // verus!
