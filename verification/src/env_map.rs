//! The environment of a session: variables and their values, sorted by name.

use vstd::prelude::*;

use crate::text;
use crate::text::{same_text, text_before};

verus! {

/// The names and values of a list of variables.
pub open spec fn pair_texts(v: Seq<(String, String)>) -> Seq<(Seq<char>, Seq<char>)> {
    v.map_values(|p: (String, String)| (p.0@, p.1@))
}

/// Whether each name comes before the names behind it, so that none occurs twice.
pub open spec fn sorted_by_name(v: Seq<(Seq<char>, Seq<char>)>) -> bool {
    forall|i: int, j: int|
        0 <= i < j < v.len() ==> text::text_lt(#[trigger] v[i].0, #[trigger] v[j].0)
}

/// A place at which the name `k` stands in a list of variables.
pub open spec fn place_of(v: Seq<(Seq<char>, Seq<char>)>, k: Seq<char>) -> int {
    choose|i: int| 0 <= i < v.len() && #[trigger] v[i].0 == k
}

/// The map that a list of variables stands for.
pub open spec fn env_of(v: Seq<(Seq<char>, Seq<char>)>) -> Map<Seq<char>, Seq<char>> {
    Map::new(
        |k: Seq<char>| exists|i: int| 0 <= i < v.len() && #[trigger] v[i].0 == k,
        |k: Seq<char>| v[place_of(v, k)].1,
    )
}

/// Environment variables, each name once and in the order of the names.
#[derive(Debug)]
pub struct EnvMap {
    entries: Vec<(String, String)>,
}

impl View for EnvMap {
    type V = Map<Seq<char>, Seq<char>>;

    closed spec fn view(&self) -> Map<Seq<char>, Seq<char>> {
        env_of(pair_texts(self.entries@))
    }
}

impl EnvMap {
    #[verifier::type_invariant]
    spec fn sorted(self) -> bool {
        sorted_by_name(pair_texts(self.entries@))
    }

    /// An environment without variables.
    pub fn new() -> (r: EnvMap)
        ensures
            r@ == Map::<Seq<char>, Seq<char>>::empty(),
    {
        let r = EnvMap { entries: Vec::new() };
        assert(r@ =~= Map::<Seq<char>, Seq<char>>::empty());
        r
    }

    /// The variables in the order of their names.
    pub fn entries(&self) -> (r: &Vec<(String, String)>)
        ensures
            sorted_by_name(pair_texts(r@)),
            env_of(pair_texts(r@)) == self@,
    {
        proof {
            use_type_invariant(self);
        }
        &self.entries
    }

    /// The value of the variable `name`.
    pub fn get(&self, name: &str) -> (r: Option<&String>)
        ensures
            match r {
                Some(value) => self@.contains_key(name@) && self@[name@] == value@,
                None => !self@.contains_key(name@),
            },
    {
        proof {
            use_type_invariant(self);
        }
        let ghost pairs = pair_texts(self.entries@);
        let mut i: usize = 0;
        while i < self.entries.len()
            invariant
                i <= self.entries@.len(),
                pairs == pair_texts(self.entries@),
                sorted_by_name(pairs),
                forall|k: int| 0 <= k < i ==> #[trigger] pairs[k].0 != name@,
            decreases self.entries@.len() - i,
        {
            assert(pairs[i as int] == (self.entries@[i as int].0@, self.entries@[i as int].1@));
            if same_text(self.entries[i].0.as_str(), name) {
                proof {
                    lemma_env_at(pairs, i as int);
                }
                return Some(&self.entries[i].1);
            }
            i = i + 1;
        }
        None
    }

    /// The environment with the variable `name` set to `value`.
    pub fn insert(self, name: &str, value: &str) -> (r: EnvMap)
        ensures
            r@ == self@.insert(name@, value@),
    {
        proof {
            use_type_invariant(&self);
        }
        let ghost pairs = pair_texts(self.entries@);
        let mut entries = self.entries;
        let mut i: usize = 0;
        while i < entries.len() && text_before(entries[i].0.as_str(), name)
            invariant
                i <= entries@.len(),
                pairs == pair_texts(entries@),
                forall|k: int| 0 <= k < i ==> text::text_lt(#[trigger] pairs[k].0, name@),
            decreases entries@.len() - i,
        {
            assert(pairs[i as int].0 == entries@[i as int].0@);
            i = i + 1;
        }
        if i < entries.len() && same_text(entries[i].0.as_str(), name) {
            assert(pairs[i as int].0 == entries@[i as int].0@);
            entries.set(i, (name.to_owned(), value.to_owned()));
            proof {
                let after = pair_texts(entries@);
                assert(after =~= pairs.update(i as int, (name@, value@)));
                lemma_env_update(pairs, i as int, name@, value@);
            }
        } else {
            proof {
                if i < entries@.len() {
                    assert(pairs[i as int].0 == entries@[i as int].0@);
                    text::lemma_text_lt_total(pairs[i as int].0, name@);
                }
            }
            entries.insert(i, (name.to_owned(), value.to_owned()));
            proof {
                let after = pair_texts(entries@);
                assert(after =~= pairs.insert(i as int, (name@, value@)));
                lemma_env_insert(pairs, i as int, name@, value@);
            }
        }
        EnvMap { entries }
    }
}

impl Clone for EnvMap {
    fn clone(&self) -> (r: EnvMap)
        ensures
            r@ == self@,
    {
        proof {
            use_type_invariant(self);
        }
        let mut entries: Vec<(String, String)> = Vec::new();
        let mut i: usize = 0;
        while i < self.entries.len()
            invariant
                i <= self.entries@.len(),
                pair_texts(entries@) == pair_texts(self.entries@).take(i as int),
            decreases self.entries@.len() - i,
        {
            let ghost before = entries@;
            let name = self.entries[i].0.clone();
            let value = self.entries[i].1.clone();
            entries.push((name, value));
            proof {
                let whole = pair_texts(self.entries@);
                assert(whole[i as int] == (name@, value@));
                assert(pair_texts(entries@) =~= pair_texts(before).push((name@, value@)));
                assert(whole.take(i + 1) =~= whole.take(i as int).push(whole[i as int]));
            }
            i = i + 1;
        }
        assert(pair_texts(entries@) =~= pair_texts(self.entries@));
        EnvMap { entries }
    }
}

/// In a sorted list a name stands in one place, and the map holds its value.
pub proof fn lemma_env_at(v: Seq<(Seq<char>, Seq<char>)>, i: int)
    requires
        sorted_by_name(v),
        0 <= i < v.len(),
    ensures
        env_of(v).contains_key(v[i].0),
        env_of(v)[v[i].0] == v[i].1,
{
    let k = v[i].0;
    let j = place_of(v, k);
    assert(0 <= j < v.len() && v[j].0 == k);
    text::lemma_text_lt_irreflexive(k);
    assert(j == i);
}

/// What the map holds of a name is a pair of the list.
proof fn lemma_env_has(v: Seq<(Seq<char>, Seq<char>)>, k: Seq<char>)
    requires
        env_of(v).contains_key(k),
    ensures
        v.contains((k, env_of(v)[k])),
{
    let j = place_of(v, k);
    assert(0 <= j < v.len() && v[j].0 == k);
    assert(v[j] == (k, env_of(v)[k]));
}

/// A pair of a sorted list is in its map.
proof fn lemma_env_holds(v: Seq<(Seq<char>, Seq<char>)>, p: (Seq<char>, Seq<char>))
    requires
        sorted_by_name(v),
        v.contains(p),
    ensures
        env_of(v).contains_key(p.0),
        env_of(v)[p.0] == p.1,
{
    let i = choose|i: int| 0 <= i < v.len() && v[i] == p;
    lemma_env_at(v, i);
}

/// Two sorted lists that differ in the variable `name` alone.
proof fn lemma_same_env(
    v: Seq<(Seq<char>, Seq<char>)>,
    w: Seq<(Seq<char>, Seq<char>)>,
    name: Seq<char>,
    value: Seq<char>,
)
    requires
        sorted_by_name(v),
        sorted_by_name(w),
        w.contains((name, value)),
        forall|p: (Seq<char>, Seq<char>)|
            p.0 != name && #[trigger] v.contains(p) ==> w.contains(p),
        forall|p: (Seq<char>, Seq<char>)|
            p.0 != name && #[trigger] w.contains(p) ==> v.contains(p),
    ensures
        env_of(w) == env_of(v).insert(name, value),
{
    let e = env_of(v).insert(name, value);
    assert forall|k: Seq<char>| #[trigger] env_of(w).contains_key(k) implies e.contains_key(k)
        && env_of(w)[k] == e[k] by {
        lemma_env_has(w, k);
        if k == name {
            lemma_env_holds(w, (name, value));
        } else {
            lemma_env_holds(v, (k, env_of(w)[k]));
        }
    }
    assert forall|k: Seq<char>| #[trigger] e.contains_key(k) implies env_of(w).contains_key(k) by {
        if k == name {
            lemma_env_holds(w, (name, value));
        } else {
            lemma_env_has(v, k);
            lemma_env_holds(w, (k, env_of(v)[k]));
        }
    }
    assert(env_of(w) =~= e);
}

proof fn lemma_env_update(
    v: Seq<(Seq<char>, Seq<char>)>,
    i: int,
    name: Seq<char>,
    value: Seq<char>,
)
    requires
        sorted_by_name(v),
        0 <= i < v.len(),
        v[i].0 == name,
    ensures
        sorted_by_name(v.update(i, (name, value))),
        env_of(v.update(i, (name, value))) == env_of(v).insert(name, value),
{
    let w = v.update(i, (name, value));
    assert forall|a: int, b: int| 0 <= a < b < w.len() implies text::text_lt(
        #[trigger] w[a].0,
        #[trigger] w[b].0,
    ) by {
        assert(w[a].0 == v[a].0);
        assert(w[b].0 == v[b].0);
    }
    assert(w[i] == (name, value));
    assert forall|p: (Seq<char>, Seq<char>)| p.0 != name && #[trigger] v.contains(p) implies w.contains(
        p,
    ) by {
        let k = choose|k: int| 0 <= k < v.len() && v[k] == p;
        assert(w[k] == p);
    }
    assert forall|p: (Seq<char>, Seq<char>)| p.0 != name && #[trigger] w.contains(p) implies v.contains(
        p,
    ) by {
        let k = choose|k: int| 0 <= k < w.len() && w[k] == p;
        assert(v[k] == p);
    }
    lemma_same_env(v, w, name, value);
}

/// A variable behind all others of a sorted list is set in its map.
pub proof fn lemma_env_push(v: Seq<(Seq<char>, Seq<char>)>, name: Seq<char>, value: Seq<char>)
    requires
        sorted_by_name(v.push((name, value))),
    ensures
        env_of(v.push((name, value))) == env_of(v).insert(name, value),
{
    let w = v.push((name, value));
    assert forall|i: int, j: int| 0 <= i < j < v.len() implies text::text_lt(
        #[trigger] v[i].0,
        #[trigger] v[j].0,
    ) by {
        assert(w[i] == v[i] && w[j] == v[j]);
    }
    assert forall|k: int| 0 <= k < v.len() implies text::text_lt(#[trigger] v[k].0, name) by {
        let last = v.len() as int;
        assert(w[k].0 == v[k].0 && w[last].0 == name);
        assert(text::text_lt(w[k].0, w[last].0));
    }
    lemma_env_insert(v, v.len() as int, name, value);
    assert(v.insert(v.len() as int, (name, value)) =~= w);
}

proof fn lemma_env_insert(
    v: Seq<(Seq<char>, Seq<char>)>,
    i: int,
    name: Seq<char>,
    value: Seq<char>,
)
    requires
        sorted_by_name(v),
        0 <= i <= v.len(),
        forall|k: int| 0 <= k < i ==> text::text_lt(#[trigger] v[k].0, name),
        i < v.len() ==> text::text_lt(name, v[i].0),
    ensures
        sorted_by_name(v.insert(i, (name, value))),
        env_of(v.insert(i, (name, value))) == env_of(v).insert(name, value),
{
    let w = v.insert(i, (name, value));
    assert forall|k: int| i <= k < v.len() implies text::text_lt(name, #[trigger] v[k].0) by {
        if k > i {
            text::lemma_text_lt_transitive(name, v[i].0, v[k].0);
        }
    }
    assert forall|a: int, b: int| 0 <= a < b < w.len() implies text::text_lt(
        #[trigger] w[a].0,
        #[trigger] w[b].0,
    ) by {
        if a != i {
            assert(w[a] == v[if a < i { a } else { a - 1 }]);
        }
        if b != i {
            assert(w[b] == v[if b < i { b } else { b - 1 }]);
        }
    }
    assert(w[i] == (name, value));
    assert forall|p: (Seq<char>, Seq<char>)| p.0 != name && #[trigger] v.contains(p) implies w.contains(
        p,
    ) by {
        let k = choose|k: int| 0 <= k < v.len() && v[k] == p;
        assert(w[if k < i { k } else { k + 1 }] == p);
    }
    assert forall|p: (Seq<char>, Seq<char>)| p.0 != name && #[trigger] w.contains(p) implies v.contains(
        p,
    ) by {
        let k = choose|k: int| 0 <= k < w.len() && w[k] == p;
        assert(v[if k < i { k } else { k - 1 }] == p);
    }
    lemma_same_env(v, w, name, value);
}

} // verus!
