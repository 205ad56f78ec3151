//! Paths as text: joining them and taking them apart, with slashes between
//! their parts.

use vstd::prelude::*;

use crate::text;
use crate::text::{Separator, chars_of, push_text, same_text, split_fields};

verus! {

/// Whether a path starts at the root.
pub open spec fn path_is_absolute(path: Seq<char>) -> bool {
    path.len() > 0 && path[0] == '/'
}

/// `tail` taken relative to `base`. An absolute `tail` stands for itself.
pub open spec fn path_join(base: Seq<char>, tail: Seq<char>) -> Seq<char> {
    if path_is_absolute(tail) {
        tail
    } else if base.len() == 0 || base.last() == '/' {
        base + tail
    } else {
        base.push('/') + tail
    }
}

/// The parts of a path that matter when it is compared: a slash where it is
/// absolute, else a dot where it starts with one, then each name. Repeated
/// slashes, a slash at the end and the dots further on are left out.
pub open spec fn path_components(path: Seq<char>) -> Seq<Seq<char>> {
    path_lead(path) + path_names(path)
}

/// What stands before the names of a path.
pub open spec fn path_lead(path: Seq<char>) -> Seq<Seq<char>> {
    if path_is_absolute(path) {
        seq!["/"@]
    } else if path.len() > 0 && text::fields(path, Separator::Slash)[0] == "."@ {
        seq!["."@]
    } else {
        Seq::empty()
    }
}

/// The names in a path: what stands between its slashes, without the dots.
pub open spec fn path_names(path: Seq<char>) -> Seq<Seq<char>> {
    text::fields(path, Separator::Slash).filter(|part: Seq<char>| part != "."@)
}

/// Whether `base` is `path` itself or one of the directories above it.
pub open spec fn path_within(path: Seq<char>, base: Seq<char>) -> bool {
    path_components(base).is_prefix_of(path_components(path))
}

/// Whether a path starts at the root.
pub fn is_absolute(path: &str) -> (r: bool)
    ensures
        r == path_is_absolute(path@),
{
    let chars = chars_of(path);
    chars.len() > 0 && chars[0] == '/'
}

/// `tail` taken relative to `base`. An absolute `tail` stands for itself.
pub fn join(base: &str, tail: &str) -> (r: String)
    ensures
        r@ == path_join(base@, tail@),
{
    if is_absolute(tail) {
        return tail.to_owned();
    }
    let chars = chars_of(base);
    let mut out = base.to_owned();
    if chars.len() > 0 && chars[chars.len() - 1] != '/' {
        out.push('/');
    }
    push_text(&mut out, tail);
    out
}

fn components(path: &str) -> (r: Vec<String>)
    ensures
        text::texts(r@) == path_components(path@),
{
    let parts = split_fields(path, Separator::Slash);
    let ghost all = text::fields(path@, Separator::Slash);
    let ghost keep = |part: Seq<char>| part != "."@;
    let mut out: Vec<String> = Vec::new();
    if is_absolute(path) {
        out.push("/".to_owned());
    } else if parts.len() > 0 && same_text(parts[0].as_str(), ".") {
        proof {
            assert(text::texts(parts@)[0] == parts@[0]@);
        }
        out.push(".".to_owned());
    } else {
        proof {
            if parts@.len() > 0 {
                assert(text::texts(parts@)[0] == parts@[0]@);
            } else if path@.len() > 0 {
                assert(text::texts(parts@).len() == 0);
                lemma_no_fields(path@);
            }
        }
    }
    let ghost lead = path_lead(path@);
    proof {
        assert(text::texts(out@) =~= lead);
        reveal(Seq::filter);
        assert(all.take(0).filter(keep) =~= Seq::empty());
        assert(text::texts(out@) =~= lead + all.take(0).filter(keep));
    }
    let mut i: usize = 0;
    while i < parts.len()
        invariant
            i <= parts@.len(),
            text::texts(parts@) == all,
            keep == (|part: Seq<char>| part != "."@),
            text::texts(out@) == lead + all.take(i as int).filter(keep),
        decreases parts@.len() - i,
    {
        let ghost before = out@;
        proof {
            reveal(Seq::filter);
            assert(all.take(i + 1).drop_last() =~= all.take(i as int));
            assert(all[i as int] == parts@[i as int]@);
        }
        if !same_text(parts[i].as_str(), ".") {
            out.push(parts[i].clone());
            proof {
                assert(text::texts(out@) =~= text::texts(before).push(all[i as int]));
                assert(text::texts(out@) =~= lead + all.take(i + 1).filter(keep));
            }
        }
        i = i + 1;
    }
    proof {
        assert(all.take(i as int) =~= all);
    }
    out
}

/// A path with no parts is made of slashes.
proof fn lemma_no_fields(path: Seq<char>)
    requires
        path.len() > 0,
        text::fields(path, Separator::Slash).len() == 0,
    ensures
        path[0] == '/',
{
}

/// Whether `base` is `path` itself or one of the directories above it.
pub fn starts_with(path: &str, base: &str) -> (r: bool)
    ensures
        r == path_within(path@, base@),
{
    let p = components(path);
    let b = components(base);
    proof {
        assert(text::texts(p@).len() == p@.len());
        assert(text::texts(b@).len() == b@.len());
    }
    if b.len() > p.len() {
        return false;
    }
    let mut i: usize = 0;
    while i < b.len()
        invariant
            i <= b@.len() <= p@.len(),
            text::texts(p@) == path_components(path@),
            text::texts(b@) == path_components(base@),
            forall|k: int| 0 <= k < i ==> #[trigger] text::texts(p@)[k] == text::texts(b@)[k],
        decreases b@.len() - i,
    {
        proof {
            assert(text::texts(p@)[i as int] == p@[i as int]@);
            assert(text::texts(b@)[i as int] == b@[i as int]@);
        }
        if !same_text(p[i].as_str(), b[i].as_str()) {
            proof {
                if path_within(path@, base@) {
                    assert(text::texts(b@)[i as int] == text::texts(p@).subrange(0, b@.len() as int)[i as int]);
                }
            }
            return false;
        }
        i = i + 1;
    }
    proof {
        assert(text::texts(b@) =~= text::texts(p@).subrange(0, b@.len() as int));
    }
    true
}

/// A path that is joined to a directory from below lies within it.
pub proof fn joined_path_lies_within_base(base: Seq<char>, tail: Seq<char>)
    requires
        !path_is_absolute(tail),
    ensures
        path_within(path_join(base, tail), base),
{
    if base.len() > 0 {
        lemma_join_components(base, tail);
        assert(path_components(base) =~= path_components(path_join(base, tail)).subrange(
            0,
            path_components(base).len() as int,
        ));
    } else {
        assert(text::fields(base, Separator::Slash) =~= Seq::empty());
        reveal(Seq::filter);
        assert(path_components(base) =~= Seq::empty());
        assert(path_components(base) =~= path_components(path_join(base, tail)).subrange(0, 0));
    }
}

/// A directory lies within itself, also where it is written with a dot behind it.
pub proof fn directory_lies_within_its_dot(dir: Seq<char>)
    requires
        dir.len() > 0,
    ensures
        path_within(dir, dir),
        path_within(dir, path_join(dir, "."@)),
{
    let all = path_components(dir);
    assert(all =~= all.subrange(0, all.len() as int));
    reveal_strlit(".");
    lemma_join_components(dir, "."@);
    let dot = "."@;
    assert(dot =~= seq!['.']);
    assert(text::field_len(dot, Separator::Slash) == 1) by {
        reveal_with_fuel(text::field_len, 2);
    }
    assert(dot.take(1) =~= dot);
    assert(dot.skip(1) =~= Seq::empty());
    reveal_with_fuel(text::fields, 2);
    assert(text::fields(dot, Separator::Slash) =~= seq![dot]);
    reveal(Seq::filter);
    assert(seq![dot].drop_last() =~= Seq::empty());
    assert(path_names(dot) =~= Seq::empty());
    assert(path_components(path_join(dir, dot)) =~= all);
}

/// A path that is joined to a directory stands at the end of the result.
pub proof fn lemma_join_ends_with_tail(base: Seq<char>, tail: Seq<char>)
    ensures
        path_join(base, tail).len() >= tail.len(),
        path_join(base, tail).skip(path_join(base, tail).len() - tail.len()) == tail,
{
    let whole = path_join(base, tail);
    assert(whole.skip(whole.len() - tail.len()) =~= tail);
}

proof fn lemma_join_components(base: Seq<char>, tail: Seq<char>)
    requires
        base.len() > 0,
        !path_is_absolute(tail),
    ensures
        path_components(path_join(base, tail)) == path_components(base) + path_names(tail),
{
    let whole = path_join(base, tail);
    let keep = |part: Seq<char>| part != "."@;
    let f = text::fields(base, Separator::Slash);
    let g = text::fields(tail, Separator::Slash);
    assert(text::fields(whole, Separator::Slash) == f + g) by {
        if base.last() == '/' {
            let stem = base.drop_last();
            assert(base =~= stem.push('/') + Seq::empty());
            assert(whole =~= stem.push('/') + tail);
            text::lemma_fields_concat(stem, '/', Seq::empty(), Separator::Slash);
            text::lemma_fields_concat(stem, '/', tail, Separator::Slash);
            assert(text::fields(Seq::<char>::empty(), Separator::Slash) =~= Seq::empty());
            assert(f =~= text::fields(stem, Separator::Slash));
        } else {
            text::lemma_fields_concat(base, '/', tail, Separator::Slash);
        }
    }
    Seq::filter_distributes_over_add(f, g, keep);
    assert(whole[0] == base[0]);
    if !path_is_absolute(base) {
        assert(f.len() > 0);
        assert((f + g)[0] == f[0]);
    }
    assert(path_components(whole) =~= path_components(base) + path_names(tail));
}

} // verus!
