//! The status bar of an attached client.

use vstd::prelude::*;

use crate::model;
use crate::model::{
    FsGrant, GrantView, NetworkMode, SandboxSpec, SandboxView, SessionRecord, SessionView,
};
use crate::text::{joined, joined3, push_text};

verus! {

/// A grant in the words of the command line.
pub open spec fn grant_words(grant: GrantView) -> Seq<char> {
    match grant {
        GrantView::Full => "full"@,
        GrantView::ReadOnly(place) => "ro:"@ + place,
        GrantView::ReadWrite(place) => "rw:"@ + place,
    }
}

/// A list of grants with commas between them.
pub open spec fn grant_list(fs: Seq<GrantView>) -> Seq<char>
    decreases fs.len(),
{
    if fs.len() == 0 {
        Seq::empty()
    } else if fs.len() == 1 {
        grant_words(fs[0])
    } else {
        grant_list(fs.drop_last()) + ","@ + grant_words(fs.last())
    }
}

/// The network mode in the words of the command line.
pub open spec fn net_words(net: NetworkMode) -> Seq<char> {
    if net == NetworkMode::On {
        "on"@
    } else {
        "off"@
    }
}

/// A sandbox in the words of the command line.
pub open spec fn sandbox_words(sandbox: SandboxView) -> Seq<char> {
    "fs:"@ + grant_list(sandbox.fs) + " net:"@ + net_words(sandbox.net)
}

/// What the status bar shows: the session, how to detach from it, and its sandbox.
pub open spec fn status_words(s: SessionView, detach_key: Seq<char>) -> Seq<char> {
    "tmuy "@ + s.short_ref() + " | detach "@ + detach_key + " | sandbox "@ + sandbox_words(s.sandbox)
}

fn grant_text(grant: &FsGrant) -> (r: String)
    ensures
        r@ == grant_words(grant@),
{
    match grant {
        FsGrant::Full => "full".to_owned(),
        FsGrant::ReadOnly(place) => joined("ro:", place.as_str()),
        FsGrant::ReadWrite(place) => joined("rw:", place.as_str()),
    }
}

/// A sandbox in the words of the command line.
pub fn sandbox_text(sandbox: &SandboxSpec) -> (r: String)
    ensures
        r@ == sandbox_words(sandbox@),
{
    let ghost fs = model::grants(sandbox.fs@);
    let mut list = String::new();
    let mut i: usize = 0;
    assert(fs.take(0) =~= Seq::empty());
    while i < sandbox.fs.len()
        invariant
            i <= sandbox.fs@.len(),
            fs == model::grants(sandbox.fs@),
            list@ == grant_list(fs.take(i as int)),
        decreases sandbox.fs@.len() - i,
    {
        proof {
            assert(fs.take(i + 1).drop_last() =~= fs.take(i as int));
            assert(fs.take(i + 1).last() == fs[i as int]);
            assert(fs[i as int] == sandbox.fs@[i as int]@);
        }
        if i > 0 {
            push_text(&mut list, ",");
        }
        push_text(&mut list, grant_text(&sandbox.fs[i]).as_str());
        assert(list@ =~= grant_list(fs.take(i + 1)));
        i = i + 1;
    }
    assert(fs.take(i as int) =~= fs);
    let mut out = joined3("fs:", list.as_str(), " net:");
    match sandbox.net {
        NetworkMode::On => push_text(&mut out, "on"),
        NetworkMode::Off => push_text(&mut out, "off"),
    }
    out
}

/// What the status bar of a client that is attached to the session shows.
pub fn status_line(session: &SessionRecord, detach_key: &str) -> (r: String)
    ensures
        r@ == status_words(session@, detach_key@),
{
    let mut out = joined3("tmuy ", session.short_ref().as_str(), " | detach ");
    push_text(&mut out, detach_key);
    push_text(&mut out, " | sandbox ");
    push_text(&mut out, sandbox_text(&session.sandbox).as_str());
    out
}

} // verus!
