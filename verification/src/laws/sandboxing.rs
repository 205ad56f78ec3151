//! What holds of sandboxes: what is asked for with the flags, and what the
//! command line of a session then shows and shares.

use vstd::prelude::*;

use crate::error::ErrorView;
use crate::model;
use crate::model::{CivilDate, GrantView, NetworkMode, SandboxView, SessionView, Timestamp};
use crate::outside;
use crate::path;
use crate::request;
use crate::request::OrderView;
use crate::sandbox;
use crate::sandbox::Bind;
use crate::store;
use crate::text;
use crate::text::Separator;

verus! {

/// The grants for reading, in their order.
pub open spec fn read_places(fs: Seq<GrantView>) -> Seq<GrantView> {
    fs.filter(|g: GrantView| g is ReadOnly)
}

/// The grants for writing, in their order.
pub open spec fn write_places(fs: Seq<GrantView>) -> Seq<GrantView> {
    fs.filter(|g: GrantView| g is ReadWrite)
}

/// What is shown for the grants for reading is one bind for each, in their
/// order, of the granted place and for reading; and likewise for writing.
pub proof fn each_grant_is_shown_once(fs: Seq<GrantView>)
    ensures
        sandbox::granted_binds(fs, true).len() == read_places(fs).len(),
        forall|i: int|
            0 <= i < read_places(fs).len() ==> #[trigger] sandbox::granted_binds(fs, true)[i] == (
            Bind { flag: "--ro-bind"@, place: read_places(fs)[i]->ReadOnly_0 }),
        sandbox::granted_binds(fs, false).len() == write_places(fs).len(),
        forall|i: int|
            0 <= i < write_places(fs).len() ==> #[trigger] sandbox::granted_binds(fs, false)[i]
                == (Bind { flag: "--bind"@, place: write_places(fs)[i]->ReadWrite_0 }),
    decreases fs.len(),
{
    reveal(Seq::filter);
    if fs.len() > 0 {
        each_grant_is_shown_once(fs.drop_last());
    }
}

/// Every grant is shown: each path that may be read by a bind for reading, each
/// that may be written by a bind for writing, and each system directory.
pub proof fn every_grant_is_shown(fs: Seq<GrantView>, i: int)
    requires
        0 <= i < fs.len(),
    ensures
        fs[i] is ReadOnly ==> sandbox::restricted_binds(fs).contains(
            Bind { flag: "--ro-bind"@, place: fs[i]->ReadOnly_0 },
        ),
        fs[i] is ReadWrite ==> sandbox::restricted_binds(fs).contains(
            Bind { flag: "--bind"@, place: fs[i]->ReadWrite_0 },
        ),
{
    lemma_shown(fs, i);
    let s = sandbox::system_binds();
    let r = sandbox::granted_binds(fs, true);
    let w = sandbox::granted_binds(fs, false);
    if fs[i] is ReadOnly {
        let bind = Bind { flag: "--ro-bind"@, place: fs[i]->ReadOnly_0 };
        let k = choose|k: int| 0 <= k < r.len() && r[k] == bind;
        assert(sandbox::restricted_binds(fs)[s.len() + k] == bind);
    }
    if fs[i] is ReadWrite {
        let bind = Bind { flag: "--bind"@, place: fs[i]->ReadWrite_0 };
        let k = choose|k: int| 0 <= k < w.len() && w[k] == bind;
        assert(sandbox::restricted_binds(fs)[s.len() + r.len() + k] == bind);
    }
}

proof fn lemma_shown(fs: Seq<GrantView>, i: int)
    requires
        0 <= i < fs.len(),
    ensures
        fs[i] is ReadOnly ==> sandbox::granted_binds(fs, true).contains(
            Bind { flag: "--ro-bind"@, place: fs[i]->ReadOnly_0 },
        ),
        fs[i] is ReadWrite ==> sandbox::granted_binds(fs, false).contains(
            Bind { flag: "--bind"@, place: fs[i]->ReadWrite_0 },
        ),
    decreases fs.len(),
{
    let rest = fs.drop_last();
    let r = sandbox::granted_binds(fs, true);
    let w = sandbox::granted_binds(fs, false);
    if i == fs.len() - 1 {
        if fs[i] is ReadOnly {
            assert(r[r.len() - 1] == (Bind { flag: "--ro-bind"@, place: fs[i]->ReadOnly_0 }));
        }
        if fs[i] is ReadWrite {
            assert(w[w.len() - 1] == (Bind { flag: "--bind"@, place: fs[i]->ReadWrite_0 }));
        }
    } else {
        lemma_shown(rest, i);
        if fs[i] is ReadOnly {
            let bind = Bind { flag: "--ro-bind"@, place: fs[i]->ReadOnly_0 };
            let before = sandbox::granted_binds(rest, true);
            let k = choose|k: int| 0 <= k < before.len() && before[k] == bind;
            assert(r[k] == bind);
        }
        if fs[i] is ReadWrite {
            let bind = Bind { flag: "--bind"@, place: fs[i]->ReadWrite_0 };
            let before = sandbox::granted_binds(rest, false);
            let k = choose|k: int| 0 <= k < before.len() && before[k] == bind;
            assert(w[k] == bind);
        }
    }
}

/// A restricted sandbox shows first the eight system directories, for reading
/// only, then what may be read, then what may be written, so that a grant for
/// writing is not hidden by one for reading.
pub proof fn binds_come_in_order(fs: Seq<GrantView>)
    ensures
        ({
            let all = sandbox::restricted_binds(fs);
            let r = read_places(fs).len() as int;
            let w = write_places(fs).len() as int;
            &&& all.len() == 8 + r + w
            &&& all[0] == (Bind { flag: "--ro-bind"@, place: "/bin"@ })
            &&& all[1] == (Bind { flag: "--ro-bind"@, place: "/usr"@ })
            &&& all[2] == (Bind { flag: "--ro-bind-try"@, place: "/sbin"@ })
            &&& all[3] == (Bind { flag: "--ro-bind-try"@, place: "/lib"@ })
            &&& all[4] == (Bind { flag: "--ro-bind-try"@, place: "/lib64"@ })
            &&& all[5] == (Bind { flag: "--ro-bind-try"@, place: "/etc"@ })
            &&& all[6] == (Bind { flag: "--ro-bind-try"@, place: "/opt"@ })
            &&& all[7] == (Bind { flag: "--ro-bind-try"@, place: "/run"@ })
            &&& forall|i: int|
                0 <= i < r ==> (#[trigger] all[8 + i]) == (Bind {
                    flag: "--ro-bind"@,
                    place: read_places(fs)[i]->ReadOnly_0,
                })
            &&& forall|i: int|
                0 <= i < w ==> (#[trigger] all[8 + r + i]) == (Bind {
                    flag: "--bind"@,
                    place: write_places(fs)[i]->ReadWrite_0,
                })
        }),
{
    each_grant_is_shown_once(fs);
    let all = sandbox::restricted_binds(fs);
    let r = read_places(fs).len() as int;
    assert forall|i: int| 0 <= i < r implies (#[trigger] all[8 + i]) == (Bind {
        flag: "--ro-bind"@,
        place: read_places(fs)[i]->ReadOnly_0,
    }) by {
        assert(all[8 + i] == sandbox::granted_binds(fs, true)[i]);
    }
    assert forall|i: int| 0 <= i < write_places(fs).len() implies (#[trigger] all[8 + r + i]) == (
    Bind { flag: "--bind"@, place: write_places(fs)[i]->ReadWrite_0 }) by {
        assert(all[8 + r + i] == sandbox::granted_binds(fs, false)[i]);
    }
}

/// The arguments for a list of binds are three for each, in order: how it is
/// shown, what, and under which name, which is its own.
pub proof fn binds_are_written_in_threes(binds: Seq<Bind>)
    ensures
        sandbox::bind_args(binds).len() == 3 * binds.len(),
        forall|i: int|
            #![trigger binds[i]]
            0 <= i < binds.len() ==> sandbox::bind_args(binds)[3 * i] == binds[i].flag
                && sandbox::bind_args(binds)[3 * i + 1] == binds[i].place && sandbox::bind_args(
                binds,
            )[3 * i + 2] == binds[i].place,
    decreases binds.len(),
{
    if binds.len() > 0 {
        let rest = binds.drop_last();
        binds_are_written_in_threes(rest);
        assert forall|i: int|
            #![trigger binds[i]]
            0 <= i < binds.len() implies sandbox::bind_args(binds)[3 * i] == binds[i].flag
            && sandbox::bind_args(binds)[3 * i + 1] == binds[i].place && sandbox::bind_args(
            binds,
        )[3 * i + 2] == binds[i].place by {
            if i < rest.len() {
                assert(rest[i] == binds[i]);
            }
        }
    }
}

/// The command line of a restricted session ends in its command, behind `--`,
/// and starts with `bwrap`; what stands between shares nothing but the network
/// where that is on, and shows what is granted.
pub proof fn restricted_sessions_run_in_the_sandbox(s: SessionView)
    requires
        s.command.len() > 0,
        s.sandbox.fs != seq![GrantView::Full],
        sandbox::cwd_is_covered(s.sandbox.fs, s.cwd),
    ensures
        ({
            let args = sandbox::sandboxed_args(s);
            let head = if s.sandbox.net == NetworkMode::On {
                seq![
                    "bwrap"@,
                    "--new-session"@,
                    "--die-with-parent"@,
                    "--unshare-all"@,
                    "--share-net"@,
                ]
            } else {
                seq!["bwrap"@, "--new-session"@, "--die-with-parent"@, "--unshare-all"@]
            };
            let shown = seq!["--proc"@, "/proc"@, "--dev"@, "/dev"@, "--tmpfs"@, "/tmp"@]
                + sandbox::bind_args(sandbox::restricted_binds(s.sandbox.fs));
            &&& args is Ok
            &&& args->Ok_0 == head + shown + seq!["--chdir"@, s.cwd, "--"@] + s.command
        }),
{
    let args = sandbox::sandboxed_args(s)->Ok_0;
    let net = sandbox::isolation_args(s.sandbox.net);
    let shown = seq!["--proc"@, "/proc"@, "--dev"@, "/dev"@, "--tmpfs"@, "/tmp"@]
        + sandbox::bind_args(sandbox::restricted_binds(s.sandbox.fs));
    if s.sandbox.net == NetworkMode::On {
        assert(net =~= seq![
            "bwrap"@,
            "--new-session"@,
            "--die-with-parent"@,
            "--unshare-all"@,
            "--share-net"@,
        ]);
    }
    assert(args =~= net + shown + seq!["--chdir"@, s.cwd, "--"@] + s.command);
}

/// A session that may use all files but not the network runs in a sandbox that
/// shows everything and shares no network.
pub proof fn sessions_without_network_see_all_files(s: SessionView)
    requires
        s.command.len() > 0,
        s.sandbox.fs == seq![GrantView::Full],
        s.sandbox.net == NetworkMode::Off,
    ensures
        sandbox::session_args(s, true) == Ok::<Seq<Seq<char>>, ErrorView>(
            seq![
                "bwrap"@,
                "--new-session"@,
                "--die-with-parent"@,
                "--unshare-all"@,
                "--dev-bind"@,
                "/"@,
                "/"@,
                "--proc"@,
                "/proc"@,
                "--chdir"@,
                s.cwd,
                "--"@,
            ] + s.command,
        ),
{
    let all = seq![
        "bwrap"@,
        "--new-session"@,
        "--die-with-parent"@,
        "--unshare-all"@,
        "--dev-bind"@,
        "/"@,
        "/"@,
        "--proc"@,
        "/proc"@,
        "--chdir"@,
        s.cwd,
        "--"@,
    ] + s.command;
    assert(sandbox::sandboxed_args(s)->Ok_0 =~= all);
}

/// A sandbox that shows everything shares the network where that is on.
pub proof fn sandboxes_may_show_all_files(s: SessionView)
    requires
        s.command.len() > 0,
        s.sandbox.fs == seq![GrantView::Full],
    ensures
        ({
            let head = seq!["bwrap"@, "--new-session"@, "--die-with-parent"@, "--unshare-all"@];
            let net = if s.sandbox.net == NetworkMode::On {
                seq!["--share-net"@]
            } else {
                Seq::empty()
            };
            let shown = seq!["--dev-bind"@, "/"@, "/"@, "--proc"@, "/proc"@, "--chdir"@, s.cwd];
            sandbox::sandboxed_args(s) == Ok::<Seq<Seq<char>>, ErrorView>(
                head + net + shown + seq!["--"@] + s.command,
            )
        }),
{
    let head = seq!["bwrap"@, "--new-session"@, "--die-with-parent"@, "--unshare-all"@];
    let net = if s.sandbox.net == NetworkMode::On {
        seq!["--share-net"@]
    } else {
        Seq::empty()
    };
    let shown = seq!["--dev-bind"@, "/"@, "/"@, "--proc"@, "/proc"@, "--chdir"@, s.cwd];
    assert(sandbox::isolation_args(s.sandbox.net) =~= head + net);
    assert(sandbox::sandboxed_args(s)->Ok_0 =~= head + net + shown + seq!["--"@] + s.command);
}

/// A session is run as it is where nothing is restricted, in the sandbox on
/// Linux where something is, and elsewhere not at all. Without a command it is
/// not run, nor in a directory that no grant covers.
pub proof fn sessions_run_as_they_are_restricted(s: SessionView, linux: bool)
    ensures
        ({
            let free = s.sandbox.fs == seq![GrantView::Full] && s.sandbox.net == NetworkMode::On;
            let args = sandbox::session_args(s, linux);
            &&& free && s.command.len() > 0 ==> args == Ok::<Seq<Seq<char>>, ErrorView>(s.command)
            &&& free && s.command.len() == 0 ==> args == Err::<Seq<Seq<char>>, ErrorView>(
                ErrorView::NoCommand,
            )
            &&& !free && !linux ==> args == Err::<Seq<Seq<char>>, ErrorView>(
                ErrorView::SandboxNotImplemented,
            )
            &&& !free && linux ==> args == sandbox::sandboxed_args(s)
            &&& s.sandbox.fs != seq![GrantView::Full] && !sandbox::cwd_is_covered(
                s.sandbox.fs,
                s.cwd,
            ) ==> sandbox::sandboxed_args(s) == Err::<Seq<Seq<char>>, ErrorView>(
                ErrorView::CwdNotGranted(s.cwd),
            )
            &&& s.command.len() == 0 && (s.sandbox.fs == seq![GrantView::Full]
                || sandbox::cwd_is_covered(s.sandbox.fs, s.cwd)) ==> sandbox::sandboxed_args(s)
                == Err::<Seq<Seq<char>>, ErrorView>(ErrorView::NoCommand)
        }),
{
    let free = s.sandbox.fs == seq![GrantView::Full] && s.sandbox.net == NetworkMode::On;
    if free {
        assert(s.sandbox =~= model::default_sandbox());
    }
}

/// What was ordered is what runs: a session that was ordered with a command and
/// with flags that grant paths, one of them its directory, runs that command
/// behind `--`, in a sandbox that shows the path of each flag as the flag says,
/// and shares the network unless that was switched off.
pub proof fn ordered_sessions_run_as_ordered(
    order: OrderView,
    base: Seq<char>,
    name: Seq<char>,
    hash: Seq<char>,
    now: Timestamp,
    date: CivilDate,
    i: int,
)
    requires
        order.name is None || store::name_error(order.name->0) is None,
        order.command.len() > 0,
        store::net_mode(order.net) is Some,
        0 <= i < order.fs.len(),
        forall|k: int|
            0 <= k < order.fs.len() ==> (#[trigger] order.fs[k]) != "full"@ && store::path_grant(
                order.fs[k],
                order.cwd,
            ) is Ok,
        sandbox::cwd_is_covered(
            store::sandbox_of(order.fs, order.net, order.cwd)->Ok_0.fs,
            order.cwd,
        ),
    ensures
        ({
            let asked = request::requested(order);
            let s = store::created_session(base, asked->Ok_0, name, hash, now, date);
            let args = sandbox::session_args(s, true);
            let shown = sandbox::restricted_binds(s.sandbox.fs);
            let n = order.command.len() as int;
            &&& asked is Ok
            &&& args is Ok
            &&& args->Ok_0.len() > n
            &&& args->Ok_0.skip(args->Ok_0.len() - n) == order.command
            &&& args->Ok_0[args->Ok_0.len() - n - 1] == "--"@
            &&& args->Ok_0[0] == "bwrap"@
            &&& args->Ok_0[3] == "--unshare-all"@
            &&& args->Ok_0[4] == "--share-net"@ <==> order.net != Some("off"@)
            &&& match store::path_grant(order.fs[i], order.cwd)->Ok_0 {
                GrantView::ReadOnly(place) => shown.contains(
                    Bind { flag: "--ro-bind"@, place },
                ),
                GrantView::ReadWrite(place) => shown.contains(Bind { flag: "--bind"@, place }),
                GrantView::Full => false,
            }
        }),
{
    let asked = request::requested(order)->Ok_0;
    let s = store::created_session(base, asked, name, hash, now, date);
    sandboxes_hold_the_grants_asked_for(order.fs, order.net, order.cwd);
    assert(s.sandbox.fs[i] == store::path_grant(order.fs[i], order.cwd)->Ok_0);
    every_grant_is_shown(s.sandbox.fs, i);
    assert(s.sandbox.fs != seq![GrantView::Full]) by {
        assert(s.sandbox.fs[i] != GrantView::Full);
        assert(seq![GrantView::Full][0] == GrantView::Full);
        assert(seq![GrantView::Full].len() == 1);
    }
    restricted_sessions_run_in_the_sandbox(s);
    sessions_run_as_they_are_restricted(s, true);
    let args = sandbox::session_args(s, true)->Ok_0;
    assert(args.skip(args.len() - order.command.len()) =~= order.command);
    reveal_strlit("--proc");
    reveal_strlit("--share-net");
    assert("--proc"@.len() != "--share-net"@.len());
    if let Some(flag) = order.net {
        the_network_is_on_unless_off(flag);
    }
    reveal_strlit("on");
    reveal_strlit("off");
    assert("on"@.len() != "off"@.len());
}

/// The default sandbox grants everything and has the network on.
pub proof fn the_default_sandbox_restricts_nothing()
    ensures
        model::default_sandbox().fs == seq![GrantView::Full],
        model::default_sandbox().net == NetworkMode::On,
{
}

/// A command is run with its command line, in the directory and with the
/// variables of the session.
pub proof fn commands_run_with_the_session(
    b: portable_pty::CommandBuilder,
    args: Seq<Seq<char>>,
    s: SessionView,
)
    requires
        sandbox::runs(b, args, s),
    ensures
        outside::command_args(b) == args,
        outside::command_cwd(b) == Some(s.cwd),
        outside::command_env(b) == s.env,
{
}

/// A directory is covered exactly where some grant covers it: the grant of
/// everything, or one of a directory that it lies in.
pub proof fn directories_are_covered_by_a_grant(fs: Seq<GrantView>, cwd: Seq<char>)
    ensures
        sandbox::cwd_is_covered(fs, cwd) <==> exists|i: int|
            0 <= i < fs.len() && match #[trigger] fs[i] {
                GrantView::Full => true,
                GrantView::ReadOnly(place) => path::path_within(cwd, place),
                GrantView::ReadWrite(place) => path::path_within(cwd, place),
            },
{
    if sandbox::cwd_is_covered(fs, cwd) {
        let i = choose|i: int| 0 <= i < fs.len() && sandbox::grant_covers(#[trigger] fs[i], cwd);
        assert(sandbox::grant_covers(fs[i], cwd));
    }
    assert forall|i: int|
        0 <= i < fs.len() && match #[trigger] fs[i] {
            GrantView::Full => true,
            GrantView::ReadOnly(place) => path::path_within(cwd, place),
            GrantView::ReadWrite(place) => path::path_within(cwd, place),
        } implies sandbox::cwd_is_covered(fs, cwd) by {
        assert(sandbox::grant_covers(fs[i], cwd));
    }
}

/// A path lies within another where the parts of the other are its first parts.
pub proof fn paths_lie_within_by_their_parts(path: Seq<char>, base: Seq<char>)
    ensures
        path::path_within(path, base) <==> path::path_components(base).len()
            <= path::path_components(path).len() && forall|i: int|
            0 <= i < path::path_components(base).len() ==> #[trigger] path::path_components(
                base,
            )[i] == path::path_components(path)[i],
{
    let a = path::path_components(base);
    let b = path::path_components(path);
    if a.is_prefix_of(b) {
        assert forall|i: int| 0 <= i < a.len() implies #[trigger] a[i] == b[i] by {
            assert(a[i] == b.subrange(0, a.len() as int)[i]);
        }
    } else if a.len() <= b.len() && forall|i: int|
        0 <= i < a.len() ==> #[trigger] a[i] == b[i] {
        assert(a =~= b.subrange(0, a.len() as int));
    }
}

/// The parts of an absolute path are a slash and then its names, those of one
/// that starts with a dot the dot and then its names, those of another its
/// names alone. The names are what stands between the slashes, but for dots.
pub proof fn parts_are_lead_and_names(path: Seq<char>)
    ensures
        ({
            let pieces = text::fields(path, Separator::Slash);
            let names = pieces.filter(|part: Seq<char>| part != "."@);
            &&& path.len() > 0 && path[0] == '/' ==> path::path_components(path) == seq!["/"@]
                + names
            &&& path.len() > 0 && path[0] != '/' && pieces[0] == "."@ ==> path::path_components(
                path,
            ) == seq!["."@] + names
            &&& path.len() > 0 && path[0] != '/' && pieces[0] != "."@ ==> path::path_components(
                path,
            ) == names
            &&& path.len() == 0 ==> path::path_components(path) == Seq::<Seq<char>>::empty()
        }),
{
    let pieces = text::fields(path, Separator::Slash);
    let names = path::path_names(path);
    assert(Seq::<Seq<char>>::empty() + names =~= names);
    if path.len() == 0 {
        reveal(Seq::filter);
        assert(path::path_components(path) =~= Seq::empty());
    }
}

/// A path is joined to a directory with one slash between them; an absolute
/// path stands for itself.
pub proof fn paths_are_joined_with_one_slash(base: Seq<char>, tail: Seq<char>)
    ensures
        tail.len() > 0 && tail[0] == '/' ==> path::path_join(base, tail) == tail,
        (tail.len() == 0 || tail[0] != '/') && base.len() == 0 ==> path::path_join(base, tail)
            == tail,
        (tail.len() == 0 || tail[0] != '/') && base.len() > 0 && base.last() == '/'
            ==> path::path_join(base, tail) == base + tail,
        (tail.len() == 0 || tail[0] != '/') && base.len() > 0 && base.last() != '/'
            ==> path::path_join(base, tail) == base + seq!['/'] + tail,
        path::path_is_absolute(tail) <==> tail.len() > 0 && tail[0] == '/',
{
    if base.len() == 0 {
        assert(base + tail =~= tail);
    }
    assert(base.push('/') =~= base + seq!['/']);
}

/// A flag grants what it names: `ro:` and a path for reading, `rw:` and a path
/// for writing, where the path is taken from the directory. Another word before
/// the first colon is refused, and so is a flag without a colon.
pub proof fn flags_grant_what_they_name(word: Seq<char>, place: Seq<char>, cwd: Seq<char>)
    requires
        !word.contains(':'),
    ensures
        ({
            let flag = word + seq![':'] + place;
            let granted = store::path_grant(flag, cwd);
            &&& word == "ro"@ ==> granted == Ok::<GrantView, ErrorView>(
                GrantView::ReadOnly(path::path_join(cwd, place)),
            )
            &&& word == "rw"@ ==> granted == Ok::<GrantView, ErrorView>(
                GrantView::ReadWrite(path::path_join(cwd, place)),
            )
            &&& word != "ro"@ && word != "rw"@ ==> granted == Err::<GrantView, ErrorView>(
                ErrorView::InvalidFsMode(word),
            )
            &&& store::path_grant(word, cwd) == Err::<GrantView, ErrorView>(
                ErrorView::InvalidFs(word),
            )
        }),
{
    let flag = word + seq![':'] + place;
    let n = word.len() as int;
    assert(flag[n] == ':');
    assert(store::is_first_colon(flag, n)) by {
        assert forall|k: int| 0 <= k < n implies #[trigger] flag[k] != ':' by {
            assert(word[k] != ':');
        }
    }
    let i = choose|i: int| store::is_first_colon(flag, i);
    assert(store::is_first_colon(flag, i));
    assert(i == n);
    assert(flag.take(n) =~= word);
    assert(flag.skip(n + 1) =~= place);
    assert(flag.contains(':'));
    reveal_strlit("ro");
    reveal_strlit("rw");
    assert("ro"@[1] != "rw"@[1]);
}

/// The network is on unless it is switched off, and nothing but `on` and `off`
/// is understood.
pub proof fn the_network_is_on_unless_off(flag: Seq<char>)
    ensures
        store::net_mode(None) == Some(NetworkMode::On),
        store::net_mode(Some(flag)) == Some(NetworkMode::On) <==> flag == "on"@,
        store::net_mode(Some(flag)) == Some(NetworkMode::Off) <==> flag == "off"@,
{
    reveal_strlit("on");
    reveal_strlit("off");
    assert("on"@.len() != "off"@.len());
}

/// Flags that all grant a path ask for exactly those grants, in their order,
/// and for the network mode that was asked for.
pub proof fn sandboxes_hold_the_grants_asked_for(
    flags: Seq<Seq<char>>,
    net: Option<Seq<char>>,
    cwd: Seq<char>,
)
    requires
        flags.len() > 0,
        store::net_mode(net) is Some,
        forall|i: int|
            0 <= i < flags.len() ==> (#[trigger] flags[i]) != "full"@ && store::path_grant(
                flags[i],
                cwd,
            ) is Ok,
    ensures
        ({
            let asked = store::sandbox_of(flags, net, cwd);
            &&& asked is Ok
            &&& asked->Ok_0.net == store::net_mode(net)->0
            &&& asked->Ok_0.fs.len() == flags.len()
            &&& forall|i: int|
                0 <= i < flags.len() ==> #[trigger] asked->Ok_0.fs[i] == store::path_grant(
                    flags[i],
                    cwd,
                )->Ok_0
        }),
{
    assert forall|i: int| !store::is_first_wrong_flag(flags, cwd, i) by {
        if 0 <= i < flags.len() {
            assert(flags[0] != "full"@);
            assert(flags[i] != "full"@);
        }
    }
}

/// No flags, or `full` alone, ask for all files; a bad network flag is refused
/// before anything else.
pub proof fn full_asks_for_all_files(
    net: Option<Seq<char>>,
    flags: Seq<Seq<char>>,
    cwd: Seq<char>,
)
    ensures
        store::net_mode(net) is Some ==> store::sandbox_of(Seq::empty(), net, cwd) == Ok::<
            SandboxView,
            ErrorView,
        >(SandboxView { fs: seq![GrantView::Full], net: store::net_mode(net)->0 }),
        store::net_mode(net) is Some ==> store::sandbox_of(seq!["full"@], net, cwd) == Ok::<
            SandboxView,
            ErrorView,
        >(SandboxView { fs: seq![GrantView::Full], net: store::net_mode(net)->0 }),
        net is Some && store::net_mode(net) is None ==> store::sandbox_of(flags, net, cwd) == Err::<
            SandboxView,
            ErrorView,
        >(ErrorView::InvalidNet(net->0)),
{
    let one = seq!["full"@];
    assert(one[0] == "full"@);
    assert forall|i: int| !store::is_first_wrong_flag(one, cwd, i) by {
    }
    if store::net_mode(net) is Some {
        assert(store::sandbox_of(one, net, cwd)->Ok_0.fs =~= seq![GrantView::Full]);
    }
}

/// The first flag with which something is wrong is the one that is refused:
/// `full` beside another flag, another flag beside `full`, or a flag that
/// grants nothing.
pub proof fn the_first_wrong_flag_is_refused(
    flags: Seq<Seq<char>>,
    net: Option<Seq<char>>,
    cwd: Seq<char>,
    i: int,
)
    requires
        store::net_mode(net) is Some,
        0 <= i < flags.len(),
        forall|k: int|
            0 <= k < i ==> (#[trigger] flags[k] == "full"@ || store::path_grant(flags[k], cwd)
                is Ok) && (k > 0 ==> flags[0] != "full"@ && flags[k] != "full"@),
    ensures
        ({
            let asked = store::sandbox_of(flags, net, cwd);
            &&& i > 0 && (flags[0] == "full"@ || flags[i] == "full"@) ==> asked == Err::<
                SandboxView,
                ErrorView,
            >(ErrorView::MixedGrants)
            &&& (i == 0 || flags[0] != "full"@) && flags[i] != "full"@ && store::path_grant(
                flags[i],
                cwd,
            ) is Err ==> asked == Err::<SandboxView, ErrorView>(
                store::path_grant(flags[i], cwd)->Err_0,
            )
        }),
{
    if store::flag_error(flags, cwd, i) is Some {
        assert forall|k: int| 0 <= k < i implies #[trigger] store::flag_error(flags, cwd, k)
            is None by {
            assert(flags[k] == flags[k]);
        }
        assert(store::is_first_wrong_flag(flags, cwd, i));
        let j = store::first_wrong_flag(flags, cwd);
        assert(store::is_first_wrong_flag(flags, cwd, j));
        if j < i {
            assert(store::flag_error(flags, cwd, j) is None);
        } else if i < j {
            assert(store::flag_error(flags, cwd, i) is None);
        }
    }
}

} // verus!
