//! The command line that a session is run by, inside a sandbox where it is to
//! be restricted.

use vstd::prelude::*;

use crate::env_map;
use crate::env_map::EnvMap;
use crate::error::{ErrorView, TmuyError};
use crate::model;
use crate::model::{
    FsGrant, GrantView, NetworkMode, SandboxSpec, SessionRecord, SessionView,
};
use crate::outside;
use crate::path;
use crate::store;
use crate::text;

verus! {

/// Whether a grant lets a session run in the directory.
pub open spec fn grant_covers(grant: GrantView, cwd: Seq<char>) -> bool {
    match grant {
        GrantView::Full => true,
        GrantView::ReadOnly(place) => path::path_within(cwd, place),
        GrantView::ReadWrite(place) => path::path_within(cwd, place),
    }
}

/// Whether one of the grants lets a session run in the directory.
pub open spec fn cwd_is_covered(fs: Seq<GrantView>, cwd: Seq<char>) -> bool {
    exists|i: int| 0 <= i < fs.len() && grant_covers(#[trigger] fs[i], cwd)
}

/// The part of the file system that a sandbox shows under its own name, and how.
#[verifier::ext_equal]
pub struct Bind {
    pub flag: Seq<char>,
    pub place: Seq<char>,
}

/// The system directories that a command needs, which a sandbox may read. The
/// first two have to be there.
pub open spec fn system_binds() -> Seq<Bind> {
    seq![
        Bind { flag: "--ro-bind"@, place: "/bin"@ },
        Bind { flag: "--ro-bind"@, place: "/usr"@ },
        Bind { flag: "--ro-bind-try"@, place: "/sbin"@ },
        Bind { flag: "--ro-bind-try"@, place: "/lib"@ },
        Bind { flag: "--ro-bind-try"@, place: "/lib64"@ },
        Bind { flag: "--ro-bind-try"@, place: "/etc"@ },
        Bind { flag: "--ro-bind-try"@, place: "/opt"@ },
        Bind { flag: "--ro-bind-try"@, place: "/run"@ },
    ]
}

/// What the grants for reading, or those for writing, show, in their order.
pub open spec fn granted_binds(fs: Seq<GrantView>, readonly: bool) -> Seq<Bind>
    decreases fs.len(),
{
    if fs.len() == 0 {
        Seq::empty()
    } else {
        let before = granted_binds(fs.drop_last(), readonly);
        match fs.last() {
            GrantView::Full => before,
            GrantView::ReadOnly(place) => if readonly {
                before.push(Bind { flag: "--ro-bind"@, place })
            } else {
                before
            },
            GrantView::ReadWrite(place) => if readonly {
                before
            } else {
                before.push(Bind { flag: "--bind"@, place })
            },
        }
    }
}

/// All that a restricted sandbox shows: the system directories, then what may
/// be read, then what may be written.
pub open spec fn restricted_binds(fs: Seq<GrantView>) -> Seq<Bind> {
    system_binds() + granted_binds(fs, true) + granted_binds(fs, false)
}

/// The arguments for a list of binds.
pub open spec fn bind_args(binds: Seq<Bind>) -> Seq<Seq<char>>
    decreases binds.len(),
{
    if binds.len() == 0 {
        Seq::empty()
    } else {
        let last = binds.last();
        bind_args(binds.drop_last()) + seq![last.flag, last.place, last.place]
    }
}

/// How a sandbox is started: it shares nothing with the rest, but for the
/// network where that is on.
pub open spec fn isolation_args(net: NetworkMode) -> Seq<Seq<char>> {
    let args = seq!["bwrap"@, "--new-session"@, "--die-with-parent"@, "--unshare-all"@];
    if net == NetworkMode::On {
        args.push("--share-net"@)
    } else {
        args
    }
}

/// What a sandbox shows of the file system, and the directory that it starts in.
pub open spec fn fs_args(fs: Seq<GrantView>, cwd: Seq<char>) -> Seq<Seq<char>> {
    if fs == seq![GrantView::Full] {
        seq!["--dev-bind"@, "/"@, "/"@, "--proc"@, "/proc"@, "--chdir"@, cwd]
    } else {
        seq!["--proc"@, "/proc"@, "--dev"@, "/dev"@, "--tmpfs"@, "/tmp"@] + bind_args(
            restricted_binds(fs),
        ) + seq!["--chdir"@, cwd]
    }
}

/// The command line of a session in a sandbox, or why it has none.
pub open spec fn sandboxed_args(s: SessionView) -> Result<Seq<Seq<char>>, ErrorView> {
    if s.sandbox.fs != seq![GrantView::Full] && !cwd_is_covered(s.sandbox.fs, s.cwd) {
        Err(ErrorView::CwdNotGranted(s.cwd))
    } else if s.command.len() == 0 {
        Err(ErrorView::NoCommand)
    } else {
        Ok(
            isolation_args(s.sandbox.net) + fs_args(s.sandbox.fs, s.cwd) + seq!["--"@] + s.command,
        )
    }
}

/// The command line of a session, or why it has none: its own command where it
/// is not restricted, else the command in a sandbox, which only Linux has.
pub open spec fn session_args(s: SessionView, linux: bool) -> Result<Seq<Seq<char>>, ErrorView> {
    if s.sandbox == model::default_sandbox() {
        if s.command.len() == 0 {
            Err(ErrorView::NoCommand)
        } else {
            Ok(s.command)
        }
    } else if linux {
        sandboxed_args(s)
    } else {
        Err(ErrorView::SandboxNotImplemented)
    }
}

/// Whether a command builder holds the command line, in the directory and with
/// the variables of the session.
pub open spec fn runs(b: portable_pty::CommandBuilder, args: Seq<Seq<char>>, s: SessionView) -> bool {
    &&& outside::command_args(b) == args
    &&& outside::command_cwd(b) == Some(s.cwd)
    &&& outside::command_env(b) == s.env
}

/// Whether the sandbox restricts nothing.
pub fn is_default(spec: &SandboxSpec) -> (r: bool)
    ensures
        r == (spec@ == model::default_sandbox()),
{
    let full = grants_everything(&spec.fs);
    full && matches!(spec.net, NetworkMode::On)
}

/// Whether the grant of everything is the only one.
fn grants_everything(fs: &Vec<FsGrant>) -> (r: bool)
    ensures
        r == (model::grants(fs@) == seq![GrantView::Full]),
{
    if fs.len() == 1 {
        assert(model::grants(fs@)[0] == fs@[0]@);
        if matches!(fs[0], FsGrant::Full) {
            assert(model::grants(fs@) =~= seq![GrantView::Full]);
            true
        } else {
            assert(seq![GrantView::Full][0] is Full);
            false
        }
    } else {
        assert(model::grants(fs@).len() == fs@.len());
        assert(seq![GrantView::Full].len() == 1);
        false
    }
}

/// Whether a grant lets a session run in the directory.
pub fn grant_allows_cwd(grant: &FsGrant, cwd: &str) -> (r: bool)
    ensures
        r == grant_covers(grant@, cwd@),
{
    match grant {
        FsGrant::Full => true,
        FsGrant::ReadOnly(place) => path::starts_with(cwd, place.as_str()),
        FsGrant::ReadWrite(place) => path::starts_with(cwd, place.as_str()),
    }
}

/// Rejects a directory that lies in none of the grants.
pub fn ensure_cwd_allowed(cwd: &str, grants: &[FsGrant]) -> (r: Result<(), TmuyError>)
    ensures
        match r {
            Ok(()) => cwd_is_covered(model::grants(grants@), cwd@),
            Err(e) => !cwd_is_covered(model::grants(grants@), cwd@) && e@
                == ErrorView::CwdNotGranted(cwd@),
        },
{
    let ghost fs = model::grants(grants@);
    let mut i: usize = 0;
    while i < grants.len()
        invariant
            i <= grants@.len(),
            fs == model::grants(grants@),
            forall|k: int| 0 <= k < i ==> !grant_covers(#[trigger] fs[k], cwd@),
        decreases grants@.len() - i,
    {
        assert(fs[i as int] == grants@[i as int]@);
        if grant_allows_cwd(&grants[i], cwd) {
            return Ok(());
        }
        i = i + 1;
    }
    Err(TmuyError::CwdNotGranted(cwd.to_owned()))
}

/// The text of a path, which has to be UTF-8.
pub fn path_arg(raw: &[u8]) -> (r: Result<String, TmuyError>)
    ensures
        match r {
            Ok(place) => vstd::utf8::valid_utf8(raw@) && vstd::utf8::encode_utf8(place@) == raw@,
            Err(e) => !vstd::utf8::valid_utf8(raw@) && e@ == ErrorView::NonUtf8Path(
                outside::lossy_text_of(raw@),
            ),
        },
{
    match outside::utf8_text(raw) {
        Some(place) => Ok(place),
        None => Err(TmuyError::NonUtf8Path(outside::lossy_text(raw))),
    }
}

fn push_arg(args: &mut Vec<String>, arg: &str)
    ensures
        text::texts(final(args)@) == text::texts(old(args)@).push(arg@),
{
    let arg = arg.to_owned();
    args.push(arg);
    assert(text::texts(args@) =~= text::texts(old(args)@).push(arg@));
}

fn push_args(args: &mut Vec<String>, more: &Vec<String>)
    ensures
        text::texts(final(args)@) == text::texts(old(args)@) + text::texts(more@),
{
    let ghost before = text::texts(args@);
    let mut i: usize = 0;
    while i < more.len()
        invariant
            i <= more@.len(),
            text::texts(args@) == before + text::texts(more@).take(i as int),
        decreases more@.len() - i,
    {
        push_arg(args, more[i].as_str());
        proof {
            assert(text::texts(more@)[i as int] == more@[i as int]@);
            assert(text::texts(args@) =~= before + text::texts(more@).take(i + 1));
        }
        i = i + 1;
    }
    assert(text::texts(args@) =~= before + text::texts(more@));
}

fn push_bind(args: &mut Vec<String>, flag: &str, place: &str)
    ensures
        text::texts(final(args)@) == text::texts(old(args)@) + seq![flag@, place@, place@],
{
    push_arg(args, flag);
    push_arg(args, place);
    push_arg(args, place);
    assert(text::texts(args@) =~= text::texts(old(args)@) + seq![flag@, place@, place@]);
}

/// Appends what shows a system directory for reading, or does so where it is there.
fn add_ro_bind(args: &mut Vec<String>, place: &str, optional: bool)
    ensures
        text::texts(final(args)@) == text::texts(old(args)@) + bind_args(
            seq![Bind { flag: if optional { "--ro-bind-try"@ } else { "--ro-bind"@ }, place: place@ }],
        ),
{
    proof {
        lemma_one_bind(
            Bind { flag: if optional { "--ro-bind-try"@ } else { "--ro-bind"@ }, place: place@ },
        );
    }
    if optional {
        push_bind(args, "--ro-bind-try", place);
    } else {
        push_bind(args, "--ro-bind", place);
    }
}

proof fn lemma_one_bind(bind: Bind)
    ensures
        bind_args(seq![bind]) == seq![bind.flag, bind.place, bind.place],
{
    assert(seq![bind].drop_last() =~= Seq::empty());
    reveal_with_fuel(bind_args, 2);
    assert(bind_args(seq![bind]) =~= seq![bind.flag, bind.place, bind.place]);
}

proof fn lemma_bind_args_concat(a: Seq<Bind>, b: Seq<Bind>)
    ensures
        bind_args(a + b) == bind_args(a) + bind_args(b),
    decreases b.len(),
{
    if b.len() == 0 {
        assert(a + b =~= a);
        assert(bind_args(a) + bind_args(b) =~= bind_args(a));
    } else {
        assert((a + b).drop_last() =~= a + b.drop_last());
        lemma_bind_args_concat(a, b.drop_last());
        assert(bind_args(a + b) =~= bind_args(a) + bind_args(b));
    }
}

/// Appends what the grants for reading, or those for writing, show.
fn add_granted_binds(args: &mut Vec<String>, grants: &Vec<FsGrant>, readonly: bool)
    ensures
        text::texts(final(args)@) == text::texts(old(args)@) + bind_args(
            granted_binds(model::grants(grants@), readonly),
        ),
{
    let ghost before = text::texts(args@);
    let ghost fs = model::grants(grants@);
    let mut i: usize = 0;
    proof {
        assert(fs.take(0) =~= Seq::empty());
        assert(before + bind_args(granted_binds(fs.take(0), readonly)) =~= before);
    }
    while i < grants.len()
        invariant
            i <= grants@.len(),
            fs == model::grants(grants@),
            text::texts(args@) == before + bind_args(granted_binds(fs.take(i as int), readonly)),
        decreases grants@.len() - i,
    {
        let ghost so_far = text::texts(args@);
        let ghost binds = granted_binds(fs.take(i as int), readonly);
        proof {
            assert(fs.take(i + 1).drop_last() =~= fs.take(i as int));
            assert(fs[i as int] == grants@[i as int]@);
        }
        match &grants[i] {
            FsGrant::Full => {},
            FsGrant::ReadOnly(place) => {
                if readonly {
                    push_bind(args, "--ro-bind", place.as_str());
                    proof {
                        let bind = Bind { flag: "--ro-bind"@, place: place@ };
                        assert(binds.push(bind).drop_last() =~= binds);
                        assert(text::texts(args@) =~= before + bind_args(binds.push(bind)));
                    }
                }
            },
            FsGrant::ReadWrite(place) => {
                if !readonly {
                    push_bind(args, "--bind", place.as_str());
                    proof {
                        let bind = Bind { flag: "--bind"@, place: place@ };
                        assert(binds.push(bind).drop_last() =~= binds);
                        assert(text::texts(args@) =~= before + bind_args(binds.push(bind)));
                    }
                }
            },
        }
        i = i + 1;
    }
    assert(fs.take(i as int) =~= fs);
}

/// Appends what shows the system directories.
fn add_system_binds(args: &mut Vec<String>)
    ensures
        text::texts(final(args)@) == text::texts(old(args)@) + bind_args(system_binds()),
{
    let ghost before = text::texts(args@);
    add_ro_bind(args, "/bin", false);
    add_ro_bind(args, "/usr", false);
    add_ro_bind(args, "/sbin", true);
    add_ro_bind(args, "/lib", true);
    add_ro_bind(args, "/lib64", true);
    add_ro_bind(args, "/etc", true);
    add_ro_bind(args, "/opt", true);
    add_ro_bind(args, "/run", true);
    proof {
        let all = system_binds();
        assert(all.take(0) =~= Seq::empty());
        assert(bind_args(all.take(0)) =~= Seq::empty());
        lemma_next_bind(all, 0);
        lemma_next_bind(all, 1);
        lemma_next_bind(all, 2);
        lemma_next_bind(all, 3);
        lemma_next_bind(all, 4);
        lemma_next_bind(all, 5);
        lemma_next_bind(all, 6);
        lemma_next_bind(all, 7);
        assert(all.take(8) =~= all);
        assert(text::texts(args@) =~= before + bind_args(all));
    }
}

proof fn lemma_next_bind(all: Seq<Bind>, i: int)
    requires
        0 <= i < all.len(),
    ensures
        bind_args(all.take(i + 1)) == bind_args(all.take(i)) + bind_args(seq![all[i]]),
{
    assert(all.take(i + 1) =~= all.take(i) + seq![all[i]]);
    lemma_bind_args_concat(all.take(i), seq![all[i]]);
}

/// The command line of a session in a sandbox.
pub fn bwrap_argv(session: &SessionRecord) -> (r: Result<Vec<String>, TmuyError>)
    ensures
        match r {
            Ok(args) => sandboxed_args(session@) == Ok::<Seq<Seq<char>>, ErrorView>(
                text::texts(args@),
            ),
            Err(e) => sandboxed_args(session@) == Err::<Seq<Seq<char>>, ErrorView>(e@),
        },
{
    let mut args: Vec<String> = Vec::new();
    assert(text::texts(args@) =~= Seq::empty());
    push_arg(&mut args, "bwrap");
    push_arg(&mut args, "--new-session");
    push_arg(&mut args, "--die-with-parent");
    push_arg(&mut args, "--unshare-all");
    if matches!(session.sandbox.net, NetworkMode::On) {
        push_arg(&mut args, "--share-net");
    }
    let ghost head = isolation_args(session@.sandbox.net);
    assert(text::texts(args@) =~= head);
    if grants_everything(&session.sandbox.fs) {
        push_arg(&mut args, "--dev-bind");
        push_arg(&mut args, "/");
        push_arg(&mut args, "/");
        push_arg(&mut args, "--proc");
        push_arg(&mut args, "/proc");
    } else {
        if let Err(e) = ensure_cwd_allowed(session.cwd.as_str(), session.sandbox.fs.as_slice()) {
            return Err(e);
        }
        push_arg(&mut args, "--proc");
        push_arg(&mut args, "/proc");
        push_arg(&mut args, "--dev");
        push_arg(&mut args, "/dev");
        push_arg(&mut args, "--tmpfs");
        push_arg(&mut args, "/tmp");
        add_system_binds(&mut args);
        add_granted_binds(&mut args, &session.sandbox.fs, true);
        add_granted_binds(&mut args, &session.sandbox.fs, false);
        proof {
            let fs = session@.sandbox.fs;
            lemma_bind_args_concat(system_binds(), granted_binds(fs, true));
            lemma_bind_args_concat(
                system_binds() + granted_binds(fs, true),
                granted_binds(fs, false),
            );
        }
    }
    push_arg(&mut args, "--chdir");
    push_arg(&mut args, session.cwd.as_str());
    assert(text::texts(args@) =~= head + fs_args(session@.sandbox.fs, session@.cwd));
    if session.command.len() == 0 {
        assert(session@.command.len() == 0);
        return Err(TmuyError::NoCommand);
    }
    assert(session@.command.len() > 0);
    push_arg(&mut args, "--");
    push_args(&mut args, &session.command);
    assert(text::texts(args@) =~= head + fs_args(session@.sandbox.fs, session@.cwd) + seq!["--"@]
        + session@.command);
    Ok(args)
}

/// The builder for a command line, a directory and variables.
fn command_with(args: &Vec<String>, cwd: &str, env: &EnvMap) -> (r: portable_pty::CommandBuilder)
    requires
        args@.len() > 0,
    ensures
        outside::command_args(r) == text::texts(args@),
        outside::command_cwd(r) == Some(cwd@),
        outside::command_env(r) == env@,
{
    let mut builder = outside::builder_new(args[0].as_str());
    let mut i: usize = 1;
    proof {
        assert(text::texts(args@)[0] == args@[0]@);
        assert(outside::command_args(builder) =~= text::texts(args@).take(1));
        assert(outside::command_env(builder) =~= Map::empty());
    }
    while i < args.len()
        invariant
            1 <= i <= args@.len(),
            outside::command_args(builder) == text::texts(args@).take(i as int),
            outside::command_env(builder) == Map::<Seq<char>, Seq<char>>::empty(),
        decreases args@.len() - i,
    {
        outside::builder_arg(&mut builder, args[i].as_str());
        proof {
            assert(text::texts(args@)[i as int] == args@[i as int]@);
            assert(outside::command_args(builder) =~= text::texts(args@).take(i + 1));
        }
        i = i + 1;
    }
    assert(text::texts(args@).take(i as int) =~= text::texts(args@));
    outside::builder_cwd(&mut builder, cwd);
    let entries = env.entries();
    let ghost pairs = env_map::pair_texts(entries@);
    let mut k: usize = 0;
    proof {
        assert(pairs.take(0) =~= Seq::empty());
        assert(env_map::env_of(pairs.take(0)) =~= Map::empty());
    }
    while k < entries.len()
        invariant
            k <= entries@.len(),
            pairs == env_map::pair_texts(entries@),
            env_map::sorted_by_name(pairs),
            outside::command_args(builder) == text::texts(args@),
            outside::command_cwd(builder) == Some(cwd@),
            outside::command_env(builder) == env_map::env_of(pairs.take(k as int)),
        decreases entries@.len() - k,
    {
        outside::builder_env(&mut builder, entries[k].0.as_str(), entries[k].1.as_str());
        proof {
            assert(pairs[k as int] == (entries@[k as int].0@, entries@[k as int].1@));
            assert(pairs.take(k + 1) =~= pairs.take(k as int).push(pairs[k as int]));
            env_map::lemma_env_push(pairs.take(k as int), pairs[k as int].0, pairs[k as int].1);
        }
        k = k + 1;
    }
    assert(pairs.take(k as int) =~= pairs);
    builder
}

/// The command of a session that is not restricted.
pub fn plain_command(session: &SessionRecord) -> (r: Result<
    portable_pty::CommandBuilder,
    TmuyError,
>)
    ensures
        match r {
            Ok(b) => session@.command.len() > 0 && runs(b, session@.command, session@),
            Err(e) => session@.command.len() == 0 && e@ == ErrorView::NoCommand,
        },
{
    assert(session@.command.len() == session.command@.len());
    if session.command.len() == 0 {
        return Err(TmuyError::NoCommand);
    }
    Ok(command_with(&session.command, session.cwd.as_str(), &session.env))
}

/// The command of a session in a sandbox.
pub fn linux_bwrap_command(session: &SessionRecord) -> (r: Result<
    portable_pty::CommandBuilder,
    TmuyError,
>)
    ensures
        match r {
            Ok(b) => sandboxed_args(session@) is Ok && runs(
                b,
                sandboxed_args(session@)->Ok_0,
                session@,
            ),
            Err(e) => sandboxed_args(session@) == Err::<Seq<Seq<char>>, ErrorView>(e@),
        },
{
    match bwrap_argv(session) {
        Ok(args) => {
            assert(text::texts(args@).len() == args@.len());
            Ok(command_with(&args, session.cwd.as_str(), &session.env))
        },
        Err(e) => Err(e),
    }
}

/// The command of a session, in a sandbox where it is to be restricted.
pub fn build_command(session: &SessionRecord, linux: bool) -> (r: Result<
    portable_pty::CommandBuilder,
    TmuyError,
>)
    ensures
        match r {
            Ok(b) => session_args(session@, linux) is Ok && runs(
                b,
                session_args(session@, linux)->Ok_0,
                session@,
            ),
            Err(e) => session_args(session@, linux) == Err::<Seq<Seq<char>>, ErrorView>(e@),
        },
{
    if is_default(&session.sandbox) {
        return plain_command(session);
    }
    if linux {
        linux_bwrap_command(session)
    } else {
        Err(TmuyError::SandboxNotImplemented)
    }
}

/// A restricted sandbox shows the system directories and the granted paths
/// only, and lets nothing be written but what a grant for writing names.
pub proof fn sandbox_shows_only_what_is_granted(fs: Seq<GrantView>, i: int)
    requires
        0 <= i < restricted_binds(fs).len(),
    ensures
        ({
            let bind = restricted_binds(fs)[i];
            ||| system_binds().contains(bind)
            ||| bind.flag == "--ro-bind"@ && fs.contains(GrantView::ReadOnly(bind.place))
            ||| bind.flag == "--bind"@ && fs.contains(GrantView::ReadWrite(bind.place))
        }),
{
    let s = system_binds();
    let r = granted_binds(fs, true);
    let w = granted_binds(fs, false);
    if i < s.len() {
        assert(restricted_binds(fs)[i] == s[i]);
    } else if i < s.len() + r.len() {
        assert(restricted_binds(fs)[i] == r[i - s.len()]);
        lemma_granted(fs, true, i - s.len());
    } else {
        assert(restricted_binds(fs)[i] == w[i - s.len() - r.len()]);
        lemma_granted(fs, false, i - s.len() - r.len());
    }
}

proof fn lemma_granted(fs: Seq<GrantView>, readonly: bool, i: int)
    requires
        0 <= i < granted_binds(fs, readonly).len(),
    ensures
        ({
            let bind = granted_binds(fs, readonly)[i];
            if readonly {
                bind.flag == "--ro-bind"@ && fs.contains(GrantView::ReadOnly(bind.place))
            } else {
                bind.flag == "--bind"@ && fs.contains(GrantView::ReadWrite(bind.place))
            }
        }),
    decreases fs.len(),
{
    let before = granted_binds(fs.drop_last(), readonly);
    let bind = granted_binds(fs, readonly)[i];
    if i < before.len() {
        lemma_granted(fs.drop_last(), readonly, i);
        let grant = if readonly {
            GrantView::ReadOnly(bind.place)
        } else {
            GrantView::ReadWrite(bind.place)
        };
        let k = choose|k: int| 0 <= k < fs.drop_last().len() && fs.drop_last()[k] == grant;
        assert(fs[k] == grant);
    } else {
        assert(fs[fs.len() - 1] == fs.last());
    }
}

/// A sandbox shares the network exactly where that is on.
pub proof fn network_is_shared_only_when_on(net: NetworkMode)
    ensures
        isolation_args(net).contains("--share-net"@) <==> net == NetworkMode::On,
        isolation_args(net).contains("--unshare-all"@),
{
    let args = isolation_args(net);
    assert(args[3] == "--unshare-all"@);
    if net == NetworkMode::On {
        assert(args[4] == "--share-net"@);
    } else {
        reveal_strlit("bwrap");
        reveal_strlit("--new-session");
        reveal_strlit("--die-with-parent");
        reveal_strlit("--unshare-all");
        reveal_strlit("--share-net");
        assert forall|i: int| 0 <= i < args.len() implies args[i] != "--share-net"@ by {
            assert(args[i].len() != 11);
        }
    }
}

/// A session may run in the directory in which `ro:.` or `rw:.` was granted.
pub proof fn granting_the_directory_covers_it(cwd: Seq<char>)
    requires
        cwd.len() > 0,
    ensures
        ({
            let ro = store::sandbox_of(seq!["ro:."@], None, cwd);
            let rw = store::sandbox_of(seq!["rw:."@], None, cwd);
            &&& ro is Ok && cwd_is_covered(ro->Ok_0.fs, cwd)
            &&& rw is Ok && cwd_is_covered(rw->Ok_0.fs, cwd)
        }),
{
    path::directory_lies_within_its_dot(cwd);
    lemma_dot_grant(cwd, "ro:."@, "ro"@);
    lemma_dot_grant(cwd, "rw:."@, "rw"@);
}

proof fn lemma_dot_grant(cwd: Seq<char>, flag: Seq<char>, mode: Seq<char>)
    requires
        (flag == "ro:."@ && mode == "ro"@) || (flag == "rw:."@ && mode == "rw"@),
        path::path_within(cwd, path::path_join(cwd, "."@)),
    ensures
        ({
            let r = store::sandbox_of(seq![flag], None, cwd);
            r is Ok && cwd_is_covered(r->Ok_0.fs, cwd)
        }),
{
    reveal_strlit("ro:.");
    reveal_strlit("rw:.");
    reveal_strlit("ro");
    reveal_strlit("rw");
    reveal_strlit(".");
    reveal_strlit("full");
    assert(flag[2] == ':');
    assert(store::is_first_colon(flag, 2));
    let i = choose|i: int| store::is_first_colon(flag, i);
    assert(store::is_first_colon(flag, i));
    assert(i == 2);
    assert(flag.take(2) =~= mode);
    assert(flag.skip(3) =~= "."@);
    assert("ro"@[1] != "rw"@[1]);
    assert(flag != "full"@) by {
        assert(flag[0] != "full"@[0]);
    }
    let flags = seq![flag];
    assert(flags[0] == flag);
    assert(store::path_grant(flag, cwd) is Ok);
    assert(store::flag_error(flags, cwd, 0) is None);
    assert forall|k: int| !store::is_first_wrong_flag(flags, cwd, k) by {
    }
    let fs = store::sandbox_of(flags, None, cwd)->Ok_0.fs;
    assert(fs[0] == store::flag_grant(flag, cwd));
    assert(grant_covers(fs[0], cwd));
}

} // verus!
