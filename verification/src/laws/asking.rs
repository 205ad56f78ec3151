//! What holds of what is asked for, on the command line or over the socket, and
//! of waiting for a host.

use vstd::prelude::*;

use crate::cli;
use crate::cli::{Action, NewArgs, Surroundings};
use crate::env_map::EnvMap;
use crate::error::{ErrorView, TmuyError};
use crate::model::{CommandMode, SessionRecord, SessionScope, SessionStatus, SessionView};
use crate::request;
use crate::request::OrderView;
use crate::rpc;
use crate::rpc::RpcDefaults;
use crate::runtime::daemon;
use crate::runtime::daemon::{DaemonStepView, Phase};
use crate::store;
use crate::store::RequestView;
use crate::text;

verus! {

/// What is sent is the input as it is, with one newline behind it unless it ends
/// a line already or is to be sent as it is.
pub proof fn input_is_entered_once(bytes: Seq<u8>, no_enter: bool)
    ensures
        no_enter ==> cli::entered(bytes, no_enter) == bytes,
        bytes.len() > 0 && (bytes.last() == 10 || bytes.last() == 13) ==> cli::entered(
            bytes,
            no_enter,
        ) == bytes,
        !no_enter && (bytes.len() == 0 || (bytes.last() != 10 && bytes.last() != 13))
            ==> cli::entered(bytes, no_enter) == bytes + seq![10u8],
{
    assert(bytes.push(10) =~= bytes + seq![10u8]);
}

/// A new session is attached to at once only where it is a shell and a person
/// is there, and not where it is to stay detached.
pub proof fn shells_are_attached_to_by_hand(
    json: bool,
    detached: bool,
    mode: CommandMode,
    stdin_tty: bool,
    stdout_tty: bool,
)
    ensures
        cli::attaches(json, detached, mode, stdin_tty, stdout_tty) <==> mode == CommandMode::Shell
            && stdin_tty && stdout_tty && !json && !detached,
{
}

/// Attaching is refused exactly inside a session, which is named by its hash.
pub proof fn attaching_is_refused_inside_a_session(
    inside: Option<Seq<char>>,
    hash: Option<Seq<char>>,
    around: Surroundings,
)
    ensures
        inside == Some("1"@) && hash is Some ==> cli::attach_refusal(inside, hash) == Some(
            ErrorView::InsideSession(hash->0),
        ),
        inside != Some("1"@) || hash is None ==> cli::attach_refusal(inside, hash) is None,
        cli::refusal_in(around) == cli::attach_refusal(
            text::opt_text(around.inside),
            text::opt_text(around.session_hash),
        ),
{
}

/// A command to create a session orders what its arguments say, in the
/// directory, with the variables and with the shell around it.
pub proof fn commands_order_what_they_say(args: NewArgs, around: Surroundings)
    ensures
        ({
            let order = cli::new_order(args, around);
            &&& order.name == text::opt_text(args.name)
            &&& order.fs == text::texts(args.fs@)
            &&& order.net == text::opt_text(args.net)
            &&& order.detach_key == args.detach_key@
            &&& order.command == text::texts(args.command@)
            &&& order.cwd == around.cwd@
            &&& order.env == around.env@
            &&& order.shell == text::opt_text(around.shell)
        }),
{
}

/// A command to create a session leads to the request for what was ordered, or
/// to what is wrong with the order, or is refused inside a session where it
/// would attach.
pub proof fn commands_lead_to_what_was_ordered(
    args: NewArgs,
    json: bool,
    around: Surroundings,
    r: Result<Action, TmuyError>,
)
    requires
        cli::is_new_action(args, json, around, r),
    ensures
        ({
            let wanted = request::requested(cli::new_order(args, around));
            let attach = wanted is Ok && wanted->Ok_0.mode == CommandMode::Shell
                && around.stdin_tty && around.stdout_tty && !json && !args.detached;
            &&& wanted is Err ==> r is Err && r->Err_0@ == wanted->Err_0
            &&& wanted is Ok && attach && cli::refusal_in(around) is Some ==> r is Err
                && r->Err_0@ == cli::refusal_in(around)->0
            &&& wanted is Ok && !(attach && cli::refusal_in(around) is Some) ==> r is Ok
                && r->Ok_0 is Create && r->Ok_0->req@ == wanted->Ok_0 && r->Ok_0->Create_attach
                == attach
        }),
{
}

/// What is ordered is what is requested: the name, the directory, the detach key
/// and the variables as they are, the sandbox that the flags ask for, and the
/// command, or the shell where there is none.
pub proof fn orders_are_requested_as_they_are(order: OrderView)
    ensures
        ({
            let r = request::requested(order);
            let sandbox = store::sandbox_of(order.fs, order.net, order.cwd);
            let bad_name = order.name is Some && store::name_error(order.name->0) is Some;
            &&& bad_name ==> r == Err::<RequestView, ErrorView>(
                store::name_error(order.name->0)->0,
            )
            &&& !bad_name && sandbox is Err ==> r == Err::<RequestView, ErrorView>(
                sandbox->Err_0,
            )
            &&& !bad_name && sandbox is Ok ==> {
                &&& r is Ok
                &&& r->Ok_0.explicit_name == order.name
                &&& r->Ok_0.cwd == order.cwd
                &&& r->Ok_0.sandbox == sandbox->Ok_0
                &&& r->Ok_0.detach_key == order.detach_key
                &&& r->Ok_0.env == order.env
                &&& order.command.len() > 0 ==> r->Ok_0.command == order.command
                    && r->Ok_0.mode == CommandMode::OneShot
                &&& order.command.len() == 0 ==> r->Ok_0.command == daemon::shell_command(
                    order.shell,
                ) && r->Ok_0.mode == CommandMode::Shell
            }
        }),
{
}

/// The shell is the user's, or else bash, and is interactive.
pub proof fn shells_are_interactive(shell: Seq<char>)
    ensures
        daemon::shell_command(Some(shell)) == seq![shell, "-i"@],
        daemon::shell_command(None) == seq!["/bin/bash"@, "-i"@],
{
}

/// A list is of the live sessions unless it is asked for the dead ones or for
/// all, which exclude each other.
pub proof fn lists_are_of_the_live_unless_asked(dead: bool, all: bool)
    ensures
        request::scope_of(false, false) == Some(SessionScope::LiveOnly),
        request::scope_of(true, false) == Some(SessionScope::DeadOnly),
        request::scope_of(false, true) == Some(SessionScope::All),
        request::scope_of(dead, all) is None <==> dead && all,
{
}

/// A time limit in seconds is the same in nanoseconds, and no limit is none.
pub proof fn limits_are_in_nanoseconds(secs: u64)
    ensures
        rpc::nanos(None) is None,
        rpc::nanos(Some(secs)) is Some,
        rpc::nanos(Some(secs))->0 == secs * 1_000_000_000,
{
    assert(secs * 1_000_000_000 <= u128::MAX);
}

/// A request over the socket orders what it says; what it leaves out is the
/// directory, the variables and the shell of the server, all files and the
/// network, no command, and `C-b d` to detach.
pub proof fn requests_order_what_they_say(
    name: Option<String>,
    cwd: Option<String>,
    fs: Option<Vec<String>>,
    net: Option<String>,
    detach_key: Option<String>,
    command: Option<Vec<String>>,
    env: Option<EnvMap>,
    defaults: RpcDefaults,
)
    ensures
        ({
            let order = rpc::created_order(
                name,
                cwd,
                fs,
                net,
                detach_key,
                command,
                env,
                defaults,
            );
            &&& order.name == text::opt_text(name)
            &&& cwd is Some ==> order.cwd == cwd->0@
            &&& cwd is None ==> order.cwd == defaults.cwd@
            &&& fs is Some ==> order.fs == text::texts(fs->0@)
            &&& fs is None ==> order.fs.len() == 0
            &&& order.net == text::opt_text(net)
            &&& detach_key is Some ==> order.detach_key == detach_key->0@
            &&& detach_key is None ==> order.detach_key == "C-b d"@
            &&& command is Some ==> order.command == text::texts(command->0@)
            &&& command is None ==> order.command.len() == 0
            &&& env is Some ==> order.env == env->0@
            &&& env is None ==> order.env == defaults.env@
            &&& order.shell == text::opt_text(defaults.shell)
        }),
{
}

/// A flag that is left out has its default.
pub proof fn flags_have_defaults(flag: bool, default: bool)
    ensures
        rpc::flag_or(Some(flag), default) == flag,
        rpc::flag_or(None, default) == default,
{
}

/// A variable is looked up by its name.
pub proof fn variables_are_looked_up(env: Map<Seq<char>, Seq<char>>, name: Seq<char>)
    ensures
        env.contains_key(name) ==> cli::lookup_var(env, name) == Some(env[name]),
        !env.contains_key(name) ==> cli::lookup_var(env, name) is None,
{
}

/// A session is ready where it runs or has run; it is not where it failed, with
/// the recorded reason; nothing is known while it starts or is not found.
pub proof fn readiness_is_told_by_the_status(s: SessionView, found: Option<&SessionRecord>)
    ensures
        s.status == SessionStatus::Live || s.status == SessionStatus::Exited ==> daemon::readiness(
            s,
        ) == Some(Ok::<(), ErrorView>(())),
        s.status == SessionStatus::Starting ==> daemon::readiness(s) is None,
        s.status == SessionStatus::Failed && s.failure_reason is Some ==> daemon::readiness(s)
            == Some(Err::<(), ErrorView>(ErrorView::StartFailed(s.failure_reason->0))),
        s.status == SessionStatus::Failed && s.failure_reason is None ==> daemon::readiness(s)
            == Some(Err::<(), ErrorView>(ErrorView::StartFailedUnexplained)),
        found is None ==> daemon::found_readiness(found) is None,
        found is Some ==> daemon::found_readiness(found) == daemon::readiness(found->0@),
{
}

/// A host has three seconds; after that its session is looked at for a quarter
/// of a second more.
pub proof fn hosts_have_three_seconds(phase: Phase, elapsed: u64)
    requires
        elapsed <= u64::MAX - 1000,
    ensures
        phase is Watching && elapsed >= 3000 ==> daemon::phase_at(phase, elapsed) == (
        Phase::Late { deadline: (elapsed + 250) as u64 }),
        phase is Watching && elapsed < 3000 ==> daemon::phase_at(phase, elapsed) == phase,
        !(phase is Watching) ==> daemon::phase_at(phase, elapsed) == phase,
        daemon::EXITED_MILLIS == 1000,
        daemon::WATCH_PAUSE_MILLIS == 50,
        rpc::STREAM_POLL_MILLIS == 200,
        rpc::RPC_VERSION == 1,
{
}

/// What is known of a session ends the wait as it is. Where nothing is, a host
/// that is watched is polled; after its end or its time, the wait goes on until
/// the deadline and then fails, for the exit of the host or for the time.
pub proof fn waits_end_as_the_session_does(
    known: Result<(), ErrorView>,
    phase: Phase,
    code: Option<i32>,
    deadline: u64,
    elapsed: u64,
    session_ref: Seq<char>,
)
    ensures
        daemon::look_step(phase, Some(known), elapsed, session_ref) == DaemonStepView::Return(
            known,
        ),
        daemon::look_step(Phase::Watching, None, elapsed, session_ref) == DaemonStepView::PollHost,
        elapsed >= deadline ==> daemon::look_step(
            Phase::HostExited { code, deadline },
            None,
            elapsed,
            session_ref,
        ) == DaemonStepView::Return(Err(ErrorView::ServiceExited(code))),
        elapsed >= deadline ==> daemon::look_step(
            Phase::Late { deadline },
            None,
            elapsed,
            session_ref,
        ) == DaemonStepView::Return(Err(ErrorView::ReadyTimedOut(session_ref))),
        elapsed < deadline ==> daemon::look_step(
            Phase::HostExited { code, deadline },
            None,
            elapsed,
            session_ref,
        ) == DaemonStepView::Pause(10),
        elapsed < deadline ==> daemon::look_step(
            Phase::Late { deadline },
            None,
            elapsed,
            session_ref,
        ) == DaemonStepView::Pause(10),
{
}

} // verus!
