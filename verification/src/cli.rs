//! The commands of the command line: what each leads to, and what is printed.

use vstd::prelude::*;

use crate::env_map::EnvMap;
use crate::error::{ErrorView, TmuyError};
use crate::model;
use crate::model::{CommandMode, SessionRecord, SessionScope, SessionStatus, SessionView};
use crate::outside;
use crate::request;
use crate::request::{OrderView, SessionOrder, request_scope, session_request};
use crate::rpc;
use crate::rpc::nanos_of;
use crate::store;
use crate::store::{CreateSessionRequest, RequestView, validate_name};
use crate::text;
use crate::text::{
    chars_of, joined, joined3, optional_code_text, optional_pid_text, push_text, same_text,
};

verus! {

/// The input that is sent: with a newline at its end, unless it ends in a line
/// break already or is to be sent as it is.
pub open spec fn entered(bytes: Seq<u8>, no_enter: bool) -> Seq<u8> {
    if no_enter || (bytes.len() > 0 && (bytes.last() == 0x0a || bytes.last() == 0x0d)) {
        bytes
    } else {
        bytes.push(0x0a)
    }
}

/// Appends a newline, unless the input ends in a line break already or is to be
/// sent as it is.
pub fn maybe_append_enter(bytes: &mut Vec<u8>, no_enter: bool)
    ensures
        final(bytes)@ == entered(old(bytes)@, no_enter),
{
    if no_enter {
        return;
    }
    if bytes.len() > 0 {
        let last: u8 = bytes[bytes.len() - 1];
        if last == 0x0a || last == 0x0d {
            return;
        }
    }
    bytes.push(0x0a);
}

/// Entering input twice is the same as entering it once.
pub proof fn entering_is_idempotent(bytes: Seq<u8>, no_enter: bool)
    ensures
        entered(entered(bytes, no_enter), no_enter) == entered(bytes, no_enter),
{
}

/// A word of a command line, quoted where it holds a space.
pub open spec fn shell_word(word: Seq<char>) -> Seq<char> {
    if word.contains(' ') {
        outside::quoted_text_of(word)
    } else {
        word
    }
}

/// The words of a command line with spaces between them.
pub open spec fn command_words(words: Seq<Seq<char>>) -> Seq<char>
    decreases words.len(),
{
    if words.len() == 0 {
        Seq::empty()
    } else if words.len() == 1 {
        shell_word(words[0])
    } else {
        command_words(words.drop_last()) + " "@ + shell_word(words.last())
    }
}

fn has_space(word: &str) -> (r: bool)
    ensures
        r == word@.contains(' '),
{
    let chars = chars_of(word);
    let mut i: usize = 0;
    while i < chars.len()
        invariant
            i <= chars@.len(),
            chars@ == word@,
            forall|k: int| 0 <= k < i ==> #[trigger] word@[k] != ' ',
        decreases chars@.len() - i,
    {
        if chars[i] == ' ' {
            assert(word@[i as int] == ' ');
            return true;
        }
        i = i + 1;
    }
    false
}

/// The words of a command line with spaces between them, those quoted that hold
/// a space themselves.
pub fn shell_words(parts: &[String]) -> (r: String)
    ensures
        r@ == command_words(text::texts(parts@)),
{
    let ghost words = text::texts(parts@);
    let mut out = String::new();
    let mut i: usize = 0;
    assert(words.take(0) =~= Seq::empty());
    while i < parts.len()
        invariant
            i <= parts@.len(),
            words == text::texts(parts@),
            out@ == command_words(words.take(i as int)),
        decreases parts@.len() - i,
    {
        proof {
            assert(words.take(i + 1).drop_last() =~= words.take(i as int));
            assert(words.take(i + 1).last() == words[i as int]);
            assert(words[i as int] == parts@[i as int]@);
        }
        if i > 0 {
            push_text(&mut out, " ");
        }
        if has_space(parts[i].as_str()) {
            push_text(&mut out, outside::quoted_text(parts[i].as_str()).as_str());
        } else {
            push_text(&mut out, parts[i].as_str());
        }
        assert(out@ =~= command_words(words.take(i + 1)));
        i = i + 1;
    }
    assert(words.take(i as int) =~= words);
    out
}

/// A status in one word.
pub open spec fn status_word(status: SessionStatus) -> Seq<char> {
    match status {
        SessionStatus::Starting => "Starting"@,
        SessionStatus::Live => "Live"@,
        SessionStatus::Exited => "Exited"@,
        SessionStatus::Failed => "Failed"@,
    }
}

fn status_text(status: SessionStatus) -> (r: String)
    ensures
        r@ == status_word(status),
{
    match status {
        SessionStatus::Starting => "Starting".to_owned(),
        SessionStatus::Live => "Live".to_owned(),
        SessionStatus::Exited => "Exited".to_owned(),
        SessionStatus::Failed => "Failed".to_owned(),
    }
}

/// The row of a session in a list: its name, hash, status and log directory,
/// with tabs between them.
pub open spec fn session_row(s: SessionView) -> Seq<char> {
    s.current_name + "\t"@ + s.id_hash + "\t"@ + status_word(s.status) + "\t"@ + s.started_log_dir
        + "\n"@
}

/// The rows of the sessions.
pub open spec fn session_rows(s: Seq<SessionView>) -> Seq<char>
    decreases s.len(),
{
    if s.len() == 0 {
        Seq::empty()
    } else {
        session_rows(s.drop_last()) + session_row(s.last())
    }
}

/// What is printed for a list of sessions.
pub open spec fn list_words(s: Seq<SessionView>) -> Seq<char> {
    if s.len() == 0 {
        "no sessions\n"@
    } else {
        session_rows(s)
    }
}

/// What is printed for a list of sessions: a row for each, or that there are none.
pub fn list_output(sessions: &Vec<SessionRecord>) -> (r: String)
    ensures
        r@ == list_words(model::session_views(sessions@)),
{
    let ghost views = model::session_views(sessions@);
    assert(views.len() == sessions@.len());
    if sessions.len() == 0 {
        return "no sessions\n".to_owned();
    }
    let mut out = String::new();
    let mut i: usize = 0;
    assert(views.take(0) =~= Seq::empty());
    while i < sessions.len()
        invariant
            i <= sessions@.len(),
            views == model::session_views(sessions@),
            out@ == session_rows(views.take(i as int)),
        decreases sessions@.len() - i,
    {
        let session = &sessions[i];
        proof {
            assert(views.take(i + 1).drop_last() =~= views.take(i as int));
            assert(views.take(i + 1).last() == views[i as int]);
            assert(views[i as int] == session@);
        }
        push_text(&mut out, session.current_name.as_str());
        push_text(&mut out, "\t");
        push_text(&mut out, session.id_hash.as_str());
        push_text(&mut out, "\t");
        push_text(&mut out, status_text(session.status).as_str());
        push_text(&mut out, "\t");
        push_text(&mut out, session.started_log_dir.as_str());
        push_text(&mut out, "\n");
        assert(out@ =~= session_rows(views.take(i + 1)));
        i = i + 1;
    }
    assert(views.take(i as int) =~= views);
    out
}

/// A line of the details of a session.
pub open spec fn detail_line(label: Seq<char>, value: Seq<char>) -> Seq<char> {
    label + ": "@ + value + "\n"@
}

/// The reason of a failure as it is printed.
pub open spec fn reason_words(reason: Option<Seq<char>>) -> Seq<char> {
    match reason {
        Some(text) => "Some("@ + outside::quoted_text_of(text) + ")"@,
        None => "None"@,
    }
}

/// What is printed for a single session, created at an instant that is written
/// as given.
pub open spec fn detail_words(s: SessionView, created_at: Seq<char>) -> Seq<char> {
    detail_line("name"@, s.current_name) + detail_line("started_name"@, s.started_name)
        + detail_line("hash"@, s.id_hash) + detail_line("status"@, status_word(s.status))
        + detail_line("created_at"@, created_at) + detail_line("cwd"@, s.cwd) + detail_line(
        "command"@,
        command_words(s.command),
    ) + detail_line("log_dir"@, s.started_log_dir) + detail_line("log_path"@, s.log_path)
        + detail_line("meta_path"@, s.meta_path) + detail_line("events_path"@, s.events_path)
        + detail_line("child_pid"@, text::optional_pid(s.child_pid)) + detail_line(
        "service_pid"@,
        text::optional_pid(s.service_pid),
    ) + detail_line("exit_code"@, text::optional_code(s.exit_code)) + detail_line(
        "failure_reason"@,
        reason_words(s.failure_reason),
    ) + detail_line("detach_key"@, s.detach_key)
}

fn push_detail(out: &mut String, label: &str, value: &str)
    ensures
        final(out)@ == old(out)@ + detail_line(label@, value@),
{
    push_text(out, label);
    push_text(out, ": ");
    push_text(out, value);
    push_text(out, "\n");
    assert(out@ =~= old(out)@ + detail_line(label@, value@));
}

/// What is printed for a single session, created at an instant that is written
/// as given.
pub fn session_detail(session: &SessionRecord, created_at: &str) -> (r: String)
    ensures
        r@ == detail_words(session@, created_at@),
{
    let reason = match &session.failure_reason {
        Some(text) => joined3("Some(", outside::quoted_text(text.as_str()).as_str(), ")"),
        None => "None".to_owned(),
    };
    let mut out = String::new();
    push_detail(&mut out, "name", session.current_name.as_str());
    assert(out@ =~= detail_line("name"@, session@.current_name));
    push_detail(&mut out, "started_name", session.started_name.as_str());
    push_detail(&mut out, "hash", session.id_hash.as_str());
    push_detail(&mut out, "status", status_text(session.status).as_str());
    push_detail(&mut out, "created_at", created_at);
    push_detail(&mut out, "cwd", session.cwd.as_str());
    push_detail(&mut out, "command", shell_words(session.command.as_slice()).as_str());
    push_detail(&mut out, "log_dir", session.started_log_dir.as_str());
    push_detail(&mut out, "log_path", session.log_path.as_str());
    push_detail(&mut out, "meta_path", session.meta_path.as_str());
    push_detail(&mut out, "events_path", session.events_path.as_str());
    push_detail(&mut out, "child_pid", optional_pid_text(session.child_pid).as_str());
    push_detail(&mut out, "service_pid", optional_pid_text(session.service_pid).as_str());
    push_detail(&mut out, "exit_code", optional_code_text(session.exit_code).as_str());
    push_detail(&mut out, "failure_reason", reason.as_str());
    push_detail(&mut out, "detach_key", session.detach_key.as_str());
    out
}

/// What is printed for a single session, unless the calendar does not reach the
/// instant of its creation.
pub fn print_session_detail(session: &SessionRecord) -> (r: Option<String>)
    ensures
        ({
            let at = session@.created_at;
            match (outside::utc_text_of(at.secs as int, at.nanos as nat), r) {
                (Some(created_at), Some(printed)) => printed@ == detail_words(session@, created_at),
                (None, None) => true,
                _ => false,
            }
        }),
{
    match outside::utc_text(session.created_at) {
        Some(created_at) => Some(session_detail(session, created_at.as_str())),
        None => None,
    }
}

/// What is printed for a new session.
pub fn created_text(session: &SessionRecord) -> (r: String)
    ensures
        r@ == "created "@ + session@.short_ref(),
{
    joined("created ", session.short_ref().as_str())
}

/// What is printed for a session that got a new name, and was called by the
/// given target before.
pub fn renamed_text(target: &str, session: &SessionRecord) -> (r: String)
    ensures
        r@ == "renamed "@ + target@ + " -> "@ + session@.short_ref(),
{
    let mut out = joined3("renamed ", target, " -> ");
    push_text(&mut out, session.short_ref().as_str());
    out
}

/// What is printed for a session that was waited for.
pub fn waited_text(session: &SessionRecord) -> (r: String)
    ensures
        r@ == session@.short_ref() + " exited with "@ + text::optional_code(session@.exit_code),
{
    joined3(
        session.short_ref().as_str(),
        " exited with ",
        optional_code_text(session.exit_code).as_str(),
    )
}

/// Whether a new session is attached to at once: a shell, started by hand from
/// a terminal, unless it is to stay detached.
pub open spec fn attaches(
    json: bool,
    detached: bool,
    mode: CommandMode,
    stdin_tty: bool,
    stdout_tty: bool,
) -> bool {
    !json && !detached && mode == CommandMode::Shell && stdin_tty && stdout_tty
}

/// Whether a new session is attached to at once.
pub fn should_auto_attach(
    json: bool,
    detached: bool,
    mode: CommandMode,
    stdin_tty: bool,
    stdout_tty: bool,
) -> (r: bool)
    ensures
        r == attaches(json, detached, mode, stdin_tty, stdout_tty),
{
    !json && !detached && matches!(mode, CommandMode::Shell) && stdin_tty && stdout_tty
}

/// What keeps a process from attaching: it runs inside a session itself, as
/// its variables show.
pub open spec fn attach_refusal(inside: Option<Seq<char>>, hash: Option<Seq<char>>) -> Option<
    ErrorView,
> {
    match hash {
        Some(hash) if inside == Some("1"@) => Some(ErrorView::InsideSession(hash)),
        _ => None,
    }
}

/// Rejects an attempt to attach from inside a session. The arguments are the
/// values of `TMUY_INSIDE` and `TMUY_SESSION_HASH`.
pub fn ensure_attach_allowed(inside: Option<&str>, hash: Option<&str>) -> (r: Result<(), TmuyError>)
    ensures
        match r {
            Ok(()) => attach_refusal(text::opt_str(inside), text::opt_str(hash)) is None,
            Err(e) => attach_refusal(text::opt_str(inside), text::opt_str(hash)) == Some(e@),
        },
{
    if let Some(inside) = inside {
        if same_text(inside, "1") {
            if let Some(hash) = hash {
                return Err(TmuyError::InsideSession(hash.to_owned()));
            }
        }
    }
    Ok(())
}

/// The value of a variable.
pub open spec fn lookup_var(env: Map<Seq<char>, Seq<char>>, name: Seq<char>) -> Option<Seq<char>> {
    if env.contains_key(name) {
        Some(env[name])
    } else {
        None
    }
}

/// A process of a session cannot attach: the variables that the session was
/// created with refuse it, with the hash of that session.
pub proof fn sessions_do_not_nest(
    base: Seq<char>,
    req: RequestView,
    name: Seq<char>,
    hash: Seq<char>,
    now: model::Timestamp,
    date: model::CivilDate,
)
    ensures
        ({
            let env = store::created_session(base, req, name, hash, now, date).env;
            attach_refusal(
                lookup_var(env, "TMUY_INSIDE"@),
                lookup_var(env, "TMUY_SESSION_HASH"@),
            ) == Some(ErrorView::InsideSession(hash))
        }),
{
    reveal_strlit("TMUY_SESSION_HASH");
    reveal_strlit("TMUY_SESSION_STARTED_NAME");
    reveal_strlit("TMUY_INSIDE");
    assert("TMUY_SESSION_HASH"@.len() != "TMUY_INSIDE"@.len());
    assert("TMUY_SESSION_HASH"@.len() != "TMUY_SESSION_STARTED_NAME"@.len());
}

/// What a command to create a session is given.
#[derive(Debug)]
pub struct NewArgs {
    pub name: Option<String>,
    pub fs: Vec<String>,
    pub net: Option<String>,
    pub detach_key: String,
    pub detached: bool,
    pub command: Vec<String>,
}

/// A command of the command line.
#[derive(Debug)]
pub enum Command {
    New(NewArgs),
    Attach { name: String, detach_key: Option<String> },
    Kill { name: String },
    Ls { dead: bool, all: bool },
    Tail { name: String, raw: bool, follow: bool },
    Events { name: String, jsonl: bool, follow: bool },
    Inspect { name: String },
    /// The payload is what was given, or else what was read from the input.
    Send { name: String, no_enter: bool, payload: Vec<u8> },
    Rename { name: String, new_name: String },
    Wait { name: String, timeout_secs: Option<u64> },
    Signal { name: String, signal: String },
    Serve { hash: String },
    ServeRpc { socket: Option<String> },
}

/// What a command is run in: the directory, the variables, the shell, whether
/// it has a terminal, and the values of `TMUY_INSIDE` and `TMUY_SESSION_HASH`.
#[derive(Debug)]
pub struct Surroundings {
    pub cwd: String,
    pub env: EnvMap,
    pub shell: Option<String>,
    pub stdin_tty: bool,
    pub stdout_tty: bool,
    pub inside: Option<String>,
    pub session_hash: Option<String>,
}

/// What a command leads to.
#[derive(Debug)]
pub enum Action {
    Create { req: CreateSessionRequest, attach: bool },
    Attach { name: String, detach_key: Option<String> },
    /// A signal is sent, and the word is printed.
    Signal { name: String, signal: String, word: String },
    List { scope: SessionScope },
    Tail { name: String, raw: bool, follow: bool },
    Events { name: String, jsonl: bool, follow: bool },
    Inspect { name: String },
    Send { name: String, bytes: Vec<u8> },
    Rename { name: String, new_name: String },
    /// The time is in nanoseconds.
    Wait { name: String, timeout: Option<u128> },
    Serve { hash: String },
    ServeRpc { socket: Option<String> },
}

/// The session that a command to create one is for.
pub open spec fn new_order(args: NewArgs, around: Surroundings) -> OrderView {
    OrderView {
        name: text::opt_text(args.name),
        cwd: around.cwd@,
        fs: text::texts(args.fs@),
        net: text::opt_text(args.net),
        detach_key: args.detach_key@,
        command: text::texts(args.command@),
        env: around.env@,
        shell: text::opt_text(around.shell),
    }
}

/// What keeps a process in the given surroundings from attaching.
pub open spec fn refusal_in(around: Surroundings) -> Option<ErrorView> {
    attach_refusal(text::opt_text(around.inside), text::opt_text(around.session_hash))
}

/// Whether the result is what a command to create a session leads to: a request
/// for the session, and whether to attach to it at once, or what is wrong.
pub open spec fn is_new_action(
    args: NewArgs,
    json: bool,
    around: Surroundings,
    r: Result<Action, TmuyError>,
) -> bool {
    match request::requested(new_order(args, around)) {
        Err(e) => r is Err && r->Err_0@ == e,
        Ok(wanted) => {
            let attach = attaches(
                json,
                args.detached,
                wanted.mode,
                around.stdin_tty,
                around.stdout_tty,
            );
            match refusal_in(around) {
                Some(e) if attach => r is Err && r->Err_0@ == e,
                _ => r matches Ok(Action::Create { req, attach: at_once }) && req@ == wanted
                    && at_once == attach,
            }
        },
    }
}

/// What a command to create a session leads to, or what is wrong with it.
pub fn cmd_new(args: NewArgs, json: bool, around: Surroundings) -> (r: Result<Action, TmuyError>)
    ensures
        is_new_action(args, json, around, r),
{
    let order = SessionOrder {
        name: args.name,
        cwd: around.cwd,
        fs: args.fs,
        net: args.net,
        detach_key: args.detach_key,
        command: args.command,
        env: around.env,
        shell: around.shell,
    };
    let req = match session_request(order) {
        Ok(req) => req,
        Err(e) => {
            return Err(e);
        },
    };
    let attach = should_auto_attach(
        json,
        args.detached,
        req.mode,
        around.stdin_tty,
        around.stdout_tty,
    );
    if attach {
        if let Err(e) = attach_allowed_in(&around.inside, &around.session_hash) {
            return Err(e);
        }
    }
    Ok(Action::Create { req, attach })
}

fn attach_allowed_in(inside: &Option<String>, session_hash: &Option<String>) -> (r: Result<
    (),
    TmuyError,
>)
    ensures
        ({
            let refusal = attach_refusal(text::opt_text(*inside), text::opt_text(*session_hash));
            match r {
                Ok(()) => refusal is None,
                Err(e) => refusal == Some(e@),
            }
        }),
{
    let inside = match inside {
        Some(inside) => Some(inside.as_str()),
        None => None,
    };
    let hash = match session_hash {
        Some(hash) => Some(hash.as_str()),
        None => None,
    };
    ensure_attach_allowed(inside, hash)
}

/// What a command leads to in the given surroundings, or what is wrong with it.
pub fn run(command: Command, json: bool, around: Surroundings) -> (r: Result<Action, TmuyError>)
    ensures
        match command {
            Command::New(args) => is_new_action(args, json, around, r),
            Command::Attach { name, detach_key } => match refusal_in(around) {
                Some(e) => r is Err && r->Err_0@ == e,
                None => r == Ok::<Action, TmuyError>(Action::Attach { name, detach_key }),
            },
            Command::Kill { name } => r matches Ok(Action::Signal { name: n, signal, word }) && n
                == name && signal@ == "INT"@ && word@ == "interrupted"@,
            Command::Ls { dead, all } => match request::scope_of(dead, all) {
                Some(scope) => r == Ok::<Action, TmuyError>(Action::List { scope }),
                None => r is Err && r->Err_0@ == ErrorView::DeadAndAllFlags,
            },
            Command::Tail { name, raw, follow } => r == Ok::<Action, TmuyError>(
                Action::Tail { name, raw, follow },
            ),
            Command::Events { name, jsonl, follow } => r == Ok::<Action, TmuyError>(
                Action::Events { name, jsonl, follow },
            ),
            Command::Inspect { name } => r == Ok::<Action, TmuyError>(Action::Inspect { name }),
            Command::Send { name, no_enter, payload } => r matches Ok(
                Action::Send { name: n, bytes },
            ) && n == name && bytes@ == entered(payload@, no_enter),
            Command::Rename { name, new_name } => match store::name_error(new_name@) {
                Some(e) => r is Err && r->Err_0@ == e,
                None => r == Ok::<Action, TmuyError>(Action::Rename { name, new_name }),
            },
            Command::Wait { name, timeout_secs } => r == Ok::<Action, TmuyError>(
                Action::Wait { name, timeout: rpc::nanos(timeout_secs) },
            ),
            Command::Signal { name, signal } => r matches Ok(
                Action::Signal { name: n, signal: s, word },
            ) && n == name && s == signal && word@ == "signaled"@,
            Command::Serve { hash } => r == Ok::<Action, TmuyError>(Action::Serve { hash }),
            Command::ServeRpc { socket } => r == Ok::<Action, TmuyError>(
                Action::ServeRpc { socket },
            ),
        },
{
    match command {
        Command::New(args) => cmd_new(args, json, around),
        Command::Attach { name, detach_key } => {
            if let Err(e) = attach_allowed_in(&around.inside, &around.session_hash) {
                return Err(e);
            }
            Ok(Action::Attach { name, detach_key })
        },
        Command::Kill { name } => Ok(
            Action::Signal { name, signal: "INT".to_owned(), word: "interrupted".to_owned() },
        ),
        Command::Ls { dead, all } => match request_scope(dead, all) {
            Some(scope) => Ok(Action::List { scope }),
            None => Err(TmuyError::DeadAndAllFlags),
        },
        Command::Tail { name, raw, follow } => Ok(Action::Tail { name, raw, follow }),
        Command::Events { name, jsonl, follow } => Ok(Action::Events { name, jsonl, follow }),
        Command::Inspect { name } => Ok(Action::Inspect { name }),
        Command::Send { name, no_enter, payload } => {
            let mut bytes = payload;
            maybe_append_enter(&mut bytes, no_enter);
            Ok(Action::Send { name, bytes })
        },
        Command::Rename { name, new_name } => {
            if let Err(e) = validate_name(new_name.as_str()) {
                return Err(e);
            }
            Ok(Action::Rename { name, new_name })
        },
        Command::Wait { name, timeout_secs } => Ok(
            Action::Wait { name, timeout: nanos_of(timeout_secs) },
        ),
        Command::Signal { name, signal } => Ok(
            Action::Signal { name, signal, word: "signaled".to_owned() },
        ),
        Command::Serve { hash } => Ok(Action::Serve { hash }),
        Command::ServeRpc { socket } => Ok(Action::ServeRpc { socket }),
    }
}

} // verus!
