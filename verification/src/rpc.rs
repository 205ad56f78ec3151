//! The control API over a local socket: its requests, what they lead to, and
//! the messages that answer them.

use vstd::prelude::*;

use crate::env_map::EnvMap;
use crate::error::{ErrorView, TmuyError};
use crate::lookup;
use crate::model;
use crate::model::{SessionRecord, SessionScope, StateFile};
use crate::outside;
use crate::path;
use crate::request;
use crate::request::{OrderView, SessionOrder, request_scope, session_request};
use crate::runtime::client;
use crate::runtime::client::split_lines;
use crate::runtime::server;
use crate::store;
use crate::store::{CreateSessionRequest, Store, validate_name};
use crate::text;

verus! {

/// The version of the protocol.
pub const RPC_VERSION: u8 = 1;

/// How long to pause before a followed file is looked at again, in milliseconds.
pub const STREAM_POLL_MILLIS: u64 = 200;

/// A request with the version of the protocol that it is of.
#[derive(Debug)]
pub struct RpcEnvelope {
    pub v: u8,
    pub request: RpcRequest,
}

/// What can be asked for.
#[derive(Debug)]
pub enum RpcRequest {
    Ping,
    Create {
        name: Option<String>,
        cwd: Option<String>,
        fs: Option<Vec<String>>,
        net: Option<String>,
        detach_key: Option<String>,
        command: Option<Vec<String>>,
        env: Option<EnvMap>,
    },
    List { dead: Option<bool>, all: Option<bool> },
    Inspect { target: String },
    Rename { target: String, new_name: String },
    Write { target: String, data_b64: String },
    Signal { target: String, signal: String },
    Wait { target: String, timeout_secs: Option<u64> },
    SubscribeOutput { target: String, follow: Option<bool> },
    SubscribeEvents { target: String, follow: Option<bool> },
}

/// The socket that is served unless another is named.
pub fn default_socket_path(store: &Store) -> (r: String)
    ensures
        r@ == path::path_join(store@, "rpc.sock"@),
{
    path::join(store.base_dir(), "rpc.sock")
}

/// The request in a line, which `parse` reads or says what is wrong with.
pub fn read_request<P: FnOnce(&str) -> Result<RpcEnvelope, String>>(line: &str, parse: P) -> (r:
    Result<RpcRequest, TmuyError>)
    requires
        call_requires(parse, (line,)),
    ensures
        if line@.len() == 0 {
            r is Err && r->Err_0@ == ErrorView::EmptyRequest
        } else {
            exists|read: Result<RpcEnvelope, String>| #[trigger]
                call_ensures(parse, (line,), read) && match read {
                    Err(reason) => r is Err && r->Err_0@ == ErrorView::MalformedRequest(reason@),
                    Ok(envelope) => if envelope.v != RPC_VERSION {
                        r is Err && r->Err_0@ == ErrorView::UnsupportedVersion(envelope.v)
                    } else {
                        r == Ok::<RpcRequest, TmuyError>(envelope.request)
                    },
                }
        },
{
    if text::same_text(line, "") {
        proof {
            reveal_strlit("");
        }
        return Err(TmuyError::EmptyRequest);
    }
    proof {
        reveal_strlit("");
        if line@.len() == 0 {
            assert(line@ =~= ""@);
        }
    }
    match parse(line) {
        Err(reason) => Err(TmuyError::MalformedRequest(reason)),
        Ok(envelope) => {
            if envelope.v != RPC_VERSION {
                return Err(TmuyError::UnsupportedVersion(envelope.v));
            }
            Ok(envelope.request)
        },
    }
}

/// What stands in for what a request leaves out: the directory, the variables
/// and the shell of the server.
#[derive(Debug)]
pub struct RpcDefaults {
    pub cwd: String,
    pub env: EnvMap,
    pub shell: Option<String>,
}

/// A question that the state answers.
#[derive(Debug)]
pub enum RpcQuery {
    Ping,
    List(SessionScope),
    Inspect(String),
}

/// What a request leads to.
#[derive(Debug)]
pub enum RpcAction {
    Ask(RpcQuery),
    Create(CreateSessionRequest),
    Rename { target: String, new_name: String },
    Write { target: String, data: Vec<u8> },
    Signal { target: String, signal: String },
    /// The time is in nanoseconds.
    Wait { target: String, timeout: Option<u128> },
    Output { target: String, follow: bool },
    Events { target: String, follow: bool },
}

/// Seconds in nanoseconds.
pub open spec fn nanos(secs: Option<u64>) -> Option<u128> {
    match secs {
        Some(n) => Some((n * 1_000_000_000) as u128),
        None => None,
    }
}

/// Seconds in nanoseconds.
pub fn nanos_of(secs: Option<u64>) -> (r: Option<u128>)
    ensures
        r == nanos(secs),
{
    match secs {
        Some(n) => Some(n as u128 * 1_000_000_000),
        None => None,
    }
}

/// The session that a request to create one is for.
pub open spec fn created_order(
    name: Option<String>,
    cwd: Option<String>,
    fs: Option<Vec<String>>,
    net: Option<String>,
    detach_key: Option<String>,
    command: Option<Vec<String>>,
    env: Option<EnvMap>,
    defaults: RpcDefaults,
) -> OrderView {
    OrderView {
        name: text::opt_text(name),
        cwd: match cwd {
            Some(cwd) => cwd@,
            None => defaults.cwd@,
        },
        fs: match fs {
            Some(fs) => text::texts(fs@),
            None => Seq::empty(),
        },
        net: text::opt_text(net),
        detach_key: match detach_key {
            Some(key) => key@,
            None => "C-b d"@,
        },
        command: match command {
            Some(command) => text::texts(command@),
            None => Seq::empty(),
        },
        env: match env {
            Some(env) => env@,
            None => defaults.env@,
        },
        shell: text::opt_text(defaults.shell),
    }
}

/// Whether an optional flag is set, where one that is left out stands for `default`.
pub open spec fn flag_or(flag: Option<bool>, default: bool) -> bool {
    match flag {
        Some(set) => set,
        None => default,
    }
}

/// What a request leads to, or what is wrong with it.
pub fn plan_request(rpc: RpcRequest, defaults: RpcDefaults) -> (r: Result<RpcAction, TmuyError>)
    ensures
        match rpc {
            RpcRequest::Ping => r == Ok::<RpcAction, TmuyError>(RpcAction::Ask(RpcQuery::Ping)),
            RpcRequest::Create { name, cwd, fs, net, detach_key, command, env } => {
                let order = created_order(
                    name,
                    cwd,
                    fs,
                    net,
                    detach_key,
                    command,
                    env,
                    defaults,
                );
                match (request::requested(order), r) {
                    (Ok(wanted), Ok(RpcAction::Create(req))) => req@ == wanted,
                    (Err(e), Err(err)) => err@ == e,
                    _ => false,
                }
            },
            RpcRequest::List { dead, all } => match request::scope_of(
                flag_or(dead, false),
                flag_or(all, false),
            ) {
                Some(scope) => r == Ok::<RpcAction, TmuyError>(
                    RpcAction::Ask(RpcQuery::List(scope)),
                ),
                None => r is Err && r->Err_0@ == ErrorView::DeadAndAll,
            },
            RpcRequest::Inspect { target } => r == Ok::<RpcAction, TmuyError>(
                RpcAction::Ask(RpcQuery::Inspect(target)),
            ),
            RpcRequest::Rename { target, new_name } => match store::name_error(new_name@) {
                Some(e) => r is Err && r->Err_0@ == e,
                None => r == Ok::<RpcAction, TmuyError>(RpcAction::Rename { target, new_name }),
            },
            RpcRequest::Write { target, data_b64 } => match outside::base64_bytes_of(data_b64@) {
                None => r is Err && r->Err_0@ == ErrorView::InvalidData,
                Some(bytes) => r matches Ok(RpcAction::Write { target: t, data }) && t == target
                    && data@ == bytes,
            },
            RpcRequest::Signal { target, signal } => r == Ok::<RpcAction, TmuyError>(
                RpcAction::Signal { target, signal },
            ),
            RpcRequest::Wait { target, timeout_secs } => r == Ok::<RpcAction, TmuyError>(
                RpcAction::Wait { target, timeout: nanos(timeout_secs) },
            ),
            RpcRequest::SubscribeOutput { target, follow } => r == Ok::<RpcAction, TmuyError>(
                RpcAction::Output { target, follow: flag_or(follow, true) },
            ),
            RpcRequest::SubscribeEvents { target, follow } => r == Ok::<RpcAction, TmuyError>(
                RpcAction::Events { target, follow: flag_or(follow, true) },
            ),
        },
{
    match rpc {
        RpcRequest::Ping => Ok(RpcAction::Ask(RpcQuery::Ping)),
        RpcRequest::Create { name, cwd, fs, net, detach_key, command, env } => {
            let fs = match fs {
                Some(fs) => fs,
                None => Vec::new(),
            };
            let command = match command {
                Some(command) => command,
                None => Vec::new(),
            };
            let order = SessionOrder {
                name,
                cwd: match cwd {
                    Some(cwd) => cwd,
                    None => defaults.cwd,
                },
                fs,
                net,
                detach_key: match detach_key {
                    Some(key) => key,
                    None => "C-b d".to_owned(),
                },
                command,
                env: match env {
                    Some(env) => env,
                    None => defaults.env,
                },
                shell: defaults.shell,
            };
            proof {
                assert(text::texts(Seq::<String>::empty()) =~= Seq::empty());
            }
            match session_request(order) {
                Ok(req) => Ok(RpcAction::Create(req)),
                Err(e) => Err(e),
            }
        },
        RpcRequest::List { dead, all } => {
            let dead = match dead {
                Some(dead) => dead,
                None => false,
            };
            let all = match all {
                Some(all) => all,
                None => false,
            };
            match request_scope(dead, all) {
                Some(scope) => Ok(RpcAction::Ask(RpcQuery::List(scope))),
                None => Err(TmuyError::DeadAndAll),
            }
        },
        RpcRequest::Inspect { target } => Ok(RpcAction::Ask(RpcQuery::Inspect(target))),
        RpcRequest::Rename { target, new_name } => {
            if let Err(e) = validate_name(new_name.as_str()) {
                return Err(e);
            }
            Ok(RpcAction::Rename { target, new_name })
        },
        RpcRequest::Write { target, data_b64 } => match outside::base64_decode(data_b64.as_str()) {
            Ok(data) => Ok(RpcAction::Write { target, data }),
            Err(_) => Err(TmuyError::InvalidData),
        },
        RpcRequest::Signal { target, signal } => Ok(RpcAction::Signal { target, signal }),
        RpcRequest::Wait { target, timeout_secs } => Ok(
            RpcAction::Wait { target, timeout: nanos_of(timeout_secs) },
        ),
        RpcRequest::SubscribeOutput { target, follow } => Ok(
            RpcAction::Output {
                target,
                follow: match follow {
                    Some(follow) => follow,
                    None => true,
                },
            },
        ),
        RpcRequest::SubscribeEvents { target, follow } => Ok(
            RpcAction::Events {
                target,
                follow: match follow {
                    Some(follow) => follow,
                    None => true,
                },
            },
        ),
    }
}

/// The result of a request.
#[derive(Debug)]
pub enum RpcReply {
    Version(u8),
    Done,
    Session(SessionRecord),
    Sessions(Vec<SessionRecord>),
}

/// Answers a question from the state.
pub fn answer(store: &Store, state: &StateFile, query: &RpcQuery) -> (r: Result<
    RpcReply,
    TmuyError,
>)
    ensures
        match query {
            RpcQuery::Ping => r == Ok::<RpcReply, TmuyError>(RpcReply::Version(RPC_VERSION)),
            RpcQuery::List(scope) => r matches Ok(RpcReply::Sessions(sessions))
                && lookup::is_listing(
                model::session_views(sessions@),
                state@.sessions.filter(lookup::in_scope(*scope)),
            ),
            RpcQuery::Inspect(target) => match (
                lookup::session_targeted(state@.sessions, target@, SessionScope::All),
                r,
            ) {
                (Ok(session), Ok(RpcReply::Session(found))) => found@ == session,
                (Err(e), Err(error)) => error@ == e,
                _ => false,
            },
        },
{
    match query {
        RpcQuery::Ping => Ok(RpcReply::Version(RPC_VERSION)),
        RpcQuery::List(scope) => Ok(RpcReply::Sessions(store.list_sessions(state, *scope))),
        RpcQuery::Inspect(target) => match store.resolve_target(
            state,
            target.as_str(),
            SessionScope::All,
        ) {
            Ok(session) => Ok(RpcReply::Session(session)),
            Err(e) => Err(e),
        },
    }
}

/// The `data_b64` of a piece of output. Decoding it gives the bytes back.
pub fn output_data(bytes: &[u8]) -> (r: String)
    requires
        bytes@.len() <= usize::MAX / 4,
    ensures
        r@ == outside::base64_of(bytes@),
        outside::base64_bytes_of(r@) == Some(bytes@),
{
    outside::base64_encode(bytes)
}

/// Whether reading the line as an event ended as given.
pub open spec fn parsed_as<M, E, F: Fn(&[u8]) -> Result<M, E>>(
    parse: F,
    line: Seq<u8>,
    r: Result<M, E>,
) -> bool {
    exists|l: &[u8]| l@ == line && #[trigger] call_ensures(parse, (l,), r)
}

/// The lines that are not empty.
pub open spec fn filled(lines: Seq<Seq<u8>>) -> Seq<Seq<u8>> {
    lines.filter(|line: Seq<u8>| line.len() > 0)
}

/// Whether the messages are those for the lines, in order.
pub open spec fn messages_for<M, E, F: Fn(&[u8]) -> Result<M, E>>(
    parse: F,
    lines: Seq<Seq<u8>>,
    messages: Seq<M>,
) -> bool {
    &&& messages.len() == lines.len()
    &&& forall|i: int|
        0 <= i < lines.len() ==> parsed_as(parse, #[trigger] lines[i], Ok::<M, E>(messages[i]))
}

/// Appends a message for each complete line of `pending` that is not empty, and
/// leaves there what stands behind the last newline. Where a line cannot be
/// read, the messages for the lines before it have been appended and `pending`
/// is left as it was.
pub fn flush_event_messages<M, E, F: Fn(&[u8]) -> Result<M, E>>(
    pending: &mut Vec<u8>,
    parse: &F,
    out: &mut Vec<M>,
) -> (r: Result<(), E>)
    requires
        forall|l: &[u8]| #[trigger] call_requires(*parse, (l,)),
    ensures
        old(out)@.is_prefix_of(final(out)@),
        ({
            let lines = client::lines_of(old(pending)@);
            let added = final(out)@.skip(old(out)@.len() as int);
            match r {
                Ok(()) => final(pending)@ == lines.rest && messages_for::<M, E, F>(
                    *parse,
                    filled(lines.done),
                    added,
                ),
                Err(e) => final(pending)@ == old(pending)@ && exists|n: int|
                    0 <= n < lines.done.len() && lines.done[n].len() > 0 && parsed_as(
                        *parse,
                        lines.done[n],
                        Err::<M, E>(e),
                    ) && messages_for::<M, E, F>(
                        *parse,
                        filled(#[trigger] lines.done.take(n)),
                        added,
                    ),
            }
        }),
{
    let (lines, rest) = split_lines(pending);
    let ghost before = out@;
    let ghost done = client::lines_of(pending@).done;
    let ghost keep = |line: Seq<u8>| line.len() > 0;
    let mut i: usize = 0;
    proof {
        reveal(Seq::filter);
        assert(filled(done.take(0)) =~= Seq::empty());
        assert(out@.skip(before.len() as int) =~= Seq::empty());
    }
    while i < lines.len()
        invariant
            i <= lines@.len(),
            done == client::byte_lists(lines@),
            done == client::lines_of(pending@).done,
            *pending == *old(pending),
            before == old(out)@,
            keep == (|line: Seq<u8>| line.len() > 0),
            forall|l: &[u8]| #[trigger] call_requires(*parse, (l,)),
            before.is_prefix_of(out@),
            messages_for::<M, E, F>(
                *parse,
                filled(done.take(i as int)),
                out@.skip(before.len() as int),
            ),
        decreases lines@.len() - i,
    {
        proof {
            reveal(Seq::filter);
            assert(done[i as int] == lines@[i as int]@);
            assert(done.take(i + 1).drop_last() =~= done.take(i as int));
            assert(done.take(i + 1).last() == done[i as int]);
        }
        if lines[i].len() > 0 {
            let ghost so_far = out@;
            match parse(lines[i].as_slice()) {
                Ok(message) => {
                    out.push(message);
                    proof {
                        assert(parsed_as(*parse, done[i as int], Ok::<M, E>(message)));
                        let added = so_far.skip(before.len() as int);
                        assert(out@.skip(before.len() as int) =~= added.push(message));
                        assert(before =~= out@.subrange(0, before.len() as int)) by {
                            assert(before =~= so_far.subrange(0, before.len() as int));
                        }
                        let f = filled(done.take(i as int));
                        assert(filled(done.take(i + 1)) =~= f.push(done[i as int]));
                        assert forall|k: int| 0 <= k < f.len() + 1 implies parsed_as(
                            *parse,
                            #[trigger] f.push(done[i as int])[k],
                            Ok::<M, E>(added.push(message)[k]),
                        ) by {
                            if k < f.len() {
                                assert(parsed_as(*parse, f[k], Ok::<M, E>(added[k])));
                            }
                        }
                    }
                },
                Err(e) => {
                    proof {
                        assert(parsed_as(*parse, done[i as int], Err::<M, E>(e)));
                        assert(done.take(i as int) == done.take(i as int));
                    }
                    return Err(e);
                },
            }
        } else {
            assert(filled(done.take(i + 1)) =~= filled(done.take(i as int)));
        }
        i = i + 1;
    }
    assert(done.take(i as int) =~= done);
    *pending = rest;
    Ok(())
}

/// The output that a subscriber decodes is the output of the session, byte for
/// byte, however it was cut into messages.
pub proof fn output_messages_preserve_bytes(pieces: Seq<Seq<u8>>, messages: Seq<Seq<char>>)
    requires
        pieces.len() == messages.len(),
        forall|i: int|
            0 <= i < pieces.len() ==> outside::base64_bytes_of(#[trigger] messages[i]) == Some(
                pieces[i],
            ),
    ensures
        decoded_output(messages) == server::whole_output(pieces),
    decreases pieces.len(),
{
    if pieces.len() > 0 {
        output_messages_preserve_bytes(pieces.drop_last(), messages.drop_last());
        assert(outside::base64_bytes_of(messages[messages.len() - 1]) == Some(
            pieces[pieces.len() - 1],
        ));
    }
}

/// What a subscriber decodes from the messages, one after the other.
pub open spec fn decoded_output(messages: Seq<Seq<char>>) -> Seq<u8>
    decreases messages.len(),
{
    if messages.len() == 0 {
        Seq::empty()
    } else {
        decoded_output(messages.drop_last()) + outside::base64_bytes_of(messages.last())->0
    }
}

} // verus!
