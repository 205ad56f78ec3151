//! What a new session is asked for with, from the command line or over the socket.

use vstd::prelude::*;

use crate::env_map::EnvMap;
use crate::error::{ErrorView, TmuyError};
use crate::model::{CommandMode, SessionScope};
use crate::runtime::daemon;
use crate::runtime::daemon::default_shell_command;
use crate::store;
use crate::store::{CreateSessionRequest, RequestView, parse_sandbox, validate_name};
use crate::text;

verus! {

/// What is asked for, before it is checked.
#[derive(Debug)]
pub struct SessionOrder {
    pub name: Option<String>,
    pub cwd: String,
    pub fs: Vec<String>,
    pub net: Option<String>,
    pub detach_key: String,
    pub command: Vec<String>,
    pub env: EnvMap,
    pub shell: Option<String>,
}

/// What is asked for, with the strings as text.
pub struct OrderView {
    pub name: Option<Seq<char>>,
    pub cwd: Seq<char>,
    pub fs: Seq<Seq<char>>,
    pub net: Option<Seq<char>>,
    pub detach_key: Seq<char>,
    pub command: Seq<Seq<char>>,
    pub env: Map<Seq<char>, Seq<char>>,
    pub shell: Option<Seq<char>>,
}

impl View for SessionOrder {
    type V = OrderView;

    open spec fn view(&self) -> OrderView {
        OrderView {
            name: text::opt_text(self.name),
            cwd: self.cwd@,
            fs: text::texts(self.fs@),
            net: text::opt_text(self.net),
            detach_key: self.detach_key@,
            command: text::texts(self.command@),
            env: self.env@,
            shell: text::opt_text(self.shell),
        }
    }
}

/// The request for a session, or what is wrong with its name or its sandbox.
/// Without a command it is for the user's shell.
pub open spec fn requested(order: OrderView) -> Result<RequestView, ErrorView> {
    let wrong_name = match order.name {
        Some(name) => store::name_error(name),
        None => None,
    };
    match (wrong_name, store::sandbox_of(order.fs, order.net, order.cwd)) {
        (Some(e), _) => Err(e),
        (None, Err(e)) => Err(e),
        (None, Ok(sandbox)) => Ok(
            RequestView {
                explicit_name: order.name,
                cwd: order.cwd,
                command: if order.command.len() == 0 {
                    daemon::shell_command(order.shell)
                } else {
                    order.command
                },
                mode: if order.command.len() == 0 {
                    CommandMode::Shell
                } else {
                    CommandMode::OneShot
                },
                sandbox,
                detach_key: order.detach_key,
                env: order.env,
            },
        ),
    }
}

/// The request for a session.
pub fn session_request(order: SessionOrder) -> (r: Result<CreateSessionRequest, TmuyError>)
    ensures
        match r {
            Ok(req) => requested(order@) == Ok::<RequestView, ErrorView>(req@),
            Err(e) => requested(order@) == Err::<RequestView, ErrorView>(e@),
        },
{
    if let Some(name) = &order.name {
        if let Err(e) = validate_name(name.as_str()) {
            return Err(e);
        }
    }
    let net = match &order.net {
        Some(net) => Some(net.as_str()),
        None => None,
    };
    let sandbox = match parse_sandbox(order.fs.as_slice(), net, order.cwd.as_str()) {
        Ok(sandbox) => sandbox,
        Err(e) => {
            return Err(e);
        },
    };
    assert(text::texts(order.command@).len() == order.command@.len());
    let (mode, command) = if order.command.len() == 0 {
        (CommandMode::Shell, default_shell_command(order.shell))
    } else {
        (CommandMode::OneShot, order.command)
    };
    Ok(
        CreateSessionRequest {
            explicit_name: order.name,
            cwd: order.cwd,
            command,
            mode,
            sandbox,
            detach_key: order.detach_key,
            env: order.env,
        },
    )
}

/// The sessions that a request is about that may ask for the dead ones or for all.
pub open spec fn scope_of(dead: bool, all: bool) -> Option<SessionScope> {
    if dead && all {
        None
    } else if all {
        Some(SessionScope::All)
    } else if dead {
        Some(SessionScope::DeadOnly)
    } else {
        Some(SessionScope::LiveOnly)
    }
}

/// The sessions that a request is about. It cannot be for the dead ones and for all.
pub fn request_scope(dead: bool, all: bool) -> (r: Option<SessionScope>)
    ensures
        r == scope_of(dead, all),
{
    if dead && all {
        None
    } else if all {
        Some(SessionScope::All)
    } else if dead {
        Some(SessionScope::DeadOnly)
    } else {
        Some(SessionScope::LiveOnly)
    }
}

} // verus!
