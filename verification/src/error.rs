//! What can go wrong, and how it is put into words.

use vstd::prelude::*;

use crate::text;
use crate::text::{decimal_text, joined, joined3, optional_code_text, push_text};

verus! {

/// What can go wrong.
#[derive(Debug)]
pub enum TmuyError {
    /// A session name is empty.
    EmptyName,
    /// A session name holds a character that names cannot have.
    InvalidName,
    /// A live session has the name already.
    LiveNameExists(String),
    /// No session has the hash.
    UnknownHash(String),
    /// No session in question has the name.
    UnknownTarget(String),
    /// Several sessions in question have the name.
    AmbiguousTarget(String),
    /// The target is the hash of one session and the name of another.
    AmbiguousHashAndName { target: String, hash_ref: String, name_ref: String },
    /// There is no home directory to keep the state in.
    NoHome,
    /// The state at the path is not what it should be.
    UnreadableState(String),
    /// A network mode is neither on nor off.
    InvalidNet(String),
    /// The grant of everything stands beside another grant.
    MixedGrants,
    /// A grant has no colon and is not the grant of everything.
    InvalidFs(String),
    /// A grant is neither for reading nor for writing.
    InvalidFsMode(String),
    /// A session has no command to run.
    NoCommand,
    /// A session's directory lies in none of its grants.
    CwdNotGranted(String),
    /// A path is not UTF-8.
    NonUtf8Path(String),
    /// The platform cannot host a session of this sandbox.
    SandboxUnsupported(String),
    /// The platform cannot restrict a session.
    SandboxNotImplemented,
    /// A client asked for something unknown.
    UnknownClientMode(u8),
    /// A detach key has no tokens.
    EmptyDetachKey,
    /// A token stands for no control key.
    InvalidControlKey(String),
    /// A token stands for no key.
    InvalidDetachKey(String),
    /// A signal has no such name.
    UnsupportedSignal(String),
    /// A session has no process to signal.
    NoChildPid(String),
    /// A session did not exit in time.
    WaitTimedOut(String),
    /// A session failed to start, for the recorded reason.
    StartFailed(String),
    /// A session failed to start, and no reason was recorded.
    StartFailedUnexplained,
    /// The process that hosts a session exited too early.
    ServiceExited(Option<i32>),
    /// A session did not become ready in time.
    ReadyTimedOut(String),
    /// A request is for the dead sessions and for all of them.
    DeadAndAll,
    /// The flags ask for the dead sessions and for all of them.
    DeadAndAllFlags,
    /// A payload is not base64.
    InvalidData,
    /// A connection closed without a request.
    EmptyRequest,
    /// A request cannot be read, for the given reason.
    MalformedRequest(String),
    /// A request is of another version of the protocol.
    UnsupportedVersion(u8),
    /// The caller runs inside a session itself.
    InsideSession(String),
}

/// What can go wrong, with the strings as text.
#[verifier::ext_equal]
pub enum ErrorView {
    EmptyName,
    InvalidName,
    LiveNameExists(Seq<char>),
    UnknownHash(Seq<char>),
    UnknownTarget(Seq<char>),
    AmbiguousTarget(Seq<char>),
    AmbiguousHashAndName { target: Seq<char>, hash_ref: Seq<char>, name_ref: Seq<char> },
    NoHome,
    UnreadableState(Seq<char>),
    InvalidNet(Seq<char>),
    MixedGrants,
    InvalidFs(Seq<char>),
    InvalidFsMode(Seq<char>),
    NoCommand,
    CwdNotGranted(Seq<char>),
    NonUtf8Path(Seq<char>),
    SandboxUnsupported(Seq<char>),
    SandboxNotImplemented,
    UnknownClientMode(u8),
    EmptyDetachKey,
    InvalidControlKey(Seq<char>),
    InvalidDetachKey(Seq<char>),
    UnsupportedSignal(Seq<char>),
    NoChildPid(Seq<char>),
    WaitTimedOut(Seq<char>),
    StartFailed(Seq<char>),
    StartFailedUnexplained,
    ServiceExited(Option<i32>),
    ReadyTimedOut(Seq<char>),
    DeadAndAll,
    DeadAndAllFlags,
    InvalidData,
    EmptyRequest,
    MalformedRequest(Seq<char>),
    UnsupportedVersion(u8),
    InsideSession(Seq<char>),
}

impl View for TmuyError {
    type V = ErrorView;

    open spec fn view(&self) -> ErrorView {
        match self {
            TmuyError::EmptyName => ErrorView::EmptyName,
            TmuyError::InvalidName => ErrorView::InvalidName,
            TmuyError::LiveNameExists(text) => ErrorView::LiveNameExists(text@),
            TmuyError::UnknownHash(text) => ErrorView::UnknownHash(text@),
            TmuyError::UnknownTarget(text) => ErrorView::UnknownTarget(text@),
            TmuyError::AmbiguousTarget(text) => ErrorView::AmbiguousTarget(text@),
            TmuyError::AmbiguousHashAndName { target, hash_ref, name_ref } => {
                ErrorView::AmbiguousHashAndName {
                    target: target@,
                    hash_ref: hash_ref@,
                    name_ref: name_ref@,
                }
            },
            TmuyError::NoHome => ErrorView::NoHome,
            TmuyError::UnreadableState(text) => ErrorView::UnreadableState(text@),
            TmuyError::InvalidNet(text) => ErrorView::InvalidNet(text@),
            TmuyError::MixedGrants => ErrorView::MixedGrants,
            TmuyError::InvalidFs(text) => ErrorView::InvalidFs(text@),
            TmuyError::InvalidFsMode(text) => ErrorView::InvalidFsMode(text@),
            TmuyError::NoCommand => ErrorView::NoCommand,
            TmuyError::CwdNotGranted(text) => ErrorView::CwdNotGranted(text@),
            TmuyError::NonUtf8Path(text) => ErrorView::NonUtf8Path(text@),
            TmuyError::SandboxUnsupported(text) => ErrorView::SandboxUnsupported(text@),
            TmuyError::SandboxNotImplemented => ErrorView::SandboxNotImplemented,
            TmuyError::UnknownClientMode(byte) => ErrorView::UnknownClientMode(*byte),
            TmuyError::EmptyDetachKey => ErrorView::EmptyDetachKey,
            TmuyError::InvalidControlKey(text) => ErrorView::InvalidControlKey(text@),
            TmuyError::InvalidDetachKey(text) => ErrorView::InvalidDetachKey(text@),
            TmuyError::UnsupportedSignal(text) => ErrorView::UnsupportedSignal(text@),
            TmuyError::NoChildPid(text) => ErrorView::NoChildPid(text@),
            TmuyError::WaitTimedOut(text) => ErrorView::WaitTimedOut(text@),
            TmuyError::StartFailed(text) => ErrorView::StartFailed(text@),
            TmuyError::StartFailedUnexplained => ErrorView::StartFailedUnexplained,
            TmuyError::ServiceExited(code) => ErrorView::ServiceExited(*code),
            TmuyError::ReadyTimedOut(text) => ErrorView::ReadyTimedOut(text@),
            TmuyError::DeadAndAll => ErrorView::DeadAndAll,
            TmuyError::DeadAndAllFlags => ErrorView::DeadAndAllFlags,
            TmuyError::InvalidData => ErrorView::InvalidData,
            TmuyError::EmptyRequest => ErrorView::EmptyRequest,
            TmuyError::MalformedRequest(text) => ErrorView::MalformedRequest(text@),
            TmuyError::UnsupportedVersion(byte) => ErrorView::UnsupportedVersion(*byte),
            TmuyError::InsideSession(text) => ErrorView::InsideSession(text@),
        }
    }
}

impl ErrorView {
    /// The words for what went wrong.
    pub open spec fn message(self) -> Seq<char> {
        match self {
            ErrorView::EmptyName => "session name cannot be empty"@,
            ErrorView::InvalidName => {
                "session names may only contain ASCII letters, numbers, '.', '-' and '_'"@
            },
            ErrorView::LiveNameExists(text) => "live session name already exists: "@ + text,
            ErrorView::UnknownHash(text) => "unknown session hash: "@ + text,
            ErrorView::UnknownTarget(text) => "unknown session target: "@ + text,
            ErrorView::AmbiguousTarget(text) => "ambiguous session target: "@ + text
                + "; use a unique current name or the stable session hash"@,
            ErrorView::AmbiguousHashAndName { target, hash_ref, name_ref } => {
                "ambiguous session target: "@ + target + "; it matches hash "@ + hash_ref
                    + " and name "@ + name_ref
            },
            ErrorView::NoHome => "could not determine home directory"@,
            ErrorView::UnreadableState(text) => "failed to parse "@ + text,
            ErrorView::InvalidNet(text) => "invalid --net value: "@ + text + "; use on|off"@,
            ErrorView::MixedGrants => "--fs full cannot be mixed with ro:/rw: grants"@,
            ErrorView::InvalidFs(text) => "invalid --fs value: "@ + text
                + "; use full|ro:<path>|rw:<path>"@,
            ErrorView::InvalidFsMode(text) => "invalid --fs mode: "@ + text
                + "; use full|ro:<path>|rw:<path>"@,
            ErrorView::NoCommand => "session has no command configured"@,
            ErrorView::CwdNotGranted(text) => "sandbox cwd "@ + text
                + " is not covered by any --fs grant; use --fs ro:. or --fs rw:. from that directory, or cd into a granted directory first"@,
            ErrorView::NonUtf8Path(text) => "non-utf8 paths are not supported yet: "@ + text,
            ErrorView::SandboxUnsupported(text) => {
                "sandbox enforcement beyond default full-access is not implemented yet for tmuy; requested "@
                    + text
            },
            ErrorView::SandboxNotImplemented => {
                "non-default sandbox is not implemented on this platform yet"@
            },
            ErrorView::UnknownClientMode(byte) => "unknown client mode byte: "@
                + text::decimal(byte as nat),
            ErrorView::EmptyDetachKey => "detach key cannot be empty"@,
            ErrorView::InvalidControlKey(text) => "invalid control key token: "@ + text,
            ErrorView::InvalidDetachKey(text) => "invalid detach key token: "@ + text,
            ErrorView::UnsupportedSignal(text) => "unsupported signal: "@ + text,
            ErrorView::NoChildPid(text) => "session has no child pid yet: "@ + text,
            ErrorView::WaitTimedOut(text) => "timed out waiting for session to exit: "@ + text,
            ErrorView::StartFailed(text) => text,
            ErrorView::StartFailedUnexplained => "session failed to start"@,
            ErrorView::ServiceExited(code) => {
                "tmuy session service exited before session became ready: "@
                    + text::optional_code(code)
            },
            ErrorView::ReadyTimedOut(text) => "timed out waiting for session to become ready: "@
                + text,
            ErrorView::DeadAndAll => "dead and all cannot both be true"@,
            ErrorView::DeadAndAllFlags => "--dead and --all are mutually exclusive"@,
            ErrorView::InvalidData => "invalid data_b64 payload"@,
            ErrorView::EmptyRequest => "empty rpc request"@,
            ErrorView::MalformedRequest(text) => text,
            ErrorView::UnsupportedVersion(byte) => "unsupported rpc version "@
                + text::decimal(byte as nat) + "; expected 1"@,
            ErrorView::InsideSession(text) => "cannot attach from inside tmuy session "@ + text
                + "; detach first or create the new session with --detached"@,
        }
    }
}

impl TmuyError {
    /// The words for what went wrong.
    pub fn message(&self) -> (r: String)
        ensures
            r@ == self@.message(),
    {
        match self {
            TmuyError::EmptyName => "session name cannot be empty".to_owned(),
            TmuyError::InvalidName => {
                "session names may only contain ASCII letters, numbers, '.', '-' and '_'".to_owned()
            },
            TmuyError::LiveNameExists(text) => joined(
                "live session name already exists: ",
                text.as_str(),
            ),
            TmuyError::UnknownHash(text) => joined("unknown session hash: ", text.as_str()),
            TmuyError::UnknownTarget(text) => joined("unknown session target: ", text.as_str()),
            TmuyError::AmbiguousTarget(text) => joined3(
                "ambiguous session target: ",
                text.as_str(),
                "; use a unique current name or the stable session hash",
            ),
            TmuyError::AmbiguousHashAndName { target, hash_ref, name_ref } => {
                let mut out = joined3(
                    "ambiguous session target: ",
                    target.as_str(),
                    "; it matches hash ",
                );
                push_text(&mut out, hash_ref.as_str());
                push_text(&mut out, " and name ");
                push_text(&mut out, name_ref.as_str());
                out
            },
            TmuyError::NoHome => "could not determine home directory".to_owned(),
            TmuyError::UnreadableState(text) => joined("failed to parse ", text.as_str()),
            TmuyError::InvalidNet(text) => joined3(
                "invalid --net value: ",
                text.as_str(),
                "; use on|off",
            ),
            TmuyError::MixedGrants => "--fs full cannot be mixed with ro:/rw: grants".to_owned(),
            TmuyError::InvalidFs(text) => joined3(
                "invalid --fs value: ",
                text.as_str(),
                "; use full|ro:<path>|rw:<path>",
            ),
            TmuyError::InvalidFsMode(text) => joined3(
                "invalid --fs mode: ",
                text.as_str(),
                "; use full|ro:<path>|rw:<path>",
            ),
            TmuyError::NoCommand => "session has no command configured".to_owned(),
            TmuyError::CwdNotGranted(text) => joined3(
                "sandbox cwd ",
                text.as_str(),
                " is not covered by any --fs grant; use --fs ro:. or --fs rw:. from that directory, or cd into a granted directory first",
            ),
            TmuyError::NonUtf8Path(text) => joined(
                "non-utf8 paths are not supported yet: ",
                text.as_str(),
            ),
            TmuyError::SandboxUnsupported(text) => joined(
                "sandbox enforcement beyond default full-access is not implemented yet for tmuy; requested ",
                text.as_str(),
            ),
            TmuyError::SandboxNotImplemented => {
                "non-default sandbox is not implemented on this platform yet".to_owned()
            },
            TmuyError::UnknownClientMode(byte) => joined(
                "unknown client mode byte: ",
                decimal_text(*byte as u64).as_str(),
            ),
            TmuyError::EmptyDetachKey => "detach key cannot be empty".to_owned(),
            TmuyError::InvalidControlKey(text) => joined(
                "invalid control key token: ",
                text.as_str(),
            ),
            TmuyError::InvalidDetachKey(text) => joined(
                "invalid detach key token: ",
                text.as_str(),
            ),
            TmuyError::UnsupportedSignal(text) => joined("unsupported signal: ", text.as_str()),
            TmuyError::NoChildPid(text) => joined("session has no child pid yet: ", text.as_str()),
            TmuyError::WaitTimedOut(text) => joined(
                "timed out waiting for session to exit: ",
                text.as_str(),
            ),
            TmuyError::StartFailed(text) => text.clone(),
            TmuyError::StartFailedUnexplained => "session failed to start".to_owned(),
            TmuyError::ServiceExited(code) => joined(
                "tmuy session service exited before session became ready: ",
                optional_code_text(*code).as_str(),
            ),
            TmuyError::ReadyTimedOut(text) => joined(
                "timed out waiting for session to become ready: ",
                text.as_str(),
            ),
            TmuyError::DeadAndAll => "dead and all cannot both be true".to_owned(),
            TmuyError::DeadAndAllFlags => "--dead and --all are mutually exclusive".to_owned(),
            TmuyError::InvalidData => "invalid data_b64 payload".to_owned(),
            TmuyError::EmptyRequest => "empty rpc request".to_owned(),
            TmuyError::MalformedRequest(text) => text.clone(),
            TmuyError::UnsupportedVersion(byte) => joined3(
                "unsupported rpc version ",
                decimal_text(*byte as u64).as_str(),
                "; expected 1",
            ),
            TmuyError::InsideSession(text) => joined3(
                "cannot attach from inside tmuy session ",
                text.as_str(),
                "; detach first or create the new session with --detached",
            ),
        }
    }
}

} // verus!
