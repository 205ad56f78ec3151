//! What holds of errors: that they say what went wrong, and name what it was.

use vstd::prelude::*;

use crate::error::{ErrorView, TmuyError};
use crate::text;

verus! {

/// What is wrong with a name or a target is told with that name or target.
pub proof fn sessions_that_cannot_be_named_or_found_are_told(
    words: Seq<char>,
    target: Seq<char>,
    hash_ref: Seq<char>,
    name_ref: Seq<char>,
)
    ensures
        ErrorView::EmptyName.message() == "session name cannot be empty"@,
        ErrorView::InvalidName.message()
            == "session names may only contain ASCII letters, numbers, '.', '-' and '_'"@,
        ErrorView::LiveNameExists(words).message() == "live session name already exists: "@
            + words,
        ErrorView::UnknownHash(words).message() == "unknown session hash: "@ + words,
        ErrorView::UnknownTarget(words).message() == "unknown session target: "@ + words,
        ErrorView::AmbiguousTarget(words).message() == "ambiguous session target: "@ + words
            + "; use a unique current name or the stable session hash"@,
        (ErrorView::AmbiguousHashAndName { target, hash_ref, name_ref }).message()
            == "ambiguous session target: "@ + target + "; it matches hash "@ + hash_ref
            + " and name "@ + name_ref,
        ErrorView::NoHome.message() == "could not determine home directory"@,
        ErrorView::UnreadableState(words).message() == "failed to parse "@ + words,
{
}

/// What is wrong with a sandbox or a command is told with what was asked for.
pub proof fn sandboxes_that_cannot_be_had_are_told(words: Seq<char>)
    ensures
        ErrorView::InvalidNet(words).message() == "invalid --net value: "@ + words
            + "; use on|off"@,
        ErrorView::MixedGrants.message() == "--fs full cannot be mixed with ro:/rw: grants"@,
        ErrorView::InvalidFs(words).message() == "invalid --fs value: "@ + words
            + "; use full|ro:<path>|rw:<path>"@,
        ErrorView::InvalidFsMode(words).message() == "invalid --fs mode: "@ + words
            + "; use full|ro:<path>|rw:<path>"@,
        ErrorView::NoCommand.message() == "session has no command configured"@,
        ErrorView::CwdNotGranted(words).message() == "sandbox cwd "@ + words
            + " is not covered by any --fs grant; use --fs ro:. or --fs rw:. from that directory, or cd into a granted directory first"@,
        ErrorView::NonUtf8Path(words).message() == "non-utf8 paths are not supported yet: "@
            + words,
        ErrorView::SandboxUnsupported(words).message()
            == "sandbox enforcement beyond default full-access is not implemented yet for tmuy; requested "@
            + words,
        ErrorView::SandboxNotImplemented.message()
            == "non-default sandbox is not implemented on this platform yet"@,
{
}

/// What is wrong with a detach key, a signal or a client is told with what was given.
pub proof fn keys_and_signals_that_are_not_known_are_told(words: Seq<char>, byte: u8)
    ensures
        ErrorView::UnknownClientMode(byte).message() == "unknown client mode byte: "@
            + text::decimal(byte as nat),
        ErrorView::EmptyDetachKey.message() == "detach key cannot be empty"@,
        ErrorView::InvalidControlKey(words).message() == "invalid control key token: "@ + words,
        ErrorView::InvalidDetachKey(words).message() == "invalid detach key token: "@ + words,
        ErrorView::UnsupportedSignal(words).message() == "unsupported signal: "@ + words,
        ErrorView::NoChildPid(words).message() == "session has no child pid yet: "@ + words,
{
}

/// Why a wait or a start failed is told, with the session or the reason.
pub proof fn waits_that_failed_are_told(words: Seq<char>, code: Option<i32>)
    ensures
        ErrorView::WaitTimedOut(words).message() == "timed out waiting for session to exit: "@
            + words,
        ErrorView::StartFailed(words).message() == words,
        ErrorView::StartFailedUnexplained.message() == "session failed to start"@,
        ErrorView::ServiceExited(code).message()
            == "tmuy session service exited before session became ready: "@
            + text::optional_code(code),
        ErrorView::ReadyTimedOut(words).message()
            == "timed out waiting for session to become ready: "@ + words,
{
}

/// What is wrong with a request is told.
pub proof fn requests_that_cannot_be_met_are_told(words: Seq<char>, byte: u8)
    ensures
        ErrorView::DeadAndAll.message() == "dead and all cannot both be true"@,
        ErrorView::DeadAndAllFlags.message() == "--dead and --all are mutually exclusive"@,
        ErrorView::InvalidData.message() == "invalid data_b64 payload"@,
        ErrorView::EmptyRequest.message() == "empty rpc request"@,
        ErrorView::MalformedRequest(words).message() == words,
        ErrorView::UnsupportedVersion(byte).message() == "unsupported rpc version "@
            + text::decimal(byte as nat) + "; expected 1"@,
        ErrorView::InsideSession(words).message() == "cannot attach from inside tmuy session "@
            + words + "; detach first or create the new session with --detached"@,
{
}

/// An error is seen as the one that it is, with what it holds.
pub proof fn errors_are_seen_whole(e: TmuyError)
    ensures
        e@ == match e {
            TmuyError::EmptyName => ErrorView::EmptyName,
            TmuyError::InvalidName => ErrorView::InvalidName,
            TmuyError::LiveNameExists(text) => ErrorView::LiveNameExists(text@),
            TmuyError::UnknownHash(text) => ErrorView::UnknownHash(text@),
            TmuyError::UnknownTarget(text) => ErrorView::UnknownTarget(text@),
            TmuyError::AmbiguousTarget(text) => ErrorView::AmbiguousTarget(text@),
            TmuyError::AmbiguousHashAndName { target, hash_ref, name_ref } => {
                ErrorView::AmbiguousHashAndName {
                    target: target@,
                    hash_ref: hash_ref@,
                    name_ref: name_ref@,
                }
            },
            TmuyError::NoHome => ErrorView::NoHome,
            TmuyError::UnreadableState(text) => ErrorView::UnreadableState(text@),
            TmuyError::InvalidNet(text) => ErrorView::InvalidNet(text@),
            TmuyError::MixedGrants => ErrorView::MixedGrants,
            TmuyError::InvalidFs(text) => ErrorView::InvalidFs(text@),
            TmuyError::InvalidFsMode(text) => ErrorView::InvalidFsMode(text@),
            TmuyError::NoCommand => ErrorView::NoCommand,
            TmuyError::CwdNotGranted(text) => ErrorView::CwdNotGranted(text@),
            TmuyError::NonUtf8Path(text) => ErrorView::NonUtf8Path(text@),
            TmuyError::SandboxUnsupported(text) => ErrorView::SandboxUnsupported(text@),
            TmuyError::SandboxNotImplemented => ErrorView::SandboxNotImplemented,
            TmuyError::UnknownClientMode(byte) => ErrorView::UnknownClientMode(byte),
            TmuyError::EmptyDetachKey => ErrorView::EmptyDetachKey,
            TmuyError::InvalidControlKey(text) => ErrorView::InvalidControlKey(text@),
            TmuyError::InvalidDetachKey(text) => ErrorView::InvalidDetachKey(text@),
            TmuyError::UnsupportedSignal(text) => ErrorView::UnsupportedSignal(text@),
            TmuyError::NoChildPid(text) => ErrorView::NoChildPid(text@),
            TmuyError::WaitTimedOut(text) => ErrorView::WaitTimedOut(text@),
            TmuyError::StartFailed(text) => ErrorView::StartFailed(text@),
            TmuyError::StartFailedUnexplained => ErrorView::StartFailedUnexplained,
            TmuyError::ServiceExited(code) => ErrorView::ServiceExited(code),
            TmuyError::ReadyTimedOut(text) => ErrorView::ReadyTimedOut(text@),
            TmuyError::DeadAndAll => ErrorView::DeadAndAll,
            TmuyError::DeadAndAllFlags => ErrorView::DeadAndAllFlags,
            TmuyError::InvalidData => ErrorView::InvalidData,
            TmuyError::EmptyRequest => ErrorView::EmptyRequest,
            TmuyError::MalformedRequest(text) => ErrorView::MalformedRequest(text@),
            TmuyError::UnsupportedVersion(byte) => ErrorView::UnsupportedVersion(byte),
            TmuyError::InsideSession(text) => ErrorView::InsideSession(text@),
        },
{
}

} // verus!
