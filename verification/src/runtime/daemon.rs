//! Starting the process that hosts a session, and waiting until the session is ready.

use vstd::prelude::*;

use crate::error::{ErrorView, TmuyError};
use crate::model::{SessionRecord, SessionStatus, SessionView};
use crate::text;

verus! {

/// The user's shell, in interactive mode.
pub open spec fn shell_command(shell: Option<Seq<char>>) -> Seq<Seq<char>> {
    match shell {
        Some(shell) => seq![shell, "-i"@],
        None => seq!["/bin/bash"@, "-i"@],
    }
}

/// The command of a session that no other command was asked for: the given
/// shell, or else `/bin/bash`, in interactive mode.
pub fn default_shell_command(shell: Option<String>) -> (r: Vec<String>)
    ensures
        text::texts(r@) == shell_command(text::opt_text(shell)),
{
    let ghost asked = text::opt_text(shell);
    let shell = match shell {
        Some(shell) => shell,
        None => "/bin/bash".to_owned(),
    };
    let mut command: Vec<String> = Vec::new();
    command.push(shell);
    command.push("-i".to_owned());
    assert(text::texts(command@) =~= shell_command(asked));
    command
}

/// Whether a session is ready, or why it will not be. Nothing is known of one
/// that is starting.
pub open spec fn readiness(s: SessionView) -> Option<Result<(), ErrorView>> {
    match s.status {
        SessionStatus::Live => Some(Ok(())),
        SessionStatus::Exited => Some(Ok(())),
        SessionStatus::Failed => Some(
            Err(
                match s.failure_reason {
                    Some(reason) => ErrorView::StartFailed(reason),
                    None => ErrorView::StartFailedUnexplained,
                },
            ),
        ),
        SessionStatus::Starting => None,
    }
}

/// What is known of a session that may have been found.
pub open spec fn found_readiness(session: Option<&SessionRecord>) -> Option<Result<(), ErrorView>> {
    match session {
        Some(session) => readiness(session@),
        None => None,
    }
}

/// The end of a wait, as a model.
pub open spec fn ending(r: Result<(), TmuyError>) -> Result<(), ErrorView> {
    match r {
        Ok(()) => Ok(()),
        Err(e) => Err(e@),
    }
}

/// Whether a session is ready, or why it will not be.
pub fn ready_result(session: &SessionRecord) -> (r: Option<Result<(), TmuyError>>)
    ensures
        match r {
            Some(end) => readiness(session@) == Some(ending(end)),
            None => readiness(session@) is None,
        },
{
    match session.status {
        SessionStatus::Live => Some(Ok(())),
        SessionStatus::Exited => Some(Ok(())),
        SessionStatus::Failed => Some(
            Err(
                match &session.failure_reason {
                    Some(reason) => TmuyError::StartFailed(reason.clone()),
                    None => TmuyError::StartFailedUnexplained,
                },
            ),
        ),
        SessionStatus::Starting => None,
    }
}

/// Looks once whether a session is ready, with a deadline: the end of the wait,
/// or `None` where it is to be looked at again later. The inner `None` says
/// that the deadline has passed.
pub fn wait_for_ready_state(session: Option<&SessionRecord>, elapsed: u64, deadline: u64) -> (r:
    Option<Option<Result<(), TmuyError>>>)
    ensures
        match (found_readiness(session), r) {
            (Some(known), Some(Some(end))) => known == ending(end),
            (None, Some(None)) => elapsed >= deadline,
            (None, None) => elapsed < deadline,
            _ => false,
        },
{
    if let Some(session) = session {
        if let Some(end) = ready_result(session) {
            return Some(Some(end));
        }
    }
    if elapsed >= deadline {
        Some(None)
    } else {
        None
    }
}

/// How long the host may take, in milliseconds.
pub const START_MILLIS: u64 = 3000;

/// How long a session is looked at after its host exited, in milliseconds.
pub const EXITED_MILLIS: u64 = 1000;

/// How long a session is looked at after the host took too long, in milliseconds.
pub const LATE_MILLIS: u64 = 250;

/// How long to pause between two looks at a session whose host runs, in milliseconds.
pub const WATCH_PAUSE_MILLIS: u64 = 50;

/// How long to pause between the last looks, in milliseconds.
pub const CLOSING_PAUSE_MILLIS: u64 = 10;

/// What the wait for a host is at.
#[derive(Debug, Clone, Copy, PartialEq, Eq, Structural)]
pub enum Phase {
    /// The host runs, as far as is known.
    Watching,
    /// The host exited with the code, and the session is looked at until the deadline.
    HostExited { code: Option<i32>, deadline: u64 },
    /// The host took too long, and the session is looked at until the deadline.
    Late { deadline: u64 },
}

/// What to do next in the wait for a host.
#[derive(Debug)]
pub enum DaemonStep {
    /// The wait is over.
    Return(Result<(), TmuyError>),
    /// See whether the host has exited.
    PollHost,
    /// Pause for so many milliseconds and look at the session again.
    Pause(u64),
}

/// What to do next in the wait for a host, as a model.
#[verifier::ext_equal]
pub enum DaemonStepView {
    Return(Result<(), ErrorView>),
    PollHost,
    Pause(u64),
}

impl View for DaemonStep {
    type V = DaemonStepView;

    open spec fn view(&self) -> DaemonStepView {
        match self {
            DaemonStep::Return(r) => DaemonStepView::Return(ending(*r)),
            DaemonStep::PollHost => DaemonStepView::PollHost,
            DaemonStep::Pause(millis) => DaemonStepView::Pause(*millis),
        }
    }
}

/// The phase that the wait is in once so much time has passed.
pub open spec fn phase_at(phase: Phase, elapsed: u64) -> Phase {
    if phase is Watching && elapsed >= START_MILLIS {
        Phase::Late { deadline: (elapsed + LATE_MILLIS) as u64 }
    } else {
        phase
    }
}

/// What a look at the session leads to.
pub open spec fn look_step(
    phase: Phase,
    known: Option<Result<(), ErrorView>>,
    elapsed: u64,
    session_ref: Seq<char>,
) -> DaemonStepView {
    match known {
        Some(end) => DaemonStepView::Return(end),
        None => match phase {
            Phase::Watching => DaemonStepView::PollHost,
            Phase::HostExited { code, deadline } => if elapsed >= deadline {
                DaemonStepView::Return(Err(ErrorView::ServiceExited(code)))
            } else {
                DaemonStepView::Pause(CLOSING_PAUSE_MILLIS)
            },
            Phase::Late { deadline } => if elapsed >= deadline {
                DaemonStepView::Return(Err(ErrorView::ReadyTimedOut(session_ref)))
            } else {
                DaemonStepView::Pause(CLOSING_PAUSE_MILLIS)
            },
        },
    }
}

/// The wait for a host that was started to make its session ready.
#[derive(Debug)]
pub struct DaemonWait {
    phase: Phase,
    session_ref: String,
}

impl DaemonWait {
    /// What the wait is at.
    pub closed spec fn phase(self) -> Phase {
        self.phase
    }

    /// The session that is waited for.
    pub closed spec fn session_ref(self) -> Seq<char> {
        self.session_ref@
    }

    /// The wait from its start.
    pub fn new(session: &SessionRecord) -> (r: DaemonWait)
        ensures
            r.phase() == Phase::Watching,
            r.session_ref() == session@.short_ref(),
    {
        DaemonWait { phase: Phase::Watching, session_ref: session.short_ref() }
    }

    /// Looks at the session, which may not have been found, so many
    /// milliseconds after the start.
    pub fn look(&mut self, elapsed: u64, session: Option<&SessionRecord>) -> (r: DaemonStep)
        requires
            elapsed <= u64::MAX - 1000,
        ensures
            final(self).session_ref() == old(self).session_ref(),
            final(self).phase() == phase_at(old(self).phase(), elapsed),
            r@ == look_step(
                final(self).phase(),
                found_readiness(session),
                elapsed,
                old(self).session_ref(),
            ),
    {
        if self.phase == Phase::Watching && elapsed >= START_MILLIS {
            self.phase = Phase::Late { deadline: elapsed + LATE_MILLIS };
        }
        match self.phase {
            Phase::Watching => {
                if let Some(session) = session {
                    if let Some(end) = ready_result(session) {
                        return DaemonStep::Return(end);
                    }
                }
                DaemonStep::PollHost
            },
            Phase::HostExited { code, deadline } => match wait_for_ready_state(
                session,
                elapsed,
                deadline,
            ) {
                Some(Some(end)) => DaemonStep::Return(end),
                Some(None) => DaemonStep::Return(Err(TmuyError::ServiceExited(code))),
                None => DaemonStep::Pause(CLOSING_PAUSE_MILLIS),
            },
            Phase::Late { deadline } => match wait_for_ready_state(session, elapsed, deadline) {
                Some(Some(end)) => DaemonStep::Return(end),
                Some(None) => DaemonStep::Return(
                    Err(TmuyError::ReadyTimedOut(self.session_ref.clone())),
                ),
                None => DaemonStep::Pause(CLOSING_PAUSE_MILLIS),
            },
        }
    }

    /// Takes in whether the host has exited, with its code where there is one,
    /// and gives the milliseconds to pause before the next look.
    pub fn host_polled(&mut self, elapsed: u64, exit: Option<Option<i32>>) -> (r: u64)
        requires
            elapsed <= u64::MAX - 1000,
        ensures
            final(self).session_ref() == old(self).session_ref(),
            match exit {
                Some(code) => final(self).phase() == (Phase::HostExited {
                    code,
                    deadline: (elapsed + EXITED_MILLIS) as u64,
                }) && r == 0,
                None => final(self).phase() == old(self).phase() && r == WATCH_PAUSE_MILLIS,
            },
    {
        match exit {
            Some(code) => {
                self.phase = Phase::HostExited { code, deadline: elapsed + EXITED_MILLIS };
                0
            },
            None => WATCH_PAUSE_MILLIS,
        }
    }
}

/// A session whose status is settled ends the wait at the first look, whatever
/// the wait is at.
pub proof fn settled_sessions_end_the_wait(
    phase: Phase,
    s: SessionView,
    elapsed: u64,
    session_ref: Seq<char>,
)
    requires
        s.status != SessionStatus::Starting,
    ensures
        look_step(phase, readiness(s), elapsed, session_ref) is Return,
        s.status.live() || s.status is Exited ==> look_step(phase, readiness(s), elapsed, session_ref)
            == DaemonStepView::Return(Ok(())),
{
}

/// The wait does not go on for ever: a look after the time for the start has
/// passed begins the last looks, and one after their deadline is the last.
pub proof fn waits_end(
    phase: Phase,
    first: u64,
    second: u64,
    first_known: Option<Result<(), ErrorView>>,
    second_known: Option<Result<(), ErrorView>>,
    session_ref: Seq<char>,
)
    requires
        first >= START_MILLIS,
        phase is Watching,
        second >= first + LATE_MILLIS,
        first <= u64::MAX - 1000,
    ensures
        !(look_step(phase_at(phase, first), first_known, first, session_ref) is PollHost),
        look_step(
            phase_at(phase_at(phase, first), second),
            second_known,
            second,
            session_ref,
        ) is Return,
{
}

} // verus!
