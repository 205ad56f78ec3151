//! The data of the library: sessions, the state that holds them, their sandboxes
//! and their events.

use vstd::prelude::*;

use crate::env_map::EnvMap;
use crate::outside;
use crate::text;
use crate::text::{clone_opt_text, clone_texts, joined, push_text};

verus! {

/// An instant: whole seconds since the Unix epoch, and nanoseconds on top of them.
#[derive(Debug, Clone, Copy, PartialEq, Eq, Structural)]
pub struct Timestamp {
    pub secs: i64,
    pub nanos: u32,
}

impl Timestamp {
    /// Whether this instant comes before `other`.
    pub open spec fn before(self, other: Timestamp) -> bool {
        self.secs < other.secs || (self.secs == other.secs && self.nanos < other.nanos)
    }

    /// What holds of every instant that the system clock shows: it does not lie
    /// before the Unix epoch, its nanoseconds make up less than a second, and it
    /// has a calendar date and a text form.
    pub open spec fn is_reading(self) -> bool {
        &&& self.secs >= 0
        &&& self.nanos < 1_000_000_000
        &&& outside::utc_date_of(self.secs as int) is Some
        &&& outside::utc_text_of(self.secs as int, self.nanos as nat) is Some
    }

    /// The instant that the system clock shows.
    pub fn now() -> (r: Timestamp)
        ensures
            r.is_reading(),
    {
        outside::utc_now()
    }

    /// Whether this instant comes before `other`.
    pub fn is_before(&self, other: &Timestamp) -> (r: bool)
        ensures
            r == self.before(*other),
    {
        self.secs < other.secs || (self.secs == other.secs && self.nanos < other.nanos)
    }
}

/// A day of the calendar.
#[derive(Debug, Clone, Copy, PartialEq, Eq, Structural)]
pub struct CivilDate {
    pub year: i32,
    pub month: u32,
    pub day: u32,
}

/// Where a session stands in its life.
#[derive(Debug, Clone, Copy, PartialEq, Eq, Structural)]
pub enum SessionStatus {
    Starting,
    Live,
    Exited,
    Failed,
}

impl SessionStatus {
    /// Whether a session of this status is starting or running.
    pub open spec fn live(self) -> bool {
        self is Starting || self is Live
    }

    /// Whether a session of this status is starting or running.
    pub fn is_live(&self) -> (r: bool)
        ensures
            r == self.live(),
    {
        matches!(self, SessionStatus::Starting | SessionStatus::Live)
    }
}

/// Whether a session may use the network.
#[derive(Debug, Clone, Copy, PartialEq, Eq, Structural)]
pub enum NetworkMode {
    On,
    Off,
}

impl Default for NetworkMode {
    /// The network is on unless it is switched off.
    fn default() -> (r: NetworkMode)
        ensures
            r == NetworkMode::On,
    {
        NetworkMode::On
    }
}

/// What a session may see of the file system.
#[derive(Debug, PartialEq, Eq)]
pub enum FsGrant {
    Full,
    ReadOnly(String),
    ReadWrite(String),
}

/// A grant, with its path as text.
pub enum GrantView {
    Full,
    ReadOnly(Seq<char>),
    ReadWrite(Seq<char>),
}

impl View for FsGrant {
    type V = GrantView;

    open spec fn view(&self) -> GrantView {
        match self {
            FsGrant::Full => GrantView::Full,
            FsGrant::ReadOnly(path) => GrantView::ReadOnly(path@),
            FsGrant::ReadWrite(path) => GrantView::ReadWrite(path@),
        }
    }
}

impl Clone for FsGrant {
    fn clone(&self) -> (r: FsGrant)
        ensures
            r@ == self@,
    {
        match self {
            FsGrant::Full => FsGrant::Full,
            FsGrant::ReadOnly(path) => FsGrant::ReadOnly(path.clone()),
            FsGrant::ReadWrite(path) => FsGrant::ReadWrite(path.clone()),
        }
    }
}

/// The grants of a list.
pub open spec fn grants(v: Seq<FsGrant>) -> Seq<GrantView> {
    v.map_values(|g: FsGrant| g@)
}

/// A copy of a list of grants.
pub fn clone_grants(v: &Vec<FsGrant>) -> (r: Vec<FsGrant>)
    ensures
        grants(r@) == grants(v@),
{
    let mut out: Vec<FsGrant> = Vec::new();
    let mut i: usize = 0;
    while i < v.len()
        invariant
            i <= v@.len(),
            grants(out@) == grants(v@).take(i as int),
        decreases v@.len() - i,
    {
        let ghost before = out@;
        let grant = v[i].clone();
        out.push(grant);
        proof {
            assert(grants(v@)[i as int] == v@[i as int]@);
            assert(grants(out@) =~= grants(before).push(grant@));
            assert(grants(v@).take(i + 1) =~= grants(v@).take(i as int).push(grants(v@)[i as int]));
        }
        i = i + 1;
    }
    assert(grants(out@) =~= grants(v@));
    out
}

/// The sandbox that a session runs in.
#[derive(Debug, PartialEq, Eq)]
pub struct SandboxSpec {
    pub fs: Vec<FsGrant>,
    pub net: NetworkMode,
}

/// A sandbox, with its paths as text.
#[verifier::ext_equal]
pub struct SandboxView {
    pub fs: Seq<GrantView>,
    pub net: NetworkMode,
}

impl View for SandboxSpec {
    type V = SandboxView;

    open spec fn view(&self) -> SandboxView {
        SandboxView { fs: grants(self.fs@), net: self.net }
    }
}

impl Clone for SandboxSpec {
    fn clone(&self) -> (r: SandboxSpec)
        ensures
            r@ == self@,
    {
        SandboxSpec { fs: clone_grants(&self.fs), net: self.net }
    }
}

/// The sandbox that restricts nothing.
pub open spec fn default_sandbox() -> SandboxView {
    SandboxView { fs: seq![GrantView::Full], net: NetworkMode::On }
}

impl Default for SandboxSpec {
    /// The whole file system and the network.
    fn default() -> (r: SandboxSpec)
        ensures
            r@ == default_sandbox(),
    {
        let mut fs: Vec<FsGrant> = Vec::new();
        fs.push(FsGrant::Full);
        assert(grants(fs@) =~= seq![GrantView::Full]);
        SandboxSpec { fs, net: NetworkMode::On }
    }
}

/// Whether a session runs the user's shell or one command.
#[derive(Debug, Clone, Copy, PartialEq, Eq, Structural)]
pub enum CommandMode {
    Shell,
    OneShot,
}

/// What is known of a session.
#[derive(Debug)]
pub struct SessionRecord {
    pub id_hash: String,
    pub started_name: String,
    pub current_name: String,
    pub created_at: Timestamp,
    pub updated_at: Timestamp,
    pub cwd: String,
    pub command: Vec<String>,
    pub mode: CommandMode,
    pub sandbox: SandboxSpec,
    pub status: SessionStatus,
    pub started_log_dir: String,
    pub meta_path: String,
    pub log_path: String,
    pub events_path: String,
    pub socket_path: String,
    pub service_pid: Option<u32>,
    pub child_pid: Option<u32>,
    pub exit_code: Option<i32>,
    pub failure_reason: Option<String>,
    pub env: EnvMap,
    pub detach_key: String,
}

/// What is known of a session, with its strings as text and its variables as a map.
#[verifier::ext_equal]
pub struct SessionView {
    pub id_hash: Seq<char>,
    pub started_name: Seq<char>,
    pub current_name: Seq<char>,
    pub created_at: Timestamp,
    pub updated_at: Timestamp,
    pub cwd: Seq<char>,
    pub command: Seq<Seq<char>>,
    pub mode: CommandMode,
    pub sandbox: SandboxView,
    pub status: SessionStatus,
    pub started_log_dir: Seq<char>,
    pub meta_path: Seq<char>,
    pub log_path: Seq<char>,
    pub events_path: Seq<char>,
    pub socket_path: Seq<char>,
    pub service_pid: Option<u32>,
    pub child_pid: Option<u32>,
    pub exit_code: Option<i32>,
    pub failure_reason: Option<Seq<char>>,
    pub env: Map<Seq<char>, Seq<char>>,
    pub detach_key: Seq<char>,
}

impl View for SessionRecord {
    type V = SessionView;

    open spec fn view(&self) -> SessionView {
        SessionView {
            id_hash: self.id_hash@,
            started_name: self.started_name@,
            current_name: self.current_name@,
            created_at: self.created_at,
            updated_at: self.updated_at,
            cwd: self.cwd@,
            command: text::texts(self.command@),
            mode: self.mode,
            sandbox: self.sandbox@,
            status: self.status,
            started_log_dir: self.started_log_dir@,
            meta_path: self.meta_path@,
            log_path: self.log_path@,
            events_path: self.events_path@,
            socket_path: self.socket_path@,
            service_pid: self.service_pid,
            child_pid: self.child_pid,
            exit_code: self.exit_code,
            failure_reason: text::opt_text(self.failure_reason),
            env: self.env@,
            detach_key: self.detach_key@,
        }
    }
}

impl Clone for SessionRecord {
    fn clone(&self) -> (r: SessionRecord)
        ensures
            r@ == self@,
    {
        SessionRecord {
            id_hash: self.id_hash.clone(),
            started_name: self.started_name.clone(),
            current_name: self.current_name.clone(),
            created_at: self.created_at,
            updated_at: self.updated_at,
            cwd: self.cwd.clone(),
            command: clone_texts(&self.command),
            mode: self.mode,
            sandbox: self.sandbox.clone(),
            status: self.status,
            started_log_dir: self.started_log_dir.clone(),
            meta_path: self.meta_path.clone(),
            log_path: self.log_path.clone(),
            events_path: self.events_path.clone(),
            socket_path: self.socket_path.clone(),
            service_pid: self.service_pid,
            child_pid: self.child_pid,
            exit_code: self.exit_code,
            failure_reason: clone_opt_text(&self.failure_reason),
            env: self.env.clone(),
            detach_key: self.detach_key.clone(),
        }
    }
}

impl SessionView {
    /// The name of a session with its hash in brackets.
    pub open spec fn short_ref(self) -> Seq<char> {
        self.current_name + " ("@ + self.id_hash + ")"@
    }
}

impl SessionRecord {
    /// The name of the session with its hash in brackets.
    pub fn short_ref(&self) -> (r: String)
        ensures
            r@ == self@.short_ref(),
    {
        let mut out = joined(self.current_name.as_str(), " (");
        push_text(&mut out, self.id_hash.as_str());
        push_text(&mut out, ")");
        out
    }
}

/// All sessions, and the number that the next unnamed one is called by.
#[derive(Debug)]
pub struct StateFile {
    pub next_numeric_name: u64,
    pub sessions: Vec<SessionRecord>,
}

/// The state, with its sessions as text.
#[verifier::ext_equal]
pub struct StateView {
    pub next_numeric_name: u64,
    pub sessions: Seq<SessionView>,
}

/// The sessions of a list.
pub open spec fn session_views(v: Seq<SessionRecord>) -> Seq<SessionView> {
    v.map_values(|s: SessionRecord| s@)
}

impl View for StateFile {
    type V = StateView;

    open spec fn view(&self) -> StateView {
        StateView {
            next_numeric_name: self.next_numeric_name,
            sessions: session_views(self.sessions@),
        }
    }
}

/// The state before any session was created.
pub open spec fn empty_state() -> StateView {
    StateView { next_numeric_name: 0, sessions: Seq::empty() }
}

impl Default for StateFile {
    /// No sessions.
    fn default() -> (r: StateFile)
        ensures
            r@ == empty_state(),
    {
        let r = StateFile { next_numeric_name: 0, sessions: Vec::new() };
        assert(r@.sessions =~= Seq::empty());
        r
    }
}

/// Which sessions a request is about.
#[derive(Debug, Clone, Copy, PartialEq, Eq, Structural)]
pub enum SessionScope {
    LiveOnly,
    DeadOnly,
    All,
}

impl SessionScope {
    /// Whether a session of the given status is among those of the scope.
    pub open spec fn admits(self, status: SessionStatus) -> bool {
        match self {
            SessionScope::LiveOnly => status.live(),
            SessionScope::DeadOnly => !status.live(),
            SessionScope::All => true,
        }
    }
}

/// Something that happened to a session.
#[derive(Debug)]
pub struct EventRecord {
    pub ts: Timestamp,
    pub kind: String,
    pub detail: EventDetail,
}

/// What an event says of the session.
#[derive(Debug)]
pub enum EventDetail {
    Created { name: String, mode: CommandMode, sandbox: SandboxSpec },
    Renamed { current_name: String, started_name: String, id_hash: String },
    Failed { reason: Option<String> },
    Live { service_pid: Option<u32>, child_pid: Option<u32> },
    Exited { exit_code: Option<i32> },
    Signal { signal: String },
}

/// An event, with its strings as text.
#[verifier::ext_equal]
pub struct EventView {
    pub ts: Timestamp,
    pub kind: Seq<char>,
    pub detail: DetailView,
}

/// What an event says of the session, with its strings as text.
#[verifier::ext_equal]
pub enum DetailView {
    Created { name: Seq<char>, mode: CommandMode, sandbox: SandboxView },
    Renamed { current_name: Seq<char>, started_name: Seq<char>, id_hash: Seq<char> },
    Failed { reason: Option<Seq<char>> },
    Live { service_pid: Option<u32>, child_pid: Option<u32> },
    Exited { exit_code: Option<i32> },
    Signal { signal: Seq<char> },
}

impl View for EventDetail {
    type V = DetailView;

    open spec fn view(&self) -> DetailView {
        match self {
            EventDetail::Created { name, mode, sandbox } => DetailView::Created {
                name: name@,
                mode: *mode,
                sandbox: sandbox@,
            },
            EventDetail::Renamed { current_name, started_name, id_hash } => DetailView::Renamed {
                current_name: current_name@,
                started_name: started_name@,
                id_hash: id_hash@,
            },
            EventDetail::Failed { reason } => DetailView::Failed { reason: text::opt_text(*reason) },
            EventDetail::Live { service_pid, child_pid } => DetailView::Live {
                service_pid: *service_pid,
                child_pid: *child_pid,
            },
            EventDetail::Exited { exit_code } => DetailView::Exited { exit_code: *exit_code },
            EventDetail::Signal { signal } => DetailView::Signal { signal: signal@ },
        }
    }
}

impl View for EventRecord {
    type V = EventView;

    open spec fn view(&self) -> EventView {
        EventView { ts: self.ts, kind: self.kind@, detail: self.detail@ }
    }
}

} // verus!
