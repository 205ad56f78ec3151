//! The store of sessions: how they are named, kept, found, listed and changed.

use vstd::prelude::*;

use crate::env_map::EnvMap;
use crate::error::{ErrorView, TmuyError};
use crate::lookup;
use crate::lookup::{list_in_state, live_name_taken, place_of_hash, resolve_target_in_state};
use crate::model;
use crate::model::{
    CivilDate, CommandMode, FsGrant, GrantView, NetworkMode, SandboxSpec, SandboxView,
    SessionRecord, SessionScope, SessionStatus, SessionView, StateFile, StateView, Timestamp,
};
use crate::outside;
use crate::path;
use crate::text;
use crate::text::{
    chars_of, decimal_text, hex7_text, joined, joined3, padded_decimal_text, same_text,
    text_between, year_text,
};

verus! {

/// Whether a session name may hold the character.
pub open spec fn is_name_char(c: char) -> bool {
    text::is_ascii_alnum(c) || c == '-' || c == '_' || c == '.'
}

/// What is wrong with a session name, if anything is.
pub open spec fn name_error(name: Seq<char>) -> Option<ErrorView> {
    if name.len() == 0 {
        Some(ErrorView::EmptyName)
    } else if exists|i: int| 0 <= i < name.len() && !is_name_char(#[trigger] name[i]) {
        Some(ErrorView::InvalidName)
    } else {
        None
    }
}

/// A name with an underscore in place of every character that a session name cannot hold.
pub open spec fn sanitized(name: Seq<char>) -> Seq<char> {
    name.map_values(|c: char| if is_name_char(c) { c } else { '_' })
}

fn name_char(c: char) -> (r: bool)
    ensures
        r == is_name_char(c),
{
    ('a' <= c && c <= 'z') || ('A' <= c && c <= 'Z') || ('0' <= c && c <= '9') || c == '-' || c
        == '_' || c == '.'
}

/// Rejects what cannot be the name of a session.
pub fn validate_name(name: &str) -> (r: Result<(), TmuyError>)
    ensures
        match r {
            Ok(()) => name_error(name@) is None,
            Err(e) => name_error(name@) == Some(e@),
        },
{
    let chars = chars_of(name);
    if chars.len() == 0 {
        return Err(TmuyError::EmptyName);
    }
    let mut i: usize = 0;
    while i < chars.len()
        invariant
            i <= chars@.len(),
            chars@ == name@,
            forall|k: int| 0 <= k < i ==> is_name_char(#[trigger] name@[k]),
        decreases chars@.len() - i,
    {
        if !name_char(chars[i]) {
            assert(!is_name_char(name@[i as int]));
            return Err(TmuyError::InvalidName);
        }
        i = i + 1;
    }
    Ok(())
}

/// The name with an underscore in place of every character that a session name cannot hold.
pub fn sanitize_for_path(name: &str) -> (r: String)
    ensures
        r@ == sanitized(name@),
{
    let chars = chars_of(name);
    let mut out = String::new();
    let mut i: usize = 0;
    while i < chars.len()
        invariant
            i <= chars@.len(),
            chars@ == name@,
            out@ == sanitized(name@).take(i as int),
        decreases chars@.len() - i,
    {
        if name_char(chars[i]) {
            out.push(chars[i]);
        } else {
            out.push('_');
        }
        i = i + 1;
        assert(out@ =~= sanitized(name@).take(i as int));
    }
    assert(out@ =~= sanitized(name@));
    out
}

/// A valid name is its own sanitized form, and a sanitized name is valid unless it is empty.
pub proof fn valid_names_are_sanitized(name: Seq<char>)
    ensures
        name_error(name) is None ==> sanitized(name) == name,
        name.len() > 0 ==> name_error(sanitized(name)) is None,
{
    if name_error(name) is None {
        assert forall|i: int| 0 <= i < name.len() implies sanitized(name)[i] == #[trigger] name[i] by {
            assert(is_name_char(name[i]));
        }
        assert(sanitized(name) =~= name);
    }
    assert forall|i: int| 0 <= i < name.len() implies is_name_char(#[trigger] sanitized(name)[i]) by {
    }
}

/// A path of the command line, taken from the directory `cwd`.
pub fn absolutize_from_cwd(raw_path: &str, cwd: &str) -> (r: String)
    ensures
        r@ == path::path_join(cwd@, raw_path@),
{
    if path::is_absolute(raw_path) {
        raw_path.to_owned()
    } else {
        path::join(cwd, raw_path)
    }
}

/// Where the first colon of a text stands.
pub open spec fn is_first_colon(raw: Seq<char>, i: int) -> bool {
    0 <= i < raw.len() && raw[i] == ':' && forall|k: int| 0 <= k < i ==> #[trigger] raw[k] != ':'
}

/// What a single `--fs` flag other than `full` grants: `ro:` or `rw:` and a
/// path, which is taken from `cwd`.
pub open spec fn path_grant(raw: Seq<char>, cwd: Seq<char>) -> Result<GrantView, ErrorView> {
    if !raw.contains(':') {
        Err(ErrorView::InvalidFs(raw))
    } else {
        let i = choose|i: int| is_first_colon(raw, i);
        let place = path::path_join(cwd, raw.skip(i + 1));
        if raw.take(i) == "ro"@ {
            Ok(GrantView::ReadOnly(place))
        } else if raw.take(i) == "rw"@ {
            Ok(GrantView::ReadWrite(place))
        } else {
            Err(ErrorView::InvalidFsMode(raw.take(i)))
        }
    }
}

/// What is wrong with the flag at `i`: it stands beside `full`, or it is no grant.
pub open spec fn flag_error(flags: Seq<Seq<char>>, cwd: Seq<char>, i: int) -> Option<ErrorView> {
    if i > 0 && (flags[0] == "full"@ || flags[i] == "full"@) {
        Some(ErrorView::MixedGrants)
    } else if flags[i] == "full"@ {
        None
    } else {
        match path_grant(flags[i], cwd) {
            Ok(_) => None,
            Err(e) => Some(e),
        }
    }
}

/// Whether the flag at `i` is the first with which something is wrong.
pub open spec fn is_first_wrong_flag(flags: Seq<Seq<char>>, cwd: Seq<char>, i: int) -> bool {
    &&& 0 <= i < flags.len()
    &&& flag_error(flags, cwd, i) is Some
    &&& forall|k: int| 0 <= k < i ==> #[trigger] flag_error(flags, cwd, k) is None
}

/// The first flag with which something is wrong.
pub open spec fn first_wrong_flag(flags: Seq<Seq<char>>, cwd: Seq<char>) -> int {
    choose|i: int| is_first_wrong_flag(flags, cwd, i)
}

/// What a flag with which nothing is wrong grants.
pub open spec fn flag_grant(flag: Seq<char>, cwd: Seq<char>) -> GrantView {
    if flag == "full"@ {
        GrantView::Full
    } else {
        path_grant(flag, cwd)->Ok_0
    }
}

/// The network mode that a `--net` flag asks for.
pub open spec fn net_mode(flag: Option<Seq<char>>) -> Option<NetworkMode> {
    match flag {
        None => Some(NetworkMode::On),
        Some(raw) => if raw == "on"@ {
            Some(NetworkMode::On)
        } else if raw == "off"@ {
            Some(NetworkMode::Off)
        } else {
            None
        },
    }
}

/// The sandbox that the flags ask for, or what is wrong with the first bad
/// one, the network flag before the others.
pub open spec fn sandbox_of(
    fs_flags: Seq<Seq<char>>,
    net_flag: Option<Seq<char>>,
    cwd: Seq<char>,
) -> Result<SandboxView, ErrorView> {
    match net_mode(net_flag) {
        None => Err(ErrorView::InvalidNet(net_flag->0)),
        Some(net) => if fs_flags.len() == 0 {
            Ok(SandboxView { fs: seq![GrantView::Full], net })
        } else if exists|i: int| is_first_wrong_flag(fs_flags, cwd, i) {
            Err(flag_error(fs_flags, cwd, first_wrong_flag(fs_flags, cwd))->0)
        } else {
            Ok(
                SandboxView {
                    fs: Seq::new(fs_flags.len(), |i: int| flag_grant(fs_flags[i], cwd)),
                    net,
                },
            )
        },
    }
}

fn parse_path_grant(raw: &str, cwd: &str) -> (r: Result<FsGrant, TmuyError>)
    ensures
        match r {
            Ok(grant) => path_grant(raw@, cwd@) == Ok::<GrantView, ErrorView>(grant@),
            Err(e) => path_grant(raw@, cwd@) == Err::<GrantView, ErrorView>(e@),
        },
{
    let chars = chars_of(raw);
    let mut i: usize = 0;
    while i < chars.len() && chars[i] != ':'
        invariant
            i <= chars@.len(),
            chars@ == raw@,
            forall|k: int| 0 <= k < i ==> #[trigger] raw@[k] != ':',
        decreases chars@.len() - i,
    {
        i = i + 1;
    }
    if i == chars.len() {
        return Err(TmuyError::InvalidFs(raw.to_owned()));
    }
    proof {
        assert(raw@[i as int] == ':');
        assert(is_first_colon(raw@, i as int));
        let j = choose|j: int| is_first_colon(raw@, j);
        assert(is_first_colon(raw@, j));
        assert(j == i);
    }
    let mode = text_between(&chars, 0, i);
    let raw_path = text_between(&chars, i + 1, chars.len());
    assert(mode@ =~= raw@.take(i as int));
    assert(raw_path@ =~= raw@.skip(i + 1));
    let place = absolutize_from_cwd(raw_path.as_str(), cwd);
    if same_text(mode.as_str(), "ro") {
        Ok(FsGrant::ReadOnly(place))
    } else if same_text(mode.as_str(), "rw") {
        Ok(FsGrant::ReadWrite(place))
    } else {
        Err(TmuyError::InvalidFsMode(mode))
    }
}

/// The sandbox that the `--fs` and `--net` flags ask for, with paths taken
/// from the directory `cwd`.
pub fn parse_sandbox(fs_flags: &[String], net_flag: Option<&str>, cwd: &str) -> (r: Result<
    SandboxSpec,
    TmuyError,
>)
    ensures
        match r {
            Ok(sandbox) => sandbox_of(text::texts(fs_flags@), text::opt_str(net_flag), cwd@) == Ok::<
                SandboxView,
                ErrorView,
            >(sandbox@),
            Err(e) => sandbox_of(text::texts(fs_flags@), text::opt_str(net_flag), cwd@) == Err::<
                SandboxView,
                ErrorView,
            >(e@),
        },
{
    let net = match net_flag {
        None => NetworkMode::On,
        Some(raw) => {
            if same_text(raw, "on") {
                NetworkMode::On
            } else if same_text(raw, "off") {
                NetworkMode::Off
            } else {
                return Err(TmuyError::InvalidNet(raw.to_owned()));
            }
        },
    };
    let ghost flags = text::texts(fs_flags@);
    let mut fs: Vec<FsGrant> = Vec::new();
    if fs_flags.len() == 0 {
        fs.push(FsGrant::Full);
        assert(model::grants(fs@) =~= seq![GrantView::Full]);
        return Ok(SandboxSpec { fs, net });
    }
    let mut whole = false;
    let mut i: usize = 0;
    while i < fs_flags.len()
        invariant
            i <= fs_flags@.len(),
            flags == text::texts(fs_flags@),
            fs@.len() == i,
            forall|k: int| 0 <= k < i ==> #[trigger] flag_error(flags, cwd@, k) is None,
            forall|k: int| 0 <= k < i ==> (#[trigger] fs@[k])@ == flag_grant(flags[k], cwd@),
            whole == (i > 0 && flags[0] == "full"@),
            fs_flags@.len() > 0,
            net_mode(text::opt_str(net_flag)) == Some(net),
        decreases fs_flags@.len() - i,
    {
        assert(flags[i as int] == fs_flags@[i as int]@);
        let full = same_text(fs_flags[i].as_str(), "full");
        if i > 0 && (whole || full) {
            proof {
                lemma_first_wrong_flag(flags, text::opt_str(net_flag), cwd@, i as int);
            }
            return Err(TmuyError::MixedGrants);
        }
        if full {
            whole = true;
            fs.push(FsGrant::Full);
        } else {
            match parse_path_grant(fs_flags[i].as_str(), cwd) {
                Ok(grant) => {
                    fs.push(grant);
                },
                Err(e) => {
                    proof {
                        lemma_first_wrong_flag(flags, text::opt_str(net_flag), cwd@, i as int);
                    }
                    return Err(e);
                },
            }
        }
        i = i + 1;
    }
    assert(model::grants(fs@) =~= Seq::new(flags.len(), |k: int| flag_grant(flags[k], cwd@)));
    Ok(SandboxSpec { fs, net })
}

proof fn lemma_first_wrong_flag(
    flags: Seq<Seq<char>>,
    net_flag: Option<Seq<char>>,
    cwd: Seq<char>,
    i: int,
)
    requires
        is_first_wrong_flag(flags, cwd, i),
        net_mode(net_flag) is Some,
    ensures
        sandbox_of(flags, net_flag, cwd) == Err::<SandboxView, ErrorView>(
            flag_error(flags, cwd, i)->0,
        ),
{
    let j = first_wrong_flag(flags, cwd);
    assert(is_first_wrong_flag(flags, cwd, j));
    if j < i {
        assert(flag_error(flags, cwd, j) is None);
    } else if i < j {
        assert(flag_error(flags, cwd, i) is None);
    }
}

/// A request for a new session.
#[derive(Debug)]
pub struct CreateSessionRequest {
    pub explicit_name: Option<String>,
    pub cwd: String,
    pub command: Vec<String>,
    pub mode: CommandMode,
    pub sandbox: SandboxSpec,
    pub detach_key: String,
    pub env: EnvMap,
}

/// A request for a new session, with its strings as text.
pub struct RequestView {
    pub explicit_name: Option<Seq<char>>,
    pub cwd: Seq<char>,
    pub command: Seq<Seq<char>>,
    pub mode: CommandMode,
    pub sandbox: SandboxView,
    pub detach_key: Seq<char>,
    pub env: Map<Seq<char>, Seq<char>>,
}

impl View for CreateSessionRequest {
    type V = RequestView;

    open spec fn view(&self) -> RequestView {
        RequestView {
            explicit_name: text::opt_text(self.explicit_name),
            cwd: self.cwd@,
            command: text::texts(self.command@),
            mode: self.mode,
            sandbox: self.sandbox@,
            detach_key: self.detach_key@,
            env: self.env@,
        }
    }
}

/// What keeps a session of the asked-for name from being created.
pub open spec fn create_refusal(state: StateView, req: RequestView) -> Option<ErrorView> {
    match req.explicit_name {
        None => None,
        Some(name) => if name_error(name) is Some {
            name_error(name)
        } else if lookup::some_session(state.sessions, lookup::live_named(name)) {
            Some(ErrorView::LiveNameExists(name))
        } else {
            None
        },
    }
}

/// The number by which the next unnamed session is called.
pub open spec fn next_number(state: StateView) -> nat {
    if state.next_numeric_name == 0 {
        1
    } else {
        state.next_numeric_name as nat
    }
}

/// The name that a new session gets: the one that was asked for, or the next number.
pub open spec fn new_name(state: StateView, req: RequestView) -> Seq<char> {
    match req.explicit_name {
        Some(name) => name,
        None => text::decimal(next_number(state)),
    }
}

/// The directory of the logs of a day.
pub open spec fn day_dir(base: Seq<char>, date: CivilDate) -> Seq<char> {
    let year = path::path_join(base, text::year_digits(date.year as int));
    let month = path::path_join(year, text::zero_padded(text::decimal(date.month as nat), 2));
    path::path_join(month, text::zero_padded(text::decimal(date.day as nat), 2))
}

/// The directory of the logs of a session, after the name that it was started with and its hash.
pub open spec fn log_dir(base: Seq<char>, date: CivilDate, name: Seq<char>, hash: Seq<char>) -> Seq<
    char,
> {
    path::path_join(day_dir(base, date), sanitized(name) + "-"@ + hash)
}

/// The directory of the sockets of live sessions.
pub open spec fn live_dir_of(base: Seq<char>) -> Seq<char> {
    path::path_join(base, "live"@)
}

/// The socket of a session, after its hash.
pub open spec fn socket_of(base: Seq<char>, hash: Seq<char>) -> Seq<char> {
    path::path_join(live_dir_of(base), hash + ".sock"@)
}

/// The variables of a session: those of the request, and the marks by which a
/// process sees which session it runs in.
pub open spec fn marked_env(
    env: Map<Seq<char>, Seq<char>>,
    hash: Seq<char>,
    name: Seq<char>,
) -> Map<Seq<char>, Seq<char>> {
    env.insert("TMUY_SESSION_HASH"@, hash).insert("TMUY_SESSION_STARTED_NAME"@, name).insert(
        "TMUY_INSIDE"@,
        "1"@,
    )
}

/// A session as it is created.
pub open spec fn created_session(
    base: Seq<char>,
    req: RequestView,
    name: Seq<char>,
    hash: Seq<char>,
    now: Timestamp,
    date: CivilDate,
) -> SessionView {
    let dir = log_dir(base, date, name, hash);
    SessionView {
        id_hash: hash,
        started_name: name,
        current_name: name,
        created_at: now,
        updated_at: now,
        cwd: req.cwd,
        command: req.command,
        mode: req.mode,
        sandbox: req.sandbox,
        status: SessionStatus::Starting,
        started_log_dir: dir,
        meta_path: path::path_join(dir, "meta.json"@),
        log_path: path::path_join(dir, "pty.log"@),
        events_path: path::path_join(dir, "events.jsonl"@),
        socket_path: socket_of(base, hash),
        service_pid: None,
        child_pid: None,
        exit_code: None,
        failure_reason: None,
        env: marked_env(req.env, hash, name),
        detach_key: req.detach_key,
    }
}

/// The state with a session added, and the number of the next unnamed one
/// moved on where the session is unnamed.
pub open spec fn state_with(state: StateView, req: RequestView, session: SessionView) -> StateView {
    StateView {
        next_numeric_name: if req.explicit_name is Some {
            state.next_numeric_name
        } else {
            (next_number(state) + 1) as u64
        },
        sessions: state.sessions.push(session),
    }
}

/// Whether no session has the hash.
pub open spec fn hash_is_free(state: StateView, hash: Seq<char>) -> bool {
    !lookup::some_session(state.sessions, lookup::with_hash(hash))
}

/// The hash that a drawn number stands for, unless a session has it already.
pub fn free_hash(state: &StateFile, drawn: u32) -> (r: Option<String>)
    ensures
        match r {
            Some(hash) => hash@ == text::hex7(drawn as nat) && text::is_hash(hash@) && hash_is_free(
                state@,
                hash@,
            ),
            None => !hash_is_free(state@, text::hex7(drawn as nat)),
        },
{
    let hash = hex7_text(drawn);
    match place_of_hash(&state.sessions, hash.as_str()) {
        Some(i) => {
            proof {
                lookup::lemma_first(state@.sessions, lookup::with_hash(hash@), i as int);
            }
            None
        },
        None => Some(hash),
    }
}

/// Fewer sessions than hashes leave one free.
proof fn lemma_some_hash_is_free(state: StateView)
    requires
        state.sessions.len() <= 0x0fff_ffff,
    ensures
        exists|n: nat| n <= 0x0fff_ffff && #[trigger] hash_is_free(state, text::hex7(n)),
{
    if forall|n: nat| n <= 0x0fff_ffff ==> !#[trigger] hash_is_free(state, text::hex7(n)) {
        let numbers = vstd::set_lib::set_int_range(0, 0x1000_0000);
        let f = |n: int| text::hex7(n as nat);
        let hashes = numbers.map(f);
        let taken = state.sessions.map_values(|s: SessionView| s.id_hash);
        vstd::set_lib::lemma_int_range(0, 0x1000_0000);
        assert forall|a: int, b: int|
            numbers.contains(a) && numbers.contains(b) && #[trigger] f(a) == #[trigger] f(
                b,
            ) implies a == b by {
            text::hex7_is_injective(a as nat, b as nat);
        }
        vstd::set_lib::lemma_map_size(numbers, hashes, f);
        assert forall|h: Seq<char>| #[trigger] hashes.contains(h) implies taken.to_set().contains(
            h,
        ) by {
            let n = choose|n: int| numbers.contains(n) && f(n) == h;
            assert(!hash_is_free(state, text::hex7(n as nat)));
            let p = lookup::with_hash(h);
            let i = choose|i: int|
                0 <= i < state.sessions.len() && p(#[trigger] state.sessions[i]);
            assert(taken[i] == h);
        }
        taken.lemma_cardinality_of_set();
        vstd::seq_lib::seq_to_set_is_finite(taken);
        vstd::set_lib::lemma_len_subset(hashes, taken.to_set());
    }
}

/// A hash that no session has, drawn by chance. Should chance never give one,
/// the first that is free is taken, so that the search always ends.
fn draw_hash(state: &StateFile) -> (r: String)
    requires
        state.sessions@.len() <= 0x0fff_ffff,
    ensures
        text::is_hash(r@),
        hash_is_free(state@, r@),
{
    let mut left: u32 = u32::MAX;
    while left > 0
        decreases left,
    {
        if let Some(hash) = free_hash(state, outside::random_up_to(0x0fff_ffff)) {
            return hash;
        }
        left = left - 1;
    }
    let mut n: u32 = 0;
    proof {
        lemma_some_hash_is_free(state@);
    }
    let ghost free = choose|n: nat| n <= 0x0fff_ffff && #[trigger] hash_is_free(state@, text::hex7(n));
    loop
        invariant
            n <= free,
            free <= 0x0fff_ffff,
            hash_is_free(state@, text::hex7(free)),
        decreases free - n,
    {
        if let Some(hash) = free_hash(state, n) {
            return hash;
        }
        n = n + 1;
    }
}

/// The first session with the given hash.
pub open spec fn session_of(state: StateView, hash: Seq<char>) -> SessionView {
    state.sessions[lookup::first_place(state.sessions, lookup::with_hash(hash))]
}

/// The state with another session in place of the first one with the given hash.
pub open spec fn put_session(state: StateView, hash: Seq<char>, session: SessionView) -> StateView {
    let place = lookup::first_place(state.sessions, lookup::with_hash(hash));
    StateView { sessions: state.sessions.update(place, session), ..state }
}

/// Whether a change of the session with the given hash left `changed` in its
/// place, or, where there is no such session, said so and left everything as it was.
pub open spec fn is_change(
    before: StateView,
    hash: Seq<char>,
    changed: SessionView,
    r: Result<SessionView, ErrorView>,
    after: StateView,
) -> bool {
    if hash_is_free(before, hash) {
        r == Err::<SessionView, ErrorView>(ErrorView::UnknownHash(hash)) && after == before
    } else {
        r == Ok::<SessionView, ErrorView>(changed) && after == put_session(before, hash, changed)
    }
}

/// A session that runs.
pub open spec fn marked_live(
    s: SessionView,
    service_pid: u32,
    child_pid: Option<u32>,
    now: Timestamp,
) -> SessionView {
    SessionView {
        status: SessionStatus::Live,
        service_pid: Some(service_pid),
        child_pid,
        updated_at: now,
        failure_reason: None,
        ..s
    }
}

/// A session that has exited.
pub open spec fn marked_exited(s: SessionView, exit_code: Option<i32>, now: Timestamp) -> SessionView {
    SessionView { status: SessionStatus::Exited, exit_code, updated_at: now, ..s }
}

/// A session that failed to start.
pub open spec fn marked_failed(s: SessionView, reason: Seq<char>, now: Timestamp) -> SessionView {
    SessionView {
        status: SessionStatus::Failed,
        failure_reason: Some(reason),
        updated_at: now,
        ..s
    }
}

/// A session under a new name.
pub open spec fn renamed(s: SessionView, name: Seq<char>, now: Timestamp) -> SessionView {
    SessionView { current_name: name, updated_at: now, ..s }
}

/// The live session that a rename is about, or what keeps it from being renamed.
pub open spec fn rename_target(state: StateView, target: Seq<char>, name: Seq<char>) -> Result<
    SessionView,
    ErrorView,
> {
    if name_error(name) is Some {
        Err(name_error(name)->0)
    } else if lookup::some_session(state.sessions, lookup::live_named(name)) {
        Err(ErrorView::LiveNameExists(name))
    } else {
        lookup::session_targeted(state.sessions, target, SessionScope::LiveOnly)
    }
}

/// Where the sessions and their files are kept.
#[derive(Debug)]
pub struct Store {
    base_dir: String,
}

impl View for Store {
    type V = Seq<char>;

    /// The directory under which everything is kept.
    closed spec fn view(&self) -> Seq<char> {
        self.base_dir@
    }
}

impl Store {
    /// The store under `tmuy_home`, or else under `.tmuy` in the home directory.
    pub fn new(tmuy_home: Option<String>, home: Option<String>) -> (r: Result<Store, TmuyError>)
        ensures
            match (tmuy_home, home) {
                (Some(dir), _) => r is Ok && r->Ok_0@ == dir@,
                (None, Some(dir)) => r is Ok && r->Ok_0@ == path::path_join(dir@, ".tmuy"@),
                (None, None) => r is Err && r->Err_0@ == ErrorView::NoHome,
            },
    {
        match tmuy_home {
            Some(dir) => Ok(Store::from_base_dir(dir)),
            None => match home {
                Some(dir) => Ok(Store::from_base_dir(path::join(dir.as_str(), ".tmuy"))),
                None => Err(TmuyError::NoHome),
            },
        }
    }

    /// The store under the given directory.
    pub fn from_base_dir(base_dir: String) -> (r: Store)
        ensures
            r@ == base_dir@,
    {
        Store { base_dir }
    }

    /// The directory under which everything is kept.
    pub fn base_dir(&self) -> (r: &str)
        ensures
            r@ == self@,
    {
        self.base_dir.as_str()
    }

    /// The directory of the sockets of live sessions.
    pub fn live_dir(&self) -> (r: String)
        ensures
            r@ == live_dir_of(self@),
    {
        path::join(self.base_dir.as_str(), "live")
    }

    /// The file that holds the state.
    pub fn state_path(&self) -> (r: String)
        ensures
            r@ == path::path_join(self@, "state.json"@),
    {
        path::join(self.base_dir.as_str(), "state.json")
    }

    /// The file that the next state is written to before it takes the place of the last.
    pub fn state_tmp_path(&self) -> (r: String)
        ensures
            r@ == path::path_join(self@, "state.json.tmp"@),
    {
        path::join(self.base_dir.as_str(), "state.json.tmp")
    }

    /// The file that is locked while the state is read and changed.
    pub fn lock_path(&self) -> (r: String)
        ensures
            r@ == path::path_join(self@, "state.lock"@),
    {
        path::join(self.base_dir.as_str(), "state.lock")
    }

    /// The session record for a valid request, with the hash, the instant and
    /// the date given.
    fn new_record(
        &self,
        req: CreateSessionRequest,
        name: String,
        id_hash: String,
        now: Timestamp,
        date: CivilDate,
    ) -> (r: SessionRecord)
        ensures
            r@ == created_session(self@, req@, name@, id_hash@, now, date),
    {
        let year = path::join(self.base_dir.as_str(), year_text(date.year).as_str());
        let month = path::join(
            year.as_str(),
            padded_decimal_text(date.month as u64, 2).as_str(),
        );
        let day = path::join(month.as_str(), padded_decimal_text(date.day as u64, 2).as_str());
        let dir_name = joined3(
            sanitize_for_path(name.as_str()).as_str(),
            "-",
            id_hash.as_str(),
        );
        let dir = path::join(day.as_str(), dir_name.as_str());
        let log_path = path::join(dir.as_str(), "pty.log");
        let meta_path = path::join(dir.as_str(), "meta.json");
        let events_path = path::join(dir.as_str(), "events.jsonl");
        let socket_path = path::join(
            self.live_dir().as_str(),
            joined(id_hash.as_str(), ".sock").as_str(),
        );
        let env = req.env.insert("TMUY_SESSION_HASH", id_hash.as_str());
        let env = env.insert("TMUY_SESSION_STARTED_NAME", name.as_str());
        let env = env.insert("TMUY_INSIDE", "1");
        SessionRecord {
            id_hash,
            started_name: name.clone(),
            current_name: name,
            created_at: now,
            updated_at: now,
            cwd: req.cwd,
            command: req.command,
            mode: req.mode,
            sandbox: req.sandbox,
            status: SessionStatus::Starting,
            started_log_dir: dir,
            meta_path,
            log_path,
            events_path,
            socket_path,
            service_pid: None,
            child_pid: None,
            exit_code: None,
            failure_reason: None,
            env,
            detach_key: req.detach_key,
        }
    }

    /// Adds a session with the given hash, created at the given instant of the
    /// given day, or says why it cannot be created and changes nothing.
    pub fn create_session_at(
        &self,
        state: &mut StateFile,
        req: CreateSessionRequest,
        id_hash: String,
        now: Timestamp,
        date: CivilDate,
    ) -> (r: Result<SessionRecord, TmuyError>)
        requires
            req.explicit_name is None ==> old(state).next_numeric_name < u64::MAX,
        ensures
            match create_refusal(old(state)@, req@) {
                Some(e) => r is Err && r->Err_0@ == e && final(state)@ == old(state)@,
                None => {
                    let session = created_session(
                        self@,
                        req@,
                        new_name(old(state)@, req@),
                        id_hash@,
                        now,
                        date,
                    );
                    r is Ok && r->Ok_0@ == session && final(state)@ == state_with(
                        old(state)@,
                        req@,
                        session,
                    )
                },
            },
    {
        let ghost before = state@;
        let name = match &req.explicit_name {
            Some(name) => {
                if let Err(e) = validate_name(name.as_str()) {
                    return Err(e);
                }
                if live_name_taken(&state.sessions, name.as_str()) {
                    return Err(TmuyError::LiveNameExists(name.clone()));
                }
                name.clone()
            },
            None => {
                let next: u64 = if state.next_numeric_name == 0 {
                    1
                } else {
                    state.next_numeric_name
                };
                state.next_numeric_name = next + 1;
                decimal_text(next)
            },
        };
        let record = self.new_record(req, name, id_hash, now, date);
        let kept = record.clone();
        state.sessions.push(kept);
        proof {
            assert(state@.sessions =~= before.sessions.push(record@));
        }
        Ok(record)
    }

    /// Adds a session with a hash that no other session has, created now, or
    /// says why it cannot be created and changes nothing.
    pub fn create_session(&self, state: &mut StateFile, req: CreateSessionRequest) -> (r: Result<
        SessionRecord,
        TmuyError,
    >)
        requires
            req.explicit_name is None ==> old(state).next_numeric_name < u64::MAX,
            old(state).sessions@.len() <= 0x0fff_ffff,
        ensures
            match create_refusal(old(state)@, req@) {
                Some(e) => r is Err && r->Err_0@ == e && final(state)@ == old(state)@,
                None => {
                    &&& r is Ok
                    &&& final(state)@ == state_with(old(state)@, req@, r->Ok_0@)
                    &&& text::is_hash(r->Ok_0@.id_hash)
                    &&& hash_is_free(old(state)@, r->Ok_0@.id_hash)
                    &&& r->Ok_0@.created_at.is_reading()
                    &&& exists|date: CivilDate|
                        r->Ok_0@ == #[trigger] created_session(
                            self@,
                            req@,
                            new_name(old(state)@, req@),
                            r->Ok_0@.id_hash,
                            r->Ok_0@.created_at,
                            date,
                        ) && outside::utc_date_of(r->Ok_0@.created_at.secs as int) == Some(
                            (date.year, date.month, date.day),
                        )
                },
            },
    {
        let ghost before = state@;
        let ghost asked = req@;
        let id_hash = draw_hash(state);
        let ghost hash = id_hash@;
        let now = Timestamp::now();
        let (year, month, day) = outside::utc_date(now.secs).unwrap();
        let date = CivilDate { year, month, day };
        let r = self.create_session_at(state, req, id_hash, now, date);
        proof {
            if create_refusal(before, asked) is None {
                assert(r->Ok_0@ == created_session(
                    self@,
                    asked,
                    new_name(before, asked),
                    hash,
                    now,
                    date,
                ));
                assert(r->Ok_0@.id_hash == hash);
                assert(r->Ok_0@.created_at == now);
            }
        }
        r
    }

    /// The session with the given hash.
    pub fn session_by_hash(&self, state: &StateFile, hash: &str) -> (r: Result<
        SessionRecord,
        TmuyError,
    >)
        ensures
            lookup::outcome(r) == if hash_is_free(state@, hash@) {
                Err::<SessionView, ErrorView>(ErrorView::UnknownHash(hash@))
            } else {
                Ok::<SessionView, ErrorView>(session_of(state@, hash@))
            },
    {
        match place_of_hash(&state.sessions, hash) {
            Some(i) => {
                proof {
                    lookup::lemma_first(state@.sessions, lookup::with_hash(hash@), i as int);
                    assert(state@.sessions[i as int] == state.sessions@[i as int]@);
                }
                Ok(state.sessions[i].clone())
            },
            None => Err(TmuyError::UnknownHash(hash.to_owned())),
        }
    }

    /// The session of the scope that a hash or a name stands for.
    pub fn resolve_target(&self, state: &StateFile, target: &str, scope: SessionScope) -> (r: Result<
        SessionRecord,
        TmuyError,
    >)
        ensures
            lookup::outcome(r) == lookup::session_targeted(state@.sessions, target@, scope),
    {
        resolve_target_in_state(state, target, scope)
    }

    /// The sessions of the scope, the newest first.
    pub fn list_sessions(&self, state: &StateFile, scope: SessionScope) -> (r: Vec<SessionRecord>)
        ensures
            lookup::is_listing(
                model::session_views(r@),
                state@.sessions.filter(lookup::in_scope(scope)),
            ),
    {
        list_in_state(state, scope)
    }

    /// Changes the session with the given hash.
    pub fn update_session<F: FnOnce(&mut SessionRecord)>(
        &self,
        state: &mut StateFile,
        hash: &str,
        mutate: F,
    ) -> (r: Result<SessionRecord, TmuyError>)
        requires
            forall|s: &mut SessionRecord| #[trigger] call_requires(mutate, (s,)),
        ensures
            hash_is_free(old(state)@, hash@) ==> {
                &&& lookup::outcome(r) == Err::<SessionView, ErrorView>(
                    ErrorView::UnknownHash(hash@),
                )
                &&& final(state)@ == old(state)@
            },
            !hash_is_free(old(state)@, hash@) ==> exists|s: &mut SessionRecord|
                {
                    &&& #[trigger] call_ensures(mutate, (s,), ())
                    &&& (*s)@ == session_of(old(state)@, hash@)
                    &&& lookup::outcome(r) == Ok::<SessionView, ErrorView>((*final(s))@)
                    &&& final(state)@ == put_session(old(state)@, hash@, (*final(s))@)
                },
    {
        match place_of_hash(&state.sessions, hash) {
            Some(i) => {
                let ghost before = state@;
                proof {
                    lookup::lemma_first(before.sessions, lookup::with_hash(hash@), i as int);
                    assert(before.sessions[i as int] == state.sessions@[i as int]@);
                }
                let session = &mut state.sessions[i];
                mutate(session);
                assert(state@.sessions =~= before.sessions.update(
                    i as int,
                    state.sessions@[i as int]@,
                ));
                Ok(state.sessions[i].clone())
            },
            None => Err(TmuyError::UnknownHash(hash.to_owned())),
        }
    }

    /// Records that a session runs since the given instant.
    pub fn mark_live_at(
        &self,
        state: &mut StateFile,
        hash: &str,
        service_pid: u32,
        child_pid: Option<u32>,
        now: Timestamp,
    ) -> (r: Result<SessionRecord, TmuyError>)
        ensures
            is_change(
                old(state)@,
                hash@,
                marked_live(session_of(old(state)@, hash@), service_pid, child_pid, now),
                lookup::outcome(r),
                final(state)@,
            ),
    {
        let change = |s: &mut SessionRecord|
            ensures
                (*final(s))@ == marked_live((*old(s))@, service_pid, child_pid, now),
            {
                s.status = SessionStatus::Live;
                s.service_pid = Some(service_pid);
                s.child_pid = child_pid;
                s.updated_at = now;
                s.failure_reason = None;
            };
        self.update_session(state, hash, change)
    }

    /// Records that a session runs.
    pub fn mark_live(
        &self,
        state: &mut StateFile,
        hash: &str,
        service_pid: u32,
        child_pid: Option<u32>,
    ) -> (r: Result<SessionRecord, TmuyError>)
        ensures
            exists|now: Timestamp|
                now.is_reading() && is_change(
                    old(state)@,
                    hash@,
                    #[trigger] marked_live(
                        session_of(old(state)@, hash@),
                        service_pid,
                        child_pid,
                        now,
                    ),
                    lookup::outcome(r),
                    final(state)@,
                ),
    {
        self.mark_live_at(state, hash, service_pid, child_pid, Timestamp::now())
    }

    /// Records that a session exited at the given instant.
    pub fn mark_exited_at(
        &self,
        state: &mut StateFile,
        hash: &str,
        exit_code: Option<i32>,
        now: Timestamp,
    ) -> (r: Result<SessionRecord, TmuyError>)
        ensures
            is_change(
                old(state)@,
                hash@,
                marked_exited(session_of(old(state)@, hash@), exit_code, now),
                lookup::outcome(r),
                final(state)@,
            ),
    {
        let change = |s: &mut SessionRecord|
            ensures
                (*final(s))@ == marked_exited((*old(s))@, exit_code, now),
            {
                s.status = SessionStatus::Exited;
                s.exit_code = exit_code;
                s.updated_at = now;
            };
        self.update_session(state, hash, change)
    }

    /// Records that a session exited.
    pub fn mark_exited(&self, state: &mut StateFile, hash: &str, exit_code: Option<i32>) -> (r:
        Result<SessionRecord, TmuyError>)
        ensures
            exists|now: Timestamp|
                now.is_reading() && is_change(
                    old(state)@,
                    hash@,
                    #[trigger] marked_exited(session_of(old(state)@, hash@), exit_code, now),
                    lookup::outcome(r),
                    final(state)@,
                ),
    {
        self.mark_exited_at(state, hash, exit_code, Timestamp::now())
    }

    /// Records why a session failed at the given instant.
    pub fn mark_failed_at(
        &self,
        state: &mut StateFile,
        hash: &str,
        reason: &str,
        now: Timestamp,
    ) -> (r: Result<SessionRecord, TmuyError>)
        ensures
            is_change(
                old(state)@,
                hash@,
                marked_failed(session_of(old(state)@, hash@), reason@, now),
                lookup::outcome(r),
                final(state)@,
            ),
    {
        let change = |s: &mut SessionRecord|
            ensures
                (*final(s))@ == marked_failed((*old(s))@, reason@, now),
            {
                s.status = SessionStatus::Failed;
                s.failure_reason = Some(reason.to_owned());
                s.updated_at = now;
            };
        self.update_session(state, hash, change)
    }

    /// Records why a session failed.
    pub fn mark_failed(&self, state: &mut StateFile, hash: &str, reason: &str) -> (r: Result<
        SessionRecord,
        TmuyError,
    >)
        ensures
            exists|now: Timestamp|
                now.is_reading() && is_change(
                    old(state)@,
                    hash@,
                    #[trigger] marked_failed(session_of(old(state)@, hash@), reason@, now),
                    lookup::outcome(r),
                    final(state)@,
                ),
    {
        self.mark_failed_at(state, hash, reason, Timestamp::now())
    }

    /// Renames a live session at the given instant, or says why it cannot be
    /// renamed and changes nothing.
    pub fn rename_session_at(
        &self,
        state: &mut StateFile,
        current_target: &str,
        new_name: &str,
        now: Timestamp,
    ) -> (r: Result<SessionRecord, TmuyError>)
        ensures
            match rename_target(old(state)@, current_target@, new_name@) {
                Err(e) => lookup::outcome(r) == Err::<SessionView, ErrorView>(e) && final(state)@
                    == old(state)@,
                Ok(target) => is_change(
                    old(state)@,
                    target.id_hash,
                    renamed(session_of(old(state)@, target.id_hash), new_name@, now),
                    lookup::outcome(r),
                    final(state)@,
                ) && r is Ok,
            },
    {
        if let Err(e) = validate_name(new_name) {
            return Err(e);
        }
        if live_name_taken(&state.sessions, new_name) {
            return Err(TmuyError::LiveNameExists(new_name.to_owned()));
        }
        let target = match resolve_target_in_state(state, current_target, SessionScope::LiveOnly) {
            Ok(target) => target,
            Err(e) => {
                return Err(e);
            },
        };
        proof {
            let sessions = state@.sessions;
            lookup::target_is_a_session_of_the_scope(
                sessions,
                current_target@,
                SessionScope::LiveOnly,
            );
            let i = choose|i: int| 0 <= i < sessions.len() && sessions[i] == target@;
            assert(lookup::with_hash(target@.id_hash)(sessions[i]));
        }
        let change = |s: &mut SessionRecord|
            ensures
                (*final(s))@ == renamed((*old(s))@, new_name@, now),
            {
                s.current_name = new_name.to_owned();
                s.updated_at = now;
            };
        self.update_session(state, target.id_hash.as_str(), change)
    }

    /// Renames a live session, or says why it cannot be renamed and changes nothing.
    pub fn rename_session(&self, state: &mut StateFile, current_target: &str, new_name: &str) -> (r:
        Result<SessionRecord, TmuyError>)
        ensures
            match rename_target(old(state)@, current_target@, new_name@) {
                Err(e) => lookup::outcome(r) == Err::<SessionView, ErrorView>(e) && final(state)@
                    == old(state)@,
                Ok(target) => exists|now: Timestamp|
                    now.is_reading() && is_change(
                        old(state)@,
                        target.id_hash,
                        #[trigger] renamed(
                            session_of(old(state)@, target.id_hash),
                            new_name@,
                            now,
                        ),
                        lookup::outcome(r),
                        final(state)@,
                    ) && r is Ok,
            },
    {
        self.rename_session_at(state, current_target, new_name, Timestamp::now())
    }

    /// Runs `f` on the state that the raw file holds, and hands back what it
    /// gave together with the state to be written, or the error with which
    /// nothing is written. No file, or an empty one, stands for no sessions.
    pub fn with_state<T, P, F>(&self, raw: Option<Vec<u8>>, parse: P, f: F) -> (r: Result<
        (T, StateFile),
        TmuyError,
    >) where P: FnOnce(Vec<u8>) -> Option<StateFile>, F: FnOnce(&mut StateFile) -> Result<T, TmuyError>
        requires
            raw matches Some(bytes) ==> call_requires(parse, (bytes,)),
            forall|s: &mut StateFile| #[trigger] call_requires(f, (s,)),
        ensures
            ({
                let blank = raw matches Some(bytes) ==> bytes@.len() == 0;
                ||| (!blank && call_ensures(parse, (raw->0,), None) && r is Err && r->Err_0@
                    == ErrorView::UnreadableState(path::path_join(self@, "state.json"@)))
                ||| exists|s: &mut StateFile, out: Result<T, TmuyError>|
                    {
                        &&& #[trigger] call_ensures(f, (s,), out)
                        &&& if blank {
                            (*s)@ == model::empty_state()
                        } else {
                            call_ensures(parse, (raw->0,), Some(*s))
                        }
                        &&& match out {
                            Ok(value) => r == Ok::<(T, StateFile), TmuyError>((value, *final(s))),
                            Err(e) => r == Err::<(T, StateFile), TmuyError>(e),
                        }
                    }
            }),
    {
        let mut state = match raw {
            Some(bytes) => if bytes.len() == 0 {
                StateFile::default()
            } else {
                match parse(bytes) {
                    Some(state) => state,
                    None => {
                        return Err(TmuyError::UnreadableState(self.state_path()));
                    },
                }
            },
            None => StateFile::default(),
        };
        match f(&mut state) {
            Ok(value) => Ok((value, state)),
            Err(e) => Err(e),
        }
    }
}

impl Clone for Store {
    fn clone(&self) -> (r: Store)
        ensures
            r@ == self@,
    {
        Store { base_dir: self.base_dir.clone() }
    }
}

} // verus!
