//! What holds of the sessions as a whole, on examples.

use tmuy::env_map::EnvMap;
use tmuy::error::TmuyError;
use tmuy::model::{
    CivilDate, CommandMode, SandboxSpec, SessionRecord, SessionScope, SessionStatus, StateFile,
    Timestamp,
};
use tmuy::path::starts_with;
use tmuy::runtime::client::{events, tail, wait_target};
use tmuy::store::{CreateSessionRequest, Store, sanitize_for_path, validate_name};

fn store() -> Store {
    Store::from_base_dir("/home/user/.tmuy".to_string())
}

fn request(name: Option<&str>) -> CreateSessionRequest {
    CreateSessionRequest {
        explicit_name: name.map(ToOwned::to_owned),
        cwd: "/work".to_string(),
        command: vec!["true".to_string()],
        mode: CommandMode::OneShot,
        sandbox: SandboxSpec::default(),
        detach_key: "C-b d".to_string(),
        env: EnvMap::new().insert("KEEP", "me"),
    }
}

fn add(state: &mut StateFile, hash: &str, name: Option<&str>, secs: i64) -> SessionRecord {
    store()
        .create_session_at(
            state,
            request(name),
            hash.to_string(),
            Timestamp { secs, nanos: 0 },
            CivilDate { year: 2026, month: 3, day: 17 },
        )
        .unwrap()
}

fn fixed(s: &SessionRecord) -> Vec<String> {
    vec![
        s.id_hash.clone(),
        s.started_name.clone(),
        s.cwd.clone(),
        s.command.join(" "),
        s.started_log_dir.clone(),
        s.meta_path.clone(),
        s.log_path.clone(),
        s.events_path.clone(),
        s.socket_path.clone(),
        s.detach_key.clone(),
        format!("{:?}", (s.created_at, s.mode, &s.sandbox, s.env.entries())),
    ]
}

#[test]
fn new_inspect_and_rename_keep_stable_hash() {
    let store = store();
    let mut state = StateFile::default();
    let created = store.create_session(&mut state, request(Some("alpha"))).unwrap();
    assert_eq!(created.current_name, "alpha");
    assert_eq!(created.started_name, "alpha");

    let renamed = store.rename_session(&mut state, &created.id_hash, "beta").unwrap();
    assert_eq!(renamed.id_hash, created.id_hash);
    assert_eq!(renamed.current_name, "beta");
    assert_eq!(renamed.started_name, "alpha");

    let inspected =
        store.resolve_target(&state, &created.id_hash, SessionScope::All).unwrap();
    assert_eq!(inspected.id_hash, created.id_hash);
    assert_eq!(inspected.current_name, "beta");
    assert_eq!(inspected.started_name, "alpha");
}

#[test]
fn failed_startup_is_reflected_in_json_inspect() {
    let store = store();
    let mut state = StateFile::default();
    let bad = store.create_session(&mut state, request(Some("bad"))).unwrap();
    let reason = TmuyError::CwdNotGranted("/work".to_string()).message();
    store.mark_failed(&mut state, &bad.id_hash, &reason).unwrap();
    let inspected = store.resolve_target(&state, "bad", SessionScope::All).unwrap();
    assert_eq!(inspected.status, SessionStatus::Failed);
    assert!(inspected.failure_reason.as_deref().unwrap_or_default().contains("not covered"));
}

#[test]
fn sessions_keep_their_identity_whatever_happens() {
    let store = store();
    let mut state = StateFile::default();
    let created = add(&mut state, "0000001", Some("one"), 1);
    let hash = created.id_hash.clone();
    for session in [
        store.rename_session(&mut state, "one", "uno").unwrap(),
        store.mark_live(&mut state, &hash, 1, Some(2)).unwrap(),
        store.mark_failed(&mut state, &hash, "no").unwrap(),
        store.mark_exited(&mut state, &hash, Some(1)).unwrap(),
    ] {
        assert_eq!(fixed(&session), fixed(&created));
    }
}

#[test]
fn changes_touch_no_other_session() {
    let store = store();
    let mut state = StateFile::default();
    let first = add(&mut state, "0000001", Some("one"), 1);
    let second = add(&mut state, "0000002", Some("two"), 2);
    let before = format!("{first:?}");
    store.mark_live(&mut state, &second.id_hash, 1, None).unwrap();
    store.rename_session(&mut state, "two", "dos").unwrap();
    store.mark_exited(&mut state, &second.id_hash, Some(0)).unwrap();
    let read = store.session_by_hash(&state, "0000001").unwrap();
    assert_eq!(format!("{read:?}"), before);
    let read = store.session_by_hash(&state, "0000002").unwrap();
    assert_eq!(read.current_name, "dos");
    assert_eq!(read.exit_code, Some(0));
}

#[test]
fn refused_requests_change_nothing() {
    let store = store();
    let mut state = StateFile::default();
    add(&mut state, "0000001", Some("one"), 1);
    let before = format!("{state:?}");
    assert!(store.create_session(&mut state, request(Some("one"))).is_err());
    assert!(store.create_session(&mut state, request(Some("a/b"))).is_err());
    assert!(store.rename_session(&mut state, "one", "one").is_err());
    assert!(store.rename_session(&mut state, "two", "three").is_err());
    assert!(store.mark_exited(&mut state, "0000002", None).is_err());
    assert_eq!(format!("{state:?}"), before);
}

#[test]
fn dead_names_are_given_again_and_the_live_session_answers() {
    let store = store();
    let mut state = StateFile::default();
    add(&mut state, "0000001", Some("same"), 1);
    store.mark_exited(&mut state, "0000001", None).unwrap();
    add(&mut state, "0000002", Some("same"), 2);
    store.mark_failed(&mut state, "0000002", "x").unwrap();
    add(&mut state, "0000003", Some("same"), 3);
    for scope in [SessionScope::LiveOnly, SessionScope::All] {
        assert_eq!(store.resolve_target(&state, "same", scope).unwrap().id_hash, "0000003");
    }
    assert!(matches!(
        store.resolve_target(&state, "same", SessionScope::DeadOnly),
        Err(TmuyError::AmbiguousTarget(_))
    ));
    let dead = store.resolve_target(&state, "0000001", SessionScope::DeadOnly).unwrap();
    assert_eq!(dead.id_hash, "0000001");
    assert!(store.resolve_target(&state, "0000001", SessionScope::LiveOnly).is_err());
}

#[test]
fn numbers_are_never_given_twice() {
    let store = store();
    let mut state = StateFile::default();
    let mut names = Vec::new();
    for round in 0..12 {
        if round % 3 == 0 {
            store
                .create_session(&mut state, request(Some(&format!("named-{round}"))))
                .unwrap();
        }
        let session = store.create_session(&mut state, request(None)).unwrap();
        store.mark_exited(&mut state, &session.id_hash, None).unwrap();
        names.push(session.current_name);
    }
    let expected: Vec<String> = (1..=12).map(|n| n.to_string()).collect();
    assert_eq!(names, expected);
}

#[test]
fn live_and_dead_sessions_make_up_all() {
    let store = store();
    let mut state = StateFile::default();
    for n in 0..9 {
        let hash = format!("000000{n}");
        add(&mut state, &hash, None, n % 4);
        if n % 2 == 0 {
            store.mark_exited(&mut state, &hash, None).unwrap();
        }
    }
    let hashes = |scope| -> Vec<String> {
        store.list_sessions(&state, scope).iter().map(|s| s.id_hash.clone()).collect()
    };
    let mut parts = hashes(SessionScope::LiveOnly);
    parts.extend(hashes(SessionScope::DeadOnly));
    parts.sort();
    let mut all = hashes(SessionScope::All);
    let mut expected: Vec<(i64, usize)> =
        state.sessions.iter().enumerate().map(|(i, s)| (-s.created_at.secs, i)).collect();
    expected.sort();
    let expected: Vec<String> =
        expected.iter().map(|(_, i)| state.sessions[*i].id_hash.clone()).collect();
    assert_eq!(all, expected);
    all.sort();
    assert_eq!(parts, all);
}

#[test]
fn files_are_apart_and_under_the_base() {
    let mut state = StateFile::default();
    let first = add(&mut state, "0000001", Some("a"), 1);
    let second = add(&mut state, "0000002", Some("a-0000001"), 1);
    assert_ne!(first.socket_path, second.socket_path);
    assert_ne!(first.started_log_dir, second.started_log_dir);
    for path in [
        &first.started_log_dir,
        &first.meta_path,
        &first.log_path,
        &first.events_path,
        &first.socket_path,
    ] {
        assert!(starts_with(path, "/home/user/.tmuy"));
    }
    assert_eq!(first.env.get("KEEP").map(String::as_str), Some("me"));
}

#[test]
fn followed_sessions_are_found_after_a_new_name() {
    let store = store();
    let mut state = StateFile::default();
    add(&mut state, "0000001", Some("old"), 1);
    let log = tail(&store, &state, "old", true).unwrap();
    let log_events = events(&store, &state, "old", true).unwrap();
    let hash = wait_target(&store, &state, "old").unwrap();
    store.rename_session(&mut state, "old", "new").unwrap();
    let found = store.session_by_hash(&state, &hash).unwrap();
    assert_eq!(found.log_path, log.path);
    assert_eq!(found.events_path, log_events.path);
    assert!(found.status.is_live());
}

#[test]
fn valid_names_are_their_own_sanitized_form() {
    for name in ["a", "A-b_c.9", "...", "--", "0"] {
        assert!(validate_name(name).is_ok());
        assert_eq!(sanitize_for_path(name), name);
    }
    for name in ["a b", "\u{e9}", "a/b", "a:b", "\n"] {
        assert!(matches!(validate_name(name), Err(TmuyError::InvalidName)));
        assert!(validate_name(&sanitize_for_path(name)).is_ok());
    }
    assert_eq!(sanitize_for_path("\u{e9} x"), "__x");
    assert_eq!(sanitize_for_path(""), "");
}

#[test]
fn scopes_follow_the_status() {
    assert!(SessionStatus::Starting.is_live());
    assert!(SessionStatus::Live.is_live());
    assert!(!SessionStatus::Exited.is_live());
    assert!(!SessionStatus::Failed.is_live());
}
