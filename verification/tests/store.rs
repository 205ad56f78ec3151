//! Naming, keeping, finding, listing and changing sessions.

use tmuy::cli::print_session_detail;
use tmuy::env_map::EnvMap;
use tmuy::error::TmuyError;
use tmuy::events::{created_event, failed_event, renamed_event};
use tmuy::lookup::resolve_target_in_state;
use tmuy::model::{
    CivilDate, CommandMode, EventDetail, FsGrant, NetworkMode, SandboxSpec, SessionRecord,
    SessionScope, SessionStatus, StateFile, Timestamp,
};
use tmuy::store::{
    CreateSessionRequest, Store, absolutize_from_cwd, free_hash, parse_sandbox, sanitize_for_path,
    validate_name,
};

fn make_store() -> (Store, StateFile) {
    let store = Store::from_base_dir("/home/user/.tmuy".to_string());
    (store, StateFile::default())
}

fn base_request(name: Option<&str>) -> CreateSessionRequest {
    CreateSessionRequest {
        explicit_name: name.map(ToOwned::to_owned),
        cwd: "/tmp/project".to_string(),
        command: vec!["/bin/bash".to_string(), "-i".to_string()],
        mode: CommandMode::Shell,
        sandbox: SandboxSpec::default(),
        detach_key: "C-b d".to_string(),
        env: EnvMap::new(),
    }
}

#[test]
fn auto_names_increment() {
    let (store, mut state) = make_store();
    let first = store.create_session(&mut state, base_request(None)).unwrap();
    let second = store.create_session(&mut state, base_request(None)).unwrap();
    assert_eq!(first.current_name, "1");
    assert_eq!(second.current_name, "2");
}

#[test]
fn create_session_writes_created_event() {
    let (store, mut state) = make_store();
    let created = store.create_session(&mut state, base_request(Some("alpha"))).unwrap();
    let event = created_event(&created);
    assert_eq!(event.kind, "created");
    assert_eq!(event.ts, created.created_at);
    assert!(matches!(event.detail, EventDetail::Created { name, .. } if name == "alpha"));
}

#[test]
fn rename_keeps_hash_and_started_path() {
    let (store, mut state) = make_store();
    let created = store.create_session(&mut state, base_request(Some("alpha"))).unwrap();
    let renamed = store.rename_session(&mut state, "alpha", "beta").unwrap();
    assert_eq!(created.id_hash, renamed.id_hash);
    assert_eq!(created.started_name, renamed.started_name);
    assert_eq!(created.started_log_dir, renamed.started_log_dir);
    assert_eq!(renamed.current_name, "beta");
    let event = renamed_event(&renamed, renamed.updated_at);
    assert_eq!(event.kind, "renamed");
    match event.detail {
        EventDetail::Renamed { current_name, started_name, id_hash } => {
            assert_eq!(current_name, "beta");
            assert_eq!(started_name, "alpha");
            assert_eq!(id_hash, created.id_hash);
        }
        _ => panic!("unexpected detail"),
    }
}

#[test]
fn live_collision_is_rejected_but_dead_name_can_reuse() {
    let (store, mut state) = make_store();
    let first = store.create_session(&mut state, base_request(Some("alpha"))).unwrap();
    let err = store.create_session(&mut state, base_request(Some("alpha"))).unwrap_err();
    assert!(err.message().contains("live session name already exists"));
    assert_eq!(state.sessions.len(), 1);
    store
        .update_session(&mut state, &first.id_hash, |session: &mut SessionRecord| {
            session.status = SessionStatus::Exited
        })
        .unwrap();
    let second = store.create_session(&mut state, base_request(Some("alpha"))).unwrap();
    assert_ne!(first.id_hash, second.id_hash);
}

#[test]
fn list_filters_work() {
    let (store, mut state) = make_store();
    let live = store.create_session(&mut state, base_request(Some("live"))).unwrap();
    let dead = store.create_session(&mut state, base_request(Some("dead"))).unwrap();
    store.mark_exited(&mut state, &dead.id_hash, Some(0)).unwrap();

    let live_only = store.list_sessions(&state, SessionScope::LiveOnly);
    let dead_only = store.list_sessions(&state, SessionScope::DeadOnly);
    let all = store.list_sessions(&state, SessionScope::All);

    assert_eq!(live_only.len(), 1);
    assert_eq!(live_only[0].id_hash, live.id_hash);
    assert_eq!(dead_only.len(), 1);
    assert_eq!(dead_only[0].id_hash, dead.id_hash);
    assert_eq!(all.len(), 2);
}

#[test]
fn parse_sandbox_flags() {
    let parsed = parse_sandbox(
        &["ro:src".to_string(), "rw:target".to_string()],
        Some("off"),
        "/work",
    )
    .unwrap();
    assert_eq!(parsed.net, NetworkMode::Off);
    assert_eq!(
        parsed.fs,
        vec![
            FsGrant::ReadOnly("/work/src".to_string()),
            FsGrant::ReadWrite("/work/target".to_string())
        ]
    );
}

#[test]
fn store_new_uses_env_override_and_home_fallback() {
    let env_store = Store::new(
        Some("/data/override".to_string()),
        Some("/home/user".to_string()),
    )
    .unwrap();
    assert!(env_store.base_dir().ends_with("override"));

    let home_store = Store::new(None, Some("/home/user".to_string())).unwrap();
    assert!(home_store.base_dir().ends_with(".tmuy"));
    assert_eq!(home_store.base_dir(), "/home/user/.tmuy");

    let err = Store::new(None, None).unwrap_err();
    assert_eq!(err.message(), "could not determine home directory");
}

#[test]
fn empty_state_file_is_treated_as_default() {
    let (store, _) = make_store();
    for raw in [None, Some(Vec::new())] {
        let (listed, after) = store
            .with_state(
                raw,
                |_: Vec<u8>| None,
                |state: &mut StateFile| Ok(store.list_sessions(state, SessionScope::All)),
            )
            .unwrap();
        assert!(listed.is_empty());
        assert_eq!(after.next_numeric_name, 0);
        assert!(after.sessions.is_empty());
    }
}

#[test]
fn invalid_state_file_returns_parse_error() {
    let (store, _) = make_store();
    let err = store
        .with_state(
            Some(b"{invalid".to_vec()),
            |_: Vec<u8>| None,
            |state: &mut StateFile| Ok(store.list_sessions(state, SessionScope::All)),
        )
        .unwrap_err();
    assert!(err.message().contains("failed to parse"));
    assert_eq!(err.message(), "failed to parse /home/user/.tmuy/state.json");
}

#[test]
fn state_is_handed_back_only_when_the_change_succeeds() {
    let (store, _) = make_store();
    let (_, state) = store
        .with_state(
            None,
            |_: Vec<u8>| None,
            |state: &mut StateFile| store.create_session(state, base_request(Some("kept"))),
        )
        .unwrap();
    assert_eq!(state.sessions.len(), 1);

    let err = store
        .with_state(
            Some(b"x".to_vec()),
            |_: Vec<u8>| Some(state),
            |state: &mut StateFile| store.create_session(state, base_request(Some("kept"))),
        )
        .unwrap_err();
    assert!(matches!(err, TmuyError::LiveNameExists(name) if name == "kept"));
}

#[test]
fn session_by_hash_unknown_errors() {
    let (store, state) = make_store();
    let err = store.session_by_hash(&state, "missing").unwrap_err();
    assert!(err.message().contains("unknown session hash"));
    assert_eq!(err.message(), "unknown session hash: missing");
}

#[test]
fn resolve_target_accepts_name_and_hash() {
    let (store, mut state) = make_store();
    let created = store.create_session(&mut state, base_request(Some("same"))).unwrap();

    let by_name = store.resolve_target(&state, "same", SessionScope::LiveOnly).unwrap();
    let by_hash = store.resolve_target(&state, &created.id_hash, SessionScope::LiveOnly).unwrap();

    assert_eq!(by_name.id_hash, created.id_hash);
    assert_eq!(by_hash.id_hash, created.id_hash);
}

#[test]
fn resolve_target_prefers_live_name_in_all_scope() {
    let (store, mut state) = make_store();
    let dead = store.create_session(&mut state, base_request(Some("same"))).unwrap();
    store.mark_exited(&mut state, &dead.id_hash, Some(0)).unwrap();
    let live = store.create_session(&mut state, base_request(Some("same"))).unwrap();
    let resolved = store.resolve_target(&state, "same", SessionScope::All).unwrap();
    assert_eq!(resolved.id_hash, live.id_hash);
}

#[test]
fn resolve_target_errors_when_duplicate_dead_names_exist() {
    let (store, mut state) = make_store();
    let first = store.create_session(&mut state, base_request(Some("same"))).unwrap();
    store.mark_exited(&mut state, &first.id_hash, Some(0)).unwrap();
    let second = store.create_session(&mut state, base_request(Some("same"))).unwrap();
    store.mark_exited(&mut state, &second.id_hash, Some(0)).unwrap();
    let err = store.resolve_target(&state, "same", SessionScope::All).unwrap_err();
    assert!(err.message().contains("ambiguous session target"));
    assert_eq!(
        err.message(),
        "ambiguous session target: same; use a unique current name or the stable session hash"
    );
}

#[test]
fn resolve_target_dead_only_returns_dead_session() {
    let (store, mut state) = make_store();
    let created = store.create_session(&mut state, base_request(Some("dead"))).unwrap();
    store.mark_exited(&mut state, &created.id_hash, Some(0)).unwrap();
    let resolved = store.resolve_target(&state, "dead", SessionScope::DeadOnly).unwrap();
    assert_eq!(resolved.id_hash, created.id_hash);
    assert_eq!(resolved.status, SessionStatus::Exited);
}

#[test]
fn mark_failed_and_mark_live_update_failure_reason() {
    let (store, mut state) = make_store();
    let created = store.create_session(&mut state, base_request(Some("alpha"))).unwrap();
    let failed = store.mark_failed(&mut state, &created.id_hash, "boom").unwrap();
    assert_eq!(failed.status, SessionStatus::Failed);
    assert_eq!(failed.failure_reason.as_deref(), Some("boom"));
    let event = failed_event(&failed, failed.updated_at);
    assert_eq!(event.kind, "failed");
    match event.detail {
        EventDetail::Failed { reason } => assert_eq!(reason.as_deref(), Some("boom")),
        _ => panic!("unexpected detail"),
    }
    let live = store.mark_live(&mut state, &created.id_hash, 10, Some(11)).unwrap();
    assert_eq!(live.status, SessionStatus::Live);
    assert_eq!(live.failure_reason, None);
    assert_eq!(live.service_pid, Some(10));
    assert_eq!(live.child_pid, Some(11));
}

#[test]
fn rename_unknown_and_collision_error() {
    let (store, mut state) = make_store();
    let err = store.rename_session(&mut state, "missing", "next").unwrap_err();
    assert!(err.message().contains("unknown session target"));

    store.create_session(&mut state, base_request(Some("one"))).unwrap();
    store.create_session(&mut state, base_request(Some("two"))).unwrap();
    let err = store.rename_session(&mut state, "one", "two").unwrap_err();
    assert!(err.message().contains("live session name already exists"));
    let err = store.rename_session(&mut state, "one", "one").unwrap_err();
    assert_eq!(err.message(), "live session name already exists: one");
    let err = store.rename_session(&mut state, "one", "a b").unwrap_err();
    assert!(matches!(err, TmuyError::InvalidName));
}

#[test]
fn rename_accepts_hash_target() {
    let (store, mut state) = make_store();
    let created = store.create_session(&mut state, base_request(Some("alpha"))).unwrap();
    let renamed = store.rename_session(&mut state, &created.id_hash, "beta").unwrap();
    assert_eq!(renamed.current_name, "beta");
    assert_eq!(renamed.id_hash, created.id_hash);
}

#[test]
fn update_unknown_hash_errors() {
    let (store, mut state) = make_store();
    let err = store
        .update_session(&mut state, "missing", |session: &mut SessionRecord| {
            session.current_name = "x".to_string()
        })
        .unwrap_err();
    assert!(err.message().contains("unknown session hash"));
    for err in [
        store.mark_live(&mut state, "missing", 1, None).unwrap_err(),
        store.mark_exited(&mut state, "missing", None).unwrap_err(),
        store.mark_failed(&mut state, "missing", "x").unwrap_err(),
    ] {
        assert_eq!(err.message(), "unknown session hash: missing");
    }
}

#[test]
fn parse_sandbox_validation_errors() {
    let err = parse_sandbox(&[], Some("bad"), "/work").unwrap_err();
    assert!(err.message().contains("invalid --net"));

    let err =
        parse_sandbox(&["full".to_string(), "ro:src".to_string()], None, "/work").unwrap_err();
    assert!(err.message().contains("cannot be mixed"));

    let err = parse_sandbox(&["oops".to_string()], None, "/work").unwrap_err();
    assert!(err.message().contains("invalid --fs value"));

    let err = parse_sandbox(&["xx:src".to_string()], None, "/work").unwrap_err();
    assert!(err.message().contains("invalid --fs mode"));

    let err =
        parse_sandbox(&["ro:src".to_string(), "full".to_string()], None, "/work").unwrap_err();
    assert!(err.message().contains("cannot be mixed"));
}

#[test]
fn validate_name_and_path_helpers_cover_error_cases() {
    let err = validate_name("").unwrap_err();
    assert!(err.message().contains("cannot be empty"));
    let err = validate_name("bad/name").unwrap_err();
    assert!(err.message().contains("may only contain"));

    assert_eq!(sanitize_for_path("bad/name"), "bad_name");
    assert_eq!(absolutize_from_cwd("/abs", "/work"), "/abs");
}

#[test]
fn sandbox_errors_name_the_flag() {
    let message = |flags: &[&str], net: Option<&str>| {
        let flags: Vec<String> = flags.iter().map(|flag| flag.to_string()).collect();
        parse_sandbox(&flags, net, "/work").unwrap_err().message()
    };
    assert_eq!(message(&[], Some("ON")), "invalid --net value: ON; use on|off");
    assert_eq!(
        message(&["oops", "full"], None),
        "invalid --fs value: oops; use full|ro:<path>|rw:<path>"
    );
    assert_eq!(
        message(&["rx:/a"], Some("off")),
        "invalid --fs mode: rx; use full|ro:<path>|rw:<path>"
    );
    assert_eq!(
        message(&["full", "full"], None),
        "--fs full cannot be mixed with ro:/rw: grants"
    );
    assert_eq!(message(&["full", "oops"], Some("no")), "invalid --net value: no; use on|off");
}

#[test]
fn sandbox_paths_are_taken_from_the_directory() {
    let parsed = parse_sandbox(
        &["ro:/abs:x".to_string(), "rw:".to_string(), "ro:.".to_string()],
        Some("on"),
        "/work",
    )
    .unwrap();
    assert_eq!(parsed.net, NetworkMode::On);
    assert_eq!(
        parsed.fs,
        vec![
            FsGrant::ReadOnly("/abs:x".to_string()),
            FsGrant::ReadWrite("/work/".to_string()),
            FsGrant::ReadOnly("/work/.".to_string()),
        ]
    );
    assert_eq!(parse_sandbox(&["full".to_string()], None, "/").unwrap(), SandboxSpec::default());
    assert_eq!(parse_sandbox(&[], None, "/").unwrap(), SandboxSpec::default());
}

#[test]
fn created_session_has_its_files_and_marks() {
    let (store, mut state) = make_store();
    let mut req = base_request(Some("build"));
    req.env = EnvMap::new().insert("PATH", "/bin").insert("TMUY_SESSION_HASH", "old");
    let now = Timestamp { secs: 1_773_705_600, nanos: 5 };
    let date = CivilDate { year: 2026, month: 3, day: 17 };
    let s = store
        .create_session_at(&mut state, req, "0a91b7c".to_string(), now, date)
        .unwrap();
    assert_eq!(s.id_hash, "0a91b7c");
    assert_eq!(s.started_log_dir, "/home/user/.tmuy/2026/03/17/build-0a91b7c");
    assert_eq!(s.meta_path, "/home/user/.tmuy/2026/03/17/build-0a91b7c/meta.json");
    assert_eq!(s.log_path, "/home/user/.tmuy/2026/03/17/build-0a91b7c/pty.log");
    assert_eq!(s.events_path, "/home/user/.tmuy/2026/03/17/build-0a91b7c/events.jsonl");
    assert_eq!(s.socket_path, "/home/user/.tmuy/live/0a91b7c.sock");
    assert_eq!(s.status, SessionStatus::Starting);
    assert_eq!(s.created_at, now);
    assert_eq!(s.updated_at, now);
    assert_eq!(s.detach_key, "C-b d");
    assert_eq!(s.short_ref(), "build (0a91b7c)");
    let marks: Vec<(&str, &str)> =
        s.env.entries().iter().map(|(k, v)| (k.as_str(), v.as_str())).collect();
    assert_eq!(
        marks,
        vec![
            ("PATH", "/bin"),
            ("TMUY_INSIDE", "1"),
            ("TMUY_SESSION_HASH", "0a91b7c"),
            ("TMUY_SESSION_STARTED_NAME", "build"),
        ]
    );
    assert_eq!(state.sessions.len(), 1);
    assert_eq!(state.next_numeric_name, 0);
}

#[test]
fn odd_years_keep_four_characters() {
    let (store, mut state) = make_store();
    let now = Timestamp { secs: 0, nanos: 0 };
    for (year, text) in [(7, "0007"), (-5, "-005"), (12345, "12345")] {
        let date = CivilDate { year, month: 11, day: 2 };
        let s = store
            .create_session_at(&mut state, base_request(None), "0000000".to_string(), now, date)
            .unwrap();
        assert_eq!(
            s.started_log_dir,
            format!("/home/user/.tmuy/{text}/11/02/{}-0000000", s.current_name)
        );
    }
    assert_eq!(state.next_numeric_name, 4);
}

#[test]
fn created_sessions_are_dated_by_the_clock() {
    let (store, mut state) = make_store();
    let before = chrono::Utc::now();
    let s = store.create_session(&mut state, base_request(Some("clock"))).unwrap();
    let after = chrono::Utc::now();
    let at = chrono::DateTime::<chrono::Utc>::from_timestamp(s.created_at.secs, s.created_at.nanos)
        .unwrap();
    assert!(before <= at && at <= after);
    let day = at.format("%Y/%m/%d").to_string();
    assert_eq!(
        s.started_log_dir,
        format!("/home/user/.tmuy/{day}/clock-{}", s.id_hash)
    );
}

#[test]
fn hashes_are_seven_digits_and_never_repeat() {
    let (store, mut state) = make_store();
    for _ in 0..300 {
        store.create_session(&mut state, base_request(None)).unwrap();
    }
    let mut hashes: Vec<String> = state.sessions.iter().map(|s| s.id_hash.clone()).collect();
    for hash in &hashes {
        assert_eq!(hash.len(), 7);
        assert!(hash.chars().all(|c| c.is_ascii_digit() || ('a'..='f').contains(&c)));
    }
    hashes.sort();
    hashes.dedup();
    assert_eq!(hashes.len(), 300);
    assert!(hashes.iter().any(|hash| hash.as_str() > "3"));
}

#[test]
fn drawn_numbers_are_hashes_unless_taken() {
    let (store, mut state) = make_store();
    assert_eq!(free_hash(&state, 0x0fff_ffff).unwrap(), "fffffff");
    assert_eq!(free_hash(&state, 0x1a).unwrap(), "000001a");
    let now = Timestamp { secs: 0, nanos: 0 };
    let date = CivilDate { year: 2026, month: 1, day: 1 };
    store
        .create_session_at(&mut state, base_request(None), "000001a".to_string(), now, date)
        .unwrap();
    assert!(free_hash(&state, 0x1a).is_none());
    assert!(free_hash(&state, 0x1b).is_some());
}

#[test]
fn auto_names_go_on_from_the_recorded_number() {
    let (store, mut state) = make_store();
    state.next_numeric_name = 41;
    let s = store.create_session(&mut state, base_request(None)).unwrap();
    assert_eq!(s.current_name, "41");
    store.create_session(&mut state, base_request(Some("named"))).unwrap();
    let s = store.create_session(&mut state, base_request(None)).unwrap();
    assert_eq!(s.started_name, "42");
}

fn with_hash_and_name(store: &Store, state: &mut StateFile, hash: &str, name: &str, secs: i64) {
    let now = Timestamp { secs, nanos: 0 };
    let date = CivilDate { year: 2026, month: 1, day: 1 };
    store
        .create_session_at(state, base_request(Some(name)), hash.to_string(), now, date)
        .unwrap();
}

#[test]
fn target_that_is_a_hash_and_another_name_is_ambiguous() {
    let (store, mut state) = make_store();
    with_hash_and_name(&store, &mut state, "aaaaaaa", "first", 1);
    with_hash_and_name(&store, &mut state, "bbbbbbb", "aaaaaaa", 2);
    with_hash_and_name(&store, &mut state, "ccccccc", "ccccccc", 3);
    let err = resolve_target_in_state(&state, "aaaaaaa", SessionScope::All).unwrap_err();
    assert_eq!(
        err.message(),
        "ambiguous session target: aaaaaaa; it matches hash first (aaaaaaa) and name aaaaaaa (bbbbbbb)"
    );
    let same = resolve_target_in_state(&state, "ccccccc", SessionScope::All).unwrap();
    assert_eq!(same.id_hash, "ccccccc");
    let err = resolve_target_in_state(&state, "nobody", SessionScope::All).unwrap_err();
    assert_eq!(err.message(), "unknown session target: nobody");
}

#[test]
fn listing_is_newest_first_and_keeps_the_order_of_one_instant() {
    let (store, mut state) = make_store();
    with_hash_and_name(&store, &mut state, "0000001", "a", 5);
    with_hash_and_name(&store, &mut state, "0000002", "b", 9);
    with_hash_and_name(&store, &mut state, "0000003", "c", 5);
    with_hash_and_name(&store, &mut state, "0000004", "d", 7);
    let names: Vec<String> = store
        .list_sessions(&state, SessionScope::All)
        .iter()
        .map(|s| s.current_name.clone())
        .collect();
    assert_eq!(names, vec!["b", "d", "a", "c"]);
}

#[test]
fn marks_set_the_given_instant() {
    let (store, mut state) = make_store();
    with_hash_and_name(&store, &mut state, "0000001", "a", 5);
    let later = Timestamp { secs: 6, nanos: 1 };
    assert!(state.sessions[0].created_at.is_before(&later));
    assert!(!later.is_before(&later));
    let s = store.mark_live_at(&mut state, "0000001", 1, Some(2), later).unwrap();
    assert_eq!(s.updated_at, later);
    let s = store.mark_exited_at(&mut state, "0000001", Some(-3), later).unwrap();
    assert_eq!((s.exit_code, s.status), (Some(-3), SessionStatus::Exited));
    let s = store.mark_failed_at(&mut state, "0000001", "why", later).unwrap();
    assert_eq!(s.failure_reason.as_deref(), Some("why"));
    let before = Timestamp::now();
    let s = store.mark_live(&mut state, "0000001", 1, None).unwrap();
    assert!(!s.updated_at.is_before(&before));
}

#[test]
fn sessions_are_created_and_changed_at_what_the_clock_shows() {
    let (store, mut state) = make_store();
    let before = Timestamp::now();
    let session = store.create_session(&mut state, base_request(Some("alpha"))).unwrap();
    let hash = session.id_hash.clone();
    assert!(print_session_detail(&session).is_some());
    let changed = [
        store.mark_live(&mut state, &hash, 1, None).unwrap(),
        store.rename_session(&mut state, "alpha", "beta").unwrap(),
        store.mark_exited(&mut state, &hash, Some(0)).unwrap(),
        store.mark_failed(&mut state, &hash, "why").unwrap(),
    ];
    let after = Timestamp::now();
    for s in &changed {
        assert_eq!(s.created_at, session.created_at);
        for at in [s.created_at, s.updated_at] {
            assert!(at.secs > 0 && at.nanos < 1_000_000_000);
            assert!(!at.is_before(&before) && !after.is_before(&at));
        }
        assert!(print_session_detail(s).is_some());
    }
}

#[test]
fn store_paths_lie_under_the_base() {
    let store = Store::from_base_dir("/b".to_string());
    assert_eq!(store.live_dir(), "/b/live");
    assert_eq!(store.state_path(), "/b/state.json");
    assert_eq!(store.state_tmp_path(), "/b/state.json.tmp");
    assert_eq!(store.lock_path(), "/b/state.lock");
    assert_eq!(store.clone().base_dir(), "/b");
}
