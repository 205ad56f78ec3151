//! Starting the process that hosts a session.

use tmuy::env_map::EnvMap;
use tmuy::model::{CommandMode, SandboxSpec, SessionRecord, SessionStatus, StateFile};
use tmuy::runtime::daemon::{
    DaemonStep, DaemonWait, default_shell_command, ready_result, wait_for_ready_state,
};
use tmuy::sandbox::build_command;
use tmuy::store::{CreateSessionRequest, Store};

fn make_store_and_session(command: Vec<String>) -> (Store, StateFile, SessionRecord) {
    let store = Store::from_base_dir("/home/user/.tmuy".to_string());
    let mut state = StateFile::default();
    let session = store
        .create_session(
            &mut state,
            CreateSessionRequest {
                explicit_name: Some("demo".to_string()),
                cwd: "/home/user".to_string(),
                command,
                mode: CommandMode::OneShot,
                sandbox: SandboxSpec::default(),
                detach_key: "C-b d".to_string(),
                env: EnvMap::new(),
            },
        )
        .unwrap();
    (store, state, session)
}

fn printf_ok() -> Vec<String> {
    vec!["/bin/sh".to_string(), "-lc".to_string(), "printf ok".to_string()]
}

#[test]
fn default_shell_command_honors_shell_env_and_fallback() {
    assert_eq!(
        default_shell_command(Some("/bin/zsh".to_string())),
        vec!["/bin/zsh".to_string(), "-i".to_string()]
    );
    assert_eq!(
        default_shell_command(None),
        vec!["/bin/bash".to_string(), "-i".to_string()]
    );
}

#[test]
fn ready_helpers_cover_starting_live_exited_and_failed_states() {
    let (store, mut state, session) = make_store_and_session(printf_ok());

    assert!(ready_result(&session).is_none());
    assert!(wait_for_ready_state(Some(&session), 0, 1).is_none());
    assert!(wait_for_ready_state(Some(&session), 1, 1).unwrap().is_none());

    let live = store.mark_live(&mut state, &session.id_hash, 10, Some(11)).unwrap();
    assert!(ready_result(&live).unwrap().is_ok());
    assert!(wait_for_ready_state(Some(&live), 0, 1).unwrap().unwrap().is_ok());

    let exited = store.mark_exited(&mut state, &session.id_hash, Some(0)).unwrap();
    assert!(ready_result(&exited).unwrap().is_ok());

    let failed = store.mark_failed(&mut state, &session.id_hash, "boom").unwrap();
    assert_eq!(ready_result(&failed).unwrap().unwrap_err().message(), "boom");

    let mut failed_without_reason = failed;
    failed_without_reason.failure_reason = None;
    assert_eq!(
        ready_result(&failed_without_reason).unwrap().unwrap_err().message(),
        "session failed to start"
    );
}

#[test]
fn spawn_daemon_ignores_stale_socket_and_surfaces_start_failure() {
    let (store, mut state, session) = make_store_and_session(Vec::new());
    let reason = build_command(&session, true).unwrap_err().message();
    store.mark_failed(&mut state, &session.id_hash, &reason).unwrap();
    let updated = store.session_by_hash(&state, &session.id_hash).unwrap();
    assert_eq!(updated.status, SessionStatus::Failed);
    assert!(
        updated
            .failure_reason
            .as_deref()
            .unwrap_or_default()
            .contains("session has no command configured")
    );

    let mut wait = DaemonWait::new(&session);
    match wait.look(20, Some(&updated)) {
        DaemonStep::Return(Err(err)) => assert!(!err.message().contains("timed out")),
        other => panic!("unexpected step {other:?}"),
    }
}

#[test]
fn spawn_daemon_reports_success_for_ready_sessions() {
    let (store, mut state, session) = make_store_and_session(vec![
        "/bin/sh".to_string(),
        "-lc".to_string(),
        "printf daemon-ok".to_string(),
    ]);
    let mut wait = DaemonWait::new(&session);
    assert!(matches!(wait.look(0, None), DaemonStep::PollHost));
    assert_eq!(wait.host_polled(0, None), 50);
    assert!(matches!(wait.look(50, Some(&session)), DaemonStep::PollHost));
    assert_eq!(wait.host_polled(50, None), 50);
    let live = store.mark_live(&mut state, &session.id_hash, 1, Some(2)).unwrap();
    assert!(matches!(wait.look(100, Some(&live)), DaemonStep::Return(Ok(()))));
}

#[test]
fn hosts_that_exit_early_leave_a_second_for_the_session() {
    let (_, _, session) = make_store_and_session(printf_ok());
    let mut wait = DaemonWait::new(&session);
    assert!(matches!(wait.look(10, Some(&session)), DaemonStep::PollHost));
    assert_eq!(wait.host_polled(12, Some(Some(1))), 0);
    assert!(matches!(wait.look(12, Some(&session)), DaemonStep::Pause(10)));
    assert!(matches!(wait.look(1011, None), DaemonStep::Pause(10)));
    match wait.look(1012, Some(&session)) {
        DaemonStep::Return(Err(err)) => assert_eq!(
            err.message(),
            "tmuy session service exited before session became ready: Some(1)"
        ),
        other => panic!("unexpected step {other:?}"),
    }

    let mut wait = DaemonWait::new(&session);
    wait.host_polled(0, Some(None));
    match wait.look(5000, None) {
        DaemonStep::Return(Err(err)) => assert_eq!(
            err.message(),
            "tmuy session service exited before session became ready: None"
        ),
        other => panic!("unexpected step {other:?}"),
    }
}

#[test]
fn hosts_that_take_too_long_are_given_up() {
    let (_, _, session) = make_store_and_session(printf_ok());
    let mut wait = DaemonWait::new(&session);
    assert!(matches!(wait.look(2999, Some(&session)), DaemonStep::PollHost));
    assert_eq!(wait.host_polled(2999, None), 50);
    assert!(matches!(wait.look(3049, Some(&session)), DaemonStep::Pause(10)));
    assert!(matches!(wait.look(3298, Some(&session)), DaemonStep::Pause(10)));
    match wait.look(3299, Some(&session)) {
        DaemonStep::Return(Err(err)) => assert_eq!(
            err.message(),
            format!(
                "timed out waiting for session to become ready: demo ({})",
                session.id_hash
            )
        ),
        other => panic!("unexpected step {other:?}"),
    }
}
