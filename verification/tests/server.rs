//! The process that hosts a session.

use std::sync::mpsc;

use tmuy::env_map::EnvMap;
use tmuy::model::{
    CommandMode, EventDetail, FsGrant, NetworkMode, SandboxSpec, SessionRecord, SessionStatus,
    StateFile, Timestamp,
};
use tmuy::runtime::client::attach_handshake_payload;
use tmuy::runtime::protocol::{IoErrorKind, Signal};
use tmuy::runtime::server::{
    AttachInput, AttachedClient, AttachedStep, ClientMode, MAX_HISTORY_BYTES, OutputState,
    ReadOutcome, ReadStep, accept_later, broadcast, client_mode, client_signal,
    ensure_sandbox_supported, forget_clients, host_read_step, sandbox_supported, session_ended,
    session_failed, session_started,
};
use tmuy::store::{CreateSessionRequest, Store};

fn make_store_and_session(command: Vec<String>) -> (Store, StateFile, SessionRecord) {
    let store = Store::from_base_dir("/home/user/.tmuy".to_string());
    let mut state = StateFile::default();
    let session = store
        .create_session(
            &mut state,
            CreateSessionRequest {
                explicit_name: Some("srv".to_string()),
                cwd: "/home/user".to_string(),
                command,
                mode: CommandMode::OneShot,
                sandbox: SandboxSpec::default(),
                detach_key: "C-b d".to_string(),
                env: EnvMap::new(),
            },
        )
        .unwrap();
    (store, state, session)
}

fn send_output(state: &mut OutputState<mpsc::Sender<Vec<u8>>>, chunk: &[u8]) {
    let mut gone = Vec::new();
    for (id, tx, bytes) in broadcast(state, chunk) {
        if tx.send(bytes).is_err() {
            gone.push(id);
        }
    }
    forget_clients(state, &gone);
}

#[test]
fn output_state_trims_history_and_registers_snapshot() {
    let mut state = OutputState::new();
    let oversized = vec![b'x'; MAX_HISTORY_BYTES + 10];
    let _ = state.record_chunk(&oversized);
    let (tx, _rx) = mpsc::channel::<Vec<u8>>();
    let snapshot = state.register_client(1, tx);
    assert_eq!(snapshot.len(), MAX_HISTORY_BYTES);
    assert!(snapshot.iter().all(|byte| *byte == b'x'));
}

#[test]
fn broadcast_removes_dead_clients() {
    let mut state = OutputState::new();
    let (tx, rx) = mpsc::channel::<Vec<u8>>();
    state.register_client(1, tx);
    drop(rx);
    send_output(&mut state, b"hello");
    assert_eq!(state.client_count(), 0);
}

#[test]
fn broadcast_reaches_every_client_and_keeps_the_live_ones() {
    let mut state = OutputState::new();
    let (tx1, rx1) = mpsc::channel::<Vec<u8>>();
    let (tx2, rx2) = mpsc::channel::<Vec<u8>>();
    let (tx3, rx3) = mpsc::channel::<Vec<u8>>();
    assert!(state.register_client(1, tx1).is_empty());
    state.register_client(2, tx2);
    state.register_client(3, tx3);
    drop(rx2);
    send_output(&mut state, b"one");
    send_output(&mut state, b"two");
    assert_eq!(state.client_count(), 2);
    for rx in [rx1, rx3] {
        assert_eq!(rx.try_recv().unwrap(), b"one");
        assert_eq!(rx.try_recv().unwrap(), b"two");
        assert!(rx.try_recv().is_err());
    }
    let (tx4, _rx4) = mpsc::channel::<Vec<u8>>();
    assert_eq!(state.register_client(4, tx4), b"onetwo");
    state.remove_client(4);
    assert_eq!(state.client_count(), 2);
}

#[test]
fn one_broadcast_is_one_message_to_each_client() {
    let mut state = OutputState::new();
    let (tx1, rx1) = mpsc::channel::<Vec<u8>>();
    let (tx2, rx2) = mpsc::channel::<Vec<u8>>();
    state.register_client(1, tx1);
    state.register_client(2, tx2);
    drop(rx1);
    send_output(&mut state, b"hello");
    assert_eq!(rx2.try_recv().unwrap(), b"hello");
    assert!(rx2.try_recv().is_err());
    assert_eq!(state.client_count(), 1);
    let (tx3, _rx3) = mpsc::channel::<Vec<u8>>();
    assert_eq!(state.register_client(3, tx3), b"hello");
    forget_clients(&mut state, &[3, 3, 8]);
    let left: Vec<usize> = broadcast(&mut state, b"").into_iter().map(|m| m.0).collect();
    assert_eq!(left, vec![2]);
}

#[test]
fn clients_get_the_replay_and_then_live_output() {
    let mut state = OutputState::new();
    let mut before = Vec::new();
    for i in 0..30u8 {
        before.extend_from_slice(&[i; 10_000]);
        send_output(&mut state, &[i; 10_000]);
    }
    let (tx, rx) = mpsc::channel::<Vec<u8>>();
    let (_, mut got) = AttachedClient::attach(&mut state, 1, tx);
    for chunk in [&b"a"[..], b"", b"bc"] {
        send_output(&mut state, chunk);
    }
    while let Ok(chunk) = rx.try_recv() {
        got.extend_from_slice(&chunk);
    }
    let expected = [&before[before.len() - MAX_HISTORY_BYTES..], b"abc"].concat();
    assert_eq!(got, expected);
}

#[test]
fn record_chunk_hands_out_each_sender_once() {
    let mut state = OutputState::new();
    for id in [7usize, 3, 9] {
        state.register_client(id, id * 10);
    }
    let mut senders = state.record_chunk(b"x");
    senders.sort();
    assert_eq!(senders, vec![(3, 30), (7, 70), (9, 90)]);
}

#[test]
fn history_is_the_end_of_all_output() {
    let mut state = OutputState::<usize>::new();
    let mut all = Vec::new();
    for i in 0..40u32 {
        let chunk = vec![i as u8; 10_000];
        all.extend_from_slice(&chunk);
        state.record_chunk(&chunk);
    }
    let snapshot = state.register_client(1, 0);
    assert_eq!(snapshot, all[all.len() - MAX_HISTORY_BYTES..].to_vec());
}

#[test]
fn handle_client_input_and_unknown_mode_paths() {
    assert_eq!(client_mode(b"Ihello"[0]).unwrap(), ClientMode::Input);
    assert_eq!(client_mode(b"STERM"[0]).unwrap(), ClientMode::Signal);
    assert_eq!(client_signal("TERM", None).unwrap(), None);
    assert_eq!(client_mode(b'A').unwrap(), ClientMode::Attach);
    let err = client_mode(b"X"[0]).unwrap_err();
    assert!(err.message().contains("unknown client mode byte"));
    assert_eq!(err.message(), "unknown client mode byte: 88");
}

#[test]
fn handle_client_signal_mode_sends_signal_to_child_pid() {
    assert_eq!(
        client_signal("TERM", Some(4711)).unwrap(),
        Some((4711, Signal::SIGTERM))
    );
    assert_eq!(
        client_signal(" \tkill\n", Some(12)).unwrap(),
        Some((12, Signal::SIGKILL))
    );
    let err = client_signal("nope", Some(12)).unwrap_err();
    assert_eq!(err.message(), "unsupported signal: NOPE");
    assert_eq!(client_signal("nope", None).unwrap(), None);
}

#[test]
fn run_server_recreates_socket_parent_and_records_lifecycle() {
    let (store, mut state, session) = make_store_and_session(vec![
        "/bin/sh".to_string(),
        "-lc".to_string(),
        "printf ok".to_string(),
    ]);
    let now = Timestamp { secs: 10, nanos: 0 };
    let (live, event) =
        session_started(&store, &mut state, &session.id_hash, 100, Some(101), now).unwrap();
    assert_eq!(live.status, SessionStatus::Live);
    assert_eq!(event.kind, "live");
    assert!(matches!(
        event.detail,
        EventDetail::Live { service_pid: Some(100), child_pid: Some(101) }
    ));

    let later = Timestamp { secs: 11, nanos: 0 };
    let (updated, event) =
        session_ended(&store, &mut state, &session.id_hash, 0, later).unwrap();
    assert_eq!(updated.status, SessionStatus::Exited);
    assert_eq!(updated.exit_code, Some(0));
    assert_eq!(updated.updated_at, later);
    assert_eq!(event.kind, "exited");
    assert!(matches!(event.detail, EventDetail::Exited { exit_code: Some(0) }));
}

#[test]
fn hosts_record_failures_and_wide_exit_codes() {
    let (store, mut state, session) = make_store_and_session(Vec::new());
    let now = Timestamp { secs: 10, nanos: 0 };
    let (failed, event) =
        session_failed(&store, &mut state, &session.id_hash, "no shell", now).unwrap();
    assert_eq!(failed.status, SessionStatus::Failed);
    assert_eq!(failed.failure_reason.as_deref(), Some("no shell"));
    assert_eq!(event.kind, "failed");

    let (ended, _) =
        session_ended(&store, &mut state, &session.id_hash, 0xffff_ffff, now).unwrap();
    assert_eq!(ended.exit_code, Some(-1));

    for err in [
        session_started(&store, &mut state, "0", 1, None, now).unwrap_err(),
        session_ended(&store, &mut state, "0", 1, now).unwrap_err(),
        session_failed(&store, &mut state, "0", "x", now).unwrap_err(),
    ] {
        assert_eq!(err.message(), "unknown session hash: 0");
    }
}

#[test]
fn restricted_sessions_are_hosted_on_linux_only() {
    let (_, _, mut session) = make_store_and_session(Vec::new());
    assert!(sandbox_supported(&session, false));
    session.sandbox.net = NetworkMode::Off;
    assert!(!sandbox_supported(&session, false));
    assert!(sandbox_supported(&session, true));
    session.sandbox =
        SandboxSpec { fs: vec![FsGrant::ReadOnly("/a".to_string())], net: NetworkMode::On };
    assert!(!sandbox_supported(&session, false));
    assert!(ensure_sandbox_supported(&session, true).is_ok());
    session.sandbox.fs.push(FsGrant::ReadWrite("/b \"c\"".to_string()));
    session.sandbox.fs.push(FsGrant::Full);
    assert_eq!(
        ensure_sandbox_supported(&session, false).unwrap_err().message(),
        "sandbox enforcement beyond default full-access is not implemented yet for tmuy; \
         requested SandboxSpec { fs: [ReadOnly(\"/a\"), ReadWrite(\"/b \\\"c\\\"\"), Full], net: On }"
    );
    session.sandbox = SandboxSpec { fs: Vec::new(), net: NetworkMode::Off };
    assert_eq!(
        ensure_sandbox_supported(&session, false).unwrap_err().message(),
        "sandbox enforcement beyond default full-access is not implemented yet for tmuy; \
         requested SandboxSpec { fs: [], net: Off }"
    );
    session.sandbox = SandboxSpec::default();
    assert!(ensure_sandbox_supported(&session, false).is_ok());
}

#[test]
fn hosts_retry_interrupted_reads_and_wait_for_clients() {
    assert_eq!(host_read_step(ReadOutcome::Bytes(0)), ReadStep::Stop);
    assert_eq!(host_read_step(ReadOutcome::Bytes(9)), ReadStep::Forward);
    assert_eq!(
        host_read_step(ReadOutcome::Failed(IoErrorKind::Interrupted)),
        ReadStep::Retry
    );
    assert_eq!(
        host_read_step(ReadOutcome::Failed(IoErrorKind::ConnectionReset)),
        ReadStep::Fail
    );
    assert!(accept_later(IoErrorKind::WouldBlock));
    assert!(!accept_later(IoErrorKind::Interrupted));
}

#[test]
fn attach_input_drops_the_size_and_keeps_the_rest() {
    let payload = attach_handshake_payload(51, 300);
    let mut whole = payload[1..].to_vec();
    whole.extend_from_slice(b"echo hi\r");
    for cut in 0..whole.len() {
        let mut input = AttachInput::new();
        let mut typed = input.read(&whole[..cut]);
        typed.extend_from_slice(&input.read(&whole[cut..]));
        assert_eq!(typed, b"echo hi\r");
    }
}

#[test]
fn handle_attach_client_writer_thread_handles_peer_closed() {
    let mut state = OutputState::new();
    let (tx, rx) = mpsc::channel::<Vec<u8>>();
    send_output(&mut state, b"before");
    let (mut client, history) = AttachedClient::attach(&mut state, 1, tx);
    assert_eq!(history, b"before");
    assert_eq!(state.client_count(), 1);

    send_output(&mut state, b"hello");
    assert_eq!(rx.try_recv().unwrap(), b"hello");
    assert_eq!(client.read(&mut state, Ok(b"")), AttachedStep::End);
    assert_eq!(state.client_count(), 0);
}

#[test]
fn attached_clients_type_after_their_size_and_leave_on_failure() {
    let mut state = OutputState::new();
    let (tx, _rx) = mpsc::channel::<Vec<u8>>();
    let (mut client, _) = AttachedClient::attach(&mut state, 5, tx);
    assert_eq!(client.read(&mut state, Ok(b"\0\x17\0")), AttachedStep::Write(Vec::new()));
    assert_eq!(client.read(&mut state, Ok(b"Pls\r")), AttachedStep::Write(b"ls\r".to_vec()));
    assert_eq!(
        client.read(&mut state, Err(IoErrorKind::Interrupted)),
        AttachedStep::Retry
    );
    assert_eq!(state.client_count(), 1);
    assert_eq!(
        client.read(&mut state, Err(IoErrorKind::ConnectionReset)),
        AttachedStep::Fail
    );
    assert_eq!(state.client_count(), 0);
}
