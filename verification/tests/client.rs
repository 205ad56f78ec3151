//! What a client of a session does.

use tmuy::env_map::EnvMap;
use tmuy::events::signal_event;
use tmuy::model::{
    CommandMode, EventDetail, SandboxSpec, SessionRecord, SessionStatus, StateFile, Timestamp,
};
use tmuy::runtime::client::{
    EventText, FollowAction, FollowEvent, Follower, attach, attach_handshake_payload, client_detach_key, client_read_step,
    emit_event_line, events, flush_event_lines_to, send_input, signal_session, split_lines, tail,
    tail_output, wait_for_exit, wait_target,
};
use tmuy::runtime::protocol::{IoErrorKind, Signal};
use tmuy::runtime::server::{ReadOutcome, ReadStep};
use tmuy::store::{CreateSessionRequest, Store};

fn make_store_and_session(name: &str) -> (Store, StateFile, SessionRecord) {
    let store = Store::from_base_dir("/home/user/.tmuy".to_string());
    let mut state = StateFile::default();
    let session = store
        .create_session(
            &mut state,
            CreateSessionRequest {
                explicit_name: Some(name.to_string()),
                cwd: "/home/user".to_string(),
                command: vec![
                    "/bin/sh".to_string(),
                    "-lc".to_string(),
                    "printf ok".to_string(),
                ],
                mode: CommandMode::OneShot,
                sandbox: SandboxSpec::default(),
                detach_key: "C-b d".to_string(),
                env: EnvMap::new(),
            },
        )
        .unwrap();
    (store, state, session)
}

fn created_line() -> Vec<u8> {
    let mut detail = serde_json::Map::new();
    detail.insert("name".to_string(), serde_json::Value::from("demo"));
    let mut event = serde_json::Map::new();
    event.insert("ts".to_string(), serde_json::Value::from(chrono::Utc::now().to_rfc3339()));
    event.insert("kind".to_string(), serde_json::Value::from("created"));
    event.insert("detail".to_string(), serde_json::Value::Object(detail));
    serde_json::to_vec(&serde_json::Value::Object(event)).unwrap()
}

fn read_event(line: &[u8]) -> Result<EventText, serde_json::Error> {
    let event: serde_json::Value = serde_json::from_slice(line)?;
    let ts: chrono::DateTime<chrono::Utc> =
        event["ts"].as_str().unwrap_or_default().parse().unwrap();
    let at = Timestamp { secs: ts.timestamp(), nanos: ts.timestamp_subsec_nanos() };
    let kind = event["kind"].as_str().unwrap_or_default().to_string();
    let detail = serde_json::to_string(&event["detail"])?;
    Ok(EventText::new(at, kind, detail).unwrap())
}

#[test]
fn attach_handshake_uses_usable_rows_and_cols() {
    assert_eq!(attach_handshake_payload(8, 40), [b'A', 0, 7, 0, 40]);
    assert_eq!(attach_handshake_payload(1, 0), [b'A', 0, 1, 0, 1]);
    assert_eq!(attach_handshake_payload(0, 1), [b'A', 0, 1, 0, 1]);
    assert_eq!(attach_handshake_payload(2, 256), [b'A', 0, 1, 1, 0]);
    assert_eq!(attach_handshake_payload(65535, 65535), [b'A', 255, 254, 255, 255]);
}

#[test]
fn flush_event_lines_keeps_partial_line_until_newline() {
    let line = created_line();
    let mut output = Vec::new();

    let mut pending = line[..line.len() / 2].to_vec();
    flush_event_lines_to(&mut pending, true, &read_event, &mut output).unwrap();
    assert!(!pending.is_empty());
    assert!(output.is_empty());

    pending.extend_from_slice(&line[line.len() / 2..]);
    pending.push(b'\n');
    flush_event_lines_to(&mut pending, true, &read_event, &mut output).unwrap();
    assert!(pending.is_empty());
    assert_eq!(output, [line, b"\n".to_vec()].concat());
}

#[test]
fn emit_event_line_formats_human_output_and_skips_blank_lines() {
    let line = created_line();
    let mut output = Vec::new();
    emit_event_line(&mut output, &line, false, &read_event).unwrap();
    let text = String::from_utf8(output).unwrap();
    assert!(text.contains("\tcreated\t"));
    assert!(text.contains("\"name\":\"demo\""));

    let mut blank = Vec::new();
    emit_event_line(&mut blank, b"", false, &read_event).unwrap();
    assert!(blank.is_empty());
}

#[test]
fn flushing_stops_at_a_line_that_cannot_be_read() {
    let read = |line: &[u8]| -> Result<EventText, String> {
        if line == b"bad" {
            return Err("bad line".to_string());
        }
        let at = Timestamp { secs: 1_700_000_000, nanos: 0 };
        let kind = String::from_utf8(line.to_vec()).unwrap();
        Ok(EventText::new(at, kind, "{}".to_string()).unwrap())
    };
    let mut pending = b"one\n\ntwo\nbad\nthree\nrest".to_vec();
    let mut output = Vec::new();
    let err = flush_event_lines_to(&mut pending, false, &read, &mut output).unwrap_err();
    assert_eq!(err, "bad line");
    let rows = "2023-11-14 22:13:20 UTC\tone\t{}\n2023-11-14 22:13:20 UTC\ttwo\t{}\n";
    assert_eq!(output, rows.as_bytes());
    assert_eq!(pending, b"one\n\ntwo\nbad\nthree\nrest");

    let mut pending = b"one\n\ntwo\nrest".to_vec();
    let mut output = b">".to_vec();
    flush_event_lines_to(&mut pending, false, &read, &mut output).unwrap();
    assert_eq!(output, format!(">{rows}").as_bytes());
    assert_eq!(pending, b"rest");
}

#[test]
fn lines_come_out_the_same_however_they_are_cut() {
    let all = b"a\nbb\n\nccc\nd".to_vec();
    let (lines, rest) = split_lines(&all);
    assert_eq!(lines, vec![b"a".to_vec(), b"bb".to_vec(), Vec::new(), b"ccc".to_vec()]);
    assert_eq!(rest, b"d");
    for cut in 0..all.len() {
        let (mut first, left) = split_lines(&all[..cut].to_vec());
        let (second, left) = split_lines(&[left, all[cut..].to_vec()].concat());
        first.extend(second);
        assert_eq!(first, lines);
        assert_eq!(left, rest);
    }
}

#[test]
fn send_input_writes_mode_byte_and_payload() {
    let (store, mut state, session) = make_store_and_session("writer");
    store.mark_live(&mut state, &session.id_hash, 1, None).unwrap();

    let request = send_input(&store, &state, &session.id_hash, b"hello\n").unwrap();
    assert_eq!(request.message, b"Ihello\n");
    assert_eq!(request.socket_path, session.socket_path);

    store.mark_exited(&mut state, &session.id_hash, None).unwrap();
    let err = send_input(&store, &state, "writer", b"hello\n").unwrap_err();
    assert_eq!(err.message(), "unknown session target: writer");
}

#[test]
fn signal_session_records_event_and_rejects_missing_child_pid() {
    let (store, mut state, session) = make_store_and_session("missing-pid");
    store.mark_live(&mut state, &session.id_hash, 1, None).unwrap();
    let err = signal_session(&store, &state, &session.id_hash, "TERM").unwrap_err();
    assert!(err.message().contains("session has no child pid yet"));
    let err = signal_session(&store, &state, "missing-pid", "TERM").unwrap_err();
    assert_eq!(err.message(), "session has no child pid yet: missing-pid");

    let (store, mut state, session) = make_store_and_session("signaled");
    store.mark_live(&mut state, &session.id_hash, 1, Some(4242)).unwrap();
    let request = signal_session(&store, &state, &session.id_hash, "TERM").unwrap();
    assert_eq!(request.group, -4242);
    assert_eq!(request.signal, Signal::SIGTERM);
    assert_eq!(request.session.events_path, session.events_path);
    let event = signal_event("TERM", Timestamp { secs: 1, nanos: 0 });
    assert_eq!(event.kind, "signal");
    assert!(matches!(event.detail, EventDetail::Signal { signal } if signal == "TERM"));

    let err = signal_session(&store, &state, "signaled", "quit").unwrap_err();
    assert_eq!(err.message(), "unsupported signal: QUIT");
    let err = signal_session(&store, &state, "nobody", "quit").unwrap_err();
    assert_eq!(err.message(), "unknown session target: nobody");
}

const SECOND: u128 = 1_000_000_000;

#[test]
fn wait_for_exit_returns_dead_sessions_and_times_out_for_live_ones() {
    let (store, mut state, session) = make_store_and_session("done");
    store.mark_exited(&mut state, &session.id_hash, Some(7)).unwrap();
    let hash = wait_target(&store, &state, &session.id_hash).unwrap();
    let waited = wait_for_exit(&store, &state, &hash, &session.id_hash, 0, Some(SECOND))
        .unwrap()
        .unwrap();
    assert_eq!(waited.status, SessionStatus::Exited);
    assert_eq!(waited.exit_code, Some(7));

    let (store, mut state, session) = make_store_and_session("live");
    store.mark_live(&mut state, &session.id_hash, 1, None).unwrap();
    let hash = wait_target(&store, &state, "live").unwrap();
    let limit = Some(SECOND / 1000);
    assert!(wait_for_exit(&store, &state, &hash, "live", 0, limit).unwrap().is_none());
    assert!(wait_for_exit(&store, &state, &hash, "live", 999_999, limit).unwrap().is_none());
    assert!(wait_for_exit(&store, &state, &hash, "live", u128::MAX, None).unwrap().is_none());
    let err = wait_for_exit(&store, &state, &hash, "live", 1_000_000, limit).unwrap_err();
    assert!(err.message().contains("timed out waiting for session to exit"));
    assert_eq!(err.message(), "timed out waiting for session to exit: live");
    let err = wait_for_exit(&store, &state, "gone", "live", 0, None).unwrap_err();
    assert_eq!(err.message(), "unknown session hash: gone");
}

#[test]
fn wait_timeout_reports_error_for_live_session() {
    let (store, state, _) = make_store_and_session("slow");
    let hash = wait_target(&store, &state, "slow").unwrap();
    let err = wait_for_exit(&store, &state, &hash, "slow", 0, Some(0)).unwrap_err();
    assert!(err.message().contains("timed out waiting for session to exit"));
}

#[test]
fn wait_by_name_survives_session_rename() {
    let (store, mut state, session) = make_store_and_session("before");
    let hash = wait_target(&store, &state, "before").unwrap();
    store.rename_session(&mut state, "before", "after").unwrap();
    assert!(wait_for_exit(&store, &state, &hash, "before", 0, None).unwrap().is_none());
    store.mark_exited(&mut state, &session.id_hash, Some(3)).unwrap();
    let waited = wait_for_exit(&store, &state, &hash, "before", 0, None).unwrap().unwrap();
    assert_eq!(waited.current_name, "after");
    assert_eq!(waited.exit_code, Some(3));
}

#[test]
fn tail_follow_by_name_survives_session_rename() {
    let (store, mut state, session) = make_store_and_session("before");
    let plan = tail(&store, &state, "before", true).unwrap();
    assert_eq!(plan.path, session.log_path);
    store.rename_session(&mut state, "before", "after").unwrap();
    let refreshed = store.session_by_hash(&state, &plan.hash).unwrap();
    assert_eq!(refreshed.current_name, "after");
    assert_eq!(refreshed.log_path, plan.path);
    let err = tail(&store, &state, "before", true).unwrap_err();
    assert_eq!(err.message(), "unknown session target: before");
}

#[test]
fn events_are_read_from_their_own_file() {
    let (store, mut state, session) = make_store_and_session("demo");
    store.mark_exited(&mut state, &session.id_hash, None).unwrap();
    let plan = events(&store, &state, "demo", false).unwrap();
    assert_eq!(plan.path, session.events_path);
    assert_eq!(plan.hash, session.id_hash);
    assert!(plan.follower.reads_once());
    assert_eq!(
        events(&store, &state, "other", false).unwrap_err().message(),
        "unknown session target: other"
    );
}

#[test]
fn tail_follow_streams_new_output() {
    let content = b"first second third".to_vec();
    let mut follower = Follower::new(true);
    let mut shown = Vec::new();
    for len in [None, Some(5), Some(5), Some(12), Some(18)] {
        if let Some((from, count)) = follower.next_read(len) {
            shown.extend_from_slice(&content[from as usize..(from + count) as usize]);
        }
        assert!(!follower.is_drained(true, len));
    }
    assert_eq!(shown, content);
    assert!(!follower.reads_once());
    assert!(follower.is_drained(false, Some(18)));
}

#[test]
fn tail_follow_on_exited_session_returns_after_drain() {
    let mut follower = Follower::new(true);
    assert!(!follower.is_drained(false, Some(6)));
    assert_eq!(follower.next_read(Some(6)), Some((0, 6)));
    assert!(!follower.is_drained(false, Some(7)));
    assert!(follower.is_drained(false, Some(6)));
    assert_eq!(follower.next_read(Some(6)), None);
    assert_eq!(follower.next_read(Some(4)), None);
}

#[test]
fn following_a_dead_session_without_a_log_ends() {
    let mut follower = Follower::new(true);
    assert!(follower.is_drained(false, None));
    assert!(!follower.is_drained(true, None));
    assert_eq!(follower.step(FollowEvent::Looked(None)), FollowAction::Check);
    let dead = FollowEvent::Checked { live: false, len: None };
    assert_eq!(follower.step(dead), FollowAction::End);
}

/// Follows a file that holds, at each look, so much of `content`, while the
/// session lives for the first `lives` checks.
fn follow(content: &[u8], looks: &[Option<u64>], lives: usize) -> Vec<u8> {
    let mut follower = Follower::new(true);
    let mut shown = Vec::new();
    let mut looked = 0;
    let mut checked = 0;
    let mut event = FollowEvent::Looked(looks[0]);
    loop {
        event = match follower.step(event) {
            FollowAction::Read { from, count } => {
                shown.extend_from_slice(&content[from as usize..(from + count) as usize]);
                FollowEvent::Shown
            }
            FollowAction::Check => {
                checked += 1;
                FollowEvent::Checked { live: checked <= lives, len: looks[looked] }
            }
            FollowAction::Wait => {
                looked = (looked + 1).min(looks.len() - 1);
                FollowEvent::Looked(looks[looked])
            }
            FollowAction::End => return shown,
        };
    }
}

#[test]
fn following_shows_the_whole_file_and_ends() {
    let looks = [None, Some(0), Some(3), Some(3), Some(9)];
    for lives in 4..8 {
        assert_eq!(follow(b"one\ntwo\n\n", &looks, lives), b"one\ntwo\n\n");
    }
    assert_eq!(follow(b"", &[None], 0), b"");
    assert_eq!(follow(b"", &[None], 3), b"");
    assert_eq!(follow(b"rest", &[Some(4)], 0), b"rest");
}

#[test]
fn files_that_are_not_followed_are_read_once() {
    let mut follower = Follower::new(false);
    assert_eq!(
        follower.step(FollowEvent::Looked(Some(5))),
        FollowAction::Read { from: 0, count: 5 }
    );
    assert_eq!(follower.step(FollowEvent::Shown), FollowAction::End);
    let mut follower = Follower::new(false);
    assert_eq!(follower.step(FollowEvent::Looked(None)), FollowAction::End);
    let mut follower = Follower::new(true);
    assert_eq!(
        follower.step(FollowEvent::Checked { live: true, len: Some(0) }),
        FollowAction::Wait
    );
}

#[test]
fn rows_tell_the_time_of_the_event() {
    let read = |_: &[u8]| -> Result<EventText, ()> {
        let at = Timestamp { secs: 0, nanos: 500_000_000 };
        Ok(EventText::new(at, "live".to_string(), "{}".to_string()).unwrap())
    };
    let mut output = Vec::new();
    emit_event_line(&mut output, b"x", false, &read).unwrap();
    assert_eq!(output, b"1970-01-01 00:00:00.500 UTC\tlive\t{}\n");
    let beyond = Timestamp { secs: i64::MAX, nanos: 0 };
    assert!(EventText::new(beyond, "live".to_string(), "{}".to_string()).is_none());
}

#[test]
fn tail_raw_prints_exact_bytes() {
    assert_eq!(tail_output(true, b"raw-hi\r\n".to_vec()), b"raw-hi\r\n");
    assert_eq!(tail_output(false, b"raw-hi\r\n".to_vec()), b"raw-hi\r\n");
    assert_eq!(tail_output(true, b"a\xffb".to_vec()), b"a\xffb");
    assert_eq!(tail_output(false, b"a\xffb".to_vec()), "a\u{fffd}b".as_bytes());
}

#[test]
fn attach_uses_session_detach_key_by_default() {
    let (store, mut state, session) = make_store_and_session("custom");
    store
        .update_session(&mut state, &session.id_hash, |session: &mut SessionRecord| {
            session.detach_key = "C-a d".to_string()
        })
        .unwrap();
    let (found, payload) = attach(&store, &state, &session.id_hash, 24, 80).unwrap();
    assert_eq!(payload, [b'A', 0, 23, 0, 80]);
    assert_eq!(client_detach_key(&found, None), "C-a d");
    assert_eq!(client_detach_key(&found, Some("C-x q".to_string())), "C-x q");
    let err = attach(&store, &state, "none", 24, 80).unwrap_err();
    assert_eq!(err.message(), "unknown session target: none");
}

#[test]
fn clients_end_quietly_when_the_host_is_gone() {
    assert_eq!(client_read_step(ReadOutcome::Bytes(0)), ReadStep::Stop);
    assert_eq!(client_read_step(ReadOutcome::Bytes(1)), ReadStep::Forward);
    assert_eq!(
        client_read_step(ReadOutcome::Failed(IoErrorKind::Interrupted)),
        ReadStep::Retry
    );
    assert_eq!(
        client_read_step(ReadOutcome::Failed(IoErrorKind::ConnectionReset)),
        ReadStep::Stop
    );
    assert_eq!(
        client_read_step(ReadOutcome::Failed(IoErrorKind::WouldBlock)),
        ReadStep::Fail
    );
}
