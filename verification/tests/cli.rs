//! The commands of the command line.

use tmuy::cli::{
    Action, Command, NewArgs, Surroundings, created_text, ensure_attach_allowed, list_output,
    maybe_append_enter, print_session_detail, renamed_text, run, session_detail, shell_words,
    should_auto_attach, waited_text,
};
use tmuy::env_map::EnvMap;
use tmuy::error::TmuyError;
use tmuy::model::{
    CivilDate, CommandMode, FsGrant, SandboxSpec, SessionRecord, SessionScope, StateFile,
    Timestamp,
};
use tmuy::request::request_scope;
use tmuy::runtime::protocol::{Signal, parse_signal};
use tmuy::store::{CreateSessionRequest, Store};

fn around() -> Surroundings {
    Surroundings {
        cwd: "/work".to_string(),
        env: EnvMap::new().insert("LANG", "C"),
        shell: Some("/bin/zsh".to_string()),
        stdin_tty: true,
        stdout_tty: true,
        inside: None,
        session_hash: None,
    }
}

fn inside() -> Surroundings {
    Surroundings {
        inside: Some("1".to_string()),
        session_hash: Some("0a91b7c".to_string()),
        ..around()
    }
}

fn new_args(name: Option<&str>, command: &[&str]) -> NewArgs {
    NewArgs {
        name: name.map(ToOwned::to_owned),
        fs: Vec::new(),
        net: None,
        detach_key: "C-b d".to_string(),
        detached: false,
        command: command.iter().map(|word| word.to_string()).collect(),
    }
}

fn demo_session() -> (StateFile, SessionRecord) {
    let store = Store::from_base_dir("/home/user/.tmuy".to_string());
    let mut state = StateFile::default();
    let session = store
        .create_session_at(
            &mut state,
            CreateSessionRequest {
                explicit_name: Some("demo".to_string()),
                cwd: "/work dir".to_string(),
                command: vec![
                    "/bin/sh".to_string(),
                    "-lc".to_string(),
                    "sleep 30".to_string(),
                ],
                mode: CommandMode::OneShot,
                sandbox: SandboxSpec::default(),
                detach_key: "C-b d".to_string(),
                env: EnvMap::new(),
            },
            "0a91b7c".to_string(),
            Timestamp { secs: 1_773_705_600, nanos: 500_000_000 },
            CivilDate { year: 2026, month: 3, day: 17 },
        )
        .unwrap();
    (state, session)
}

#[test]
fn maybe_append_enter_adds_newline_once() {
    let mut bytes = b"echo hello".to_vec();
    maybe_append_enter(&mut bytes, false);
    assert_eq!(bytes, b"echo hello\n");

    maybe_append_enter(&mut bytes, false);
    assert_eq!(bytes, b"echo hello\n");
}

#[test]
fn maybe_append_enter_respects_no_enter_and_carriage_return() {
    let mut bytes = b"raw".to_vec();
    maybe_append_enter(&mut bytes, true);
    assert_eq!(bytes, b"raw");

    let mut bytes = b"line\r".to_vec();
    maybe_append_enter(&mut bytes, false);
    assert_eq!(bytes, b"line\r");

    let mut bytes = Vec::new();
    maybe_append_enter(&mut bytes, false);
    assert_eq!(bytes, b"\n");
}

#[test]
fn ls_human_prints_no_sessions() {
    assert_eq!(list_output(&Vec::new()), "no sessions\n");
}

#[test]
fn ls_human_prints_live_session_rows() {
    let store = Store::from_base_dir("/home/user/.tmuy".to_string());
    let (mut state, session) = demo_session();
    store.mark_live(&mut state, &session.id_hash, 1, None).unwrap();
    let text = list_output(&store.list_sessions(&state, SessionScope::LiveOnly));
    assert!(text.contains("demo"));
    assert!(text.contains("0a91b7c"));
    assert!(text.contains("Live"));
    assert_eq!(
        text,
        "demo\t0a91b7c\tLive\t/home/user/.tmuy/2026/03/17/demo-0a91b7c\n"
    );
}

#[test]
fn ls_prints_a_row_for_each_status() {
    let store = Store::from_base_dir("/b".to_string());
    let (mut state, session) = demo_session();
    let mut rows = list_output(&state.sessions);
    store.mark_exited(&mut state, &session.id_hash, None).unwrap();
    rows.push_str(&list_output(&state.sessions));
    store.mark_failed(&mut state, &session.id_hash, "x").unwrap();
    rows.push_str(&list_output(&state.sessions));
    let dir = "/home/user/.tmuy/2026/03/17/demo-0a91b7c";
    assert_eq!(
        rows,
        format!(
            "demo\t0a91b7c\tStarting\t{dir}\ndemo\t0a91b7c\tExited\t{dir}\ndemo\t0a91b7c\tFailed\t{dir}\n"
        )
    );
}

#[test]
fn inspect_human_prints_session_detail_lines() {
    let (_, session) = demo_session();
    let text = print_session_detail(&session).unwrap();
    assert!(text.contains("name: demo"));
    assert!(text.contains("hash: 0a91b7c"));
    assert!(text.contains("detach_key: C-b d"));
    assert_eq!(
        text,
        "name: demo\n\
         started_name: demo\n\
         hash: 0a91b7c\n\
         status: Starting\n\
         created_at: 2026-03-17 00:00:00.500 UTC\n\
         cwd: /work dir\n\
         command: /bin/sh -lc \"sleep 30\"\n\
         log_dir: /home/user/.tmuy/2026/03/17/demo-0a91b7c\n\
         log_path: /home/user/.tmuy/2026/03/17/demo-0a91b7c/pty.log\n\
         meta_path: /home/user/.tmuy/2026/03/17/demo-0a91b7c/meta.json\n\
         events_path: /home/user/.tmuy/2026/03/17/demo-0a91b7c/events.jsonl\n\
         child_pid: None\n\
         service_pid: None\n\
         exit_code: None\n\
         failure_reason: None\n\
         detach_key: C-b d\n"
    );
}

#[test]
fn inspect_prints_what_is_known() {
    let (_, mut session) = demo_session();
    session.child_pid = Some(4294967295);
    session.service_pid = Some(7);
    session.exit_code = Some(-2147483648);
    session.failure_reason = Some("a \"b\"\n".to_string());
    let text = session_detail(&session, "then");
    assert!(text.contains("created_at: then\n"));
    assert!(text.contains("child_pid: Some(4294967295)\n"));
    assert!(text.contains("service_pid: Some(7)\n"));
    assert!(text.contains("exit_code: Some(-2147483648)\n"));
    assert!(text.contains("failure_reason: Some(\"a \\\"b\\\"\\n\")\n"));
    session.created_at = Timestamp { secs: i64::MAX, nanos: 0 };
    assert!(print_session_detail(&session).is_none());
}

#[test]
fn rename_send_from_stdin_and_wait_print_human_outputs() {
    let (_, mut session) = demo_session();
    session.current_name = "beta".to_string();
    assert_eq!(renamed_text("alpha", &session), "renamed alpha -> beta (0a91b7c)");
    session.exit_code = Some(0);
    assert_eq!(waited_text(&session), "beta (0a91b7c) exited with Some(0)");
    session.exit_code = None;
    assert_eq!(waited_text(&session), "beta (0a91b7c) exited with None");
    assert_eq!(created_text(&session), "created beta (0a91b7c)");

    let sent = run(
        Command::Send {
            name: "beta".to_string(),
            no_enter: false,
            payload: b"hello".to_vec(),
        },
        false,
        around(),
    )
    .unwrap();
    match sent {
        Action::Send { name, bytes } => {
            assert_eq!(name, "beta");
            assert_eq!(bytes, b"hello\n");
        }
        other => panic!("unexpected action {other:?}"),
    }
}

#[test]
fn send_no_enter_leaves_command_pending_until_later_submit() {
    for (no_enter, payload, sent) in [(true, "hello", "hello"), (false, "", "\n")] {
        let action = run(
            Command::Send {
                name: "x".to_string(),
                no_enter,
                payload: payload.as_bytes().to_vec(),
            },
            true,
            around(),
        )
        .unwrap();
        assert!(matches!(action, Action::Send { bytes, .. } if bytes == sent.as_bytes()));
    }
}

#[test]
fn kill_prints_interrupted() {
    let action =
        run(Command::Kill { name: "killme".to_string() }, false, around()).unwrap();
    match action {
        Action::Signal { name, signal, word } => {
            assert_eq!(name, "killme");
            assert_eq!(parse_signal(&signal).unwrap(), Signal::SIGINT);
            assert_eq!(word, "interrupted");
        }
        other => panic!("unexpected action {other:?}"),
    }
}

#[test]
fn signal_prints_human_output() {
    let action = run(
        Command::Signal { name: "termy".to_string(), signal: "TERM".to_string() },
        false,
        around(),
    )
    .unwrap();
    match action {
        Action::Signal { name, signal, word } => {
            assert_eq!((name.as_str(), signal.as_str()), ("termy", "TERM"));
            assert_eq!(word, "signaled");
        }
        other => panic!("unexpected action {other:?}"),
    }
}

#[test]
fn ls_rejects_dead_and_all_together() {
    let err = run(Command::Ls { dead: true, all: true }, false, around()).unwrap_err();
    assert!(err.message().contains("--dead and --all are mutually exclusive"));
}

#[test]
fn ls_json_respects_live_dead_and_all_filters() {
    for (dead, all, expected) in [
        (false, false, SessionScope::LiveOnly),
        (true, false, SessionScope::DeadOnly),
        (false, true, SessionScope::All),
    ] {
        assert_eq!(request_scope(dead, all), Some(expected));
        let action = run(Command::Ls { dead, all }, true, around()).unwrap();
        assert!(matches!(action, Action::List { scope } if scope == expected));
    }
    assert_eq!(request_scope(true, true), None);
}

#[test]
fn interactive_new_attaches_by_default_and_uses_custom_detach_key() {
    let mut args = new_args(Some("demo"), &[]);
    args.detach_key = "C-a d".to_string();
    match run(Command::New(args), false, around()).unwrap() {
        Action::Create { req, attach } => {
            assert!(attach);
            assert_eq!(req.detach_key, "C-a d");
            assert_eq!(req.explicit_name.as_deref(), Some("demo"));
            assert_eq!(req.command, vec!["/bin/zsh", "-i"]);
            assert_eq!(req.mode, CommandMode::Shell);
            assert_eq!(req.cwd, "/work");
            assert_eq!(req.sandbox, SandboxSpec::default());
            assert_eq!(req.env.get("LANG").map(String::as_str), Some("C"));
        }
        other => panic!("unexpected action {other:?}"),
    }
}

#[test]
fn interactive_new_detached_flag_skips_auto_attach() {
    let mut args = new_args(Some("demo"), &[]);
    args.detached = true;
    let action = run(Command::New(args), false, around()).unwrap();
    assert!(matches!(action, Action::Create { attach: false, .. }));
}

#[test]
fn interactive_new_one_shot_stays_detached() {
    let args = new_args(Some("oneshot"), &["/bin/sh", "-lc", "printf once"]);
    match run(Command::New(args), false, around()).unwrap() {
        Action::Create { req, attach } => {
            assert!(!attach);
            assert_eq!(req.mode, CommandMode::OneShot);
            assert_eq!(req.command, vec!["/bin/sh", "-lc", "printf once"]);
        }
        other => panic!("unexpected action {other:?}"),
    }
}

#[test]
fn only_shells_started_by_hand_from_a_terminal_are_attached() {
    for bits in 0..32u32 {
        let on = |bit: u32| bits & (1 << bit) != 0;
        let mode = if on(2) { CommandMode::Shell } else { CommandMode::OneShot };
        assert_eq!(should_auto_attach(on(0), on(1), mode, on(3), on(4)), bits == 0b11100);
    }
}

#[test]
fn attach_rejects_recursive_attach_and_new_auto_attach() {
    let err = run(
        Command::Attach { name: "other".to_string(), detach_key: None },
        false,
        inside(),
    )
    .unwrap_err();
    assert!(err.message().contains("cannot attach from inside tmuy session"));
    assert_eq!(
        err.message(),
        "cannot attach from inside tmuy session 0a91b7c; detach first or create the new session with --detached"
    );

    let err = run(Command::New(new_args(Some("nested"), &[])), false, inside()).unwrap_err();
    assert!(err.message().contains("cannot attach from inside tmuy session"));

    let mut args = new_args(Some("nested"), &[]);
    args.detached = true;
    assert!(run(Command::New(args), false, inside()).is_ok());
}

#[test]
fn sessions_mark_their_processes_as_inside() {
    let (_, session) = demo_session();
    let get = |name: &str| session.env.get(name).map(String::as_str);
    let err =
        ensure_attach_allowed(get("TMUY_INSIDE"), get("TMUY_SESSION_HASH")).unwrap_err();
    assert!(matches!(err, TmuyError::InsideSession(hash) if hash == session.id_hash));
    assert!(ensure_attach_allowed(None, Some("x")).is_ok());
    assert!(ensure_attach_allowed(Some("0"), Some("x")).is_ok());
    assert!(ensure_attach_allowed(Some("1"), None).is_ok());
}

#[test]
fn new_checks_the_name_before_the_sandbox() {
    let mut args = new_args(Some("bad/name"), &[]);
    args.net = Some("maybe".to_string());
    let err = run(Command::New(args), false, inside()).unwrap_err();
    assert!(matches!(err, TmuyError::InvalidName));

    let mut args = new_args(None, &[]);
    args.net = Some("maybe".to_string());
    let err = run(Command::New(args), false, inside()).unwrap_err();
    assert!(matches!(err, TmuyError::InvalidNet(net) if net == "maybe"));

    let mut args = new_args(None, &["true"]);
    args.fs = vec!["ro:.".to_string()];
    match run(Command::New(args), false, inside()).unwrap() {
        Action::Create { req, .. } => {
            assert_eq!(req.sandbox.fs, vec![FsGrant::ReadOnly("/work/.".to_string())]);
        }
        other => panic!("unexpected action {other:?}"),
    }
}

#[test]
fn other_commands_are_passed_on() {
    let text = |word: &str| word.to_string();
    assert!(matches!(
        run(Command::Tail { name: text("a"), raw: true, follow: false }, false, inside()),
        Ok(Action::Tail { name, raw: true, follow: false }) if name == "a"
    ));
    assert!(matches!(
        run(Command::Events { name: text("a"), jsonl: false, follow: true }, false, inside()),
        Ok(Action::Events { name, jsonl: false, follow: true }) if name == "a"
    ));
    assert!(matches!(
        run(Command::Inspect { name: text("a") }, false, inside()),
        Ok(Action::Inspect { name }) if name == "a"
    ));
    assert!(matches!(
        run(Command::Wait { name: text("a"), timeout_secs: Some(300) }, false, inside()),
        Ok(Action::Wait { name, timeout: Some(300_000_000_000) }) if name == "a"
    ));
    assert!(matches!(
        run(Command::Rename { name: text("a"), new_name: text("b") }, false, inside()),
        Ok(Action::Rename { name, new_name }) if name == "a" && new_name == "b"
    ));
    assert!(matches!(
        run(Command::Rename { name: text("a"), new_name: text("") }, false, inside()),
        Err(TmuyError::EmptyName)
    ));
    assert!(matches!(
        run(Command::Serve { hash: text("h") }, false, inside()),
        Ok(Action::Serve { hash }) if hash == "h"
    ));
    assert!(matches!(
        run(Command::ServeRpc { socket: None }, false, inside()),
        Ok(Action::ServeRpc { socket: None })
    ));
    assert!(matches!(
        run(Command::Attach { name: text("a"), detach_key: Some(text("x")) }, true, around()),
        Ok(Action::Attach { name, detach_key: Some(key) }) if name == "a" && key == "x"
    ));
}

#[test]
fn shell_words_quotes_only_words_with_spaces() {
    let words = |parts: &[&str]| {
        let parts: Vec<String> = parts.iter().map(|part| part.to_string()).collect();
        shell_words(&parts)
    };
    assert_eq!(words(&[]), "");
    assert_eq!(words(&["ls"]), "ls");
    assert_eq!(words(&["a b", "c\td", ""]), "\"a b\" c\td ");
    assert_eq!(words(&["say", "\"hi there\""]), "say \"\\\"hi there\\\"\"");
}
