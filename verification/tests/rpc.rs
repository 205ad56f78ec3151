//! The control API over a local socket.

use base64::Engine;

use tmuy::env_map::EnvMap;
use tmuy::error::TmuyError;
use tmuy::model::{CommandMode, FsGrant, NetworkMode, SessionScope, StateFile};
use tmuy::rpc::{
    RPC_VERSION, RpcAction, RpcDefaults, RpcEnvelope, RpcQuery, RpcReply, RpcRequest, answer,
    default_socket_path, flush_event_messages, output_data, plan_request, read_request,
};
use tmuy::store::Store;

fn defaults() -> RpcDefaults {
    RpcDefaults {
        cwd: "/srv".to_string(),
        env: EnvMap::new().insert("FROM", "server"),
        shell: None,
    }
}

fn parse(line: &str) -> Result<RpcEnvelope, String> {
    let value: serde_json::Value = serde_json::from_str(line).map_err(|err| err.to_string())?;
    let request = match value["op"].as_str() {
        Some("ping") => RpcRequest::Ping,
        Some("list") => RpcRequest::List { dead: None, all: None },
        _ => return Err("unknown op".to_string()),
    };
    Ok(RpcEnvelope { v: value["v"].as_u64().unwrap_or_default() as u8, request })
}

fn query(request: RpcRequest) -> RpcQuery {
    match plan_request(request, defaults()).unwrap() {
        RpcAction::Ask(query) => query,
        other => panic!("unexpected action {other:?}"),
    }
}

fn create(name: Option<&str>) -> RpcRequest {
    RpcRequest::Create {
        name: name.map(ToOwned::to_owned),
        cwd: None,
        fs: None,
        net: None,
        detach_key: None,
        command: None,
        env: None,
    }
}

#[test]
fn read_request_parses_versioned_rpc_envelope() {
    let request = read_request("{\"v\":1,\"op\":\"ping\"}\n", parse).unwrap();
    assert!(matches!(request, RpcRequest::Ping));
}

#[test]
fn requests_without_a_line_or_of_another_version_are_refused() {
    let err = read_request("", parse).unwrap_err();
    assert_eq!(err.message(), "empty rpc request");
    let err = read_request("{\"v\":2,\"op\":\"ping\"}\n", parse).unwrap_err();
    assert_eq!(err.message(), "unsupported rpc version 2; expected 1");
    let err = read_request("{\"v\":1,\"op\":\"fly\"}\n", parse).unwrap_err();
    assert_eq!(err.message(), "unknown op");
    let err = read_request("\n", parse).unwrap_err();
    assert!(matches!(err, TmuyError::MalformedRequest(_)));
}

#[test]
fn socket_lies_in_the_base_directory() {
    let store = Store::from_base_dir("/home/user/.tmuy".to_string());
    assert_eq!(default_socket_path(&store), "/home/user/.tmuy/rpc.sock");
}

#[test]
fn rpc_control_requests_round_trip() {
    let store = Store::from_base_dir("/home/user/.tmuy".to_string());
    let mut state = StateFile::default();

    assert!(matches!(
        answer(&store, &state, &query(RpcRequest::Ping)),
        Ok(RpcReply::Version(1))
    ));

    let created = plan_request(
        RpcRequest::Create {
            name: Some("alpha".to_string()),
            cwd: None,
            fs: None,
            net: None,
            detach_key: None,
            command: Some(vec![
                "/bin/sh".to_string(),
                "-lc".to_string(),
                "trap 'exit 0' TERM; while :; do sleep 1; done".to_string(),
            ]),
            env: None,
        },
        defaults(),
    )
    .unwrap();
    let session = match created {
        RpcAction::Create(req) => store.create_session(&mut state, req).unwrap(),
        other => panic!("unexpected action {other:?}"),
    };
    let hash = session.id_hash.clone();

    let listed = query(RpcRequest::List { dead: None, all: None });
    match answer(&store, &state, &listed) {
        Ok(RpcReply::Sessions(sessions)) => {
            assert!(sessions.iter().any(|session| session.id_hash == hash));
        }
        other => panic!("unexpected reply {other:?}"),
    }

    match plan_request(
        RpcRequest::Rename { target: hash.clone(), new_name: "beta".to_string() },
        defaults(),
    )
    .unwrap()
    {
        RpcAction::Rename { target, new_name } => {
            let renamed = store.rename_session(&mut state, &target, &new_name).unwrap();
            assert_eq!(renamed.current_name, "beta");
            assert_eq!(renamed.id_hash, hash);
        }
        other => panic!("unexpected action {other:?}"),
    }

    let inspect = query(RpcRequest::Inspect { target: hash.clone() });
    match answer(&store, &state, &inspect) {
        Ok(RpcReply::Session(inspected)) => assert_eq!(inspected.current_name, "beta"),
        other => panic!("unexpected reply {other:?}"),
    }
    let inspect = query(RpcRequest::Inspect { target: "alpha".to_string() });
    assert!(matches!(
        answer(&store, &state, &inspect),
        Err(TmuyError::UnknownTarget(_))
    ));

    let signal = plan_request(
        RpcRequest::Signal { target: hash.clone(), signal: "TERM".to_string() },
        defaults(),
    )
    .unwrap();
    assert!(matches!(
        signal,
        RpcAction::Signal { target, signal } if target == hash && signal == "TERM"
    ));

    let wait = plan_request(
        RpcRequest::Wait { target: hash.clone(), timeout_secs: Some(5) },
        defaults(),
    )
    .unwrap();
    assert!(matches!(
        wait,
        RpcAction::Wait { target, timeout: Some(5_000_000_000) } if target == hash
    ));
}

#[test]
fn rpc_stream_requests_follow_output_and_events() {
    let target = || "echoer".to_string();
    for (follow, expected) in [(None, true), (Some(true), true), (Some(false), false)] {
        assert!(matches!(
            plan_request(RpcRequest::SubscribeEvents { target: target(), follow }, defaults()),
            Ok(RpcAction::Events { target, follow }) if target == "echoer" && follow == expected
        ));
        assert!(matches!(
            plan_request(RpcRequest::SubscribeOutput { target: target(), follow }, defaults()),
            Ok(RpcAction::Output { target, follow }) if target == "echoer" && follow == expected
        ));
    }

    let written = plan_request(
        RpcRequest::Write {
            target: target(),
            data_b64: base64::engine::general_purpose::STANDARD.encode(b"hello\nquit\n"),
        },
        defaults(),
    )
    .unwrap();
    assert!(matches!(
        written,
        RpcAction::Write { target, data } if target == "echoer" && data == b"hello\nquit\n"
    ));

    let mut decoded = Vec::new();
    for piece in [&b"E:hello\r\n"[..], &b"\x00\xff"[..], &b"E:quit\r\n"[..]] {
        let chunk = base64::engine::general_purpose::STANDARD.decode(output_data(piece)).unwrap();
        decoded.extend_from_slice(&chunk);
    }
    assert_eq!(decoded, b"E:hello\r\n\x00\xffE:quit\r\n");
    assert_eq!(output_data(b"git status\n"), "Z2l0IHN0YXR1cwo=");
}

#[test]
fn writes_are_decoded_or_refused() {
    let write = |data: &str| {
        plan_request(
            RpcRequest::Write { target: "build".to_string(), data_b64: data.to_string() },
            defaults(),
        )
    };
    assert!(matches!(
        write("Z2l0IHN0YXR1cwo="),
        Ok(RpcAction::Write { data, .. }) if data == b"git status\n"
    ));
    assert!(matches!(write(""), Ok(RpcAction::Write { data, .. }) if data.is_empty()));
    assert_eq!(write("not base64!").unwrap_err().message(), "invalid data_b64 payload");
}

#[test]
fn lists_of_dead_and_all_are_refused() {
    let list = |dead, all| plan_request(RpcRequest::List { dead, all }, defaults());
    assert_eq!(
        list(Some(true), Some(true)).unwrap_err().message(),
        "dead and all cannot both be true"
    );
    assert!(matches!(
        list(Some(true), None),
        Ok(RpcAction::Ask(RpcQuery::List(SessionScope::DeadOnly)))
    ));
    assert!(matches!(
        list(Some(false), Some(true)),
        Ok(RpcAction::Ask(RpcQuery::List(SessionScope::All)))
    ));
    assert!(matches!(
        list(None, Some(false)),
        Ok(RpcAction::Ask(RpcQuery::List(SessionScope::LiveOnly)))
    ));
}

#[test]
fn created_sessions_take_the_defaults() {
    match plan_request(create(None), defaults()).unwrap() {
        RpcAction::Create(req) => {
            assert_eq!(req.explicit_name, None);
            assert_eq!(req.cwd, "/srv");
            assert_eq!(req.command, vec!["/bin/bash", "-i"]);
            assert_eq!(req.mode, CommandMode::Shell);
            assert_eq!(req.detach_key, "C-b d");
            assert_eq!(req.env.get("FROM").map(String::as_str), Some("server"));
        }
        other => panic!("unexpected action {other:?}"),
    }
    match plan_request(
        RpcRequest::Create {
            name: Some("build".to_string()),
            cwd: Some("/src".to_string()),
            fs: Some(vec!["rw:out".to_string()]),
            net: Some("off".to_string()),
            detach_key: Some("C-a d".to_string()),
            command: Some(Vec::new()),
            env: Some(EnvMap::new()),
        },
        defaults(),
    )
    .unwrap()
    {
        RpcAction::Create(req) => {
            assert_eq!(req.cwd, "/src");
            assert_eq!(req.sandbox.fs, vec![FsGrant::ReadWrite("/src/out".to_string())]);
            assert_eq!(req.sandbox.net, NetworkMode::Off);
            assert_eq!(req.detach_key, "C-a d");
            assert_eq!(req.mode, CommandMode::Shell);
            assert!(req.env.entries().is_empty());
        }
        other => panic!("unexpected action {other:?}"),
    }
    assert!(matches!(
        plan_request(create(Some("a b")), defaults()),
        Err(TmuyError::InvalidName)
    ));
    assert!(matches!(
        plan_request(
            RpcRequest::Rename { target: "a".to_string(), new_name: String::new() },
            defaults()
        ),
        Err(TmuyError::EmptyName)
    ));
}

#[test]
fn event_messages_are_made_of_complete_lines() {
    let parse = |line: &[u8]| -> Result<String, String> {
        if line == b"bad" {
            return Err("bad line".to_string());
        }
        Ok(String::from_utf8(line.to_vec()).unwrap())
    };
    let mut out = vec!["zero".to_string()];
    let mut pending = b"one\n\ntwo\nthr".to_vec();
    flush_event_messages(&mut pending, &parse, &mut out).unwrap();
    assert_eq!(out, vec!["zero", "one", "two"]);
    assert_eq!(pending, b"thr");
    pending.extend_from_slice(b"ee\nbad\nfour\n");
    let err = flush_event_messages(&mut pending, &parse, &mut out).unwrap_err();
    assert_eq!(err, "bad line");
    assert_eq!(out, vec!["zero", "one", "two", "three"]);
    assert_eq!(pending, b"three\nbad\nfour\n");
}

#[test]
fn version_is_one() {
    assert_eq!(RPC_VERSION, 1);
}
