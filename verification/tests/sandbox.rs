//! The command line that a session is run by.

use portable_pty::CommandBuilder;

use tmuy::env_map::EnvMap;
use tmuy::error::TmuyError;
use tmuy::model::{
    CommandMode, FsGrant, NetworkMode, SandboxSpec, SessionRecord, SessionStatus, Timestamp,
};
use tmuy::runtime::ui::{sandbox_text, status_line};
use tmuy::sandbox::{
    build_command, bwrap_argv, ensure_cwd_allowed, grant_allows_cwd, is_default,
    linux_bwrap_command, path_arg, plain_command,
};
use tmuy::store::parse_sandbox;

fn sample_session(sandbox: SandboxSpec) -> SessionRecord {
    let at = Timestamp { secs: 0, nanos: 0 };
    SessionRecord {
        id_hash: "1a2b3c4".to_string(),
        started_name: "demo".to_string(),
        current_name: "demo".to_string(),
        created_at: at,
        updated_at: at,
        cwd: "/tmp/demo".to_string(),
        command: vec!["/bin/sh".to_string(), "-lc".to_string(), "printf ok".to_string()],
        mode: CommandMode::OneShot,
        sandbox,
        status: SessionStatus::Starting,
        started_log_dir: "/tmp/log".to_string(),
        meta_path: "/tmp/log/meta.json".to_string(),
        log_path: "/tmp/log/pty.log".to_string(),
        events_path: "/tmp/log/events.jsonl".to_string(),
        socket_path: "/tmp/log/live.sock".to_string(),
        service_pid: None,
        child_pid: None,
        exit_code: None,
        failure_reason: None,
        env: EnvMap::new().insert("TEST_ENV", "VALUE"),
        detach_key: "C-b d".to_string(),
    }
}

fn argv(builder: &CommandBuilder) -> Vec<String> {
    builder
        .get_argv()
        .iter()
        .map(|arg| arg.to_str().unwrap().to_string())
        .collect()
}

#[test]
fn cwd_must_be_within_grant() {
    let err = ensure_cwd_allowed(
        "/work/project",
        &[FsGrant::ReadOnly("/work/project/subdir".into())],
    )
    .unwrap_err();
    assert!(err.message().contains("not covered"));
    assert_eq!(
        err.message(),
        "sandbox cwd /work/project is not covered by any --fs grant; use --fs ro:. or --fs rw:. from that directory, or cd into a granted directory first"
    );
}

#[test]
fn default_sandbox_uses_plain_command() {
    let builder = build_command(&sample_session(SandboxSpec::default()), true).unwrap();
    let debug = format!("{builder:?}");
    assert!(debug.contains("/bin/sh"));
    assert!(debug.contains("printf ok"));
    assert!(debug.contains("/tmp/demo"));
    assert!(debug.contains("TEST_ENV"));
    assert_eq!(argv(&builder), vec!["/bin/sh", "-lc", "printf ok"]);
    assert_eq!(builder.get_cwd().unwrap().to_str(), Some("/tmp/demo"));
    let set: Vec<(&str, &str)> = builder.iter_extra_env_as_str().collect();
    assert_eq!(set, vec![("TEST_ENV", "VALUE")]);
}

#[test]
fn full_fs_non_default_sandbox_uses_bwrap_full_branch() {
    let session = sample_session(SandboxSpec { fs: vec![FsGrant::Full], net: NetworkMode::Off });
    let builder = linux_bwrap_command(&session).unwrap();
    let debug = format!("{builder:?}");
    assert!(debug.contains("bwrap"));
    assert!(debug.contains("--dev-bind"));
    assert!(debug.contains("/proc"));
    assert!(!debug.contains("--share-net"));
    assert_eq!(
        argv(&builder),
        vec![
            "bwrap",
            "--new-session",
            "--die-with-parent",
            "--unshare-all",
            "--dev-bind",
            "/",
            "/",
            "--proc",
            "/proc",
            "--chdir",
            "/tmp/demo",
            "--",
            "/bin/sh",
            "-lc",
            "printf ok",
        ]
    );
    assert_eq!(builder.get_cwd().unwrap().to_str(), Some("/tmp/demo"));
}

#[test]
fn grant_allows_cwd_accepts_full() {
    assert!(grant_allows_cwd(&FsGrant::Full, "/anywhere"));
}

#[test]
fn path_arg_rejects_non_utf8() {
    let err = path_arg(&[0xff, 0xfe]).unwrap_err();
    assert!(err.message().contains("non-utf8"));
    assert_eq!(
        err.message(),
        "non-utf8 paths are not supported yet: \u{fffd}\u{fffd}"
    );
    assert_eq!(path_arg("/tmp/\u{e9}".as_bytes()).unwrap(), "/tmp/\u{e9}");
}

#[test]
fn restricted_grants_are_bound_after_the_system() {
    let session = sample_session(SandboxSpec {
        fs: vec![
            FsGrant::ReadWrite("/tmp/demo/out".to_string()),
            FsGrant::ReadOnly("/tmp".to_string()),
            FsGrant::ReadOnly("/data".to_string()),
        ],
        net: NetworkMode::On,
    });
    let expected: Vec<&str> = "bwrap --new-session --die-with-parent --unshare-all --share-net \
        --proc /proc --dev /dev --tmpfs /tmp \
        --ro-bind /bin /bin --ro-bind /usr /usr \
        --ro-bind-try /sbin /sbin --ro-bind-try /lib /lib --ro-bind-try /lib64 /lib64 \
        --ro-bind-try /etc /etc --ro-bind-try /opt /opt --ro-bind-try /run /run \
        --ro-bind /tmp /tmp --ro-bind /data /data --bind /tmp/demo/out /tmp/demo/out \
        --chdir /tmp/demo -- /bin/sh -lc"
        .split_whitespace()
        .collect();
    let args = bwrap_argv(&session).unwrap();
    assert_eq!(args[..args.len() - 1].to_vec(), expected);
    assert_eq!(args[args.len() - 1], "printf ok");
    assert_eq!(argv(&build_command(&session, true).unwrap()), args);
}

#[test]
fn sessions_without_a_command_are_refused() {
    let mut session = sample_session(SandboxSpec::default());
    session.command = Vec::new();
    assert!(matches!(plain_command(&session), Err(TmuyError::NoCommand)));
    assert_eq!(
        build_command(&session, false).unwrap_err().message(),
        "session has no command configured"
    );
    session.sandbox.net = NetworkMode::Off;
    assert!(matches!(linux_bwrap_command(&session), Err(TmuyError::NoCommand)));
    session.sandbox.fs = vec![FsGrant::ReadOnly("/else".to_string())];
    assert!(matches!(linux_bwrap_command(&session), Err(TmuyError::CwdNotGranted(_))));
    session.sandbox.fs = Vec::new();
    assert!(matches!(bwrap_argv(&session), Err(TmuyError::CwdNotGranted(_))));
}

#[test]
fn other_platforms_refuse_restricted_sessions() {
    let session = sample_session(SandboxSpec { fs: vec![FsGrant::Full], net: NetworkMode::Off });
    assert!(!is_default(&session.sandbox));
    assert_eq!(
        build_command(&session, false).unwrap_err().message(),
        "non-default sandbox is not implemented on this platform yet"
    );
    assert!(build_command(&sample_session(SandboxSpec::default()), false).is_ok());
}

#[test]
fn sandbox_fails_when_cwd_not_granted() {
    let mut session = sample_session(parse_sandbox(&["ro:subdir".to_string()], None, "/work").unwrap());
    session.cwd = "/work".to_string();
    let err = build_command(&session, true).unwrap_err();
    assert!(err.message().contains("not covered"));
    session.sandbox = parse_sandbox(&["ro:.".to_string()], None, "/work").unwrap();
    assert!(build_command(&session, true).is_ok());
    session.sandbox = parse_sandbox(&["rw:.".to_string()], Some("off"), "/work").unwrap();
    assert!(build_command(&session, true).is_ok());
}

#[test]
fn grants_cover_what_lies_below_them() {
    for (grant, cwd, covered) in [
        ("/work", "/work", true),
        ("/work/", "/work/a/b", true),
        ("/work/.", "/work", true),
        ("/work", "/workshop", false),
        ("/work/a", "/work", false),
        ("/", "/anything", true),
        ("work", "/work", false),
    ] {
        assert_eq!(
            grant_allows_cwd(&FsGrant::ReadOnly(grant.to_string()), cwd),
            covered,
            "{grant} {cwd}"
        );
        assert_eq!(
            grant_allows_cwd(&FsGrant::ReadWrite(grant.to_string()), cwd),
            covered
        );
    }
}

#[test]
fn attach_shows_status_bar_immediately_for_quiet_sessions() {
    let mut session = sample_session(SandboxSpec::default());
    session.current_name = "quiet".to_string();
    let line = status_line(&session, "C-b d");
    assert!(line.contains("tmuy quiet"));
    assert!(line.contains("1a2b3c4"));
    assert!(line.contains("detach C-b d"));
    assert!(line.contains("sandbox fs:full net:on"));
    assert_eq!(
        line,
        "tmuy quiet (1a2b3c4) | detach C-b d | sandbox fs:full net:on"
    );
}

#[test]
fn sandboxes_are_shown_as_flags() {
    let spec = parse_sandbox(
        &["ro:/a".to_string(), "rw:b".to_string()],
        Some("off"),
        "/work",
    )
    .unwrap();
    assert_eq!(sandbox_text(&spec), "fs:ro:/a,rw:/work/b net:off");
    assert_eq!(
        sandbox_text(&SandboxSpec { fs: Vec::new(), net: NetworkMode::default() }),
        "fs: net:on"
    );
}
