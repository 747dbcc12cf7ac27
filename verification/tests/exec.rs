use friday::exec::channel::{ChannelMessage, CommandRun, ExecOutput};
use friday::exec::k8s::K8sTransport;
use friday::exec::pool::{
    build_transport, fetch_environment, CredentialRecord, EnvironmentRecord, ExecChannelPool,
    PoolError,
};
use friday::exec::ssh::{
    after_connect, after_exec, effective_secret, key_passphrase, load_key_pair, reconnect_error,
    remote_io_err, shell_quote_single, should_reconnect, verify_resume_offset, ConnectStep, Download,
    RunStep, SshAuth, SshTransport, NOT_CONNECTED,
};
use friday::exec::reaching::{ChannelAction, ReachEvent, TunnelAction, TunnelOpening};
use friday::exec::ssh_run::{RunAction, RunEvent, SshRun};
use friday::exec::tunnel::{config_error, lookup_error, tunnel_key, TunnelError, TunnelManager};

#[test]
fn test_ssh_auth_from_row_private_key() {
    let auth = SshAuth::from_row("private_key", Some("/home/u/.ssh/id_ed25519")).unwrap();
    match auth {
        SshAuth::PrivateKey { key_path } => {
            assert_eq!(key_path, "/home/u/.ssh/id_ed25519");
        }
        _ => panic!("expected PrivateKey"),
    }
}

#[test]
fn test_ssh_auth_from_row_private_key_missing_path_is_none() {
    assert!(SshAuth::from_row("private_key", None).is_none());
}

#[test]
fn test_ssh_auth_from_row_password() {
    assert!(matches!(SshAuth::from_row("password", None), Some(SshAuth::Password)));
}

#[test]
fn test_ssh_auth_from_row_unknown_is_none() {
    assert!(SshAuth::from_row("kerberos", None).is_none());
}

#[test]
fn test_wrap_login_shell_plain() {
    assert_eq!(SshAuth::wrap_login_shell("jstat -gcutil 1234"), "bash -lc 'jstat -gcutil 1234'");
}

#[test]
fn test_wrap_login_shell_with_single_quote() {
    assert_eq!(
        SshAuth::wrap_login_shell("echo 'hi'"),
        "bash -lc 'echo '\\''hi'\\'''"
    );
}

#[test]
fn test_shell_quote_single_roundtrip_via_bash_semantics() {
    let q = shell_quote_single("it's a 'test'");
    assert_eq!(q, "'it'\\''s a '\\''test'\\'''");
}

#[test]
fn test_should_reconnect_on_exec_error() {
    assert!(should_reconnect(-1, Some("channel open failed")));
    assert!(should_reconnect(0, Some("channel broke")));
}

#[test]
fn test_effective_secret_override_wins() {
    assert_eq!(
        effective_secret(&Some("form-pass".to_string()), Some("keychain-pass".to_string())),
        Some("form-pass".to_string())
    );
}

#[test]
fn test_effective_secret_empty_override_falls_back_to_keychain() {
    assert_eq!(
        effective_secret(&Some(String::new()), Some("keychain-pass".to_string())),
        Some("keychain-pass".to_string())
    );
}

#[test]
fn test_effective_secret_no_override_uses_keychain() {
    assert_eq!(
        effective_secret(&None, Some("keychain-pass".to_string())),
        Some("keychain-pass".to_string())
    );
    assert_eq!(effective_secret(&None, None), None);
}

#[test]
fn test_should_reconnect_on_missing_exit_status() {
    assert!(should_reconnect(-1, None));
}

#[test]
fn test_no_reconnect_on_zero_exit() {
    assert!(!should_reconnect(0, None));
}

#[test]
fn test_no_reconnect_on_nonzero_exit() {
    assert!(!should_reconnect(1, None));
    assert!(!should_reconnect(127, None));
}

#[test]
fn test_no_reconnect_on_exit_255() {
    assert!(!should_reconnect(255, None));
}

#[test]
fn test_verify_resume_offset_match_is_ok() {
    assert!(verify_resume_offset(0, 0).is_ok());
    assert!(verify_resume_offset(4096, 4096).is_ok());
}

#[test]
fn test_verify_resume_offset_mismatch_message() {
    let err = verify_resume_offset(100, 200).unwrap_err();
    assert!(err.contains("resume offset mismatch"), "err: {err}");
    assert!(err.contains("local file has 100 bytes but offset is 200"), "err: {err}");
}

#[test]
fn test_tunnel_key_format() {
    assert_eq!(tunnel_key("env-1", "127.0.0.1", 8563), "env-1/127.0.0.1/8563");
}

#[test]
fn test_load_key_pair_nonexistent_path() {
    let err = load_key_pair("Z:/definitely/not/a/key/path", false, None).unwrap_err();
    assert!(err.contains("private key not found"));
}

#[test]
fn test_load_key_pair_invalid_content() {
    let err = load_key_pair("/k", true, Some("not a valid private key")).unwrap_err();
    assert!(err.contains("failed to load private key"));
    assert!(load_key_pair("/k", true, None).is_ok());
}

#[test]
fn test_run_without_connect_errors() {
    let t = SshTransport::new("env1", "h", 22, "u", SshAuth::Password);
    let (run, action) = t.run("echo hi", false);
    let err = match action {
        RunAction::Fail(e) => e,
        other => panic!("expected error when not connected, got {other:?}"),
    };
    assert!(err.contains("ssh not connected"));
    assert_eq!(err, NOT_CONNECTED);
    assert!(!run.connected);
}

fn begun() -> SshRun {
    let t = SshTransport::new("env1", "h", 22, "u", SshAuth::Password);
    let (run, action) = t.run("echo hi", true);
    assert!(matches!(action, RunAction::Exec(c) if c == "bash -lc 'echo hi'"));
    run
}

#[test]
fn a_command_that_completes_needs_no_new_connection() {
    for code in [0, 1, 255] {
        let mut run = begun();
        match run.step(RunEvent::Executed(out(code))) {
            RunAction::Return(o) => assert_eq!(o.exit_code, code),
            other => panic!("expected the output, got {other:?}"),
        }
        assert!(run.connected && !run.retried);
        assert!(matches!(run.step(RunEvent::Reconnected(Ok(()))), RunAction::Ignore));
    }
}

#[test]
fn a_broken_command_is_run_once_more() {
    let mut run = begun();
    assert!(matches!(run.step(RunEvent::Executed(out(-1))), RunAction::Reconnect));
    assert!(matches!(run.step(RunEvent::Executed(out(0))), RunAction::Ignore));
    match run.step(RunEvent::Reconnected(Ok(()))) {
        RunAction::Exec(c) => assert_eq!(c, "bash -lc 'echo hi'"),
        other => panic!("expected the command again, got {other:?}"),
    }
    match run.step(RunEvent::Executed(Err("x".to_string()))) {
        RunAction::Fail(e) => assert_eq!(e, "ssh command failed after reconnect: x"),
        other => panic!("expected a failure, got {other:?}"),
    }
    let mut run = begun();
    assert!(matches!(run.step(RunEvent::Executed(Err("x".to_string()))), RunAction::Reconnect));
    assert!(matches!(run.step(RunEvent::Reconnected(Ok(()))), RunAction::Exec(_)));
    assert!(matches!(run.step(RunEvent::Executed(out(7))), RunAction::Return(o) if o.exit_code == 7));
    assert!(run.connected);
}

#[test]
fn a_failed_reconnect_leaves_no_connection() {
    let mut run = begun();
    assert!(matches!(run.step(RunEvent::Executed(out(-1))), RunAction::Reconnect));
    match run.step(RunEvent::Reconnected(Err("refused".to_string()))) {
        RunAction::Fail(e) => assert_eq!(e, "ssh reconnect failed: refused"),
        other => panic!("expected a failure, got {other:?}"),
    }
    assert!(!run.connected);
    let mut run = begun();
    match run.step(RunEvent::Unconnected) {
        RunAction::Fail(e) => assert_eq!(e, NOT_CONNECTED),
        other => panic!("expected a failure, got {other:?}"),
    }
    assert!(!run.connected);
}

fn out(exit_code: i32) -> Result<ExecOutput, String> {
    Ok(ExecOutput { stdout: String::new(), stderr: String::new(), exit_code })
}

#[test]
fn a_command_is_tried_once_more() {
    assert!(matches!(after_exec(out(3), false), RunStep::Return(o) if o.exit_code == 3));
    assert!(matches!(after_exec(out(-1), false), RunStep::Reconnect));
    assert!(matches!(after_exec(Err("x".to_string()), false), RunStep::Reconnect));
    match after_exec(out(-1), true) {
        RunStep::Fail(e) => assert_eq!(e, "ssh channel closed without exit status (connection dropped)"),
        other => panic!("expected a failure, got {other:?}"),
    }
    match after_exec(Err("x".to_string()), true) {
        RunStep::Fail(e) => assert_eq!(e, "ssh command failed after reconnect: x"),
        other => panic!("expected a failure, got {other:?}"),
    }
    assert!(reconnect_error("x").contains("x"));
    assert!(remote_io_err("write", "x").contains("write"));
}

#[test]
fn connecting_is_tried_again_later() {
    assert!(matches!(after_connect(0, Ok(())), ConnectStep::Connected));
    assert!(matches!(after_connect(0, Err("x".to_string())), ConnectStep::RetryAfter(1)));
    assert!(matches!(after_connect(1, Err("x".to_string())), ConnectStep::RetryAfter(2)));
    assert!(matches!(after_connect(2, Err("x".to_string())), ConnectStep::Fail(e) if e == "x"));
}

#[test]
fn a_transport_knows_its_secret() {
    let t = SshTransport::with_cred("env1", "h", 22, "u", SshAuth::Password, "c1");
    assert_eq!(t.cred_id_as_ref(), Some("c1"));
    let t = SshTransport::new("env1", "h", 22, "u", SshAuth::Password);
    assert_eq!(t.cred_id_as_ref(), None);
    assert!(t.auth_secret(None).is_err());
    assert_eq!(t.auth_secret(Some("k".to_string())).unwrap().as_deref(), Some("k"));
    assert_eq!(key_passphrase(Some("")), None);
    assert_eq!(key_passphrase(Some("p")), Some("p"));
}

#[test]
fn a_download_goes_on_where_it_stopped() {
    assert!(Download::begin(10, 9).is_err());
    let mut d = Download::begin(10, 10).unwrap();
    assert!(d.appends());
    assert_eq!(d.take(5, false), None);
    assert_eq!(d.take(5, true), Some((20, 10)));
    assert_eq!(d.brought(), 10);
    assert!(!Download::begin(0, 99).unwrap().appends());
}

#[test]
fn what_a_command_writes_is_put_together() {
    let mut run = CommandRun::new();
    run.take(ChannelMessage::Data(b"he".to_vec()));
    run.take(ChannelMessage::ErrorData(b"e".to_vec()));
    run.take(ChannelMessage::Data("llo é".as_bytes().to_vec()));
    run.take(ChannelMessage::Other);
    run.take(ChannelMessage::ExitStatus(3));
    let o = run.output();
    assert_eq!((o.stdout.as_str(), o.stderr.as_str(), o.exit_code), ("hello é", "e", 3));
    assert_eq!(CommandRun::new().output().exit_code, -1);
    let mut run = CommandRun::new();
    run.take(ChannelMessage::Data(vec![b'a', 0xff]));
    assert_eq!(run.output().stdout, "a\u{fffd}");
}

#[test]
fn pods_are_not_reached_yet() {
    let t = K8sTransport { namespace: "n".to_string(), pod: "p".to_string(), container: "c".to_string() };
    assert!(t.run("ls").is_err());
    assert!(t.connect().is_err());
}

#[test]
fn test_disconnect_removes_connection() {
    let mut pool = ExecChannelPool::new();
    pool.insert_channel("env-1".to_string(), 7, 0);
    assert_eq!(pool.connection_count(), 1);
    assert_eq!(pool.disconnect("env-1"), Some(7));
    assert_eq!(pool.connection_count(), 0);
}

#[test]
fn test_disconnect_nonexistent_is_noop() {
    let mut pool = ExecChannelPool::new();
    assert_eq!(pool.disconnect("nope"), None);
    assert_eq!(pool.connection_count(), 0);
}

#[test]
fn test_disconnect_all_removes_all() {
    let mut pool = ExecChannelPool::new();
    pool.insert_channel("env-1".to_string(), 1, 0);
    pool.insert_channel("env-2".to_string(), 2, 0);
    let mut gone = pool.disconnect_all();
    gone.sort();
    assert_eq!(gone, vec![1, 2]);
    assert_eq!(pool.connection_count(), 0);
}

#[test]
fn test_get_or_create_caches_by_environment_id() {
    let mut pool = ExecChannelPool::new();
    pool.insert_channel("env-1".to_string(), 7, 0);
    let (_, ch) = pool.get_or_create("env-1", 1);
    assert!(matches!(ch, ChannelAction::Reuse(7)));
    let (_, ch2) = pool.get_or_create("env-1", 2);
    assert_eq!(pool.connection_count(), 1);
    assert!(matches!(ch2, ChannelAction::Reuse(7)));
}

#[test]
fn a_new_connection_is_kept() {
    let mut pool = ExecChannelPool::new();
    let (mut opening, action) = pool.get_or_create("env-1", 0);
    assert!(matches!(action, ChannelAction::LookUp));
    let env = fetch_environment("env-1", Some(record(None)));
    match opening.step(&mut pool, ReachEvent::Environment(env), 5, 1) {
        ChannelAction::Connect(to) => assert_eq!((to.host.as_str(), to.user.as_str()), ("10.0.0.1", "root")),
        other => panic!("expected to connect, got {other:?}"),
    }
    assert_eq!(pool.connection_count(), 0);
    let action = opening.step(&mut pool, ReachEvent::Connected(Ok(())), 5, 2);
    assert!(matches!(action, ChannelAction::Opened { replaced: None }));
    assert!(matches!(pool.get_or_create("env-1", 3).1, ChannelAction::Reuse(5)));
    assert!(matches!(opening.step(&mut pool, ReachEvent::Connected(Ok(())), 6, 4), ChannelAction::Ignore));
    assert_eq!(pool.insert_channel("env-1".to_string(), 9, 5), Some(5));
}

#[test]
fn a_connection_that_fails_is_not_kept() {
    let mut pool = ExecChannelPool::new();
    let (mut opening, _) = pool.get_or_create("env-1", 0);
    let env = fetch_environment("env-1", Some(record(None)));
    opening.step(&mut pool, ReachEvent::Environment(env), 5, 1);
    match opening.step(&mut pool, ReachEvent::Connected(Err("refused".to_string())), 5, 2) {
        ChannelAction::Fail(e) => assert_eq!(e.message(), "connection error: refused"),
        other => panic!("expected a failure, got {other:?}"),
    }
    let (mut opening, _) = pool.get_or_create("env-2", 0);
    let mut env = record(None);
    env.transport_type = "k8s".to_string();
    let env = fetch_environment("env-2", Some(env));
    match opening.step(&mut pool, ReachEvent::Environment(env), 6, 3) {
        ChannelAction::Fail(e) => assert_eq!(e.message(), "transport not implemented: k8s"),
        other => panic!("expected a failure, got {other:?}"),
    }
    assert_eq!(pool.connection_count(), 0);
}

#[test]
fn test_get_or_create_unknown_environment_returns_error() {
    let mut pool = ExecChannelPool::new();
    let (mut opening, _) = pool.get_or_create("no-such-env", 0);
    let env = fetch_environment("no-such-env", None);
    let result = opening.step(&mut pool, ReachEvent::Environment(env), 1, 0);
    assert!(matches!(
        result,
        ChannelAction::Fail(PoolError::EnvironmentNotFound { env_id }) if env_id == "no-such-env"
    ));
}

#[test]
fn test_idle_cleanup_removes_stale_connections() {
    let mut pool = ExecChannelPool::new();
    let now = 1_000_000;
    pool.insert_channel("env-1".to_string(), 7, now);
    assert_eq!(pool.connection_count(), 1);
    pool.mark_last_used_for_test("env-1", now - 660_000);
    assert_eq!(pool.cleanup_idle(now, 600_000), vec![7]);
    assert_eq!(pool.connection_count(), 0);
}

#[test]
fn test_idle_cleanup_keeps_recent_connections() {
    let mut pool = ExecChannelPool::new();
    pool.insert_channel("env-1".to_string(), 7, 0);
    assert!(pool.cleanup_idle(0, 600_000).is_empty());
    assert_eq!(pool.connection_count(), 1);
    pool.get("env-1", 600_000);
    assert!(pool.cleanup_idle(601_000, 600_000).is_empty());
    assert_eq!(pool.connection_count(), 1);
}

fn record(credential: Option<CredentialRecord>) -> EnvironmentRecord {
    EnvironmentRecord {
        host: Some("10.0.0.1".to_string()),
        port: Some(22),
        user: Some("root".to_string()),
        transport_type: "ssh".to_string(),
        auth_type: Some("password".to_string()),
        private_key_path: None,
        credential,
    }
}

#[test]
fn test_fetch_environment_prefers_default_credential() {
    let cred = CredentialRecord {
        id: "c1".to_string(),
        username: "svcapp".to_string(),
        auth_type: "private_key".to_string(),
        private_key_path: Some("~/.ssh/svc".to_string()),
    };
    let info = fetch_environment("env-1", Some(record(Some(cred)))).unwrap();
    assert_eq!(info.user.as_deref(), Some("svcapp"));
    assert_eq!(info.auth_type.as_deref(), Some("private_key"));
    assert_eq!(info.private_key_path.as_deref(), Some("~/.ssh/svc"));
    assert_eq!(info.default_cred_id.as_deref(), Some("c1"));
    let transport = build_transport("env-1", &info).unwrap();
    assert_eq!(transport.user, "svcapp");
    assert_eq!(transport.cred_id_as_ref(), Some("c1"));
    assert_eq!((transport.host.as_str(), transport.port), ("10.0.0.1", 22));
}

#[test]
fn test_fetch_environment_falls_back_to_env_columns() {
    let info = fetch_environment("env-1", Some(record(None))).unwrap();
    assert_eq!(info.user.as_deref(), Some("root"));
    assert_eq!(info.auth_type.as_deref(), Some("password"));
    assert!(info.default_cred_id.is_none());
    assert_eq!(build_transport("env-1", &info).unwrap().cred_id_as_ref(), None);
}

fn opening(m: &mut TunnelManager, env_id: &str) -> TunnelOpening {
    let (o, action) = TunnelOpening::begin(m, env_id, "127.0.0.1", 8563);
    assert!(matches!(action, TunnelAction::LookUp));
    o
}

#[test]
fn test_open_unknown_environment_errors() {
    let mut m = TunnelManager::new();
    let mut o = opening(&mut m, "no-such-env");
    let env = fetch_environment("no-such-env", None);
    let r = o.step(&mut m, ReachEvent::Environment(env), 1);
    assert!(matches!(r, TunnelAction::Fail(TunnelError::EnvironmentNotFound(_))));
    assert_eq!(m.tunnel_count(), 0);
}

#[test]
fn test_open_db_error_maps_to_db_error() {
    let mut m = TunnelManager::new();
    let mut o = opening(&mut m, "any-env");
    let failed = Err(PoolError::Connection("closed".to_string()));
    let r = o.step(&mut m, ReachEvent::Environment(failed), 1);
    assert!(matches!(r, TunnelAction::Fail(TunnelError::Db(_))), "expected Db error, got: {r:?}");
    let e = lookup_error(PoolError::Connection("closed".to_string()));
    assert_eq!(e.message(), "database error: connection error: closed");
}

#[test]
fn test_open_unsupported_transport_maps_to_config_error() {
    for kind in ["local", "k8s"] {
        let mut m = TunnelManager::new();
        let mut o = opening(&mut m, "env-d");
        let mut env = record(None);
        env.transport_type = kind.to_string();
        let env = fetch_environment("env-d", Some(env));
        let r = o.step(&mut m, ReachEvent::Environment(env), 1);
        assert!(matches!(r, TunnelAction::Fail(TunnelError::Config(_))), "expected Config error, got: {r:?}");
    }
    let e = config_error(PoolError::TransportNotImplemented("local".to_string()));
    assert_eq!(e.message(), "invalid transport config: transport not implemented: local");
}

#[test]
fn test_close_nonexistent_is_noop() {
    let mut m = TunnelManager::new();
    assert_eq!(m.close("env-1", "127.0.0.1", 8563), None);
    assert_eq!(m.tunnel_count(), 0);
}

#[test]
fn test_open_connection_failure_leaves_no_entry() {
    let mut m = TunnelManager::new();
    let mut o = opening(&mut m, "env-x");
    let mut env = record(None);
    (env.host, env.port, env.user) = (Some("127.0.0.1".to_string()), Some(1), Some("u".to_string()));
    let env = fetch_environment("env-x", Some(env));
    let TunnelAction::Connect(to) = o.step(&mut m, ReachEvent::Environment(env), 1) else {
        panic!("expected to connect")
    };
    let refused = to.auth_secret(None).map(|_| ());
    assert!(refused.is_err());
    let r = o.step(&mut m, ReachEvent::Connected(refused), 1);
    assert!(matches!(r, TunnelAction::Fail(TunnelError::Connection(_))));
    assert_eq!(m.tunnel_count(), 0, "failed open must not leave a map entry");
}

#[test]
fn a_tunnel_is_opened_in_steps() {
    let mut m = TunnelManager::new();
    let mut first = opening(&mut m, "env-1");
    let mut second = opening(&mut m, "env-1");
    for (o, n, port) in [(&mut first, 1, 40000), (&mut second, 2, 40001)] {
        let env = fetch_environment("env-1", Some(record(None)));
        assert!(matches!(o.step(&mut m, ReachEvent::Environment(env), n), TunnelAction::Connect(_)));
        assert!(matches!(o.step(&mut m, ReachEvent::Connected(Ok(())), n), TunnelAction::Listen));
        match o.step(&mut m, ReachEvent::Listening(Ok(port)), n) {
            TunnelAction::Opened { lease, discard } => {
                assert_eq!(lease.local_port, 40000);
                assert_eq!(discard, n == 2);
            }
            other => panic!("expected a tunnel, got {other:?}"),
        }
    }
    assert_eq!(m.tunnel_count(), 1);
    let (_, again) = TunnelOpening::begin(&mut m, "env-1", "127.0.0.1", 8563);
    assert!(matches!(again, TunnelAction::Opened { lease, discard: false } if lease.local_port == 40000));
    let mut third = opening(&mut m, "env-2");
    let env = fetch_environment("env-2", Some(record(None)));
    third.step(&mut m, ReachEvent::Environment(env), 3);
    third.step(&mut m, ReachEvent::Connected(Ok(())), 3);
    let r = third.step(&mut m, ReachEvent::Listening(Err("in use".to_string())), 3);
    assert!(matches!(r, TunnelAction::Fail(e) if e.message() == "local listen failed: in use"));
    assert_eq!(m.tunnel_count(), 1);
}

#[test]
fn test_mark_failed_nonexistent_key_is_noop() {
    let mut m = TunnelManager::new();
    assert!(!m.mark_failed("env-1", "127.0.0.1", 8563, 1));
    assert_eq!(m.tunnel_count(), 0);
}

#[test]
fn a_tunnel_is_shared_until_its_last_user_leaves() {
    let mut m = TunnelManager::new();
    let s = m.settle("env-1", "127.0.0.1", 8563, 40000, 1);
    assert!(!s.discard);
    assert_eq!(m.open("env-1", "127.0.0.1", 8563).unwrap().local_port, 40000);
    let late = m.settle("env-1", "127.0.0.1", 8563, 40001, 2);
    assert!(late.discard);
    assert_eq!(late.lease.local_port, 40000);
    assert_eq!(m.close("env-1", "127.0.0.1", 8563), None);
    assert_eq!(m.close("env-1", "127.0.0.1", 8563), None);
    assert_eq!(m.close("env-1", "127.0.0.1", 8563), Some(1));
    assert_eq!(m.tunnel_count(), 0);
    m.settle("env-1", "h", 1, 40000, 1);
    m.settle("env-2", "h", 1, 40001, 2);
    assert_eq!(m.close_all_for_env("env-1"), vec![1]);
    assert_eq!(m.tunnel_count(), 1);
    assert!(!m.mark_failed("env-2", "h", 1, 9));
    assert!(m.mark_failed("env-2", "h", 1, 2));
}
