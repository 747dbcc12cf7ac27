use friday::app::env_credentials::EnvCredentialRow;
use friday::arthas::attach::{
    arthas_properties_content, attach_command, check_user_command, find_free_port_command,
    generate_token, parse_free_port, parse_user_check, port_probe_command, run_with_timeout,
    stop_command, write_properties_command,
};
use friday::arthas::attach_run::{
    attach_arthas, build_temp_transport, temp_connect_error, AttachAction, AttachEvent,
    AttachRequest, AttachRun, AttachStage,
};
use friday::arthas::bridge::{
    build_delete_command, build_post_command, delete_reply, parse_curl_output, post_reply,
    sse_data_lines_to_json, BridgeError, ExecHttpBridge, PostReply,
};
use friday::arthas::manager::{
    is_reapable, ArthasConfig, ArthasManager, ArthasPhase, AttachResult, AttachedSession,
    CallOutcome, ManagerError, OpenSignal, OpenStep, QueryResult,
};
use friday::exec::channel::{ExecOutput, RunOutcome};
use friday::exec::pool::EnvironmentInfo;
use friday::exec::ssh::SshAuth;
use rmcp::model::ServerJsonRpcMessage;

#[test]
fn test_arthas_properties_content() {
    let content = arthas_properties_content(18563, "abc123");
    assert!(content.contains("arthas.mcpEndpoint=/mcp\n"));
    assert!(content.contains("arthas.telnetPort=-1\n"));
    assert!(content.contains("arthas.httpPort=18563\n"));
    assert!(content.contains("arthas.password=abc123\n"));
    assert!(!content.contains('\''));
    assert!(!content.contains('$'));
}

#[test]
fn test_check_user_command() {
    assert_eq!(check_user_command(123), "ps -o user= -p 123 2>/dev/null; echo '---'; id -un");
}

#[test]
fn test_parse_user_check() {
    let (jvm, ssh) = parse_user_check("svcapp\n---\nopc\n").unwrap();
    assert_eq!(jvm, "svcapp");
    assert_eq!(ssh, "opc");
    let (jvm, ssh) = parse_user_check("  svcapp \n---\n opc \n").unwrap();
    assert_eq!(jvm, "svcapp");
    assert_eq!(ssh, "opc");
}

#[test]
fn test_parse_user_check_pid_gone() {
    assert!(parse_user_check("\n---\nopc\n").is_err());
}

#[test]
fn test_find_free_port_command_and_parse() {
    let cmd = find_free_port_command(18563, 3);
    assert!(cmd.contains("seq 18563 18565"));
    assert_eq!(parse_free_port("18563\n").unwrap(), 18563);
    assert!(parse_free_port("none\n").is_err());
}

#[test]
fn test_port_probe_command() {
    assert!(port_probe_command(8563).contains("/dev/tcp/127.0.0.1/8563"));
}

#[test]
fn test_attach_command() {
    let cmd = attach_command("/tmp/friday-tools/jdk-21/bin/java", "/tmp/friday-tools/arthas-4.3.5", 123);
    assert!(cmd.contains("cd /tmp/friday-tools/arthas-4.3.5"));
    assert!(cmd.contains("nohup /tmp/friday-tools/jdk-21/bin/java -jar arthas-boot.jar --pid 123"));
    assert!(cmd.contains("< /dev/null"));
    assert!(cmd.contains("&"));
    assert!(cmd.contains(">> /tmp/arthas-friday-123.log 2>&1"));
    assert!(!cmd.contains("{home}/arthas-attach-"));
}

#[test]
fn test_write_properties_command_quotes_content() {
    let content = arthas_properties_content(18563, "tok123");
    let cmd = write_properties_command("/tmp/friday-tools/arthas-4.3.5", &content);
    assert!(cmd.starts_with("printf '%s' 'arthas."));
    assert!(cmd.contains("> /tmp/friday-tools/arthas-4.3.5/arthas.properties"));
    assert!(cmd.contains("chmod 644 /tmp/friday-tools/arthas-4.3.5/arthas.properties"));
}

#[test]
fn test_stop_command_contains_auth_and_payload() {
    let cmd = stop_command(18563, "tok123");
    assert!(cmd.contains("Authorization: Bearer tok123"));
    assert!(cmd.contains("http://127.0.0.1:18563/api"));
    assert!(cmd.contains("\"command\":\"stop\""));
}

#[test]
fn test_generate_token_charset() {
    for _ in 0..10 {
        let t = generate_token();
        assert_eq!(t.len(), 32);
        assert!(t.chars().all(|c| c.is_ascii_alphanumeric()));
    }
}

fn server_response_json() -> String {
    let msg = ServerJsonRpcMessage::response(
        rmcp::model::ServerResult::ListToolsResult(rmcp::model::ListToolsResult::default()),
        rmcp::model::NumberOrString::Number(1),
    );
    serde_json::to_string(&msg).unwrap()
}

#[test]
fn test_build_post_command_full_shape() {
    let cmd = build_post_command(
        "http://127.0.0.1:18563/mcp",
        Some("tok123"),
        Some("sess-9"),
        r#"{"jsonrpc":"2.0"}"#,
        60,
    );
    assert!(cmd.starts_with("curl -s -S -m 60 -D - -X POST "), "cmd: {cmd}");
    assert!(cmd.contains("-H 'Authorization: Bearer tok123'"), "cmd: {cmd}");
    assert!(cmd.contains("-H 'Content-Type: application/json'"), "cmd: {cmd}");
    assert!(cmd.contains("-H 'Accept: application/json, text/event-stream'"), "cmd: {cmd}");
    assert!(cmd.contains("-H 'Expect:'"), "cmd: {cmd}");
    assert!(cmd.contains("-H 'mcp-session-id: sess-9'"), "cmd: {cmd}");
    assert!(cmd.contains(r#"--data '{"jsonrpc":"2.0"}'"#), "cmd: {cmd}");
    assert!(
        cmd.ends_with(r#"http://127.0.0.1:18563/mcp -w '\n%{http_code}'"#),
        "cmd: {cmd}"
    );
}

#[test]
fn test_build_post_command_quotes_body_and_omits_optional_headers() {
    let cmd = build_post_command("http://127.0.0.1:18563/mcp", None, None, r#"{"expr":"it's"}"#, 10);
    assert!(!cmd.contains("Authorization"), "cmd: {cmd}");
    assert!(!cmd.contains("mcp-session-id"), "cmd: {cmd}");
    assert!(cmd.contains(r#"--data '{"expr":"it'\''s"}'"#), "cmd: {cmd}");
    assert!(cmd.contains("-m 10 "), "cmd: {cmd}");
}

#[test]
fn test_build_delete_command_shape() {
    let cmd = build_delete_command("http://127.0.0.1:18563/mcp", Some("tok123"), "sess-9", 30);
    assert!(cmd.starts_with("curl -s -S -m 30 -D - -X DELETE "), "cmd: {cmd}");
    assert!(cmd.contains("-H 'Authorization: Bearer tok123'"), "cmd: {cmd}");
    assert!(cmd.contains("-H 'mcp-session-id: sess-9'"), "cmd: {cmd}");
    assert!(cmd.ends_with(r#"http://127.0.0.1:18563/mcp -w '\n%{http_code}'"#), "cmd: {cmd}");
}

#[test]
fn test_parse_curl_output_headers_body_code() {
    let stdout = format!(
        "HTTP/1.1 200 OK\r\nContent-Type: application/json\r\nmcp-session-id: abc-123\r\n\r\n{}\n200",
        server_response_json()
    );
    let (code, session, body) = parse_curl_output(&stdout).unwrap();
    assert_eq!(code, 200);
    assert_eq!(session.as_deref(), Some("abc-123"));
    assert_eq!(body, server_response_json());
}

#[test]
fn test_parse_curl_output_header_case_insensitive() {
    let stdout = "HTTP/1.1 200\r\nMCP-SESSION-ID: xyz\r\n\r\n{\"jsonrpc\":\"2.0\"}\n200";
    let (code, session, _) = parse_curl_output(stdout).unwrap();
    assert_eq!(code, 200);
    assert_eq!(session.as_deref(), Some("xyz"));
}

#[test]
fn test_parse_curl_output_no_headers() {
    let stdout = format!("{}\n200", server_response_json());
    let (code, session, body) = parse_curl_output(&stdout).unwrap();
    assert_eq!(code, 200);
    assert_eq!(session, None);
    assert_eq!(body, server_response_json());
}

#[test]
fn test_parse_curl_output_skips_100_continue_interim_block() {
    let stdout = format!(
        "HTTP/1.1 100 Continue\r\n\r\nHTTP/1.1 200 OK\r\nmcp-session-id: abc\r\n\r\n{}\n200",
        server_response_json()
    );
    let (code, session, body) = parse_curl_output(&stdout).unwrap();
    assert_eq!(code, 200);
    assert_eq!(session.as_deref(), Some("abc"));
    assert_eq!(body, server_response_json());
}

#[test]
fn test_parse_curl_output_empty_body_202() {
    let stdout = "HTTP/1.1 202 Accepted\r\n\r\n\n202";
    let (code, session, body) = parse_curl_output(stdout).unwrap();
    assert_eq!(code, 202);
    assert_eq!(session, None);
    assert_eq!(body, "");
}

#[test]
fn test_parse_curl_output_rejects_missing_code() {
    assert!(parse_curl_output("").is_err());
    assert!(parse_curl_output("garbage without code line").is_err());
}

#[test]
fn test_sse_data_lines_single_event() {
    let json = server_response_json();
    let body = format!("event: message\ndata: {json}\n\n");
    assert_eq!(sse_data_lines_to_json(&body).as_deref(), Some(json.as_str()));
}

#[test]
fn test_sse_data_lines_multiline_data_joined() {
    assert_eq!(sse_data_lines_to_json("data: {\"a\":\ndata: 1}").as_deref(), Some("{\"a\":\n1}"));
}

#[test]
fn test_sse_data_lines_no_space_after_colon() {
    assert_eq!(sse_data_lines_to_json("data:{\"x\":1}").as_deref(), Some("{\"x\":1}"));
}

#[test]
fn test_sse_data_lines_none_when_no_data() {
    assert_eq!(sse_data_lines_to_json("event: message\n"), None);
    assert_eq!(sse_data_lines_to_json(""), None);
}

fn output(stdout: &str, exit_code: i32) -> RunOutcome {
    RunOutcome::Output(ExecOutput { stdout: stdout.to_string(), stderr: String::new(), exit_code })
}

fn posted(stdout: &str) -> PostReply {
    let (code, session, body) = ExecHttpBridge::new(1, 30).exec_curl(output(stdout, 0)).unwrap();
    post_reply(code, session, &body)
}

#[test]
fn commands_are_written_exactly() {
    assert_eq!(
        stop_command(18563, "t"),
        "curl -s -m 10 -X POST -H 'Authorization: Bearer t' -H 'Content-Type: application/json' \
         -d '{\"action\":\"exec\",\"command\":\"stop\"}' http://127.0.0.1:18563/api \
         || wget -q -O /dev/null --header='Authorization: Bearer t' \
         --post-data='{\"action\":\"exec\",\"command\":\"stop\"}' http://127.0.0.1:18563/api \
         || true"
    );
    assert_eq!(
        find_free_port_command(18563, 10),
        "for p in $(seq 18563 18572); do \
         if (exec 3<>/dev/tcp/127.0.0.1/$p) 2>/dev/null; then exec 3>&- 3<&-; else echo $p; exit 0; fi; \
         done; echo none"
    );
    assert_eq!(
        port_probe_command(8563),
        "if (exec 3<>/dev/tcp/127.0.0.1/8563) 2>/dev/null; then exec 3>&- 3<&-; echo busy; else echo free; fi"
    );
    assert_eq!(
        attach_command("java", "/h", -1),
        "cd /h && nohup java -jar arthas-boot.jar --pid -1 < /dev/null >> /tmp/arthas-friday--1.log 2>&1 & echo attach-started"
    );
}

#[test]
fn what_the_machine_said_is_read_or_refused() {
    assert_eq!(
        parse_user_check("svcapp\n---\n").unwrap_err(),
        "无法确定当前 SSH 用户（id -un 无输出）"
    );
    assert_eq!(parse_user_check("").unwrap_err(), "目标进程不存在或已退出（ps 无属主输出）");
    assert_eq!(
        parse_user_check("banner\nsvcapp\n---\nmotd\nopc").unwrap(),
        ("svcapp".to_string(), "opc".to_string())
    );
    assert_eq!(
        parse_free_port("").unwrap_err(),
        "端口 18563~18572 均被占用，请减少同机并发 attach 的 JVM 数或稍后重试"
    );
    assert_eq!(parse_free_port("a\"b\n").unwrap_err(), "端口探测输出无法解析: \"a\\\"b\\n\"");
    assert_eq!(parse_free_port("\n 70000\n").unwrap_err(), "端口探测输出无法解析: \"\\n 70000\\n\"");
    assert_eq!(parse_free_port("\n 65535 \n1").unwrap(), 65535);
}

#[test]
fn remote_commands_fail_in_words() {
    assert_eq!(
        run_with_timeout("ls", 15, RunOutcome::TimedOut).unwrap_err(),
        "远端命令执行超时（15s）: ls"
    );
    assert_eq!(
        run_with_timeout("ls", 15, RunOutcome::Failed("x".to_string())).unwrap_err(),
        "远端命令执行失败: x（命令: ls）"
    );
    assert_eq!(run_with_timeout("ls", 15, output("a", 3)).unwrap().exit_code, 3);
}

#[test]
fn test_post_message_json_response() {
    let json = server_response_json();
    match posted(&format!("HTTP/1.1 200 OK\r\nmcp-session-id: sess-9\r\n\r\n{json}\n200")) {
        PostReply::Json(text, session) => {
            assert_eq!(session.as_deref(), Some("sess-9"));
            assert_eq!(text, json);
        }
        other => panic!("expected Json, got {other:?}"),
    }
    let sent_body = "{\"jsonrpc\":\"2.0\",\"method\":\"notifications/initialized\"}";
    let cmd =
        build_post_command("http://127.0.0.1:18563/mcp", Some("tok123"), Some("sess-old"), sent_body, 30);
    assert!(cmd.contains("-X POST"), "cmd: {cmd}");
    assert!(cmd.contains("-H 'Authorization: Bearer tok123'"), "cmd: {cmd}");
    assert!(cmd.contains("-H 'mcp-session-id: sess-old'"), "cmd: {cmd}");
    assert!(cmd.contains(&format!("--data '{sent_body}'")), "cmd: {cmd}");
}

#[test]
fn test_post_message_sse_response_single_event() {
    let json = server_response_json();
    let stdout = format!(
        "HTTP/1.1 200 OK\r\nContent-Type: text/event-stream\r\nmcp-session-id: sess-1\r\n\r\nevent: message\ndata: {json}\n\n200"
    );
    match posted(&stdout) {
        PostReply::Sse(text, session) => {
            assert_eq!(session.as_deref(), Some("sess-1"));
            assert_eq!(text, json);
        }
        other => panic!("expected Sse, got {other:?}"),
    }
}

#[test]
fn test_post_message_202_accepted() {
    assert!(matches!(posted("HTTP/1.1 202 Accepted\r\n\r\n\n202"), PostReply::Accepted));
}

#[test]
fn test_post_message_401_unauthorized() {
    let stdout = "HTTP/1.1 401\r\nContent-Type: application/json\r\n\r\n{\"error\":\"unauthorized\"}\n401";
    match posted(stdout) {
        PostReply::Unexpected(e) => assert!(e.contains("HTTP 401"), "err: {e}"),
        other => panic!("expected a refusal, got {other:?}"),
    }
}

#[test]
fn test_post_message_non_2xx_error() {
    match posted("HTTP/1.1 500\r\n\r\nboom\n500") {
        PostReply::Unexpected(e) => assert_eq!(e, "HTTP 500: boom"),
        other => panic!("expected a refusal, got {other:?}"),
    }
}

#[test]
fn a_reply_that_is_no_message_is_shown_in_part() {
    match post_reply(200, None, &"x".repeat(201)) {
        PostReply::Unexpected(e) => {
            assert_eq!(e, format!("HTTP 200 无法识别的响应体: {}...", "x".repeat(200)))
        }
        other => panic!("expected a refusal, got {other:?}"),
    }
    match post_reply(200, None, &"x".repeat(200)) {
        PostReply::Unexpected(e) => {
            assert_eq!(e, format!("HTTP 200 无法识别的响应体: {}", "x".repeat(200)))
        }
        other => panic!("expected a refusal, got {other:?}"),
    }
}

#[test]
fn test_post_message_exec_failure_maps_to_client_error() {
    let e = ExecHttpBridge::new(1, 30).exec_curl(RunOutcome::Failed("ssh broken".to_string())).unwrap_err();
    assert!(matches!(e, BridgeError::Exec(_)));
    assert_eq!(e.message(), "ssh exec 失败: ssh exec 失败: ssh broken");
}

#[test]
fn test_post_message_timeout_maps_to_client_error() {
    let e = ExecHttpBridge::new(1, 0).exec_curl(RunOutcome::TimedOut).unwrap_err();
    assert!(matches!(e, BridgeError::Exec(_)));
    assert_eq!(e.message(), "ssh exec 失败: exec 超时（0s）");
}

#[test]
fn test_post_message_curl_exit_nonzero_maps_to_client_error() {
    let e = ExecHttpBridge::new(1, 30).exec_curl(output("", 7)).unwrap_err();
    assert!(matches!(e, BridgeError::Curl(_)));
    assert_eq!(e.message(), "目标机 curl 执行失败: curl 退出码 7（目标 curl 不可用或连接失败）: ");
}

#[test]
fn a_status_line_that_is_none_is_shown() {
    assert_eq!(
        parse_curl_output("garbage without code line").unwrap_err(),
        "curl 输出末行不是 http code: \"garbage without code line\""
    );
    assert_eq!(parse_curl_output("\r\n").unwrap_err(), "curl 输出为空（无 http code）");
    assert_eq!(parse_curl_output("a\r\nb\n204\r\n").unwrap(), (204, None, "a\r\nb".to_string()));
}

#[test]
fn test_delete_session_ok() {
    let reply = ExecHttpBridge::new(1, 30).exec_curl(output("HTTP/1.1 200 OK\r\n\r\n\n200", 0)).unwrap();
    assert!(delete_reply(reply.0, &reply.2).is_ok());
    assert!(delete_reply(299, "").is_ok());
    let cmd = build_delete_command("http://127.0.0.1:18563/mcp", Some("tok123"), "sess-9", 30);
    assert!(cmd.contains("-X DELETE"), "cmd: {cmd}");
    assert!(cmd.contains("-H 'mcp-session-id: sess-9'"), "cmd: {cmd}");
    assert!(cmd.contains("-H 'Authorization: Bearer tok123'"), "cmd: {cmd}");
}

#[test]
fn test_delete_session_404_errors() {
    let reply = ExecHttpBridge::new(1, 30).exec_curl(output("HTTP/1.1 404\r\n\r\n\n404", 0)).unwrap();
    assert_eq!(delete_reply(reply.0, &reply.2).unwrap_err(), "HTTP 404: ");
    assert_eq!(delete_reply(404, "gone").unwrap_err(), "HTTP 404: gone");
    assert_eq!(delete_reply(300, "").unwrap_err(), "HTTP 300: ");
}

fn request() -> AttachRequest {
    AttachRequest {
        session_id: "sess-1".to_string(),
        env_id: "env-1".to_string(),
        pid: 123,
        java_bin: "java".to_string(),
    }
}

fn until_users(run: &mut AttachRun) {
    run.step(AttachEvent::Channel(Ok(())));
    run.step(AttachEvent::Setting(Ok("https://example.com".to_string())));
    run.step(AttachEvent::Package(Ok("/tmp/arthas".to_string())));
    let step = run.step(AttachEvent::CachedJdk(Some("/tmp/jdk".to_string())));
    match step.action {
        AttachAction::Run { command, secs, temporary, .. } => {
            assert_eq!(command, check_user_command(123));
            assert_eq!(secs, 15);
            assert!(!temporary);
        }
        other => panic!("expected a command, got {other:?}"),
    }
}

#[test]
fn arthas_is_put_into_a_process_of_the_same_user() {
    let (mut run, first) = attach_arthas(&request());
    assert!(matches!(first, AttachAction::GetChannel { env_id } if env_id == request().env_id));
    assert_eq!(run.token.len(), 32);
    let token = run.token.clone();
    until_users(&mut run);
    let step = run.step(AttachEvent::Command(output("opc\n---\nopc\n", 0)));
    assert_eq!(step.progress.unwrap().0, "allocate_port");
    let step = run.step(AttachEvent::Command(output("18564\n", 0)));
    assert_eq!(step.progress.unwrap().1, "写入 arthas.properties（httpPort=18564）");
    match step.action {
        AttachAction::Run { command, .. } => assert_eq!(
            command,
            write_properties_command("/tmp/arthas", &arthas_properties_content(18564, &token))
        ),
        other => panic!("expected a command, got {other:?}"),
    }
    let step = run.step(AttachEvent::Command(output("", 0)));
    match step.action {
        AttachAction::Run { command, temporary, .. } => {
            assert_eq!(command, attach_command("/tmp/jdk/bin/java", "/tmp/arthas", 123));
            assert!(!temporary);
        }
        other => panic!("expected a command, got {other:?}"),
    }
    let step = run.step(AttachEvent::Command(output("attach-started\n", 0)));
    assert!(!step.leave_temporary);
    let step = run.step(AttachEvent::Probe { outcome: output("free\n", 0), late: false });
    assert!(matches!(step.action, AttachAction::Run { wait_secs: 3, .. }));
    let step = run.step(AttachEvent::Probe { outcome: output("busy\n", 0), late: true });
    assert!(matches!(step.action, AttachAction::OpenTunnel { port: 18564, .. }));
    let step = run.step(AttachEvent::Tunnel(Ok(40000)));
    match step.action {
        AttachAction::Connect { url, token: told } => {
            assert_eq!(url, "http://127.0.0.1:40000/mcp");
            assert_eq!(told, token);
        }
        other => panic!("expected to speak with arthas, got {other:?}"),
    }
    let step = run.step(AttachEvent::Handshake(Ok(())));
    assert!(matches!(step.action, AttachAction::Ready { port: 18564, local_port: 40000 }));
    assert_eq!(run.stage, AttachStage::Over);
}

#[test]
fn a_process_of_another_user_needs_a_credential() {
    let (mut run, _) = attach_arthas(&request());
    until_users(&mut run);
    let step = run.step(AttachEvent::Command(output("svcapp\n---\nopc\n", 0)));
    assert!(matches!(step.action, AttachAction::FindCredential { user, .. } if user == "svcapp"));
    let step = run.step(AttachEvent::Credential(false));
    match step.action {
        AttachAction::Fail { error, close_tunnel } => {
            assert_eq!(
                error,
                "目标 JVM 运行用户为 svcapp，当前 SSH 用户为 opc 且未录入 svcapp 的凭证。\
                 请让用户在环境管理中为该环境添加用户 svcapp 的凭证后重试"
            );
            assert_eq!(close_tunnel, None);
        }
        other => panic!("expected a failure, got {other:?}"),
    }

    let (mut run, _) = attach_arthas(&request());
    until_users(&mut run);
    run.step(AttachEvent::Command(output("svcapp\n---\nopc\n", 0)));
    run.step(AttachEvent::Credential(true));
    run.step(AttachEvent::Temporary(Ok(())));
    run.step(AttachEvent::Command(output("18563", 0)));
    let step = run.step(AttachEvent::Command(output("", 0)));
    assert!(matches!(step.action, AttachAction::Run { temporary: true, .. }));
    let step = run.step(AttachEvent::Command(output("", 0)));
    assert!(step.leave_temporary);
}

fn with_temporary() -> AttachRun {
    let (mut run, _) = attach_arthas(&request());
    until_users(&mut run);
    run.step(AttachEvent::Command(output("svcapp\n---\nopc\n", 0)));
    run.step(AttachEvent::Credential(true));
    run.step(AttachEvent::Temporary(Ok(())));
    run
}

#[test]
fn a_connection_of_its_own_is_left_whatever_happens() {
    // The command that starts arthas fails.
    let mut run = with_temporary();
    assert!(!run.step(AttachEvent::Command(output("18563", 0))).leave_temporary);
    let step = run.step(AttachEvent::Command(output("", 0)));
    assert!(matches!(step.action, AttachAction::Run { temporary: true, .. }));
    let step = run.step(AttachEvent::Command(output("", 1)));
    assert!(matches!(step.action, AttachAction::Fail { .. }));
    assert!(step.leave_temporary);
    assert!(!run.step(AttachEvent::Command(output("", 1))).leave_temporary);

    // There is no port, or the configuration cannot be written.
    let mut run = with_temporary();
    let step = run.step(AttachEvent::Command(output("", 0)));
    assert!(matches!(step.action, AttachAction::Fail { .. }) && step.leave_temporary);
    let mut run = with_temporary();
    run.step(AttachEvent::Command(output("18563", 0)));
    let step = run.step(AttachEvent::Command(RunOutcome::TimedOut));
    assert!(matches!(step.action, AttachAction::Fail { .. }) && step.leave_temporary);

    // Afterwards it is left already.
    let mut run = with_temporary();
    run.step(AttachEvent::Command(output("18563", 0)));
    run.step(AttachEvent::Command(output("", 0)));
    assert!(run.step(AttachEvent::Command(output("", 0))).leave_temporary);
    let step = run.step(AttachEvent::Probe { outcome: output("free", 0), late: true });
    assert!(matches!(step.action, AttachAction::Fail { .. }) && !step.leave_temporary);
}

#[test]
fn root_may_reach_every_process() {
    let (mut run, _) = attach_arthas(&request());
    until_users(&mut run);
    let step = run.step(AttachEvent::Command(output("svcapp\n---\nroot\n", 0)));
    assert_eq!(step.progress.unwrap().0, "allocate_port");
    assert!(!run.temporary);
}

#[test]
fn java_is_looked_for_in_three_places() {
    let (mut run, _) = attach_arthas(&request());
    run.step(AttachEvent::Channel(Ok(())));
    run.step(AttachEvent::Setting(Ok("u".to_string())));
    run.step(AttachEvent::Package(Ok("/h".to_string())));
    let step = run.step(AttachEvent::CachedJdk(None));
    assert!(matches!(step.action, AttachAction::Run { command, .. } if command == "command -v java"));
    let step = run.step(AttachEvent::PathJava { outcome: output("/usr/bin/ja va\n", 0), valid: false });
    match step.action {
        AttachAction::EnsureJdk { env_id, java_bin } => {
            assert_eq!((env_id, java_bin), (request().env_id, request().java_bin));
        }
        other => panic!("expected to install a JDK, got {other:?}"),
    }
    let step = run.step(AttachEvent::Jdk(Err("no".to_string())));
    match step.action {
        AttachAction::Fail { error, .. } => assert_eq!(
            error,
            "目标机找不到可用的 java（no）。可用 run_command 确认目标服务的 java 路径后，用 java_bin 参数重试 arthas_open"
        ),
        other => panic!("expected a failure, got {other:?}"),
    }
    let (mut run, _) = attach_arthas(&request());
    run.step(AttachEvent::Channel(Ok(())));
    run.step(AttachEvent::Setting(Ok("u".to_string())));
    run.step(AttachEvent::Package(Ok("/h".to_string())));
    run.step(AttachEvent::CachedJdk(None));
    run.step(AttachEvent::PathJava { outcome: output(" /usr/bin/java\n", 0), valid: true });
    assert_eq!(run.java, "/usr/bin/java");
    assert_eq!(run.stage, AttachStage::Users);
}

fn failure(stage: AttachStage, event: AttachEvent) -> (String, Option<u16>) {
    let mut run = AttachRun::start(&request(), "t".to_string());
    run.stage = stage;
    run.port = 18563;
    match run.step(event).action {
        AttachAction::Fail { error, close_tunnel } => (error, close_tunnel),
        other => panic!("expected a failure, got {other:?}"),
    }
}

#[test]
fn every_step_may_fail() {
    let x = || Err("x".to_string());
    assert_eq!(failure(AttachStage::Channel, AttachEvent::Channel(Err("x".to_string()))).0, "SSH 连接失败: x");
    assert_eq!(failure(AttachStage::Setting, AttachEvent::Setting(x())).0, "读取 Artifactory 设置失败: x");
    assert_eq!(
        failure(AttachStage::Setting, AttachEvent::Setting(Ok(" ".to_string()))).0,
        "Artifactory 地址未配置，请在设置中配置后重试"
    );
    assert_eq!(failure(AttachStage::Package, AttachEvent::Package(x())).0, "arthas 工具包下发失败: x");
    assert_eq!(
        failure(AttachStage::Users, AttachEvent::Command(output("", 0))).0,
        "用户对齐检查失败: 目标进程不存在或已退出（ps 无属主输出）; stderr: "
    );
    assert_eq!(
        failure(AttachStage::Config, AttachEvent::Command(output("", 2))).0,
        "写入 arthas.properties 失败（exit 2）: "
    );
    assert_eq!(
        failure(AttachStage::Attach, AttachEvent::Command(output("", 1))).0,
        "arthas attach 命令失败（exit 1）: "
    );
    assert_eq!(
        failure(AttachStage::Probe, AttachEvent::Probe { outcome: output("free", 0), late: true }).0,
        "arthas HTTP 服务在 60s 内未就绪（端口 18563）。可能原因：attach 失败（用户权限/attach 机制被禁用）、\
         目标 JVM 拒绝 attach。可用 run_command 查看 /tmp/arthas-friday-<pid>.log 日志"
    );
    assert_eq!(
        failure(AttachStage::Tunnel, AttachEvent::Tunnel(Err("x".to_string()))),
        ("SSH 隧道建立失败: x".to_string(), None)
    );
    assert_eq!(
        failure(AttachStage::Handshake, AttachEvent::Handshake(Err("x".to_string()))),
        ("arthas MCP 握手失败: x".to_string(), Some(18563))
    );
}

fn env() -> EnvironmentInfo {
    EnvironmentInfo {
        transport_type: "ssh".to_string(),
        host: Some("10.0.0.1".to_string()),
        port: None,
        user: None,
        auth_type: None,
        private_key_path: None,
        default_cred_id: None,
    }
}

fn cred(auth_type: &str) -> EnvCredentialRow {
    EnvCredentialRow {
        id: "c1".to_string(),
        environment_id: "env-1".to_string(),
        username: "svcapp".to_string(),
        auth_type: auth_type.to_string(),
        private_key_path: Some("/k".to_string()),
        is_default: false,
        created_at: "t".to_string(),
    }
}

#[test]
fn a_connection_as_another_user_has_its_own_secret() {
    let t = build_temp_transport("env-1", Ok(env()), &cred("password"), Ok(Some("pw".to_string()))).unwrap();
    assert_eq!((t.host.as_str(), t.port, t.user.as_str()), ("10.0.0.1", 22, "svcapp"));
    assert_eq!(t.secret_override.as_deref(), Some("pw"));
    for secret in [None, Some(" ".to_string())] {
        assert_eq!(
            build_temp_transport("env-1", Ok(env()), &cred("password"), Ok(secret)).unwrap_err(),
            "用户 svcapp 的凭证未存储密码，请在环境管理中补录该用户的密码后重试"
        );
    }
    let t = build_temp_transport("env-1", Ok(env()), &cred("private_key"), Ok(None)).unwrap();
    assert!(matches!(t.auth, SshAuth::PrivateKey { key_path } if key_path == "/k"));
    assert_eq!(
        build_temp_transport("env-1", Ok(env()), &cred("kerberos"), Ok(None)).unwrap_err(),
        "用户 svcapp 的认证配置无效"
    );
    assert_eq!(
        build_temp_transport("env-1", Err("x".to_string()), &cred("password"), Ok(None)).unwrap_err(),
        "环境查询失败: x"
    );
    assert_eq!(
        build_temp_transport("env-1", Ok(env()), &cred("password"), Err("x".to_string())).unwrap_err(),
        "读取用户 svcapp 密钥失败: x"
    );
    assert_eq!(temp_connect_error("svcapp", "x"), "以用户 svcapp 建立连接失败: x");
}

fn attached(n: u64, port: u16) -> AttachResult {
    AttachResult::Attached(AttachedSession { client: n, stop_handle: 100 + n, remote_port: port })
}

fn start(m: &mut ArthasManager, env: &str, pid: i64, now: u64) -> (u64, Vec<u64>) {
    match m.open(env, pid, now) {
        OpenStep::Start { task_id, stops } => (task_id, stops),
        other => panic!("expected a new session, got {other:?}"),
    }
}

fn ready(m: &mut ArthasManager, env: &str, pid: i64, now: u64) -> u64 {
    let (task, _) = start(m, env, pid, now);
    assert!(m.run_attach_task(env, pid, task, attached(task, 18563), now).is_none());
    task
}

fn answered(text: &str) -> QueryResult {
    QueryResult::Answered(CallOutcome { text: text.to_string(), is_error: false })
}

#[test]
fn test_open_then_query_roundtrip() {
    let mut m = ArthasManager::new();
    let task = ready(&mut m, "env-1", 123, 0);
    assert_eq!(m.query("env-1", 123, 1).unwrap(), task);
    assert_eq!(m.sessions[0].inflight, 1);
    let (r, stop) = m.finish_query("env-1", 123, 2, 10, answered("ok"));
    let out = r.unwrap();
    assert_eq!(out.text, "ok");
    assert!(!out.is_error);
    assert_eq!(stop, None);
    assert_eq!(m.sessions[0].inflight, 0);
}

#[test]
fn test_open_dedupes_concurrent_opens() {
    let mut m = ArthasManager::new();
    let (task, _) = start(&mut m, "env-1", 123, 0);
    assert!(matches!(m.open("env-1", 123, 1), OpenStep::Wait));
    m.run_attach_task("env-1", 123, task, attached(1, 18563), 2);
    match m.open("env-1", 123, 3) {
        OpenStep::Reused(o) => assert_eq!(o.summary, "arthas 已就绪（复用现有 attach）"),
        other => panic!("expected the session that is there, got {other:?}"),
    }
    assert_eq!(m.sessions.len(), 1);
}

#[test]
fn test_query_without_open_errors() {
    let mut m = ArthasManager::new();
    assert!(matches!(m.query("env-1", 123, 0), Err(ManagerError::NotOpen { attaching: false })));
}

#[test]
fn test_query_while_attaching_reports_attaching() {
    let mut m = ArthasManager::new();
    start(&mut m, "env-1", 123, 0);
    assert!(matches!(m.query("env-1", 123, 0), Err(ManagerError::NotOpen { attaching: true })));
}

#[test]
fn test_transport_error_invalidates_session() {
    let mut m = ArthasManager::new();
    let task = ready(&mut m, "env-1", 123, 0);
    m.query("env-1", 123, 1).unwrap();
    let failed = QueryResult::TransportFailed("connection reset".to_string());
    let (r, stop) = m.finish_query("env-1", 123, 2, 10, failed);
    assert!(matches!(r, Err(ManagerError::Transport(e)) if e == "connection reset"));
    assert_eq!(stop, Some(100 + task));
    assert!(matches!(m.query("env-1", 123, 3), Err(ManagerError::NotOpen { attaching: false })));
}

#[test]
fn test_open_failure_then_retry_succeeds() {
    let mut m = ArthasManager::new();
    let (task, _) = start(&mut m, "env-1", 123, 0);
    m.run_attach_task("env-1", 123, task, AttachResult::Failed(ManagerError::Attach("x".to_string())), 1);
    let phase = m.sessions[0].phase.clone();
    match m.wait_open("env-1", 123, 30, OpenSignal::Phase(phase)) {
        Some(Err(e)) => assert_eq!(e.message(), "attach 失败：x"),
        other => panic!("expected the failure, got {other:?}"),
    }
    assert!(m.sessions.is_empty());
    ready(&mut m, "env-1", 123, 2);
    let done = m.wait_open("env-1", 123, 30, OpenSignal::Phase(ArthasPhase::Ready));
    assert!(matches!(done, Some(Ok(o)) if o.summary == "arthas 已就绪"));
}

#[test]
fn a_session_that_failed_does_not_stand_in_the_way() {
    let mut m = ArthasManager::new();
    let (first, _) = start(&mut m, "env-1", 123, 0);
    assert!(matches!(
        m.wait_open("env-1", 123, 1, OpenSignal::TimedOut),
        Some(Err(ManagerError::Timeout(1)))
    ));
    let error = ManagerError::Attach("x".to_string());
    m.run_attach_task("env-1", 123, first, AttachResult::Failed(error), 1);
    let (second, _) = start(&mut m, "env-1", 123, 2);
    assert_ne!(first, second);
    assert_eq!(m.sessions.len(), 1);
    // Who still waits for the first is told its error and leaves the second alone.
    let old = ArthasPhase::Failed { error: ManagerError::Attach("x".to_string()) };
    assert!(matches!(m.wait_open("env-1", 123, 30, OpenSignal::Phase(old)), Some(Err(_))));
    assert_eq!(m.sessions.len(), 1);
    assert!(matches!(m.open("env-1", 123, 3), OpenStep::Wait));
}

#[test]
fn many_opens_attach_once() {
    let mut m = ArthasManager::new();
    let task = ready(&mut m, "env-1", 123, 0);
    for now in 1..5 {
        assert!(matches!(m.open("env-1", 123, now), OpenStep::Reused(o) if o.pid == 123));
    }
    let (other, _) = start(&mut m, "env-1", 124, 9);
    assert_ne!(task, other);
}

#[test]
fn those_who_wait_may_wait_in_vain() {
    let mut m = ArthasManager::new();
    start(&mut m, "env-1", 123, 0);
    assert!(m.wait_open("env-1", 123, 30, OpenSignal::Phase(ArthasPhase::Attaching)).is_none());
    match m.wait_open("env-1", 123, 30, OpenSignal::TimedOut) {
        Some(Err(e)) => assert_eq!(e.message(), "arthas 调用超时（30s）"),
        other => panic!("expected a timeout, got {other:?}"),
    }
    match m.wait_open("env-1", 123, 30, OpenSignal::Gone) {
        Some(Err(e)) => assert_eq!(e.message(), "attach 失败：attach 会话已被回收，请重试 arthas_open"),
        other => panic!("expected a failure, got {other:?}"),
    }
    assert_eq!(m.sessions.len(), 1);
}

#[test]
fn test_close_stops_and_is_idempotent() {
    let mut m = ArthasManager::new();
    let task = ready(&mut m, "env-1", 123, 0);
    let gone = m.close("env-1", 123).unwrap();
    assert_eq!(gone.stop_handle, Some(100 + task));
    assert_eq!(gone.client, Some(task));
    assert!(m.close("env-1", 123).is_none());
}

#[test]
fn test_lru_eviction_at_capacity() {
    let mut m = ArthasManager::new();
    let first = ready(&mut m, "env-1", 1, 0);
    ready(&mut m, "env-1", 2, 20);
    ready(&mut m, "env-1", 3, 40);
    let (task, stops) = start(&mut m, "env-1", 4, 41);
    assert_eq!(stops, vec![100 + first]);
    assert!(m.run_attach_task("env-1", 4, task, attached(task, 18563), 42).is_none());
    assert_eq!(m.sessions.len(), 3);
    assert!(matches!(m.query("env-1", 1, 50), Err(ManagerError::NotOpen { attaching: false })));
    for pid in 2..=4 {
        assert!(m.query("env-1", pid, 50).is_ok());
    }
}

#[test]
fn sessions_in_the_making_are_not_given_up() {
    let mut m = ArthasManager::new();
    for pid in 1..=3 {
        start(&mut m, "env-1", pid, pid as u64);
    }
    let (_, stops) = start(&mut m, "env-1", 4, 9);
    assert!(stops.is_empty());
    assert_eq!(m.sessions.len(), 4);
}

#[test]
fn test_idle_reaper_stops_session() {
    let mut m = ArthasManager::new();
    assert!(m.ensure_reaper());
    assert!(!m.ensure_reaper());
    let task = ready(&mut m, "env-1", 123, 0);
    assert!(m.reap(80, 80).is_empty());
    m.query("env-1", 123, 80).unwrap();
    assert!(m.reap(400, 80).is_empty());
    m.finish_query("env-1", 123, 400, 10, answered("ok"));
    assert!(!is_reapable(&m.sessions[0], 480, 80));
    assert_eq!(m.reap(481, 80), vec![100 + task]);
    assert!(matches!(m.query("env-1", 123, 482), Err(ManagerError::NotOpen { attaching: false })));
    let c = ArthasConfig::default();
    assert_eq!((c.idle_timeout, c.idle_tick), (900_000, 30_000));
}

#[test]
fn test_query_timeout_returns_timeout() {
    let mut m = ArthasManager::new();
    ready(&mut m, "env-1", 123, 0);
    m.query("env-1", 123, 1).unwrap();
    let (r, stop) = m.finish_query("env-1", 123, 2, 1, QueryResult::TimedOut);
    assert!(matches!(r, Err(ManagerError::Timeout(1))));
    assert_eq!(stop, None);
    assert_eq!(m.sessions.len(), 1);
}

#[test]
fn test_close_for_environment_removes_all() {
    let mut m = ArthasManager::new();
    ready(&mut m, "env-1", 1, 0);
    ready(&mut m, "env-1", 2, 0);
    ready(&mut m, "env-2", 3, 0);
    assert_eq!(m.close_for_environment("env-1").len(), 2);
    assert!(m.query("env-1", 1, 1).is_err());
    assert!(m.query("env-1", 2, 1).is_err());
    assert!(m.query("env-2", 3, 1).is_ok());
    start(&mut m, "env-1", 2, 0);
    let gone = m.close_for_environment("env-1");
    assert_eq!(gone.len(), 1);
    assert_eq!(gone[0].client, None);
}

#[test]
fn test_stale_attach_task_cannot_overwrite_reopened_entry() {
    let mut m = ArthasManager::new();
    let (stale, _) = start(&mut m, "env-1", 123, 0);
    m.close("env-1", 123);
    let (fresh, _) = start(&mut m, "env-1", 123, 1);
    assert_ne!(stale, fresh);
    assert!(matches!(m.wait_open("env-1", 123, 30, OpenSignal::Gone), Some(Err(_))));
    let orphan = m.run_attach_task("env-1", 123, stale, attached(7, 18563), 2).unwrap();
    assert_eq!(orphan.stop_handle, 107, "stale session resources must be released");
    let err = m.query("env-1", 123, 3).unwrap_err();
    assert!(
        matches!(err, ManagerError::NotOpen { attaching: true }),
        "stale task must not mark the new entry Ready, got: {err:?}"
    );
    assert!(m.run_attach_task("env-1", 123, fresh, attached(8, 18563), 4).is_none());
    assert_eq!(m.query("env-1", 123, 5).unwrap(), 8);
}

#[test]
fn an_attach_that_takes_too_long_fails() {
    let mut m = ArthasManager::new();
    let (task, _) = start(&mut m, "env-1", 123, 0);
    assert!(m.run_attach_task("env-1", 9, task, AttachResult::TimedOut, 2).is_none());
    m.run_attach_task("env-1", 123, task, AttachResult::TimedOut, 4);
    match &m.sessions[0].phase {
        ArthasPhase::Failed { error } => {
            assert_eq!(error.message(), "attach 失败：attach 超时（300s 硬超时）")
        }
        other => panic!("expected a failure, got {other:?}"),
    }
}

#[test]
fn test_active_remote_ports_lists_ready_sessions_only() {
    let mut m = ArthasManager::new();
    let (a, _) = start(&mut m, "env-1", 123, 0);
    m.run_attach_task("env-1", 123, a, attached(1, 18563), 0);
    let (b, _) = start(&mut m, "env-1", 456, 0);
    assert_eq!(m.active_remote_ports("env-1"), vec![18563]);
    assert!(m.active_remote_ports("other-env").is_empty());
    m.run_attach_task("env-1", 456, b, attached(2, 18564), 0);
    let mut ports = m.active_remote_ports("env-1");
    ports.sort();
    assert_eq!(ports, vec![18563, 18564]);
}

#[test]
fn arthas_errors_in_words() {
    assert_eq!(ManagerError::NotOpen { attaching: true }.message(), "该 JVM 尚未 attach arthas");
    assert_eq!(ManagerError::Upstream("u".to_string()).message(), "u");
    assert_eq!(ManagerError::Transport("t".to_string()).message(), "arthas 通道传输错误：t");
}
