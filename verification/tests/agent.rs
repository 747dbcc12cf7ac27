use friday::agent::attempt::{
    read_stderr_lines, retry_state, AccumulatedPart, Attempt, AttemptOutcome, ExitReason,
    ExitStatus, MessageAccumulator, ResumeRetry, RetryState, StreamRun,
};
use friday::agent::detect::{detect, parse_version, version_of, Probe};
use friday::agent::prompt::{
    build_prompt, build_prompt_with_experiences, build_prompt_with_history, build_system_prompt,
    FRIDAY_SYSTEM_PROMPT, TOOL_GUIDANCE,
};
use friday::agent::registry::registry;
use friday::agent::spawn::{
    active_program, append_one_shot_value, command_args, command_config_for, native_candidates,
    pick_session_flag_from_help, plan_one_shot, resolve_native_exe, resolve_session_flag, spawn_active,
    spawn_fresh, spawn_one_shot, ActiveAgent, SpawnError,
};
use friday::agent::stream::{
    compute_elapsed_ms, extract_session_id, format_recent_history, is_session_in_use_error,
    parse_event, truncate_chars,
};
use friday::app::events::AppEvent;
use friday::app::messages::{
    get_session_messages, insert_message, insert_text_part, update_message_status, StoredMessage, StoredPart,
};
use friday::app::session::{
    create_session, get_agent_session_id, update_agent_session_id, MessagePartRow, MessageRow, StoredSession,
};
use friday::infra::pathname::Platform;
use friday::json::Json;
use friday::knowledge::{Experience, Outcome};

#[test]
fn parse_version_extracts_semver_from_opencode_output() {
    assert_eq!(parse_version("opencode 0.2.15"), Some("0.2.15".to_string()));
}

#[test]
fn parse_version_strips_v_prefix() {
    assert_eq!(parse_version("v1.0.0-beta"), Some("1.0.0".to_string()));
}

#[test]
fn parse_version_returns_none_when_no_version() {
    assert_eq!(parse_version("no version here"), None);
}

#[test]
fn parse_version_returns_none_for_empty_string() {
    assert_eq!(parse_version(""), None);
}

#[test]
fn registry_contains_opencode_and_codeagentcli() {
    let known = registry();
    assert_eq!(known.len(), 2);

    let opencode = known.iter().find(|d| d.provider == "opencode").unwrap();
    assert_eq!(opencode.command, "opencode");
    assert_eq!(opencode.display_name, "OpenCode");

    let codeagent = known.iter().find(|d| d.provider == "codeagentcli").unwrap();
    assert_eq!(codeagent.command, "codeagentcli");
    assert_eq!(codeagent.display_name, "CodeAgentCLI");
}

#[test]
fn test_build_system_prompt_uses_default_when_no_override() {
    let result = build_system_prompt(None);
    assert_eq!(result, FRIDAY_SYSTEM_PROMPT);
}

#[test]
fn test_build_prompt_includes_system_and_message() {
    let result = build_prompt("hello world", None, "test-session");
    assert!(result.contains(FRIDAY_SYSTEM_PROMPT));
    assert!(result.contains("hello world"));
}

fn make_test_experience(outcome: Outcome, root_cause: Option<&str>) -> Experience {
    Experience {
        id: "test-id".to_string(),
        symptom: "OOM".to_string(),
        service: "OrderService".to_string(),
        language: "java".to_string(),
        root_cause: root_cause.map(|s| s.to_string()),
        investigation_path: "jstat -> arthas thread".to_string(),
        experience_lesson: "Check thread count first".to_string(),
        outcome,
        occurrence_count: 1,
        last_seen_at: "2026-08-22T00:00:00Z".to_string(),
        created_at: "2026-08-22T00:00:00Z".to_string(),
        query_text: "OrderService OOM".to_string(),
    }
}

#[test]
fn test_build_prompt_with_experiences_injects_section() {
    let exps = vec![
        make_test_experience(Outcome::Positive, Some("ThreadPool leak")),
        make_test_experience(Outcome::Negative, None),
    ];
    let result = build_prompt_with_experiences("hello", None, "test-session", &exps);

    assert!(result.contains("## 历史经验参考"));
    assert!(result.contains("成功"));
    assert!(result.contains("未成功"));
    assert!(result.contains("ThreadPool leak"));
    assert!(result.contains("hello"));
}

#[test]
fn test_build_prompt_with_empty_experiences_no_section() {
    let exps: Vec<Experience> = vec![];
    let result = build_prompt_with_experiences("hello", None, "test-session", &exps);

    assert!(!result.contains("## 历史经验参考"));
    assert!(result.contains("hello"));
}

#[test]
fn test_build_prompt_contains_environment_guidance() {
    let result = build_prompt("hello", None, "s1");
    assert!(result.contains("run_command"));
    assert!(result.contains("list_environments"));
    assert!(result.contains("environment"));
}

#[test]
fn test_build_prompt_injects_session_id() {
    let result = build_prompt("hello", None, "session-abc-123");
    assert!(result.contains("session-abc-123"));
    assert!(result.contains("工具使用"));
    assert!(result.contains("hello"));
}

#[test]
fn test_build_prompt_with_history_injects_history_section() {
    let result = build_prompt_with_history(
        "继续排查",
        None,
        "session-abc-123",
        "[用户] OOM 排查一下\n[助手] 已定位到内存泄漏\n",
    );
    assert!(result.contains("此前对话记录"), "应包含历史记录段标题");
    assert!(result.contains("已定位到内存泄漏"));
    assert!(result.contains("继续排查"));
    assert!(result.contains("session-abc-123"));
    assert!(result.contains(FRIDAY_SYSTEM_PROMPT));
}

#[test]
fn test_build_prompt_with_experiences_injects_session_id() {
    let exps = vec![make_test_experience(Outcome::Positive, Some("root cause"))];
    let result = build_prompt_with_experiences("hello", None, "session-xyz", &exps);

    assert!(result.contains("session-xyz"));
    assert!(result.contains("工具使用"));
    assert!(result.contains("历史经验参考"));
}

#[test]
fn test_tool_guidance_mentions_ensure_tool() {
    assert!(TOOL_GUIDANCE.contains("ensure_tool"));
    assert!(TOOL_GUIDANCE.contains("list_processes"));
    assert!(TOOL_GUIDANCE.contains("jvm_"));
}

#[test]
fn test_tool_guidance_mentions_transfer_tools() {
    assert!(TOOL_GUIDANCE.contains("file_download"));
    assert!(TOOL_GUIDANCE.contains("file_upload"));
    assert!(TOOL_GUIDANCE.contains("transfer_status"));
}

#[test]
fn test_build_prompt_contains_ensure_tool_guidance() {
    let prompt = build_prompt("帮我看看 OOM", None, "s1");
    assert!(prompt.contains("ensure_tool"));
}

#[test]
fn test_tool_guidance_mentions_heap_tools() {
    assert!(TOOL_GUIDANCE.contains("heap_open"));
    assert!(TOOL_GUIDANCE.contains("heap_leak_suspects"));
    assert!(TOOL_GUIDANCE.contains("heap_dominator_tree"));
    assert!(TOOL_GUIDANCE.contains("heap_path_to_gc_roots"));
    assert!(TOOL_GUIDANCE.contains("heap_close"));
    assert!(TOOL_GUIDANCE.contains("不要让用户手动开 MAT"));
}

#[test]
fn test_tool_guidance_mentions_jfr_tools() {
    assert!(TOOL_GUIDANCE.contains("jfr_record"));
    assert!(TOOL_GUIDANCE.contains("jfr_quick_analysis"));
    assert!(TOOL_GUIDANCE.contains("jfr_compare"));
    assert!(TOOL_GUIDANCE.contains("arthas_profiler"), "JDK 8 fallback guidance required");
}

#[test]
fn test_tool_guidance_mentions_code_tools() {
    assert!(TOOL_GUIDANCE.contains("code_get_repo"));
    assert!(TOOL_GUIDANCE.contains("code_open_repo"));
    assert!(TOOL_GUIDANCE.contains("code_repo_status"));
    assert!(TOOL_GUIDANCE.contains("code_read_file"));
    assert!(TOOL_GUIDANCE.contains("code_search"));
    assert!(TOOL_GUIDANCE.contains("code_list_files"));
    assert!(TOOL_GUIDANCE.contains("commitid"));
    assert!(TOOL_GUIDANCE.contains("优先按 tag"), "tag-first alignment guidance required");
    assert!(TOOL_GUIDANCE.contains("jad"), "cross-check with arthas jad guidance");
}

// A file that cannot be read is handed over as no text at all.
#[test]
fn test_build_system_prompt_uses_default_when_file_not_found() {
    let result = build_system_prompt(None);
    assert_eq!(result, FRIDAY_SYSTEM_PROMPT);
}

#[test]
fn test_build_system_prompt_uses_override_when_file_exists() {
    let result = build_system_prompt(Some("You are a custom assistant."));
    assert_eq!(result, "You are a custom assistant.");
}

#[test]
fn test_build_system_prompt_falls_back_when_file_empty() {
    let result = build_system_prompt(Some("   \n  "));
    assert_eq!(result, FRIDAY_SYSTEM_PROMPT);
}

#[test]
fn test_build_prompt_uses_override_system_prompt() {
    let result = build_prompt("hello", Some("Custom system."), "test-session");
    assert!(result.contains("Custom system."));
    assert!(!result.contains(FRIDAY_SYSTEM_PROMPT));
    assert!(result.contains("hello"));
}

#[test]
fn prompt_is_put_together_exactly() {
    assert_eq!(
        build_prompt("hello", Some("SYS"), "s1"),
        format!("SYS\n\n---\n\n{TOOL_GUIDANCE}\n- 当前会话的 session_id：s1\n\n---\n\n用户消息：hello")
    );
    let exps = vec![make_test_experience(Outcome::Uncertain, None)];
    assert_eq!(
        build_prompt_with_experiences("hello", Some("SYS"), "s1", &exps),
        format!(
            "SYS\n\n---\n\n{TOOL_GUIDANCE}\n- 当前会话的 session_id：s1\n\n---\n\n## 历史经验参考\n\
             ### 经验 1（不确定）：OrderService OOM\n症状：OOM\n排查路径：jstat -> arthas thread\n\
             经验：Check thread count first\n\n\n---\n\n用户消息：hello"
        )
    );
    assert_eq!(
        build_prompt_with_history("hello", Some("SYS"), "s1", "H"),
        format!(
            "SYS\n\n---\n\n{TOOL_GUIDANCE}\n- 当前会话的 session_id：s1\n\n---\n\n## 此前对话记录\n\
             （底层 CLI 会话恢复失败，已开启新会话；以下记录来自 Friday 本地存储，请基于它继续对话。）\n\n\
             H\n\n---\n\n用户消息：hello"
        )
    );
}

#[test]
fn system_prompt_says_who_it_is() {
    assert!(FRIDAY_SYSTEM_PROMPT.starts_with("你是 Friday，一个面向软件开发人员的远程环境运行时故障诊断助手。\n\n## 身份\n"));
    assert!(FRIDAY_SYSTEM_PROMPT.ends_with("- 不确定的事情先说不确定，不要瞎猜。\n"));
    assert!(TOOL_GUIDANCE.starts_with("## 工具使用\n- 调用诊断工具时，必须传入 session_id 参数。\n"));
    assert!(TOOL_GUIDANCE.ends_with("不要瞎猜 host。"));
    assert_eq!(TOOL_GUIDANCE.lines().count(), 12);
}

#[test]
fn versions_are_read_from_groups() {
    let g = |s: &str| Some(s.to_string());
    assert_eq!(version_of(&vec![g("v1.2.3"), g("1"), g("2"), g("3")]), Some("1.2.3".to_string()));
    assert_eq!(version_of(&vec![g("1.2"), g("1"), g("2"), None]), None);
    assert_eq!(version_of(&vec![]), None);
}

#[test]
fn detect_returns_vec_without_panicking() {
    let known = registry();
    let probes = vec![
        Probe { path: Some("/usr/bin/opencode".to_string()), version_output: Some("opencode 0.2.15".to_string()) },
        Probe { path: None, version_output: None },
    ];
    let result = detect(&known, &probes);
    assert_eq!(result.len(), 1);
    for agent in &result {
        assert_eq!(agent.provider, "opencode");
    }
    assert_eq!(result[0].path, "/usr/bin/opencode");
    assert_eq!(result[0].version.as_deref(), Some("0.2.15"));
}

#[test]
fn test_command_config_for_opencode() {
    let config = command_config_for("opencode");
    assert_eq!(config.mode_args, &["run"]);
    assert_eq!(config.format_args, &["--format", "json"]);
    assert_eq!(config.session_flag, "--session");
    assert!(config.needs_exe_resolution);
}

#[test]
fn test_command_config_for_codeagentcli() {
    let config = command_config_for("codeagentcli");
    assert_eq!(config.mode_args, &["-p"]);
    assert_eq!(config.format_args, &["--output-format", "stream-json", "--verbose", "--skip-safe-check"]);
    assert_eq!(config.session_flag, "--sessions");
    assert!(!config.needs_exe_resolution);
}

#[test]
fn test_command_config_for_unknown_falls_back_to_opencode() {
    let config = command_config_for("unknown");
    assert_eq!(config.mode_args, &["run"]);
    assert_eq!(config.format_args, &["--format", "json"]);
    assert_eq!(config.session_flag, "--session");
    assert!(config.needs_exe_resolution);
}

#[test]
fn test_pick_session_flag_matches_old_cli_session_id() {
    let help = "usage: codeagentcli [options]\n  --session-id <uuid>  session to resume";
    let candidates = ["--sessions", "--session-id"];
    assert_eq!(
        pick_session_flag_from_help(help, &candidates),
        Some("--session-id")
    );
}

#[test]
fn test_pick_session_flag_prefers_preferred_when_both_supported() {
    let help = "  --sessions <id>   resume session\n  --session-id <uuid>  set id for new conversation";
    let candidates = ["--sessions", "--session-id"];
    assert_eq!(
        pick_session_flag_from_help(help, &candidates),
        Some("--sessions")
    );
}

#[test]
fn test_pick_session_flag_returns_none_when_no_candidate_supported() {
    let help = "usage: codeagentcli [options]\n  --version  print version";
    let candidates = ["--sessions", "--session-id"];
    assert_eq!(pick_session_flag_from_help(help, &candidates), None);
}

#[test]
fn test_resolve_native_exe_returns_exe_unchanged() {
    let path = "/usr/bin/opencode";
    let resolved = resolve_native_exe(path, Platform::Unix, &vec![true, true, true]);
    assert_eq!(resolved, path);
}

#[test]
fn test_resolve_native_exe_finds_native_on_windows() {
    let shim = "C:\\tools\\opencode.cmd";
    let candidates = native_candidates(shim, Platform::Windows);
    assert_eq!(candidates.len(), 3);
    assert_eq!(
        candidates[0],
        "C:\\tools\\node_modules\\opencode-ai\\node_modules\\opencode-windows-x64\\bin\\opencode.exe"
    );
    let resolved = resolve_native_exe(shim, Platform::Windows, &vec![false, true, true]);
    assert_eq!(resolved, candidates[1]);
    let none = resolve_native_exe(shim, Platform::Windows, &vec![false, false, false]);
    assert_eq!(none, shim);
    let exe = resolve_native_exe("C:\\tools\\opencode.exe", Platform::Windows, &vec![true, true, true]);
    assert_eq!(exe, "C:\\tools\\opencode.exe");
}

#[test]
fn test_resolve_session_flag_returns_preferred_for_opencode() {
    assert_eq!(resolve_session_flag("opencode", "--session", None), "--session");
}

#[test]
fn test_resolve_session_flag_falls_back_when_probe_fails() {
    assert_eq!(resolve_session_flag("codeagentcli", "--sessions", None), "--sessions");
}

#[test]
fn test_resolve_session_flag_picks_old_cli_flag_from_help() {
    let help = "usage: fake-codeagentcli [options]\r\n  --session-id <uuid>  session to resume\r\n";
    assert_eq!(resolve_session_flag("codeagentcli", "--sessions", Some(help)), "--session-id");
}

fn agent_at(path: &str, exists: bool) -> Option<ActiveAgent> {
    Some(ActiveAgent {
        path: path.to_string(),
        provider: "opencode".to_string(),
        exists,
        native_present: vec![false, false, false],
    })
}

#[test]
fn test_spawn_active_accepts_session_id_param() {
    let result = spawn_active(&None, Platform::Unix, "test-sid", "", None, None, None, None, None);
    assert!(matches!(result, Err(SpawnError::NoActiveAgent)));
}

#[test]
fn test_spawn_active_returns_no_active_agent_when_db_empty() {
    let result = active_program(&None, Platform::Unix);
    assert!(matches!(result, Err(SpawnError::NoActiveAgent)));
    assert_eq!(result.unwrap_err().message(), "无可用 agent，请先检测或手动添加");
}

#[test]
fn test_spawn_active_returns_binary_missing_when_path_invalid() {
    let agent = agent_at("/nonexistent/path/opencode", false);
    let result =
        spawn_active(&agent, Platform::Unix, "test-session", "test message", None, None, None, None, None);
    match result {
        Err(SpawnError::BinaryMissing { path }) => assert_eq!(path, "/nonexistent/path/opencode"),
        other => panic!("expected BinaryMissing, got {other:?}"),
    }
}

#[test]
fn an_agent_is_started_with_its_session() {
    let agent = agent_at("/usr/bin/opencode", true);
    let plan = spawn_active(
        &agent, Platform::Unix, "s1", "hello", Some("ses_1"), None, Some("SYS"), None, None,
    )
    .unwrap();
    assert_eq!(plan.exe, "/usr/bin/opencode");
    assert_eq!(plan.args, command_args("opencode", Some(("--session", "ses_1"))));
    assert_eq!(plan.args, vec!["run", "--format", "json", "--dangerously-skip-permissions", "--session", "ses_1"]);
    assert_eq!(plan.prompt, build_prompt("hello", Some("SYS"), "s1"));
    assert_eq!(
        command_args("codeagentcli", None),
        vec![
            "-p", "--output-format", "stream-json", "--verbose", "--skip-safe-check",
            "--dangerously-skip-permissions"
        ]
    );
}

#[test]
fn spawn_errors_in_words() {
    assert_eq!(SpawnError::BinaryMissing { path: "/x".to_string() }.message(), "agent 二进制不存在：/x");
    assert_eq!(SpawnError::SpawnFailed("e".to_string()).message(), "启动 agent 失败：e");
    assert_eq!(SpawnError::Db("e".to_string()).message(), "DB 查询失败：e");
}

#[test]
fn one_shot_answers_are_collected() {
    let lines = vec![
        r#"{"type":"text","part":{"text":"a"}}"#.to_string(),
        "noise".to_string(),
        r#"{"type":"text","part":{"text":"b"}}"#.to_string(),
        r#"{"type":"step_finish"}"#.to_string(),
    ];
    assert_eq!(spawn_one_shot("opencode", &lines), "ab");
    let mut out = "x".to_string();
    append_one_shot_value(&mut out, "opencode", &Json::Null);
    assert_eq!(out, "x");
}

#[test]
fn test_parse_text_event_emits_llm_thinking() {
    let line = r#"{"type":"text","timestamp":1787242656024,"sessionID":"ses_abc","part":{"type":"text","text":"你好！我是 Friday Agent。","id":"prt_123"}}"#;
    let events = parse_event(line, "s1");
    assert_eq!(events.len(), 1);
    match &events[0] {
        AppEvent::LlmThinking { session_id, token } => {
            assert_eq!(session_id, "s1");
            assert_eq!(token, "你好！我是 Friday Agent。");
        }
        _ => panic!("expected LlmThinking, got {:?}", events[0]),
    }
}

#[test]
fn test_parse_text_event_empty_text_returns_empty() {
    let line = r#"{"type":"text","sessionID":"ses_abc","part":{"type":"text","text":""}}"#;
    let events = parse_event(line, "s1");
    assert_eq!(events.len(), 0);
}

#[test]
fn test_parse_reasoning_event_emits_llm_thinking() {
    let line = r#"{"type":"reasoning","sessionID":"ses_abc","part":{"type":"reasoning","text":"analyzing the issue"}}"#;
    let events = parse_event(line, "s1");
    assert_eq!(events.len(), 1);
    match &events[0] {
        AppEvent::LlmThinking { session_id, token } => {
            assert_eq!(session_id, "s1");
            assert_eq!(token, "analyzing the issue");
        }
        _ => panic!("expected LlmThinking"),
    }
}

#[test]
fn test_parse_tool_use_running_emits_tool_executing() {
    let line = r#"{"type":"tool_use","sessionID":"ses_abc","part":{"type":"tool","tool":"bash","state":{"status":"running","input":{"command":"ls -la"}}}}"#;
    let events = parse_event(line, "s1");
    assert_eq!(events.len(), 1);
    match &events[0] {
        AppEvent::ToolExecuting { session_id, tool, args } => {
            assert_eq!(session_id, "s1");
            assert_eq!(tool, "bash");
            assert!(matches!(args.get("command"), Some(Json::Str(c)) if c == "ls -la"));
        }
        _ => panic!("expected ToolExecuting"),
    }
}

#[test]
fn test_parse_tool_use_completed_emits_tool_result() {
    let line = r#"{"type":"tool_use","sessionID":"ses_abc","part":{"type":"tool","tool":"bash","state":{"status":"completed","output":"file1\nfile2","time":{"start":1000,"end":1800}}}}"#;
    let events = parse_event(line, "s1");
    assert_eq!(events.len(), 1);
    match &events[0] {
        AppEvent::ToolResult { session_id, tool, output, elapsed_ms } => {
            assert_eq!(session_id, "s1");
            assert_eq!(tool, "bash");
            assert!(matches!(output, Json::Str(o) if o == "file1\nfile2"));
            assert_eq!(*elapsed_ms, 800);
        }
        _ => panic!("expected ToolResult"),
    }
}

#[test]
fn test_parse_tool_use_error_emits_tool_result_with_error() {
    let line = r#"{"type":"tool_use","sessionID":"ses_abc","part":{"type":"tool","tool":"bash","state":{"status":"error","error":"command failed","time":{"start":1000,"end":1001}}}}"#;
    let events = parse_event(line, "s1");
    assert_eq!(events.len(), 1);
    match &events[0] {
        AppEvent::ToolResult { session_id, tool, output, .. } => {
            assert_eq!(session_id, "s1");
            assert_eq!(tool, "bash");
            assert!(matches!(output, Json::Str(o) if o == "command failed"));
        }
        _ => panic!("expected ToolResult with error"),
    }
}

#[test]
fn test_parse_error_event_emits_agent_crashed() {
    let line = r#"{"type":"error","error":{"name":"APIError","data":{"message":"rate limited"}}}"#;
    let events = parse_event(line, "s1");
    assert_eq!(events.len(), 1);
    match &events[0] {
        AppEvent::AgentCrashed { session_id, reason } => {
            assert_eq!(session_id, "s1");
            assert_eq!(reason, "rate limited");
        }
        _ => panic!("expected AgentCrashed"),
    }
}

#[test]
fn test_parse_step_start_returns_empty() {
    let line = r#"{"type":"step_start","sessionID":"ses_abc","part":{"id":"prt_1"}}"#;
    let events = parse_event(line, "s1");
    assert_eq!(events.len(), 0);
}

#[test]
fn test_parse_step_finish_returns_empty() {
    let line = r#"{"type":"step_finish","sessionID":"ses_abc","part":{"id":"prt_2","reason":"stop"}}"#;
    let events = parse_event(line, "s1");
    assert_eq!(events.len(), 0);
}

#[test]
fn test_parse_invalid_json_returns_empty() {
    let events = parse_event("not valid json", "s1");
    assert_eq!(events.len(), 0);
}

#[test]
fn test_parse_assistant_thinking_skipped() {
    let line = r#"{"type":"assistant","message":{"id":"msg_1","type":"message","role":"assistant","content":[{"type":"thinking","thinking":"The user is greeting me.","signature":"123"}],"model":"Glm-5.1"},"session_id":"c7c8d0d3"}"#;
    let events = parse_event(line, "s1");
    assert_eq!(events.len(), 0);
}

#[test]
fn test_parse_assistant_text_emits_llm_thinking() {
    let line = r#"{"type":"assistant","message":{"id":"msg_1","type":"message","role":"assistant","content":[{"type":"text","text":"你好，我是 Friday。"}],"model":"Glm-5.1"},"session_id":"c7c8d0d3"}"#;
    let events = parse_event(line, "s1");
    assert_eq!(events.len(), 1);
    match &events[0] {
        AppEvent::LlmThinking { session_id, token } => {
            assert_eq!(session_id, "s1");
            assert_eq!(token, "你好，我是 Friday。");
        }
        _ => panic!("expected LlmThinking"),
    }
}

#[test]
fn test_parse_assistant_multiple_content_items() {
    let line = r#"{"type":"assistant","message":{"content":[{"type":"thinking","thinking":"analyzing"},{"type":"text","text":"here is the answer"}]},"session_id":"c7c8d0d3"}"#;
    let events = parse_event(line, "s1");
    assert_eq!(events.len(), 1);
    assert!(matches!(&events[0], AppEvent::LlmThinking { token, .. } if token == "here is the answer"));
}

#[test]
fn test_parse_result_event_returns_empty() {
    let line = r#"{"type":"result","subtype":"success","is_error":false,"result":"诊断完成","session_id":"c7c8d0d3"}"#;
    let events = parse_event(line, "s1");
    assert_eq!(events.len(), 0);
}

#[test]
fn test_parse_result_event_empty_result_returns_empty() {
    let line = r#"{"type":"result","subtype":"success","result":""}"#;
    let events = parse_event(line, "s1");
    assert_eq!(events.len(), 0);
}

#[test]
fn test_parse_system_init_returns_empty() {
    let line = r#"{"type":"system","subtype":"init","session_id":"c7c8d0d3","tools":["Bash","Edit"]}"#;
    let events = parse_event(line, "s1");
    assert_eq!(events.len(), 0);
}

#[test]
fn test_extract_session_id_from_codeagentcli_snake_case() {
    let line = r#"{"type":"system","subtype":"init","session_id":"c7c8d0d3-abc"}"#;
    let result = extract_session_id(line);
    assert_eq!(result, Some("c7c8d0d3-abc".to_string()));
}

#[test]
fn test_extract_session_id_from_top_level_field() {
    let line = r#"{"type":"step_start","timestamp":1787242655298,"sessionID":"ses_fe0096356ffeqwSFqjLhPeA72b","part":{"id":"prt_123"}}"#;
    let result = extract_session_id(line);
    assert_eq!(result, Some("ses_fe0096356ffeqwSFqjLhPeA72b".to_string()));
}

#[test]
fn test_extract_session_id_returns_none_when_absent() {
    let line = r#"{"type":"unknown"}"#;
    let result = extract_session_id(line);
    assert!(result.is_none());
}

#[test]
fn test_extract_session_id_returns_none_for_invalid_json() {
    let result = extract_session_id("not json");
    assert!(result.is_none());
}

#[test]
fn test_is_session_in_use_error_matches_incident_line() {
    let line = "Error: Session ID e3afdf0c-951e-4299-acad-51974107ea08 is already in use.";
    assert!(is_session_in_use_error(line));
}

#[test]
fn test_is_session_in_use_error_matches_without_error_prefix() {
    let line = "Session ID abc is already in use";
    assert!(is_session_in_use_error(line));
}

#[test]
fn test_is_session_in_use_error_rejects_other_lines() {
    assert!(!is_session_in_use_error("Error: API key invalid"));
    assert!(!is_session_in_use_error("Error: Session not found"));
    assert!(!is_session_in_use_error(""));
}

fn msg(id: &str, role: &str, content: Option<&str>, seq: i64) -> MessageRow {
    MessageRow {
        id: id.to_string(),
        role: role.to_string(),
        content: content.map(|s| s.to_string()),
        status: Some("done".to_string()),
        seq,
        parts: vec![],
    }
}

fn text_part(text: &str) -> MessagePartRow {
    MessagePartRow {
        part_type: "text".to_string(),
        seq: 0,
        text: Some(text.to_string()),
        tool_name: None,
        tool_args: None,
        tool_status: None,
        tool_output: None,
        tool_elapsed_ms: None,
    }
}

fn tool_part(name: &str, status: &str) -> MessagePartRow {
    MessagePartRow {
        part_type: "tool".to_string(),
        seq: 1,
        text: None,
        tool_name: Some(name.to_string()),
        tool_args: None,
        tool_status: Some(status.to_string()),
        tool_output: None,
        tool_elapsed_ms: None,
    }
}

#[test]
fn test_format_recent_history_includes_prior_exchange_only() {
    let mut prior_agent = msg("m2", "agent", None, 1);
    prior_agent.parts = vec![text_part("已定位到内存泄漏")];
    let messages = vec![
        msg("m1", "user", Some("OOM 排查"), 0),
        prior_agent,
        msg("m3", "user", Some("继续排查"), 2),
        msg("m4", "agent", None, 3),
    ];
    let history = format_recent_history(&messages, "m4").unwrap();
    assert!(history.contains("OOM 排查"));
    assert!(history.contains("已定位到内存泄漏"));
    assert!(!history.contains("继续排查"), "当前在途用户消息不应进入历史");
}

#[test]
fn test_format_recent_history_renders_tool_part_compactly() {
    let mut prior_agent = msg("m2", "agent", None, 1);
    prior_agent.parts = vec![tool_part("jvm_gc_stats", "completed"), text_part("结论")];
    let messages = vec![
        msg("m1", "user", Some("问题"), 0),
        prior_agent,
        msg("m3", "user", Some("现在"), 2),
        msg("m4", "agent", None, 3),
    ];
    let history = format_recent_history(&messages, "m4").unwrap();
    assert!(history.contains("jvm_gc_stats"));
    assert!(history.contains("completed"));
    assert!(history.contains("结论"));
}

#[test]
fn test_format_recent_history_none_when_only_inflight_exchange() {
    let messages = vec![
        msg("m1", "user", Some("第一问"), 0),
        msg("m2", "agent", None, 1),
    ];
    assert!(format_recent_history(&messages, "m2").is_none());
}

#[test]
fn test_format_recent_history_none_when_agent_message_not_found() {
    let messages = vec![msg("m1", "user", Some("问"), 0)];
    assert!(format_recent_history(&messages, "missing-id").is_none());
}

#[test]
fn test_format_recent_history_truncates_long_messages() {
    let long: String = "长".repeat(5000);
    let messages = vec![
        msg("m1", "user", Some(&long), 0),
        msg("m2", "user", Some("继续"), 1),
        msg("m3", "agent", None, 2),
    ];
    let history = format_recent_history(&messages, "m3").unwrap();
    let total: usize = history.chars().count();
    assert!(total < 3000, "超长历史应被截断，实际 {total} 字符");
}

fn make_llm_thinking(token: &str) -> AppEvent {
    AppEvent::LlmThinking {
        session_id: "s1".to_string(),
        token: token.to_string(),
    }
}

fn make_tool_executing(name: &str) -> AppEvent {
    AppEvent::ToolExecuting {
        session_id: "s1".to_string(),
        tool: name.to_string(),
        args: Json::Null,
    }
}

fn make_tool_result(name: &str, output: &str, elapsed: u64) -> AppEvent {
    AppEvent::ToolResult {
        session_id: "s1".to_string(),
        tool: name.to_string(),
        output: Json::Str(output.to_string()),
        elapsed_ms: elapsed,
    }
}

fn shown(p: &AccumulatedPart) -> (&str, &str) {
    match p {
        AccumulatedPart::Text(t) => ("text", t.as_str()),
        AccumulatedPart::Tool { name, .. } => ("tool", name.as_str()),
    }
}

#[test]
fn test_accumulator_text_accumulation() {
    let mut acc = MessageAccumulator::new("m1".to_string());
    acc.handle_event(&make_llm_thinking("Hello "));
    acc.handle_event(&make_llm_thinking("world!"));
    let parts = acc.take_parts();
    assert_eq!(parts.len(), 1);
    assert_eq!(shown(&parts[0]), ("text", "Hello world!"));
    assert!(acc.take_parts().is_empty());
}

#[test]
fn test_accumulator_tool_result_persists_immediately() {
    let mut acc = MessageAccumulator::new("m1".to_string());
    acc.handle_event(&make_tool_executing("bash"));
    acc.handle_event(&make_tool_result("bash", "file1\nfile2", 500));
    acc.handle_event(&make_llm_thinking("Done."));
    let parts = acc.take_parts();
    assert_eq!(parts.len(), 2);
    match &parts[0] {
        AccumulatedPart::Tool { name, status, output, elapsed_ms, .. } => {
            assert_eq!(name, "bash");
            assert_eq!(status, "completed");
            assert_eq!(output, "file1\nfile2");
            assert_eq!(*elapsed_ms, 500);
        }
        other => panic!("expected a tool, got {other:?}"),
    }
    assert_eq!(shown(&parts[1]), ("text", "Done."));
}

#[test]
fn test_accumulator_multiple_text_parts() {
    let mut acc = MessageAccumulator::new("m1".to_string());
    acc.handle_event(&make_llm_thinking("First text"));
    acc.handle_event(&make_tool_executing("bash"));
    acc.handle_event(&make_tool_result("bash", "output", 100));
    acc.handle_event(&make_llm_thinking("Second text"));
    let parts = acc.take_parts();
    assert_eq!(parts.len(), 3);
    assert_eq!(shown(&parts[0]), ("text", "First text"));
    assert_eq!(shown(&parts[1]), ("tool", "bash"));
    assert_eq!(shown(&parts[2]), ("text", "Second text"));
}

fn lines(all: &[&str]) -> Vec<String> {
    all.iter().map(|l| l.to_string()).collect()
}

#[test]
fn test_read_stderr_lines_captures_all_lines() {
    let scan = read_stderr_lines(&lines(&["error line 1", "error line 2", "error line 3"]));
    assert_eq!(scan.lines, 3);
    assert!(!scan.session_conflict);
}

#[test]
fn test_read_stderr_lines_detects_session_conflict() {
    let scan = read_stderr_lines(&lines(&["some noise", "Error: Session ID abc-123 is already in use."]));
    assert_eq!(scan.lines, 2);
    assert!(scan.session_conflict);
}

#[test]
fn test_read_stderr_lines_empty() {
    let scan = read_stderr_lines(&lines(&[]));
    assert_eq!(scan.lines, 0);
    assert!(!scan.session_conflict);
}

fn retry() -> ResumeRetry {
    ResumeRetry { user_message: "继续排查".to_string(), prompt_override_path: None }
}

/// A session whose agent does not let its own session go: one round of talk, and a new
/// message that waits for an answer.
struct Conflict {
    sessions: Vec<StoredSession>,
    messages: Vec<StoredMessage>,
    parts: Vec<StoredPart>,
    session_id: String,
    agent_message_id: String,
}

fn setup_conflict_scenario() -> Conflict {
    let (mut sessions, mut messages, mut parts) = (Vec::new(), Vec::new(), Vec::new());
    let session_id = create_session(&mut sessions, "test", "t0").id.0;
    insert_message(&mut messages, &session_id, "user", Some("OOM 排查一下"), Some("done"), 0);
    let a1 = insert_message(&mut messages, &session_id, "agent", None, Some("done"), 1);
    insert_text_part(&mut parts, &a1, 0, "已定位到内存泄漏");
    update_agent_session_id(&mut sessions, &session_id, "e3afdf0c-stale");
    insert_message(&mut messages, &session_id, "user", Some("继续排查"), Some("done"), 2);
    let agent_message_id =
        insert_message(&mut messages, &session_id, "agent", None, Some("streaming"), 3);
    Conflict { sessions, messages, parts, session_id, agent_message_id }
}

fn codeagent() -> Option<ActiveAgent> {
    Some(ActiveAgent {
        path: "/bin/fake-agent".to_string(),
        provider: "codeagentcli".to_string(),
        exists: true,
        native_present: vec![],
    })
}

#[test]
fn test_consume_stream_retries_with_fresh_session_on_session_id_conflict() {
    let mut c = setup_conflict_scenario();
    let (sid, mid) = (c.session_id.clone(), c.agent_message_id.clone());
    let stale = get_agent_session_id(&c.sessions, &sid).unwrap();
    let help = Some("--sessions <id>  resume session");
    let plan =
        spawn_active(&codeagent(), Platform::Unix, &sid, "继续排查", Some(&stale), help, None, None, None).unwrap();
    assert_eq!(plan.args[plan.args.len() - 2..], ["--sessions", "e3afdf0c-stale"]);

    let mut run = StreamRun { resume_retry: Some(retry()) };
    let first = run.begin_attempt();
    assert_eq!(retry_state(&first), RetryState::Ready);
    let attempt = Attempt::new(&sid, &mid);
    let crashed = ExitStatus::Exited { success: false, code: Some(1) };
    let scan = read_stderr_lines(&lines(&["Error: Session ID e3afdf0c-stale is already in use."]));
    let end = attempt.consume_attempt(ExitReason::Normal, &crashed, scan.session_conflict, retry_state(&first));
    assert!(matches!(end, AttemptOutcome::RetryWithFreshSession));

    let rows = get_session_messages(&c.messages, &c.parts, &sid);
    let plan =
        spawn_fresh(&codeagent(), Platform::Unix, &sid, &first.unwrap(), None, Some(&rows), &mid).unwrap();
    assert_eq!(plan.args, command_args("codeagentcli", None));
    assert!(plan.prompt.contains("此前对话记录"), "重试 prompt 应包含历史记录段");
    assert!(plan.prompt.contains("已定位到内存泄漏"));
    assert!(plan.prompt.contains("继续排查"));

    // The second run has nothing left to start it with.
    let second = run.begin_attempt();
    assert_eq!(retry_state(&second), RetryState::NotConfigured);
    let mut attempt = Attempt::new(&sid, &mid);
    let effect = attempt.take_line(r#"{"type":"system","subtype":"init","session_id":"fresh-agent-session"}"#);
    update_agent_session_id(&mut c.sessions, &sid, &effect.agent_session_id.unwrap());
    attempt.take_line(r#"{"type":"assistant","message":{"content":[{"type":"text","text":"retry answer"}]}}"#);
    let fine = ExitStatus::Exited { success: true, code: Some(0) };
    match attempt.consume_attempt(ExitReason::Normal, &fine, false, retry_state(&second)) {
        AttemptOutcome::Finished { status, .. } => update_message_status(&mut c.messages, &mid, &status),
        other => panic!("expected an end, got {other:?}"),
    }
    for (i, part) in attempt.accumulator.take_parts().iter().enumerate() {
        insert_text_part(&mut c.parts, &mid, i as i64, shown(part).1);
    }
    let rows = get_session_messages(&c.messages, &c.parts, &sid);
    let last = rows.last().unwrap();
    assert_eq!(last.status.as_deref(), Some("done"), "重试后 agent 消息应为 done");
    assert!(last.parts.iter().any(|p| p.text.as_deref().unwrap_or("").contains("retry answer")));
    assert_eq!(get_agent_session_id(&c.sessions, &sid).as_deref(), Some("fresh-agent-session"));
}

#[test]
fn a_fresh_start_needs_no_history() {
    let plan = spawn_fresh(&codeagent(), Platform::Unix, "s1", &retry(), None, None, "m4").unwrap();
    assert_eq!(plan.exe, "/bin/fake-agent");
    assert_eq!(plan.prompt, build_prompt("继续排查", None, "s1"));
    let none = spawn_fresh(&None, Platform::Unix, "s1", &retry(), None, None, "m4");
    assert!(matches!(none, Err(SpawnError::NoActiveAgent)));
    let gone = spawn_fresh(&agent_at("/x", false), Platform::Unix, "s1", &retry(), None, None, "m4");
    assert!(matches!(gone, Err(SpawnError::BinaryMissing { path }) if path == "/x"));
}

#[test]
fn a_single_question_is_asked_as_it_is() {
    let plan = plan_one_shot(&codeagent(), Platform::Unix, "why?").unwrap();
    assert_eq!((plan.exe.as_str(), plan.prompt.as_str()), ("/bin/fake-agent", "why?"));
    assert_eq!(plan.args, command_args("codeagentcli", None));
    assert!(!plan.args.iter().any(|a| a.starts_with("--session")));
    assert!(matches!(plan_one_shot(&None, Platform::Unix, "why?"), Err(SpawnError::NoActiveAgent)));
    let gone = plan_one_shot(&agent_at("/x", false), Platform::Unix, "why?");
    assert!(matches!(gone, Err(SpawnError::BinaryMissing { path }) if path == "/x"));
}

#[test]
fn test_consume_stream_without_retry_reports_crash_on_session_conflict() {
    let mut c = setup_conflict_scenario();
    let (sid, mid) = (c.session_id.clone(), c.agent_message_id.clone());
    let mut run = StreamRun { resume_retry: None };
    let none = run.begin_attempt();
    let attempt = Attempt::new(&sid, &mid);
    let crashed = ExitStatus::Exited { success: false, code: Some(1) };
    match attempt.consume_attempt(ExitReason::Normal, &crashed, true, retry_state(&none)) {
        AttemptOutcome::Finished { status, event, .. } => {
            update_message_status(&mut c.messages, &mid, &status);
            assert!(matches!(event, AppEvent::AgentCrashed { .. }));
        }
        other => panic!("expected an end, got {other:?}"),
    }
    let rows = get_session_messages(&c.messages, &c.parts, &sid);
    assert_eq!(rows.last().unwrap().status.as_deref(), Some("error"));
    assert_eq!(get_agent_session_id(&c.sessions, &sid).as_deref(), Some("e3afdf0c-stale"));
}

#[test]
fn output_keeps_a_run_from_being_repeated() {
    let mut attempt = Attempt::new("s1", "m4");
    attempt.take_line(r#"{"type":"text","part":{"text":"x"}}"#);
    let crashed = ExitStatus::Exited { success: false, code: Some(1) };
    let end = attempt.consume_attempt(ExitReason::Normal, &crashed, true, RetryState::Ready);
    assert!(matches!(end, AttemptOutcome::Finished { .. }));
    let cancelled = Attempt::new("s1", "m4").consume_attempt(
        ExitReason::Cancelled,
        &crashed,
        true,
        RetryState::Ready,
    );
    match cancelled {
        AttemptOutcome::Finished { event, status, .. } => {
            assert!(matches!(event, AppEvent::AgentStopped { session_id } if session_id == "s1"));
            assert_eq!(status, "stopped");
        }
        other => panic!("expected an end, got {other:?}"),
    }
}

#[test]
fn elapsed_time_of_a_tool() {
    let number = |n: &str| Json::Number(n.to_string());
    let state = |start: &str, end: &str| {
        Json::Object(vec![(
            "time".to_string(),
            Json::Object(vec![("start".to_string(), number(start)), ("end".to_string(), number(end))]),
        )])
    };
    assert_eq!(compute_elapsed_ms(&state("1000", "1800")), 800);
    assert_eq!(compute_elapsed_ms(&state("1800", "1000")), 0);
    assert_eq!(compute_elapsed_ms(&Json::Null), 0);
}

#[test]
fn long_texts_are_cut() {
    assert_eq!(truncate_chars("abc", 3), "abc");
    assert_eq!(truncate_chars("abcd", 3), "abc…（已截断）");
}

#[test]
fn what_a_tool_was_given_and_gave_is_kept_as_json() {
    let mut acc = MessageAccumulator::new("m1".to_string());
    let args = Json::Object(vec![
        ("path".to_string(), Json::Str("a \"b\"".to_string())),
        ("lines".to_string(), Json::Array(vec![Json::Number("1".to_string()), Json::Null])),
    ]);
    acc.handle_event(&AppEvent::ToolExecuting { session_id: "s".to_string(), tool: "t".to_string(), args });
    acc.handle_event(&AppEvent::ToolResult {
        session_id: "s".to_string(),
        tool: "t".to_string(),
        output: Json::Bool(true),
        elapsed_ms: 1,
    });
    match &acc.take_parts()[0] {
        AccumulatedPart::Tool { args, output, .. } => {
            assert!(args.contains(r#""path":"a \"b\"""#));
            assert!(args.contains(r#""lines":[1,null]"#));
            assert_eq!(output, "true");
        }
        other => panic!("expected a tool, got {other:?}"),
    }
}
