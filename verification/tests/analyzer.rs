use friday::analyzer::client::{
    call_arguments, call_outcome, extract_text, worker_args, CallOutcome, ContentBlock,
};
use friday::analyzer::java::{
    detect_java, java_candidates, java_home_exe, parse_java_version, JavaProbe,
};
use friday::analyzer::manager::{
    is_heap_dump, key_of_absolute, normalize_dump_path, query_arguments, strip_verbatim_prefix,
    warm_up_ended, warm_up_started, xmx_gb_for, CallResult, HeapAnalyzerManager, ManagerConfig,
    ManagerError, OpenResult, OpenSignal, OpenStep, Whereabouts, ANALYZER_JAR_NAME, GB,
};
use friday::analyzer::session::{DumpSessions, EntryPhase};
use friday::infra::pathname::Platform;
use friday::json::Json;
use std::path::Path;

#[test]
fn test_parse_modern_versions() {
    assert_eq!(parse_java_version(r#"openjdk version "21.0.3" 2024-04-16"#), Some(21));
    assert_eq!(parse_java_version(r#"openjdk version "17.0.2" 2022-01-18"#), Some(17));
    assert_eq!(parse_java_version(r#"openjdk version "25" 2025-09-16"#), Some(25));
    assert_eq!(parse_java_version(r#"openjdk version "21.0.11" 2025-01-21"#), Some(21));
}

#[test]
fn test_parse_legacy_1_8_format() {
    assert_eq!(parse_java_version(r#"java version "1.8.0_391""#), Some(8));
    assert_eq!(parse_java_version(r#"java version "1.8.0_391" Java(TM) SE"#), Some(8));
}

#[test]
fn test_parse_garbage_returns_none() {
    assert_eq!(parse_java_version(""), None);
    assert_eq!(parse_java_version("xyz"), None);
    assert_eq!(parse_java_version("Runtime Environment (build 25+36)"), None);
}

#[test]
fn test_parse_empty_quoted_version_returns_none() {
    assert_eq!(parse_java_version(r#"openjdk version """#), None);
}

#[test]
fn test_parse_multiline_realistic_output() {
    let output = r#"openjdk version "21.0.3" 2024-04-16
OpenJDK Runtime Environment (build 21.0.3+9-LTS)
OpenJDK 64-Bit Server VM (build 21.0.3+9-LTS, mixed mode, sharing)"#;
    assert_eq!(parse_java_version(output), Some(21));
}

#[test]
fn odd_versions_are_read_or_refused() {
    assert_eq!(parse_java_version("java version \"1\""), None);
    assert_eq!(parse_java_version("java version \"1.x\""), None);
    assert_eq!(parse_java_version("java version \"1.0\""), None);
    assert_eq!(parse_java_version("java version \"+17.1\""), Some(17));
    assert_eq!(parse_java_version("version version \"17\""), None);
    assert_eq!(parse_java_version("openjdk version \"x\""), None);
}

#[test]
fn test_java_candidates_prefers_java_home_when_file_exists() {
    let exe = java_home_exe("/opt/jdk", Platform::Unix);
    assert_eq!(exe, "/opt/jdk/bin/java");
    assert_eq!(java_home_exe("C:/jdk", Platform::Windows), "C:/jdk\\bin\\java.exe");
    let cands = java_candidates(Some("/opt/jdk"), true, Some("/usr/bin/java"), Platform::Unix);
    assert_eq!(cands, vec!["/opt/jdk/bin/java".to_string(), "/usr/bin/java".to_string()]);
    let cands = java_candidates(Some("/opt/jdk"), true, Some("/opt//jdk/./bin/java"), Platform::Unix);
    assert_eq!(cands, vec!["/opt/jdk/bin/java".to_string()]);
    let cands = java_candidates(Some("C:/definitely/not/here"), false, None, Platform::Unix);
    assert!(cands.iter().all(|p| !p.contains("not/here")));
}

fn probe(path: &str, output: Result<&str, &str>) -> JavaProbe {
    JavaProbe {
        path: path.to_string(),
        output: output.map(|s| s.to_string()).map_err(|s| s.to_string()),
    }
}

#[test]
fn the_first_java_that_will_do_is_taken() {
    assert_eq!(
        detect_java(&vec![]).unwrap_err(),
        "未找到 java 可执行文件（已检查 JAVA_HOME 与 PATH）"
    );
    let old = || probe("/a", Ok("openjdk version \"17.0.2\""));
    assert_eq!(detect_java(&vec![old()]).unwrap_err(), "找到 /a 但为 Java 17，需要 21+");
    assert_eq!(
        detect_java(&vec![old(), probe("/b", Ok("?"))]).unwrap_err(),
        "无法解析 /b 的版本输出"
    );
    assert_eq!(
        detect_java(&vec![old(), probe("/b", Err("x"))]).unwrap_err(),
        "执行 /b -version 失败: x"
    );
    let found = detect_java(&vec![
        old(),
        probe("/b", Ok("openjdk version \"21.0.3\"")),
        probe("/c", Ok("openjdk version \"25\"")),
    ])
    .unwrap();
    assert_eq!((found.path.as_str(), found.major), ("/b", 21));
}

#[test]
fn test_extract_text_joins_text_blocks() {
    let content = vec![
        ContentBlock::Text("hello".to_string()),
        ContentBlock::Other,
        ContentBlock::Text("world".to_string()),
    ];
    assert_eq!(extract_text(&content), "hello\nworld");
}

#[test]
fn test_extract_text_empty_content() {
    assert_eq!(extract_text(&vec![]), "");
}

#[test]
fn test_extract_text_from_error_result() {
    let result = call_outcome(&vec![ContentBlock::Text("bad".to_string())], Some(true));
    assert_eq!(result.text, "bad");
    assert!(result.is_error);
    assert!(!call_outcome(&vec![], None).is_error);
}

#[test]
fn calls_and_options_are_put_together() {
    assert_eq!(worker_args(9, "a.jar"), vec!["-Xmx9g", "-jar", "a.jar"]);
    assert!(call_arguments(Json::Null).is_empty());
    let args = call_arguments(Json::Object(vec![("a".to_string(), Json::Bool(true))]));
    assert_eq!(args.len(), 1);
    assert_eq!(args[0].0, "a");
}

#[test]
fn test_xmx_gb_for_matrix() {
    assert_eq!(xmx_gb_for(0), 4);
    assert_eq!(xmx_gb_for(GB), 4); // 1.5GB → ceil 2 → clamp 4
    assert_eq!(xmx_gb_for(3 * GB), 5); // 4.5 → 5
    assert_eq!(xmx_gb_for(6 * GB), 9);
    assert_eq!(xmx_gb_for(9 * GB), 12); // 13.5 → 14 → clamp 12
    assert_eq!(xmx_gb_for(100 * GB), 12);
}

#[test]
fn memory_is_rounded_up_and_bounded() {
    assert_eq!(xmx_gb_for(4 * GB), 6);
    assert_eq!(xmx_gb_for(4 * GB + 1), 7);
    assert_eq!(xmx_gb_for(8 * GB), 12);
    assert_eq!(xmx_gb_for(u64::MAX), 12);
}

#[test]
fn test_manager_new_outside_tokio_runtime_does_not_panic() {
    let m = HeapAnalyzerManager::new(Platform::Unix, 0);
    assert!(m.client.is_none());
    let c = ManagerConfig::default();
    assert_eq!((c.idle_timeout, c.idle_tick), (900_000, 30_000));
}

#[test]
fn test_normalize_dump_path_forms() {
    let win = |p: &str| key_of_absolute(&strip_verbatim_prefix(p), Platform::Windows);
    let a = win("C:/Foo/Bar.hprof");
    assert_eq!(a, "c:\\Foo\\Bar.hprof");
    assert_eq!(a, win("c:\\Foo\\Bar.hprof"));
    assert_eq!(win(r"\\?\C:\Foo\Bar.hprof"), "c:\\Foo\\Bar.hprof");
    assert_eq!(win(r"\\?\UNC\server\share\Bar.hprof"), "\\\\server\\share\\Bar.hprof");
    let full = |p: &str, f: &str| normalize_dump_path(p, Whereabouts::Windows { full: Some(f) });
    assert_eq!(full(r"\\?\C:\Foo\Bar.hprof", "C:\\Foo\\Bar.hprof"), a);
    assert_eq!(normalize_dump_path("C:/Foo/Bar.hprof", Whereabouts::Windows { full: None }), a);
    assert!(Path::new(&normalize_dump_path("foo/bar.hprof", HERE)).is_absolute());
}

/// Where the tests are said to run.
const HERE: Whereabouts<'static> = Whereabouts::Unix { cwd: Some("/home/me") };

#[test]
fn a_dump_has_one_name() {
    let key = |p: &str| normalize_dump_path(p, HERE);
    assert_eq!(key("foo/bar.hprof"), "/home/me/foo/bar.hprof");
    assert_eq!(key("./foo/../bar.hprof"), "/home/me/foo/../bar.hprof");
    assert_eq!(key("/a/./b//c.hprof"), "/a/b/c.hprof");
    assert_eq!(key("//srv/a/"), "//srv/a/");
    assert_eq!(key("///a"), "/a");
    assert_eq!(key("./"), "/home/me/");
    assert_eq!(key("."), "/home/me");
    assert_eq!(key(""), "");
    assert_eq!(key(r"\\?\/a/b"), key("/a/b"));
    for p in ["foo/bar.hprof", "/a/./b//c.hprof", "//x", "a/.", "/", "../x/"] {
        let k = key(p);
        assert_eq!(key(&k), k, "{p}");
        if !p.is_empty() {
            let real = std::path::absolute(Path::new("/home/me").join(p)).unwrap();
            assert_eq!(Path::new(&k), real.as_path(), "{p}");
        }
    }
    assert_eq!(normalize_dump_path("foo", Whereabouts::Unix { cwd: None }), "foo");
}

#[test]
fn test_strip_verbatim_prefix_forms() {
    assert_eq!(strip_verbatim_prefix(r"C:\foo\bar.jar"), r"C:\foo\bar.jar");
    assert_eq!(strip_verbatim_prefix(r"\\?\C:\foo\bar.jar"), r"C:\foo\bar.jar");
    assert_eq!(strip_verbatim_prefix(r"\\?\UNC\server\share\bar.jar"), r"\\server\share\bar.jar");
    assert_eq!(strip_verbatim_prefix("/foo/bar.jar"), "/foo/bar.jar");
}

fn failed() -> EntryPhase {
    EntryPhase::Failed { error: ManagerError::Unavailable("boom".to_string()) }
}

fn ready(summary: &str) -> EntryPhase {
    EntryPhase::Ready { summary: summary.to_string() }
}

#[test]
fn test_begin_starts_warming_and_returns_receiver() {
    let mut s = DumpSessions::new(Platform::Unix);
    let victims = s.begin("/a.hprof", "id-1", 0);
    assert!(victims.is_empty());
    assert_eq!(s.len(), 1);
    assert!(matches!(s.phase("/a.hprof"), Some(EntryPhase::Warming)));
}

#[test]
fn test_set_phase_ready_notifies_receiver() {
    let mut s = DumpSessions::new(Platform::Unix);
    s.begin("/a.hprof", "id-1", 0);
    assert!(s.set_phase("/a.hprof", "id-1", ready("SUM"), 1));
    assert!(matches!(s.phase("/a.hprof"), Some(EntryPhase::Ready { .. })));
    assert!(!s.set_phase("/nope", "id-1", ready(""), 2));
}

#[test]
fn test_set_phase_failed_keeps_entry_for_waiters() {
    let mut s = DumpSessions::new(Platform::Unix);
    s.begin("/a.hprof", "id-1", 0);
    s.set_phase("/a.hprof", "id-1", failed(), 1);
    assert!(matches!(s.phase("/a.hprof"), Some(EntryPhase::Failed { .. })));
    assert_eq!(s.len(), 1, "failed entry kept so waiters can read the error");
}

#[test]
fn test_remove_returns_analyzer_id() {
    let mut s = DumpSessions::new(Platform::Unix);
    s.begin("/a.hprof", "id-1", 0);
    assert_eq!(s.remove("/a.hprof").as_deref(), Some("id-1"));
    assert_eq!(s.remove("/a.hprof"), None);
    assert!(s.is_empty());
}

#[test]
fn test_evict_lru_picks_oldest_ready_and_skips_warming() {
    let mut s = DumpSessions::new(Platform::Unix);
    for (n, (p, id)) in [("/a.hprof", "a"), ("/b.hprof", "b"), ("/c.hprof", "c")].iter().enumerate() {
        s.begin(p, id, n as u64);
        s.set_phase(p, id, ready("S"), n as u64);
    }
    s.begin("/b.hprof", "b2", 9);
    let victim = s.evict_lru();
    assert_eq!(victim, Some(("/a.hprof".to_string(), "a".to_string())));
    assert_eq!(s.len(), 2);
}

#[test]
fn test_touch_affects_lru_order() {
    let mut s = DumpSessions::new(Platform::Unix);
    for (n, (p, id)) in [("/a.hprof", "a"), ("/b.hprof", "b")].iter().enumerate() {
        s.begin(p, id, n as u64);
        s.set_phase(p, id, ready("S"), n as u64);
    }
    s.touch("/a.hprof", 5);
    let (p, id) = s.evict_lru().unwrap();
    assert_eq!((p.as_str(), id.as_str()), ("/b.hprof", "b"));
}

#[test]
fn test_begin_evicts_until_cap_reached() {
    let mut s = DumpSessions::new(Platform::Unix);
    for (n, (p, id)) in [("/a.hprof", "a"), ("/b.hprof", "b"), ("/c.hprof", "c")].iter().enumerate() {
        s.begin(p, id, n as u64);
        s.set_phase(p, id, ready("S"), n as u64);
    }
    let victims = s.begin("/d.hprof", "d", 3);
    assert_eq!(victims.len(), 1);
    assert!(victims[0].0.ends_with("a.hprof"));
    assert_eq!(s.len(), 3);
    let victims = s.begin("/e.hprof", "e", 4);
    assert_eq!(victims.len(), 1);
    assert!(victims[0].0.ends_with("b.hprof"));
    assert_eq!(s.len(), 3);
}

#[test]
fn test_set_phase_rejects_stale_session_id() {
    let mut s = DumpSessions::new(Platform::Unix);
    s.begin("/a.hprof", "old", 0);
    s.begin("/a.hprof", "new", 1);
    assert!(!s.set_phase("/a.hprof", "old", failed(), 2));
    assert!(matches!(s.phase("/a.hprof"), Some(EntryPhase::Warming)));
    assert!(s.set_phase("/a.hprof", "new", ready("S"), 3));
    assert!(matches!(s.phase("/a.hprof"), Some(EntryPhase::Ready { .. })));
}

#[test]
fn test_remove_under_dir_sibling_prefix_not_matched() {
    let mut s = DumpSessions::new(Platform::Unix);
    s.begin("/artifacts/sess-1/a.hprof", "a", 0);
    s.begin("/artifacts/sess-12/b.hprof", "b", 0);
    let removed = s.remove_under_dir("/artifacts/sess-1");
    assert_eq!(removed.len(), 1);
    assert!(removed[0].0.ends_with("a.hprof"));
    assert_eq!(s.len(), 1);
    assert_eq!(s.analyzer_id("/artifacts/sess-12/b.hprof").as_deref(), Some("b"));
}

#[test]
fn test_remove_under_dir_scopes_by_prefix() {
    let mut s = DumpSessions::new(Platform::Unix);
    s.begin("/artifacts/sess-1/a.hprof", "a", 0);
    s.begin("/artifacts/sess-1/b.hprof", "b", 0);
    s.begin("/artifacts/sess-2/c.hprof", "c", 0);
    let removed = s.remove_under_dir("/artifacts/sess-1");
    assert_eq!(removed.len(), 2);
    assert!(removed.iter().all(|(p, _)| p.starts_with("/artifacts/sess-1/")));
    assert_eq!(s.len(), 1);
    assert_eq!(s.analyzer_id("/artifacts/sess-2/c.hprof").as_deref(), Some("c"));
}

fn begin(m: &mut HeapAnalyzerManager, key: &str, now: u64) -> (String, Vec<(String, String)>) {
    match m.open(key, HERE, now).1 {
        OpenStep::Begin { analyzer_id, victims } => (analyzer_id, victims),
        other => panic!("expected to begin, got {other:?}"),
    }
}

fn answer(text: &str, is_error: bool) -> CallResult {
    CallResult::Answered(CallOutcome { text: text.to_string(), is_error })
}

fn opened(m: &mut HeapAnalyzerManager, key: &str, now: u64) -> String {
    let (id, _) = begin(m, key, now);
    let done = m.run_open_task(key, &id, OpenResult::Call(answer("SUMMARY", false)), now);
    assert!(!done.release);
    assert_eq!(done.shut_down, None);
    id
}

fn with_worker() -> HeapAnalyzerManager {
    let mut m = HeapAnalyzerManager::new(Platform::Unix, 0);
    assert!(m.ensure_client(1, 0));
    m
}

#[test]
fn test_path_variants_share_session() {
    let mut m = with_worker();
    let a = "/d/a.hprof";
    opened(&mut m, a, 0);
    let variant = a.replace('\\', "/");
    assert!(matches!(m.open(&variant, HERE, 1).1, OpenStep::Cached(s) if s == "SUMMARY"));
}

#[test]
fn other_ways_to_write_a_path_share_a_session() {
    let mut m = with_worker();
    opened(&mut m, "/home/me/a.hprof", 0);
    for variant in ["a.hprof", "./a.hprof", "/home/./me//a.hprof", r"\\?\/home/me/a.hprof"] {
        let (key, step) = m.open(variant, HERE, 1);
        assert_eq!(key, "/home/me/a.hprof");
        assert!(matches!(step, OpenStep::Cached(_)), "{variant}");
    }
}

#[test]
fn test_path_drive_case_variant_shares_session() {
    assert_eq!(
        key_of_absolute("D:\\d/a.hprof", Platform::Windows),
        key_of_absolute("d:/d\\a.hprof", Platform::Windows)
    );
    let mut m = HeapAnalyzerManager::new(Platform::Windows, 0);
    m.ensure_client(1, 0);
    let at = |p: &'static str| Whereabouts::Windows { full: Some(p) };
    let (key, step) = m.open("D:\\d\\a.hprof", at("D:\\d\\a.hprof"), 0);
    let OpenStep::Begin { analyzer_id, .. } = step else { panic!("expected to begin") };
    m.run_open_task(&key, &analyzer_id, OpenResult::Call(answer("S", false)), 1);
    let (_, step) = m.open("d:\\d\\a.hprof", at("d:\\d\\a.hprof"), 2);
    assert!(matches!(step, OpenStep::Cached(s) if s == "S"));
}

#[test]
fn test_open_caches_summary_and_reuses_worker() {
    let mut m = with_worker();
    let id = opened(&mut m, "/a.hprof", 0);
    assert_eq!(id.len(), 36);
    match m.open("/a.hprof", HERE, 5).1 {
        OpenStep::Cached(summary) => assert_eq!(summary, "SUMMARY"),
        other => panic!("expected the summary, got {other:?}"),
    }
    assert_eq!(m.last_active, 5);
    assert!(!m.ensure_client(2, 6));
}

#[test]
fn test_concurrent_open_dedups_to_single_upstream_call() {
    let mut m = with_worker();
    begin(&mut m, "/a.hprof", 0);
    assert!(matches!(m.open("/a.hprof", HERE, 1).1, OpenStep::Attach));
    let done = m.wait_open("/a.hprof", OpenSignal::Phase(ready("SUMMARY")), 30, 2);
    assert_eq!(done.unwrap().unwrap(), "SUMMARY");
}

#[test]
fn test_open_evicts_lru_when_exceeding_max() {
    let mut m = with_worker();
    let a = opened(&mut m, "/a.hprof", 0);
    opened(&mut m, "/b.hprof", 1);
    opened(&mut m, "/c.hprof", 2);
    let (_, victims) = begin(&mut m, "/d.hprof", 3);
    assert_eq!(victims, vec![("/a.hprof".to_string(), a)], "oldest ready session must be evicted");
    assert!(matches!(m.query("/a.hprof", HERE, 4), Err(ManagerError::NotOpen { warming: false })));
    assert!(m.query("/b.hprof", HERE, 4).is_ok());
    assert!(m.query("/c.hprof", HERE, 4).is_ok());
}

#[test]
fn test_query_requires_ready_and_reports_warming() {
    let mut m = with_worker();
    assert!(matches!(m.query("/a.hprof", HERE, 0), Err(ManagerError::NotOpen { warming: false })));
    begin(&mut m, "/a.hprof", 0);
    assert!(matches!(m.query("/a.hprof", HERE, 0), Err(ManagerError::NotOpen { warming: true })));
}

#[test]
fn test_query_routes_and_injects_session_id() {
    let mut m = with_worker();
    let id = opened(&mut m, "/a.hprof", 0);
    let (told, client) = m.query("/a.hprof", HERE, 1).unwrap();
    assert_eq!(told, id);
    assert_eq!(client, 1);
    let args = Json::Object(vec![("limit".to_string(), Json::Number("10".to_string()))]);
    let args = query_arguments(args, &told);
    assert!(matches!(args.get("id"), Some(Json::Str(s)) if *s == id));
    assert!(matches!(args.get("limit"), Some(Json::Number(n)) if n == "10"));
}

#[test]
fn test_query_upstream_tool_error_keeps_session() {
    let mut m = with_worker();
    opened(&mut m, "/a.hprof", 0);
    m.query("/a.hprof", HERE, 1).unwrap();
    m.begin_call();
    let (r, gone) = m.guarded_call(answer("MAT error: bad query", true), 10, 2);
    match r {
        Err(ManagerError::Upstream(e)) => assert!(e.contains("MAT error")),
        other => panic!("expected Upstream, got {other:?}"),
    }
    assert_eq!(gone, None);
    assert!(m.query("/a.hprof", HERE, 3).is_ok());
}

#[test]
fn test_query_transport_error_invalidates_and_respawns() {
    let mut m = with_worker();
    opened(&mut m, "/a.hprof", 0);
    m.begin_call();
    let (r, gone) = m.guarded_call(CallResult::TransportFailed("transport closed".to_string()), 10, 1);
    assert!(matches!(r, Err(ManagerError::Unavailable(e)) if e == "transport closed"));
    assert_eq!(gone, Some(1));
    assert!(matches!(m.query("/a.hprof", HERE, 2), Err(ManagerError::NotOpen { warming: false })));
    begin(&mut m, "/a.hprof", 3);
}

#[test]
fn test_open_task_factory_failure_surfaces_error() {
    let mut m = HeapAnalyzerManager::new(Platform::Unix, 0);
    let (id, _) = begin(&mut m, "/a.hprof", 0);
    let missing = ManagerError::JavaMissing("no java".to_string());
    m.run_open_task("/a.hprof", &id, OpenResult::NoClient(missing), 1);
    let phase = m.sessions.phase("/a.hprof").unwrap();
    match m.wait_open("/a.hprof", OpenSignal::Phase(phase), 10, 2) {
        Some(Err(e)) => assert_eq!(e.message(), "no java"),
        other => panic!("expected the failure, got {other:?}"),
    }
    begin(&mut m, "/a.hprof", 3);
}

#[test]
fn test_timeout_does_not_kill_worker() {
    let mut m = with_worker();
    opened(&mut m, "/a.hprof", 0);
    m.begin_call();
    let (r, gone) = m.guarded_call(CallResult::TimedOut, 1, 2);
    assert!(matches!(r, Err(ManagerError::Timeout(1))));
    assert_eq!(gone, None);
    assert_eq!(m.client, Some(1));
}

#[test]
fn test_close_removes_and_calls_upstream_idempotent() {
    let mut m = with_worker();
    let id = opened(&mut m, "/a.hprof", 0);
    assert_eq!(m.close("/a.hprof", HERE, 1), Some(id));
    assert_eq!(m.close("/a.hprof", HERE, 2), None);
}

#[test]
fn test_idle_exit_shuts_down_worker() {
    let mut m = with_worker();
    opened(&mut m, "/a.hprof", 0);
    assert_eq!(m.reap(1000, 150), None);
    m.close("/a.hprof", HERE, 1000);
    assert_eq!(m.reap(1149, 150), None);
    assert_eq!(m.reap(1150, 150), Some(1));
    assert_eq!(m.reap(9999, 150), None);
}

#[test]
fn test_close_for_friday_session_scoped_to_artifacts_dir() {
    let mut m = with_worker();
    let a = opened(&mut m, "/artifacts/11111111-1111-1111-1111-111111111111/a.hprof", 0);
    opened(&mut m, "/artifacts/22222222-2222-2222-2222-222222222222/b.hprof", 0);
    let gone = m.close_for_friday_session("/artifacts/11111111-1111-1111-1111-111111111111", HERE, 1);
    assert_eq!(gone.len(), 1, "only sid1's dump closed");
    assert_eq!(gone[0].1, a);
    assert!(m.query("/artifacts/22222222-2222-2222-2222-222222222222/b.hprof", HERE, 2).is_ok());
}

#[test]
fn test_open_timeout_then_attach_recovers() {
    let mut m = with_worker();
    let (id, _) = begin(&mut m, "/a.hprof", 0);
    match m.wait_open("/a.hprof", OpenSignal::TimedOut, 1, 1) {
        Some(Err(e)) => assert_eq!(e.message(), "分析调用超时（1s），工人进程保留未受影响"),
        other => panic!("expected a timeout, got {other:?}"),
    }
    assert!(matches!(m.open("/a.hprof", HERE, 2).1, OpenStep::Attach));
    m.run_open_task("/a.hprof", &id, OpenResult::Call(answer("SUMMARY", false)), 3);
    assert!(matches!(m.open("/a.hprof", HERE, 4).1, OpenStep::Cached(s) if s == "SUMMARY"));
}

#[test]
fn test_close_during_warming_then_open_retries_cleanly() {
    let mut m = with_worker();
    let (first, _) = begin(&mut m, "/a.hprof", 0);
    assert_eq!(m.close("/a.hprof", HERE, 1), Some(first.clone()));
    match m.wait_open("/a.hprof", OpenSignal::Gone, 30, 1) {
        Some(Err(ManagerError::Unavailable(e))) => {
            assert_eq!(e, "分析会话已失效（工人进程可能已崩溃），请重试 heap_open")
        }
        other => panic!("expected to see it gone, got {other:?}"),
    }
    let (second, _) = begin(&mut m, "/a.hprof", 2);
    let orphan = m.run_open_task("/a.hprof", &first, OpenResult::Call(answer("S", false)), 3);
    assert!(orphan.release);
    assert!(matches!(m.sessions.phase("/a.hprof"), Some(EntryPhase::Warming)));
    let failed = m.run_open_task("/a.hprof", &first, OpenResult::Call(answer("S", true)), 3);
    assert!(!failed.release);
    let done = m.run_open_task("/a.hprof", &second, OpenResult::Call(answer("S", false)), 4);
    assert!(!done.release);
}

#[test]
fn an_analyzer_that_is_lost_takes_all_dumps_along() {
    let mut m = with_worker();
    opened(&mut m, "/a.hprof", 0);
    let (id, _) = begin(&mut m, "/b.hprof", 1);
    let lost = OpenResult::Call(CallResult::TransportFailed("x".to_string()));
    let done = m.run_open_task("/b.hprof", &id, lost, 2);
    assert_eq!(done.shut_down, Some(1));
    assert!(!done.release);
    assert!(m.sessions.is_empty());
    opened(&mut m, "/a.hprof", 3);
    assert!(matches!(m.query("/a.hprof", HERE, 4), Err(ManagerError::Unavailable(e)) if e == "工人进程不在运行"));
    let (id, _) = begin(&mut m, "/c.hprof", 5);
    m.run_open_task("/c.hprof", &id, OpenResult::Call(CallResult::TimedOut), 6);
    assert!(matches!(
        m.sessions.phase("/c.hprof"),
        Some(EntryPhase::Failed { error: ManagerError::Timeout(1800) })
    ));
}

#[test]
fn test_download_complete_hook_warms_hprof_only() {
    assert!(is_heap_dump("/tmp/remote/a.hprof", Platform::Unix));
    assert!(is_heap_dump("C:\\x\\a.HPROF", Platform::Windows));
    assert!(is_heap_dump("/x/a.hprof/.", Platform::Unix));
    assert!(!is_heap_dump("b.log", Platform::Unix));
    assert!(!is_heap_dump(".hprof", Platform::Unix));
    assert!(!is_heap_dump("hprof", Platform::Unix));
}

#[test]
fn test_warm_up_failure_emits_event_and_open_still_possible() {
    let mut m = HeapAnalyzerManager::new(Platform::Unix, 0);
    let (id, _) = begin(&mut m, "/a.hprof", 0);
    let missing = ManagerError::JavaMissing("no java".to_string());
    m.run_open_task("/a.hprof", &id, OpenResult::NoClient(missing), 1);
    let phase = m.sessions.phase("/a.hprof").unwrap();
    let Some(Err(e)) = m.wait_open("/a.hprof", OpenSignal::Phase(phase), 10, 2) else {
        panic!("expected the failure")
    };
    assert_eq!(
        warm_up_ended("/a.hprof", Some(&e)),
        "分析预热失败（不影响对话，可手动 heap_open 重试）：no java"
    );
    m.ensure_client(1, 3);
    opened(&mut m, "/a.hprof", 3);
    assert!(m.query("/a.hprof", HERE, 4).is_ok());
}

#[test]
fn warming_up_is_told_in_words() {
    assert_eq!(warm_up_started("/a"), "拉回完成，后台分析预热开始（MAT 建索引）：/a");
    assert_eq!(warm_up_ended("/a", None), "分析就绪，heap_* 工具可直接查询：/a");
    let e = ManagerError::NotOpen { warming: false };
    assert_eq!(
        warm_up_ended("/a", Some(&e)),
        "分析预热失败（不影响对话，可手动 heap_open 重试）：该 dump 尚未打开"
    );
}

#[test]
fn the_program_of_the_analyzer_has_its_name() {
    assert_eq!(ANALYZER_JAR_NAME, "jvm-heap-dump-mcp-0.2.0-all.jar");
}
