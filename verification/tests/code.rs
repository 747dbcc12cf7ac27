use friday::code::git::{
    file_url, git_args, git_timeout, parse_progress, ref_candidates, ref_hash, repo_id, resolve_ref, run_git,
    url_hash, validate_repo_url, GitCommand, GitEnd, GitResult, ProgressScan,
};
use friday::code::manager::{
    cached_url, list_cache, CodeRepoManager, RepoCacheEntry, RepoPhase, RepoState,
};
use friday::code::pipeline::{should_fetch, Pipeline, PipelineAction, PipelineEvent};
use friday::code::search::{
    check_readable, is_binary, list_files, read_file, rel_display, resolve_in_worktree, SearchRun, LIST_MAX,
    MAX_CONTEXT_LINES,
};
use friday::infra::pathname::Platform;
use ignore::gitignore::GitignoreBuilder;
use ignore::overrides::OverrideBuilder;

#[test]
fn test_url_hash_stable_16_hex() {
    let a = url_hash("https://git.example.com/bar.git");
    assert_eq!(a.len(), 16);
    assert!(a.chars().all(|c| c.is_ascii_hexdigit()));
    assert_eq!(a, url_hash("https://git.example.com/bar.git"));
    assert_ne!(a, url_hash("https://git.example.com/baz.git"));
}

#[test]
fn test_ref_hash_and_repo_id() {
    assert_eq!(ref_hash("main").len(), 16);
    let id1 = repo_id("https://a.git", "main");
    assert_eq!(id1, repo_id("https://a.git", "main"));
    assert_ne!(id1, repo_id("https://a.git", "v1.0"));
    assert_ne!(id1, repo_id("https://b.git", "main"));
}

#[test]
fn test_validate_repo_url_rules() {
    assert!(validate_repo_url("https://gitlab.example.com/foo/bar.git").is_ok());
    assert!(validate_repo_url("file:///C:/some/repo").is_ok());
    assert!(validate_repo_url("ssh://git@example.com/foo.git").is_err());
    assert!(validate_repo_url("git@example.com:foo/bar.git").is_err());
    assert!(validate_repo_url("ftp://example.com/x").is_err());
    assert!(validate_repo_url("example.com/x").is_err());
    assert!(validate_repo_url("").is_err());
    assert!(validate_repo_url("https://x.com/a b").is_err());
}

#[test]
fn test_parse_progress_variants() {
    assert_eq!(
        parse_progress("Receiving objects:  45% (123/273), 1.20 MiB | 2.30 MiB/s"),
        Some("Receiving objects: 45%".to_string())
    );
    assert_eq!(
        parse_progress("remote: Enumerating objects: 12, done."),
        None
    );
    assert_eq!(parse_progress("Resolving deltas: 100% (273/273)"), Some("Resolving deltas: 100%".to_string()));
    assert_eq!(parse_progress("Unpacking objects: 100%"), None); // 不在白名单
}

#[test]
fn test_should_fetch_decision() {
    assert!(!should_fetch("main", true));
    assert!(!should_fetch("0123456789abcdef0123456789abcdef01234567", true));
    assert!(!should_fetch("0123456789abcdef0123456789abcdef01234567", false));
    assert!(should_fetch("zzzz456789abcdef0123456789abcdef01234567", false));
    assert!(should_fetch("main", false));
    assert!(should_fetch("v1.0", false));
    assert!(should_fetch("feature-x", false));
}

#[test]
fn hashes_are_those_of_sha_256() {
    assert_eq!(url_hash("abc"), "ba7816bf8f01cfea");
    assert_eq!(ref_hash("main"), url_hash("main"));
}

#[test]
fn test_drain_stderr_with_progress_incremental() {
    let mut scan = ProgressScan::new();
    assert_eq!(scan.feed(b"Receiving objects:  10% (1/10)\r"), vec!["Receiving objects: 10%"]);
    assert!(scan.feed(b"remote: Enumerating objects: 12, done.\n").is_empty());
    assert!(scan.feed(b"Receiving obj").is_empty());
    assert_eq!(scan.feed(b"ects:  50% (5/10)\r"), vec!["Receiving objects: 50%"]);
    let (last, stderr) = scan.finish();
    assert_eq!(last, None);
    let text = run_git(&vec![], GitEnd::Exited { success: true, stdout: vec![], stderr }).stderr;
    assert_eq!(
        text,
        "Receiving objects:  10% (1/10)\rremote: Enumerating objects: 12, done.\nReceiving objects:  50% (5/10)\r"
    );
}

#[test]
fn test_file_url_clone_roundtrip() {
    let mut source = Source::new();
    let url = file_url("/tmp/src");
    assert!(url.starts_with("file:///"));
    let clone = GitCommand::Clone { url, clone_dir: "/tmp/dst/clone".to_string() };
    let res = source.run(&clone);
    assert!(res.success, "clone failed: {}", res.stderr);
    let mut resolve = |git_ref: &str| {
        let answers: Vec<GitResult> = ref_candidates(git_ref)
            .into_iter()
            .map(|name| source.run(&GitCommand::Resolve { clone_dir: "/tmp/dst/clone".to_string(), name }))
            .collect();
        resolve_ref(&answers)
    };
    assert!(resolve("v1.0").is_some());
    assert!(resolve("feature-x").is_some(), "remote-tracking fallback for non-default branch");
    assert!(resolve("no-such-branch").is_none());
}

fn git(success: bool, stdout: &str, stderr: &str) -> GitResult {
    GitResult { success, stdout: stdout.to_string(), stderr: stderr.to_string() }
}

/// A repository that other places can clone: two commits on `main`, the first of them
/// tagged, and a branch. It answers git commands as git does, without any files.
struct Source {
    reachable: bool,
    cloned: bool,
    /// Where files were put, and at which commit.
    worktrees: Vec<(String, String)>,
}

const FIRST: &str = "1111111111111111111111111111111111111111";
const HEAD: &str = "2222222222222222222222222222222222222222";
const FEATURE: &str = "3333333333333333333333333333333333333333";

impl Source {
    fn new() -> Self {
        Source { reachable: true, cloned: false, worktrees: Vec::new() }
    }

    fn files(&self, worktree: &str) -> Vec<&'static str> {
        let sha = self.worktrees.iter().find(|w| w.0 == worktree).map(|w| w.1.as_str());
        match sha {
            Some(FIRST) => vec!["README.md", "src/Bar.java"],
            Some(HEAD) => vec!["README.md", "src/Bar.java", "src/Baz.java"],
            Some(FEATURE) => vec!["README.md", "src/Bar.java", "src/Baz.java", "src/Feature.java"],
            _ => vec![],
        }
    }

    fn there(&self, worktree: &str) -> bool {
        self.worktrees.iter().any(|w| w.0 == worktree)
    }

    fn put(&mut self, worktree: &str, sha: &str) {
        self.worktrees.retain(|w| w.0 != worktree);
        self.worktrees.push((worktree.to_string(), sha.to_string()));
    }

    fn answer(&mut self, args: &[String]) -> Result<String, String> {
        let words: Vec<&str> = args.iter().map(|a| a.as_str()).collect();
        match words.as_slice() {
            ["clone", _, _] | ["-C", _, "fetch", ..] if !self.reachable => {
                Err("fatal: unable to access the repository\n".to_string())
            }
            ["clone", _, _] => {
                self.cloned = true;
                Ok(String::new())
            }
            ["-C", _, "fetch", "--force", "origin", "main" | "v1.0" | "feature-x"] => Ok(String::new()),
            ["-C", _, "fetch", "--force", "origin", other] => {
                Err(format!("fatal: couldn't find remote ref {other}\n"))
            }
            ["-C", _, "rev-parse", "--verify", name] => match name.strip_suffix("^{commit}") {
                Some("main" | "origin/main") => Ok(format!("{HEAD}\n")),
                Some("v1.0") => Ok(format!("{FIRST}\n")),
                Some("origin/feature-x") => Ok(format!("{FEATURE}\n")),
                Some(sha @ (FIRST | HEAD | FEATURE)) => Ok(format!("{sha}\n")),
                _ => Err("fatal: Needed a single revision\n".to_string()),
            },
            ["-C", worktree, "checkout", "--force", sha] if self.there(worktree) => {
                self.put(worktree, sha);
                Ok(String::new())
            }
            ["-C", _, "worktree", "prune"] => Ok(String::new()),
            ["-C", _, "worktree", "add", "--detach", worktree, sha] if !self.there(worktree) => {
                self.put(worktree, sha);
                Ok(String::new())
            }
            other => Err(format!("unexpected: {other:?}")),
        }
    }

    fn run(&mut self, command: &GitCommand) -> GitResult {
        let args = git_args(command);
        let (success, stdout, stderr) = match self.answer(&args) {
            Ok(out) => (true, out, String::new()),
            Err(err) => (false, String::new(), err),
        };
        let end = GitEnd::Exited { success, stdout: stdout.into_bytes(), stderr: stderr.into_bytes() };
        run_git(&args, end)
    }

    /// Does the work on a repository to its end.
    fn work(&mut self, m: &mut CodeRepoManager, id: &str) {
        let (url, git_ref, hash) = {
            let s = m.status(id).unwrap();
            (s.repo_url.clone(), s.git_ref.clone(), s.url_hash.clone())
        };
        let (clone, worktree) = (m.clone_dir(&hash), m.worktree_dir(&hash, &git_ref));
        let mut p = Pipeline::start(&git_ref, &worktree);
        let mut event = PipelineEvent::Found(self.cloned);
        for _ in 0..10 {
            let action = p.step(event);
            m.record(id, &action, &worktree);
            let commands = p.git_commands(&action, &url, &clone);
            event = match action {
                PipelineAction::Fail { .. } | PipelineAction::Finish { .. } => return,
                PipelineAction::LookForWorktree => PipelineEvent::Found(self.there(&worktree)),
                PipelineAction::ResolveRef => {
                    let answers: Vec<GitResult> = commands.iter().map(|c| self.run(c)).collect();
                    PipelineEvent::Commit(resolve_ref(&answers))
                }
                PipelineAction::Ignore => panic!("an event did not fit"),
                _ => PipelineEvent::Git(commands.iter().map(|c| self.run(c)).last().unwrap()),
            };
        }
        panic!("the work did not end");
    }

    /// Asks for the repository at a ref and does the work on it.
    fn open(&mut self, m: &mut CodeRepoManager, git_ref: &str, now: &str) -> String {
        let url = file_url("/tmp/src");
        let there = self.there(&m.worktree_dir(&url_hash(&url), git_ref));
        let opened = m.open(&url, git_ref, there, now);
        assert!(opened.start);
        self.work(m, &opened.repo_id);
        opened.repo_id
    }
}

#[test]
fn git_ends_in_a_result() {
    let args = vec!["fetch".to_string(), "origin".to_string()];
    let ok = run_git(
        &args,
        GitEnd::Exited { success: true, stdout: b"o\xff".to_vec(), stderr: b"e\xff".to_vec() },
    );
    assert!(ok.success);
    assert_eq!((ok.stdout.as_str(), ok.stderr.as_str()), ("o\u{fffd}", "e\u{fffd}"));
    let bad = run_git(&args, GitEnd::Exited { success: false, stdout: vec![], stderr: b"no".to_vec() });
    assert!(!bad.success);
    assert_eq!(bad.stderr, "no");
    let gone = run_git(&args, GitEnd::SpawnFailed("x".to_string()));
    assert!(!gone.success);
    assert_eq!((gone.stdout.as_str(), gone.stderr.as_str()), ("", "failed to spawn git: x"));
    let lost = run_git(&args, GitEnd::WaitFailed("x".to_string()));
    assert!(!lost.success);
    assert_eq!((lost.stdout.as_str(), lost.stderr.as_str()), ("", "git wait failed: x"));
    let late = run_git(&args, GitEnd::TimedOut { secs: 5, stderr: b"e".to_vec() });
    assert!(!late.success);
    assert_eq!(
        (late.stdout.as_str(), late.stderr.as_str()),
        ("", "git fetch origin timed out after 5s\ne")
    );
}

#[test]
fn git_is_called_with_these_arguments() {
    let (url, dir, wt) = ("https://a.git".to_string(), "/r/clone".to_string(), "/r/wt/x".to_string());
    let cases = [
        (GitCommand::Clone { url, clone_dir: dir.clone() }, "clone https://a.git /r/clone", 1800),
        (
            GitCommand::Fetch { clone_dir: dir.clone(), git_ref: "main".to_string() },
            "-C /r/clone fetch --force origin main",
            300,
        ),
        (
            GitCommand::Resolve { clone_dir: dir.clone(), name: "main^{commit}".to_string() },
            "-C /r/clone rev-parse --verify main^{commit}",
            120,
        ),
        (
            GitCommand::Checkout { worktree: wt.clone(), sha: "abc".to_string() },
            "-C /r/wt/x checkout --force abc",
            120,
        ),
        (GitCommand::Prune { clone_dir: dir.clone() }, "-C /r/clone worktree prune", 120),
        (
            GitCommand::Add { clone_dir: dir, worktree: wt, sha: "abc".to_string() },
            "-C /r/clone worktree add --detach /r/wt/x abc",
            120,
        ),
    ];
    for (command, words, secs) in cases {
        assert_eq!(git_args(&command).join(" "), words);
        assert_eq!(git_timeout(&command), secs);
    }
}

#[test]
fn an_action_asks_for_these_commands() {
    let p = Pipeline::start("main", "/w");
    let lines = |action: &PipelineAction| -> Vec<String> {
        p.git_commands(action, "https://a.git", "/c").iter().map(|c| git_args(c).join(" ")).collect()
    };
    assert_eq!(lines(&PipelineAction::RunClone), ["clone https://a.git /c"]);
    assert_eq!(lines(&PipelineAction::RunFetch), ["-C /c fetch --force origin main"]);
    assert_eq!(
        lines(&PipelineAction::ResolveRef),
        ["-C /c rev-parse --verify main^{commit}", "-C /c rev-parse --verify origin/main^{commit}"]
    );
    let sha = "abc".to_string();
    assert_eq!(lines(&PipelineAction::Checkout { sha: sha.clone() }), ["-C /w checkout --force abc"]);
    assert_eq!(
        lines(&PipelineAction::AddWorktree { sha, remove_first: true }),
        ["-C /c worktree prune", "-C /c worktree add --detach /w abc"]
    );
    assert!(lines(&PipelineAction::LookForWorktree).is_empty());
}

#[test]
fn a_ref_is_looked_for_under_several_names() {
    let names = ref_candidates("main");
    assert!(names.len() >= 2);
    let answers = vec![git(false, "", ""), git(true, "abc\n", "")];
    assert_eq!(resolve_ref(&answers).as_deref(), Some("abc"));
    assert_eq!(resolve_ref(&vec![git(false, "", "")]), None);
}

fn manager() -> CodeRepoManager {
    CodeRepoManager::new("/repos".to_string(), Platform::Unix)
}

fn cloning(repo_id: &str, url_hash: &str, repo_url: &str, created_at: &str) -> RepoState {
    RepoState {
        repo_id: repo_id.to_string(),
        url_hash: url_hash.to_string(),
        repo_url: repo_url.to_string(),
        git_ref: "main".to_string(),
        phase: RepoPhase::Cloning,
        progress: None,
        resolved_commit: None,
        stale_warning: None,
        error_code: None,
        error: None,
        worktree_path: None,
        created_at: created_at.to_string(),
    }
}

#[test]
fn test_open_main_ready_and_worktree_content() {
    let (mut m, mut source) = (manager(), Source::new());
    let rid = source.open(&mut m, "main", "t0");
    let st = m.status(&rid).unwrap();
    assert_eq!(st.phase, RepoPhase::Ready);
    assert!(st.stale_warning.is_none());
    assert!(st.resolved_commit.as_deref().unwrap().len() >= 7);
    let wt = m.worktree(&rid, true).unwrap();
    assert!(source.files(&wt).contains(&"src/Bar.java"));
    assert!(source.files(&wt).contains(&"src/Baz.java"), "main HEAD has Baz");
}

#[test]
fn test_open_inflight_dedup_no_reinsert() {
    let mut m = manager();
    let url = "file:///C:/friday-no-such-repo";
    let git_ref = "main";
    let rid = repo_id(url, git_ref);
    m.states.push(cloning(&rid, &url_hash(url), url, "an hour ago"));
    let again = m.open(url, git_ref, false, "now");
    assert!(!again.start);
    assert_eq!(rid, again.repo_id, "in-flight dedup must return the same repo_id");
    assert_eq!(m.states.len(), 1);
    let st = m.status(&rid).unwrap();
    assert_eq!(st.created_at, "an hour ago", "in-flight early-return must not re-insert the state");
}

#[test]
fn test_open_tag_and_branch_isolated_worktrees() {
    let (mut m, mut source) = (manager(), Source::new());
    let rid_main = source.open(&mut m, "main", "t0");
    let rid_tag = source.open(&mut m, "v1.0", "t1");
    let rid_feat = source.open(&mut m, "feature-x", "t2");
    assert_ne!(rid_main, rid_tag);
    assert_ne!(rid_main, rid_feat);

    assert_eq!(m.status(&rid_tag).unwrap().phase, RepoPhase::Ready);
    let wt_tag = m.worktree(&rid_tag, true).unwrap();
    assert!(!source.files(&wt_tag).is_empty());
    assert!(!source.files(&wt_tag).contains(&"src/Baz.java"), "v1.0 predates Baz");

    assert_eq!(m.status(&rid_feat).unwrap().phase, RepoPhase::Ready);
    let wt_feat = m.worktree(&rid_feat, true).unwrap();
    assert!(source.files(&wt_feat).contains(&"src/Feature.java"));

    assert_eq!(m.status(&rid_main).unwrap().phase, RepoPhase::Ready);
    assert_ne!(wt_tag, wt_feat);
}

#[test]
fn test_delete_cache_rejects_inflight() {
    let mut m = manager();
    m.states.push(cloning("fake-rid", "cafebabe00000000", "https://example.com/x.git", "t0"));
    assert!(m.url_busy("cafebabe00000000"));
    let err = m.delete_cache("cafebabe00000000").unwrap_err();
    assert!(err.contains("busy"));
    m.set_ready("fake-rid", "sha".to_string(), "/w".to_string(), None);
    assert!(!m.url_busy("cafebabe00000000"));
    assert_eq!(m.delete_cache("cafebabe00000000").unwrap(), m.repo_root("cafebabe00000000"));
    assert!(m.status("fake-rid").is_none());
}

#[test]
fn test_delete_cache_rejects_invalid_url_hash() {
    let mut m = manager();
    for bad in ["..", "abc", "zzzzzzzzzzzzzzzz", "a/b", ""] {
        let err = m.delete_cache(bad).unwrap_err();
        assert!(err.contains("invalid url_hash"), "expected invalid url_hash for {bad:?}, got: {err}");
    }
    assert_eq!(m.delete_cache("0123456789abcdef").unwrap(), "/repos/0123456789abcdef");
}

#[test]
fn a_repository_fails_in_words() {
    let mut m = manager();
    let id = m.open("https://a.git", "main", false, "t0").repo_id;
    m.set_phase(&id, RepoPhase::Fetching);
    m.set_progress(&id, "10%".to_string());
    assert_eq!(m.status(&id).unwrap().progress.as_deref(), Some("10%"));
    assert!(m.worktree(&id, false).is_err());
    m.fail(&id, "clone_failed", "x".to_string());
    let s = m.status(&id).unwrap();
    assert_eq!(s.phase, RepoPhase::Failed);
    assert_eq!(s.error_code.as_deref(), Some("clone_failed"));
    assert!(m.open("https://a.git", "main", false, "t1").start);
}

#[test]
fn test_invalid_ref_fails() {
    let (mut m, mut source) = (manager(), Source::new());
    let rid = source.open(&mut m, "no-such-branch", "t0");
    let st = m.status(&rid).unwrap();
    assert_eq!(st.phase, RepoPhase::Failed);
    assert_eq!(st.error_code.as_deref(), Some("invalid_ref"));
    assert_eq!(
        st.error.as_deref(),
        Some(
            "ref 'no-such-branch' not found (absent on remote); confirm branch/tag/commitid with the user, or check network/credentials"
        )
    );
    assert!(m.worktree(&rid, false).is_err());
}

#[test]
fn test_fetch_failure_degrades_to_stale_ready() {
    let (mut m, mut source) = (manager(), Source::new());
    let rid = source.open(&mut m, "main", "t0");
    let st = m.status(&rid).unwrap();
    assert_eq!(st.phase, RepoPhase::Ready);
    assert!(st.stale_warning.is_none());

    source.reachable = false;
    let rid2 = source.open(&mut m, "main", "t1");
    assert_eq!(rid, rid2, "same (url, ref) is idempotent");
    let st = m.status(&rid2).unwrap();
    assert_eq!(st.phase, RepoPhase::Ready);
    assert_eq!(
        st.stale_warning.as_deref(),
        Some("fetch failed (fatal: unable to access the repository); using locally cached code which may be stale"),
        "degraded to local cache with warning"
    );
    assert_eq!(st.resolved_commit.as_deref(), Some(HEAD));
}

#[test]
fn a_repository_that_cannot_be_cloned_fails() {
    let (mut m, mut source) = (manager(), Source::new());
    source.reachable = false;
    let rid = source.open(&mut m, "main", "t0");
    let st = m.status(&rid).unwrap();
    assert_eq!(st.phase, RepoPhase::Failed);
    assert_eq!(st.error_code.as_deref(), Some("clone_failed"));
    assert_eq!(st.error.as_deref(), Some("fatal: unable to access the repository"));
}

#[test]
fn a_remote_that_cannot_be_reached_is_told_apart() {
    for (said, code) in [
        ("fatal: Couldn't find remote ref nope", "invalid_ref"),
        ("fatal: unable to access", "fetch_failed"),
    ] {
        let mut p = Pipeline::start("nope", "/w");
        p.step(PipelineEvent::Found(true));
        p.step(PipelineEvent::Git(git(false, "", said)));
        match p.step(PipelineEvent::Commit(None)) {
            PipelineAction::Fail { code: told, .. } => assert_eq!(told, code),
            other => panic!("expected a failure, got {other:?}"),
        }
    }
}

#[test]
fn test_open_commitid() {
    let (mut m, mut source) = (manager(), Source::new());
    let rid = source.open(&mut m, HEAD, "t0");
    let st = m.status(&rid).unwrap();
    assert_eq!(st.phase, RepoPhase::Ready);
    assert_eq!(st.resolved_commit.as_deref(), Some(HEAD));
    assert!(st.stale_warning.is_none(), "commitid open must not stamp stale warning");
    source.reachable = false;
    source.open(&mut m, HEAD, "t1");
    assert!(m.status(&rid).unwrap().stale_warning.is_none());
}

#[test]
fn files_that_cannot_be_put_there_fail_the_work() {
    let sha = "0123456789abcdef0123456789abcdef01234567";
    let mut p = Pipeline::start(sha, "/w");
    assert!(matches!(p.step(PipelineEvent::Found(true)), PipelineAction::ResolveRef));
    p.step(PipelineEvent::Commit(Some(sha.to_string())));
    match p.step(PipelineEvent::Found(true)) {
        PipelineAction::Checkout { sha: at } => assert_eq!(at, sha),
        other => panic!("expected the files to be brought up to date, got {other:?}"),
    }
    match p.step(PipelineEvent::Git(git(false, "", ""))) {
        PipelineAction::AddWorktree { remove_first, .. } => assert!(remove_first),
        other => panic!("expected the files to be put there, got {other:?}"),
    }
    match p.step(PipelineEvent::Git(git(false, "", ""))) {
        PipelineAction::Fail { code, error } => {
            assert_eq!(code, "worktree_failed");
            assert_eq!(error, "failed to prepare worktree at /w");
        }
        other => panic!("expected a failure, got {other:?}"),
    }
}

#[test]
fn test_list_cache_and_delete() {
    let (mut m, mut source) = (manager(), Source::new());
    let url = file_url("/tmp/src");
    let rid = source.open(&mut m, "main", "t0");
    assert!(m.status(&rid).unwrap().phase.is_terminal());

    let entries = vec![RepoCacheEntry {
        repo_url: cached_url(&url_hash(&url), Some(&url)),
        url_hash: url_hash(&url),
        disk_bytes: 10,
        worktrees: source.worktrees.len(),
    }];
    assert_eq!(list_cache(&entries), [0]);
    assert_eq!(entries[0].repo_url, url);
    assert!(entries[0].disk_bytes > 0);
    assert!(entries[0].worktrees >= 1);

    let root = m.delete_cache(&entries[0].url_hash).unwrap();
    assert!(source.worktrees.iter().all(|w| w.0.starts_with(&root)));
    assert!(m.status(&rid).is_none());
    assert!(list_cache(&Vec::new()).is_empty());
    source = Source::new();
    let rid = source.open(&mut m, "main", "t1");
    assert_eq!(m.status(&rid).unwrap().phase, RepoPhase::Ready);
}

#[test]
fn the_largest_cache_comes_first() {
    let entry = |url: &str, bytes: u64| RepoCacheEntry {
        url_hash: url_hash(url),
        repo_url: url.to_string(),
        disk_bytes: bytes,
        worktrees: 1,
    };
    let rows = vec![entry("https://b.git", 1), entry("https://a.git", 2)];
    assert_eq!(list_cache(&rows), [1, 0]);
    assert_eq!(cached_url("h", Some(" https://a.git \n")), "https://a.git");
    assert_eq!(cached_url("h", None), "<unknown h>");
}

#[test]
fn a_cache_that_is_deleted_is_cloned_again() {
    let mut m = manager();
    let url = "https://git.example.com/bar.git";
    let hash = url_hash(url);
    assert_eq!(m.delete_cache(&hash).unwrap(), m.repo_root(&hash));
    assert_eq!(m.repo_root(&hash), format!("/repos/{hash}"));
    let left: Vec<RepoCacheEntry> = Vec::new();
    assert!(list_cache(&left).is_empty());
}

const README: &str = "line1\nline2 target\nline3\n";
const BAR: &str = "package com.foo;\npublic class Bar {\n    void baz() {}\n}\n";

/// The files of a checkout that a walk finds: those that `.gitignore` names are not among
/// them, nor those that the pattern leaves out.
fn fixture_worktree(glob: Option<&str>) -> Vec<(String, Vec<u8>)> {
    let files = [
        ("README.md", README),
        ("src/main/Bar.java", BAR),
        ("src/bin.dat", "bin\0ary\n"),
        ("target/classes/Gen.java", "generated target line\n"),
    ];
    let mut ignored = GitignoreBuilder::new("/w");
    ignored.add_line(None, "target/").unwrap();
    let ignored = ignored.build().unwrap();
    let mut wanted = OverrideBuilder::new("/w");
    if let Some(g) = glob {
        wanted.add(g).unwrap();
    }
    let wanted = wanted.build().unwrap();
    files
        .iter()
        .map(|(name, text)| (format!("/w/{name}"), text.as_bytes().to_vec()))
        .filter(|(path, _)| !ignored.matched_path_or_any_parents(path, false).is_ignore())
        .filter(|(path, _)| !wanted.matched(path, false).is_ignore())
        .collect()
}

fn search(glob: Option<&str>, pattern: &str, context: usize, max: usize) -> Result<SearchRun, String> {
    let mut run = SearchRun::new(context, max);
    for (path, bytes) in fixture_worktree(glob) {
        run.take_file(&rel_display(&path, "/w", Platform::Unix), &bytes, pattern)?;
    }
    Ok(run)
}

#[test]
fn test_read_file_line_numbers_and_pagination() {
    let content = BAR.as_bytes().to_vec();
    let out = read_file("src/main/Bar.java", &content, 1, 5000).unwrap();
    assert_eq!(out.total_lines, 4);
    assert_eq!(out.lines[0], (1, "package com.foo;".to_string()));
    assert_eq!(out.lines[1].0, 2);
    assert!(!out.truncated);
    let out = read_file("src/main/Bar.java", &content, 2, 1).unwrap();
    assert_eq!(out.lines, vec![(2, "public class Bar {".to_string())]);
    assert!(out.truncated, "more lines after the window");
}

#[test]
fn test_read_file_rejects_escape_and_missing() {
    let root: Result<String, String> = Ok("/t/w".to_string());
    let inside = resolve_in_worktree(&root, "a.txt", &Ok("/t/w/a.txt".to_string()), Platform::Unix);
    assert_eq!(inside.unwrap(), "/t/w/a.txt");
    let outside = resolve_in_worktree(&root, "../outside.txt", &Ok("/t/outside.txt".to_string()), Platform::Unix);
    assert!(outside.is_err(), "escape via prefix check");
    assert!(resolve_in_worktree(&root, "a", &Ok("/t/w2/a".to_string()), Platform::Unix).is_err());
    assert!(resolve_in_worktree(&root, "no-such.txt", &Err("gone".to_string()), Platform::Unix).is_err());
    assert!(read_file("src/bin.dat", &b"bin\0ary\n".to_vec(), 1, 10).is_err(), "binary rejected");
    assert!(check_readable("d", true, 0).is_err());
    assert!(check_readable("f", false, 10).is_ok());
    assert!(is_binary(&[97, 0]));
    assert!(!is_binary(b"abc"));
}

#[test]
fn test_search_respects_gitignore_and_context() {
    let out = search(None, "target", 1, 100).unwrap().output;
    assert_eq!(out.matches.len(), 1);
    assert_eq!(out.matches[0].file, "README.md");
    assert_eq!(out.matches[0].line, 2);
    assert_eq!(out.matches[0].text, "line2 target");
    assert_eq!(out.matches[0].context_before, vec![(1, "line1".to_string())]);
    assert_eq!(out.matches[0].context_after, vec![(3, "line3".to_string())]);
    assert!(!out.truncated);

    let out = search(Some("*.java"), "class", 0, 100).unwrap().output;
    assert_eq!(out.matches.len(), 1);
    assert_eq!(out.matches[0].file, "src/main/Bar.java");

    assert!(search(None, "class(", 1, 10).is_err(), "invalid regex rejected");
}

#[test]
fn test_search_context_before_clamped_at_file_start() {
    let mut run = SearchRun::new(2, 10);
    run.take_file("a.txt", &b"alpha\nbeta match\ngamma\n".to_vec(), "match").unwrap();
    assert_eq!(run.output.matches.len(), 1);
    let m = &run.output.matches[0];
    assert_eq!(m.line, 2);
    assert_eq!(m.context_before, vec![(1, "alpha".to_string())]);
}

#[test]
fn test_search_truncation() {
    let mut run = SearchRun::new(0, 3);
    for i in 0..10 {
        run.take_file(&format!("src/F{i}.txt"), &b"hit\n".to_vec(), "hit").unwrap();
    }
    assert_eq!(run.output.matches.len(), 3);
    assert!(run.output.truncated);
}

#[test]
fn test_search_extreme_context_and_max_results_clamped() {
    let body: String = (0..20).map(|i| format!("line{i}\n")).collect();
    let mut run = SearchRun::new(usize::MAX, usize::MAX);
    run.take_file("big.txt", &body.clone().into_bytes(), "line15").unwrap();
    assert_eq!(run.output.matches.len(), 1);
    let m = &run.output.matches[0];
    assert_eq!(m.line, 16);
    assert_eq!(m.context_before.len(), MAX_CONTEXT_LINES);
    assert_eq!(m.context_before[0].0, 16 - MAX_CONTEXT_LINES);
    assert_eq!(m.context_after.len(), 20 - 16, "clamped by file end");
    let mut run = SearchRun::new(0, 0);
    run.take_file("big.txt", &body.into_bytes(), "line").unwrap();
    assert_eq!(run.output.matches.len(), 0);
    assert!(run.output.truncated);
}

#[test]
fn a_list_of_files_keeps_the_smallest_names() {
    let mut paths: Vec<String> = (0..LIST_MAX).map(|i| format!("/w/a/{i:03}.txt")).collect();
    paths.push("/w/a.txt".to_string());
    let (files, truncated) = list_files(&paths, "/w", Platform::Unix);
    assert!(truncated);
    assert_eq!(files.len(), LIST_MAX);
    assert_eq!(files[0], "a.txt");
    assert!(!files.contains(&format!("a/{:03}.txt", LIST_MAX - 1)));
}

#[test]
fn test_list_files_cap_is_deterministic_lexicographic() {
    let paths: Vec<String> = (0..600)
        .map(|i| if i < 300 { format!("/w/src/a{i:03}.txt") } else { format!("/w/src/B{i:03}.txt") })
        .collect();
    let (files, truncated) = list_files(&paths, "/w", Platform::Unix);
    assert!(truncated);
    assert_eq!(files.len(), LIST_MAX);
    assert_eq!(files[0], "src/B300.txt", "binary-smallest name kept");
    assert!(files.contains(&"src/B599.txt".to_string()), "keeps lexicographically smallest 500");
    assert!(!files.contains(&"src/a299.txt".to_string()), "not walk-order 500");
    let mut sorted = files.clone();
    sorted.sort();
    assert_eq!(files, sorted);
}

#[test]
fn test_list_files_glob_and_path() {
    let paths = |glob: Option<&str>, under: &str| -> Vec<String> {
        fixture_worktree(glob).into_iter().map(|f| f.0).filter(|p| p.starts_with(under)).collect()
    };
    let (files, truncated) = list_files(&paths(Some("**/*.java"), "/w"), "/w", Platform::Unix);
    assert!(!truncated);
    assert_eq!(files, vec!["src/main/Bar.java".to_string()], "glob filter + gitignore");

    let root: Result<String, String> = Ok("/w".to_string());
    let start = resolve_in_worktree(&root, "src/main", &Ok("/w/src/main".to_string()), Platform::Unix);
    let (files, _) = list_files(&paths(None, &start.unwrap()), "/w", Platform::Unix);
    assert_eq!(files, vec!["src/main/Bar.java".to_string()]);

    let (files, truncated) = list_files(&paths(None, "/w"), "/w", Platform::Unix);
    assert_eq!(files, ["README.md", "src/bin.dat", "src/main/Bar.java"]);
    assert!(!truncated);
    let above = resolve_in_worktree(&root, "../", &Ok("/".to_string()), Platform::Unix);
    assert!(above.is_err(), "escape rejected");
    assert_eq!(rel_display("C:\\w\\b\\x.rs", "C:\\w", Platform::Windows), "b/x.rs");
}
