use friday::infra::db::{add_column_if_not_exists, column_count_query, rename_column_if_exists};
use friday::infra::logging::{cleanup_old_logs, is_old_log, DAY_MS};
use friday::infra::pathname::{extension, file_name, join, lies_under, parent, same_path, Platform};
use friday::infra::paths::Paths;
use friday::infra::ssh_paths::expand_tilde;
use friday::text;
use std::path::{Path, PathBuf};

fn paths_in(root: &Path) -> Paths {
    Paths::new(root.to_str().unwrap().to_string(), Platform::Unix)
}

fn has(dirs: &[String], dir: &Path) -> bool {
    dirs.iter().any(|d| Path::new(d) == dir)
}

#[test]
fn test_db_path_returns_root_join_friday_db() {
    let tmp = tempfile::tempdir().unwrap();
    let paths = paths_in(tmp.path());
    let db = paths.db_path();
    assert_eq!(PathBuf::from(db), tmp.path().join("friday.db"));
}

#[test]
fn test_log_dir_returns_root_join_logs() {
    let tmp = tempfile::tempdir().unwrap();
    let paths = paths_in(tmp.path());
    assert_eq!(PathBuf::from(paths.log_dir()), tmp.path().join("logs"));
}

#[test]
fn test_playbooks_dir_returns_root_join_playbooks() {
    let tmp = tempfile::tempdir().unwrap();
    let paths = paths_in(tmp.path());
    assert_eq!(PathBuf::from(paths.playbooks_dir()), tmp.path().join("playbooks"));
}

#[test]
fn test_skills_dir_returns_root_join_skills() {
    let tmp = tempfile::tempdir().unwrap();
    let paths = paths_in(tmp.path());
    assert_eq!(PathBuf::from(paths.skills_dir()), tmp.path().join("skills"));
}

#[test]
fn test_prompts_dir_returns_root_join_prompts() {
    let tmp = tempfile::tempdir().unwrap();
    let paths = paths_in(tmp.path());
    assert_eq!(PathBuf::from(paths.prompts_dir()), tmp.path().join("prompts"));
}

#[test]
fn test_artifacts_dir_returns_root_join_artifacts() {
    let tmp = tempfile::tempdir().unwrap();
    let paths = paths_in(tmp.path());
    assert_eq!(PathBuf::from(paths.artifacts_dir()), tmp.path().join("artifacts"));
}

#[test]
fn test_session_artifacts_dir_joins_session_id() {
    let tmp = tempfile::tempdir().unwrap();
    let paths = paths_in(tmp.path());
    let dir = paths.session_artifacts_dir("abc-123");
    assert_eq!(PathBuf::from(dir), tmp.path().join("artifacts").join("abc-123"));
}

#[test]
fn test_ensure_dirs_creates_all_five_subdirs() {
    let tmp = tempfile::tempdir().unwrap();
    let paths = paths_in(tmp.path());
    let dirs = paths.ensure_dirs();

    assert!(has(&dirs, &tmp.path().join("logs")));
    assert!(has(&dirs, &tmp.path().join("playbooks")));
    assert!(has(&dirs, &tmp.path().join("skills")));
    assert!(has(&dirs, &tmp.path().join("prompts")));
    assert!(has(&dirs, &tmp.path().join("artifacts")));
}

#[test]
fn test_ensure_dirs_does_not_create_db_file() {
    let tmp = tempfile::tempdir().unwrap();
    let paths = paths_in(tmp.path());
    let dirs = paths.ensure_dirs();

    assert!(!has(&dirs, &tmp.path().join("friday.db")));
}

#[test]
fn test_ensure_dirs_does_not_create_session_subdir() {
    let tmp = tempfile::tempdir().unwrap();
    let paths = paths_in(tmp.path());
    let dirs = paths.ensure_dirs();

    assert!(!has(&dirs, &tmp.path().join("artifacts").join("some-session")));
}

#[test]
fn test_ensure_dirs_is_idempotent() {
    let tmp = tempfile::tempdir().unwrap();
    let paths = paths_in(tmp.path());

    let first = paths.ensure_dirs();
    let dirs = paths.ensure_dirs();
    assert_eq!(first, dirs);

    assert!(has(&dirs, &tmp.path().join("logs")));
}

#[test]
fn test_ensure_dirs_does_not_create_session_subdir_after_second_call() {
    let tmp = tempfile::tempdir().unwrap();
    let paths = paths_in(tmp.path());

    let first = paths.ensure_dirs();
    let dirs = paths.ensure_dirs();
    assert_eq!(first, dirs);

    assert!(!has(&dirs, &tmp.path().join("artifacts").join("some-session")));
}

#[test]
fn test_expand_tilde_home_prefix() {
    let p = expand_tilde("~/.ssh/id_ed25519", Some("/home/u"), Platform::Unix);
    assert!(Path::new(&p).components().count() > 1);
    assert!(!Path::new(&p).starts_with("~"));
    assert_eq!(p, "/home/u/.ssh/id_ed25519");
}

#[test]
fn test_expand_tilde_absolute_untouched() {
    let p = expand_tilde("C:/keys/id_rsa", Some("/home/u"), Platform::Unix);
    assert_eq!(PathBuf::from(p), PathBuf::from("C:/keys/id_rsa"));
}

#[test]
fn test_expand_tilde_bare_home_is_home_dir() {
    let p = expand_tilde("~/", Some("/home/u"), Platform::Unix);
    assert_eq!(PathBuf::from(p), PathBuf::from("/home/u"));
    assert_eq!(expand_tilde("~/x", None, Platform::Unix), "~/x");
}

#[test]
fn test_cleanup_old_logs_removes_old_files() {
    let now = 100 * DAY_MS;
    assert_eq!(cleanup_old_logs(&vec![Some(now - 10 * DAY_MS)], now, 7), vec![0]);
    assert_eq!(cleanup_old_logs(&vec![Some(now), None, Some(now - 10 * DAY_MS)], now, 7), vec![2]);
}

#[test]
fn test_cleanup_old_logs_keeps_recent_files() {
    let now = 100 * DAY_MS;
    assert!(cleanup_old_logs(&vec![Some(now)], now, 7).is_empty());
}

#[test]
fn test_cleanup_old_logs_keeps_within_7_days() {
    let now = 100 * DAY_MS;
    assert!(cleanup_old_logs(&vec![Some(now - 5 * DAY_MS)], now, 7).is_empty());
    assert!(!is_old_log(now - 5 * DAY_MS, now, 7));
    assert!(is_old_log(now - 10 * DAY_MS, now, 7));
}

#[test]
fn test_rename_column_if_exists_renames_column() {
    assert_eq!(
        rename_column_if_exists("test_table", "old_col", "new_col", 1, 0).as_deref(),
        Some("ALTER TABLE test_table RENAME COLUMN old_col TO new_col")
    );
    assert_eq!(
        column_count_query("test_table", "new_col"),
        "SELECT COUNT(*) FROM pragma_table_info('test_table') WHERE name = 'new_col'"
    );
}

#[test]
fn test_rename_column_if_exists_noop_when_old_missing() {
    assert_eq!(rename_column_if_exists("test_table", "old_col", "new_col", 0, 1), None);
    assert_eq!(rename_column_if_exists("test_table", "old_col", "new_col", 0, 0), None);
    assert_eq!(rename_column_if_exists("test_table", "old_col", "new_col", 1, 1), None);
}

#[test]
fn columns_are_added_once() {
    assert_eq!(
        add_column_if_not_exists("t", "c", "TEXT", 0).as_deref(),
        Some("ALTER TABLE t ADD COLUMN c TEXT")
    );
    assert_eq!(add_column_if_not_exists("t", "c", "TEXT", 1), None);
    assert!(column_count_query("t", "c").contains("pragma_table_info"));
}

#[test]
fn paths_are_taken_apart() {
    assert_eq!(file_name("/a/b.txt/", Platform::Unix), "b.txt");
    assert_eq!(file_name("C:\\a\\b.txt", Platform::Windows), "b.txt");
    assert_eq!(join("/a", "b", Platform::Unix), "/a/b");
    assert_eq!(join("/a", "/b", Platform::Unix), "/b");
    assert!(lies_under("/a/b/c", "/a/b", Platform::Unix));
    assert!(!lies_under("/a/bc", "/a/b", Platform::Unix));
    assert!(same_path("/a//b/.", "/a/b", Platform::Unix));
    assert!(!same_path("a/b", "/a/b", Platform::Unix));
    for p in ["a.b", "/x/a.b.c", ".a", "a", "..", "a.", "/x.y/z", "a.b/", "x.hprof/.", "a.b/./.", "."] {
        assert_eq!(
            extension(p, Platform::Unix),
            Path::new(p).extension().and_then(|e| e.to_str()),
            "{p}"
        );
    }
}

#[test]
fn texts_behave_as_those_of_the_standard_library() {
    for c in '\0'..=char::MAX {
        assert_eq!(text::is_white(c), c.is_whitespace(), "{c:?}");
    }
    for s in ["", " a ", "a\r\nb\n\nc\r", "\n", "x\r", "\u{3000}é\t"] {
        assert_eq!(text::trim(s), s.trim());
        assert_eq!(text::lines(s), s.lines().map(|l| l.to_string()).collect::<Vec<_>>());
        assert_eq!(text::split(s, '\n'), s.split('\n').map(|l| l.to_string()).collect::<Vec<_>>());
        assert_eq!(text::split_once(s, 'a'), s.split_once('a'));
        assert_eq!(text::replace_char(s, 'a', "--"), s.replace('a', "--"));
    }
    for s in ["0", "+7", "", "+", "-1", "65535", "65536", "00012", "1a", "99999999999999999999"] {
        assert_eq!(text::parse_dec(s, 65535), s.parse::<u16>().ok().map(|n| n as u64), "{s}");
        assert_eq!(text::parse_dec(s, u64::MAX), s.parse::<u64>().ok(), "{s}");
    }
    for n in [0, 9, 10, 12345, u64::MAX] {
        assert_eq!(text::dec(n), n.to_string());
    }
    for n in [0, -1, i64::MAX, i64::MIN] {
        assert_eq!(text::dec_signed(n), n.to_string());
    }
    assert_eq!(text::join(&vec!["a".to_string(), "b".to_string()], ", "), "a, b");
    assert!(text::less("a", "ab") && text::less("Z", "a") && !text::less("é", "e"));
    assert_eq!(text::to_lower_ascii("ÀBc"), "Àbc");
}

#[test]
fn paths_are_told_apart_as_the_system_does() {
    let paths = ["a", "./a", "a/.", "a//b", "a/./b", "a/b", "/a", "//a", "/", ".", "./.", "", "../a", "a/.."];
    for x in paths {
        for y in paths {
            assert_eq!(same_path(x, y, Platform::Unix), Path::new(x) == Path::new(y), "{x} {y}");
            let under = Path::new(x).starts_with(Path::new(y));
            assert_eq!(lies_under(x, y, Platform::Unix), under, "{x} {y}");
        }
    }
    assert!(same_path("C:\\a\\b", "c:/a/b", Platform::Windows));
    assert!(!same_path("C:\\a", "D:\\a", Platform::Windows));
}

#[test]
fn paths_are_joined_as_the_system_does() {
    for base in ["", "/", "/a", "/a/", "a"] {
        for name in ["b", "/b", "b/c", "./b"] {
            let real = Path::new(base).join(name);
            assert_eq!(join(base, name, Platform::Unix), real.to_str().unwrap());
        }
    }
    let join = |base: &str, name: &str| join(base, name, Platform::Windows);
    assert_eq!(join("C:\\a", "b"), "C:\\a\\b");
    assert_eq!(join("C:/a/", "b"), "C:/a/b");
    assert_eq!(join("C:", "b"), "C:b");
    assert_eq!(join("C:\\a", "\\b"), "C:\\b");
    assert_eq!(join("C:\\a", "D:\\b"), "D:\\b");
    assert_eq!(join("\\\\srv\\share\\a", "\\b"), "\\\\srv\\share\\b");
    assert_eq!(join("C:\\a", "\\\\srv\\share"), "\\\\srv\\share");
    for p in ["/a/b", "/a", "a", "a/b/.", "/a//b/"] {
        assert_eq!(parent(p, Platform::Unix), Path::new(p).parent().unwrap().to_str().unwrap(), "{p}");
    }
    assert_eq!(parent("C:\\a", Platform::Windows), "C:\\");
}
