use fridex::workspace::{
    escape_rg_regex, is_missing_worktree_error, normalize_git_path, sanitize_worktree_name, should_skip_dir,
};

#[test]
fn normalize_git_path_replaces_backslashes() {
    assert_eq!(normalize_git_path("foo\\bar\\baz"), "foo/bar/baz");
}

#[test]
fn normalize_git_path_keeps_other_characters() {
    assert_eq!(normalize_git_path("a/b c"), "a/b c");
    assert_eq!(normalize_git_path(""), "");
}

#[test]
fn skipped_directories() {
    for name in [".git", "node_modules", "dist", "target", "release-artifacts"] {
        assert!(should_skip_dir(name));
    }
    assert!(!should_skip_dir("src"));
    assert!(!should_skip_dir("Target"));
}

#[test]
fn regex_escaping() {
    assert_eq!(escape_rg_regex("a.b*c"), "a\\.b\\*c");
    assert_eq!(escape_rg_regex("(x)|[y]{z}^$+?\\"), "\\(x\\)\\|\\[y\\]\\{z\\}\\^\\$\\+\\?\\\\");
    assert_eq!(escape_rg_regex("plain"), "plain");
}

#[test]
fn missing_worktree_errors() {
    assert!(is_missing_worktree_error("fatal: '/tmp/x' is not a working tree"));
    assert!(!is_missing_worktree_error("fatal: not a git repository"));
    assert!(!is_missing_worktree_error(""));
}

#[test]
fn worktree_names() {
    assert_eq!(sanitize_worktree_name("feature/login page"), "feature-login-page");
    assert_eq!(sanitize_worktree_name("--x--"), "x");
    assert_eq!(sanitize_worktree_name("///"), "worktree");
    assert_eq!(sanitize_worktree_name(""), "worktree");
    assert_eq!(sanitize_worktree_name("v1.2_rc"), "v1.2_rc");
}

#[test]
fn worktree_paths_skip_taken_ones() {
    use_paths();
}

fn use_paths() {
    let taken = vec!["/w/feat".to_string(), "/w/feat-2".to_string()];
    assert_eq!(fridex::workspace::unique_worktree_path("/w", "feat", &taken), Ok("/w/feat-3".to_string()));
    assert_eq!(fridex::workspace::unique_worktree_path("/w/", "new", &taken), Ok("/w/new".to_string()));
    let current = "/w/feat-2".to_string();
    assert_eq!(
        fridex::workspace::unique_worktree_path_for_rename("/w", "feat", &current, &taken),
        Ok("/w/feat-2".to_string())
    );
    let all: Vec<String> = (1..1000u64).map(|k| fridex::workspace::worktree_path_candidate("/w", "x", k)).collect();
    assert_eq!(
        fridex::workspace::unique_worktree_path("/w", "x", &all),
        Err("Failed to find an available worktree path under /w.".to_string())
    );
}
