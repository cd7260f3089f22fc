use hcm::path::{path_file_name, path_join};
use hcm::worktree::{is_branch_taken, parse_repo_root, plan_worktree, repo_slug, sanitize};

#[test]
fn sanitize_names() {
    assert_eq!(sanitize("session-1"), "session-1");
    assert_eq!(sanitize("my feature/x.y"), "my-feature-x-y");
    assert_eq!(sanitize("a_b-C9"), "a_b-C9");
    assert_eq!(sanitize("é!"), "--");
    assert_eq!(sanitize(""), "");
    let once = sanitize("we ird/name");
    assert_eq!(sanitize(&once), once);
}

#[test]
fn repo_slugs() {
    assert_eq!(repo_slug("/home/u/my repo"), "my-repo");
    assert_eq!(repo_slug("/home/u/proj/"), "proj");
    assert_eq!(repo_slug("/"), "repo");
    assert_eq!(repo_slug("/home/.."), "repo");
    assert_eq!(repo_slug("/home/u/proj/."), "proj");
}

#[test]
fn file_names() {
    assert_eq!(path_file_name("/a/b"), Some("b".to_string()));
    assert_eq!(path_file_name("/a/b//"), Some("b".to_string()));
    assert_eq!(path_file_name("a/./"), Some("a".to_string()));
    assert_eq!(path_file_name("."), None);
    assert_eq!(path_file_name(".."), None);
    assert_eq!(path_file_name(""), None);
    assert_eq!(path_file_name("/"), None);
    assert_eq!(path_file_name("x.tar.gz"), Some("x.tar.gz".to_string()));
}

#[test]
fn joins() {
    assert_eq!(path_join("/a", "b"), "/a/b");
    assert_eq!(path_join("/a/", "b"), "/a/b");
    assert_eq!(path_join("", "b"), "b");
    assert_eq!(path_join("/a", "/etc"), "/etc");
}

#[test]
fn worktree_plan() {
    let w = plan_worktree("/home/u/.hcm", "/src/my repo", "fix bug");
    assert_eq!(w.path, "/home/u/.hcm/worktrees/my-repo-fix-bug");
    assert_eq!(w.branch, "hcm/fix-bug");
    assert_eq!(w.repo_root, "/src/my repo");
}

#[test]
fn branch_taken_errors() {
    assert!(is_branch_taken("fatal: a branch named 'hcm/x' already exists"));
    assert!(is_branch_taken("fatal: 'hcm/x' is already used by worktree at '/w'"));
    assert!(!is_branch_taken("fatal: not a git repository"));
    assert!(!is_branch_taken(""));
}

#[test]
fn repo_root_output() {
    assert_eq!(parse_repo_root("/home/u/repo\n"), Some("/home/u/repo".to_string()));
    assert_eq!(parse_repo_root("  \n"), None);
    assert_eq!(parse_repo_root(""), None);
}
