use hcm::backend::Session;
use hcm::gh::{invoke_failed, not_in_repo, not_installed, pr_args, pr_result, pr_title};
use hcm::ui::dashboard::{format_age, pad_right, session_row, short_cmd, status_label};
use hcm::ui::detail::{metadata_lines, visible_lines};
use hcm::ui::modal::{centered_fits, centered_rect, Rect};
use hcm::worktree::Worktree;

#[test]
fn gh_panel_texts() {
    assert_eq!(pr_title(Some("hcm/x")), "gh pr — branch hcm/x");
    assert_eq!(pr_title(None), "gh pr status");
    assert_eq!(pr_args(Some("b")), vec!["pr".to_string(), "view".to_string(), "b".to_string()]);
    assert_eq!(pr_args(None), vec!["pr".to_string(), "status".to_string()]);
    let ok = pr_result("t".to_string(), true, Some(0), "PR #1", "warn");
    assert_eq!(ok.body, "PR #1");
    let bad = pr_result("t".to_string(), false, Some(1), "", "no PR");
    assert_eq!(bad.body, "gh exited 1\n\nno PR");
    let killed = pr_result("t".to_string(), false, None, "", "sig");
    assert_eq!(killed.body, "gh exited -1\n\nsig");
    let neg = pr_result("t".to_string(), false, Some(i32::MIN), "", "");
    assert_eq!(neg.body, "gh exited -2147483648\n\n");
    assert_eq!(invoke_failed("t".to_string(), "not found").body, "Failed to invoke gh: not found");
    assert_eq!(not_installed().title, "GitHub CLI");
    assert_eq!(not_in_repo().body, "Session is not in a git repository.");
}

#[test]
fn ages() {
    assert_eq!(format_age(100, 100), "0s ago");
    assert_eq!(format_age(159, 100), "59s ago");
    assert_eq!(format_age(160, 100), "1m ago");
    assert_eq!(format_age(100 + 3599, 100), "59m ago");
    assert_eq!(format_age(100 + 3600, 100), "1h ago");
    assert_eq!(format_age(100 + 7 * 3600 + 5, 100), "7h ago");
    assert_eq!(format_age(50, 100), "0s ago");
}

#[test]
fn row_texts() {
    assert_eq!(short_cmd("vim -u NONE"), "vim");
    assert_eq!(short_cmd("   "), "   ");
    assert_eq!(short_cmd(""), "");
    assert_eq!(pad_right("ab", 5), "ab   ");
    assert_eq!(pad_right("abcdef", 3), "abcdef");
    assert_eq!(pad_right("é", 3), "é  ");
    assert_eq!(status_label(true), "running");
    assert_eq!(status_label(false), "idle");
    let s = Session {
        id: "$1".to_string(),
        name: "main".to_string(),
        cmd: "vim x".to_string(),
        running: true,
        created_at: 0,
        cwd: "/".to_string(),
        worktree: None,
    };
    let row = session_row(&s, true, 120);
    assert_eq!(row[0], "▶ ");
    assert_eq!(row[1], format!("{:<22}", "main"));
    assert_eq!(row[2], format!("{:<10}", "vim"));
    assert_eq!(row[3], format!("{:<10}", "running"));
    assert_eq!(row[4], "2m ago");
    assert_eq!(session_row(&s, false, 0)[0], "  ");
}

#[test]
fn snapshot_tail() {
    let snap = "a\nb\r\nc\nd";
    assert_eq!(visible_lines(snap, 2), vec!["c".to_string(), "d".to_string()]);
    assert_eq!(visible_lines(snap, 10).len(), 4);
    assert_eq!(visible_lines(snap, 10)[1], "b");
    assert!(visible_lines(snap, 0).is_empty());
    assert!(visible_lines("", 3).is_empty());
    assert_eq!(visible_lines("x\n\n", 5), vec!["x".to_string(), "".to_string()]);
}

#[test]
fn dialog_placement() {
    let area = Rect { x: 0, y: 0, width: 100, height: 40 };
    assert_eq!(centered_rect(70, 14, area), Rect { x: 15, y: 13, width: 70, height: 14 });
    let small = Rect { x: 2, y: 1, width: 30, height: 5 };
    // at least 40 columns, but never wider than the area less 2
    assert_eq!(centered_rect(50, 6, small), Rect { x: 3, y: 2, width: 28, height: 3 });
    let wide = Rect { x: 0, y: 0, width: 200, height: 50 };
    assert_eq!(centered_rect(10, 6, wide).width, 40);
    let tiny = Rect { x: 0, y: 0, width: 1, height: 1 };
    assert_eq!(centered_rect(80, 10, tiny), Rect { x: 0, y: 0, width: 0, height: 0 });
    let huge = Rect { x: 0, y: 0, width: 60000, height: 10 };
    assert_eq!(centered_rect(80, 4, huge).width, 655);
}

#[test]
fn dialog_fits_check() {
    let area = Rect { x: 0, y: 0, width: 100, height: 40 };
    assert!(centered_fits(70, 14, area));
    // the corner would lie past the last cell column
    let far = Rect { x: 65530, y: 0, width: 100, height: 40 };
    assert!(!centered_fits(70, 14, far));
    let low = Rect { x: 0, y: 65530, width: 100, height: 40 };
    assert!(!centered_fits(70, 14, low));
    let edge = Rect { x: 65520, y: 0, width: 10, height: 10 };
    assert!(centered_fits(70, 4, edge));
}

fn texts(line: &[String]) -> Vec<&str> {
    line.iter().map(|t| t.as_str()).collect()
}

#[test]
fn metadata_panel() {
    let mut s = Session {
        id: "$1".to_string(),
        name: "work".to_string(),
        cmd: "vim -p".to_string(),
        running: false,
        created_at: 100,
        cwd: "/home/u/p".to_string(),
        worktree: None,
    };
    let plain = metadata_lines(&s, 7300);
    assert_eq!(plain.len(), 5);
    assert_eq!(texts(&plain[0]), vec!["  Name:    ", "work"]);
    assert_eq!(texts(&plain[1]), vec!["  Command: ", "vim -p"]);
    assert_eq!(texts(&plain[2]), vec!["  Status:  ", "idle", "    ", "started ", "2h ago"]);
    assert_eq!(texts(&plain[3]), vec!["  Cwd:     ", "/home/u/p"]);
    assert_eq!(texts(&plain[4]), vec!["  Worktree: ", "—"]);
    s.running = true;
    s.worktree = Some(Worktree {
        path: "/ws/worktrees/repo-work".to_string(),
        branch: "hcm/work".to_string(),
        repo_root: "/src/repo".to_string(),
    });
    let wt = metadata_lines(&s, 100);
    assert_eq!(wt.len(), 7);
    assert_eq!(texts(&wt[2]), vec!["  Status:  ", "running", "    ", "started ", "0s ago"]);
    assert_eq!(texts(&wt[4]), vec!["  Worktree: ", "/ws/worktrees/repo-work"]);
    assert_eq!(texts(&wt[5]), vec!["  Branch:   ", "hcm/work"]);
    assert_eq!(texts(&wt[6]), vec!["  Repo:     ", "repo"]);
    s.worktree = Some(Worktree { path: "/p".to_string(), branch: "b".to_string(), repo_root: "/".to_string() });
    assert_eq!(texts(&metadata_lines(&s, 100)[6]), vec!["  Repo:     ", ""]);
}
