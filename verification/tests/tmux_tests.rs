use hcm::backend::tmux::{
    attach_args, capture_pane_args, new_session_args, parse_session_list, resize_window_args,
    TmuxBackend,
};
use hcm::backend::wezterm::{pane_session, size_title_of, spawn_args, spawned_pane_id, WezPane};
use hcm::backend::psmux::PsmuxBackend;
use hcm::backend::{choose_backend, BackendKind, SpawnOptions};
use hcm::tmux::Tmux;

fn strs(v: &[&str]) -> Vec<String> {
    v.iter().map(|s| s.to_string()).collect()
}

#[test]
fn parse_list_output() {
    let out = "$0|main|1725029869|/home/u/repo\n$1|w|x|y|0|/tmp\r\nbad line\n$2|two|+5|\n";
    let ss = parse_session_list(out);
    // the third field of the second line is no number, so it is skipped
    assert_eq!(ss.len(), 2);
    assert_eq!(ss[0].id, "$0");
    assert_eq!(ss[0].name, "main");
    assert_eq!(ss[0].created_at, 1725029869);
    assert_eq!(ss[0].cwd, "/home/u/repo");
    assert!(ss[0].running);
    assert_eq!(ss[0].cmd, "");
    assert!(ss[0].worktree.is_none());
    assert!(parse_session_list("$1|w|x|y\n").is_empty());
    assert_eq!(ss[1].id, "$2");
    assert_eq!(ss[1].created_at, 5);
    assert_eq!(ss[1].cwd, "");
}

#[test]
fn parse_list_path_with_bars() {
    let ss = parse_session_list("$3|n|7|/a|b\r\n");
    assert_eq!(ss.len(), 1);
    assert_eq!(ss[0].cwd, "/a|b");
    let ss = parse_session_list("$3|n|7|/a\r");
    assert_eq!(ss[0].cwd, "/a\r");
    assert!(parse_session_list("").is_empty());
    assert!(parse_session_list("$3|n|-7|/a\n").is_empty());
}

#[test]
fn command_lines() {
    let opts = SpawnOptions { name: "s1", cmd: "  vim  -u NONE ", cwd: "/tmp" };
    assert_eq!(
        new_session_args(&opts),
        strs(&["new-session", "-d", "-s", "s1", "-c", "/tmp", "vim", "-u", "NONE"])
    );
    assert_eq!(attach_args(true, "$1"), strs(&["switch-client", "-t", "$1"]));
    assert_eq!(attach_args(false, "$1"), strs(&["attach-session", "-t", "$1"]));
    assert_eq!(
        resize_window_args("$2", 24, 80),
        strs(&["resize-window", "-t", "$2", "-x", "80", "-y", "24"])
    );
    assert_eq!(capture_pane_args("$2", 200), strs(&["capture-pane", "-p", "-t", "$2", "-S", "-200"]));
    let _ = TmuxBackend::new();
    let _ = Tmux::new();
    let _ = PsmuxBackend::new();
}

#[test]
fn wezterm_panes() {
    let p = WezPane { pane_id: 42, title: "zsh".to_string(), tty_name: "/dev/pts/3".to_string() };
    let s = pane_session(&p, 1000);
    assert_eq!(s.id, "42");
    assert_eq!(s.name, "zsh");
    assert_eq!(s.cmd, "/dev/pts/3");
    assert_eq!(s.created_at, 1000);
    assert_eq!(spawn_args("htop -d 5"), strs(&["cli", "spawn", "--", "htop", "-d", "5"]));
    assert_eq!(spawned_pane_id("17\n"), "17");
    assert_eq!(size_title_of(24, 80), "80x24");
}

#[test]
fn backend_choice() {
    assert_eq!(choose_backend(true, true, true), BackendKind::WezTerm);
    assert_eq!(choose_backend(false, true, false), BackendKind::Tmux);
    assert_eq!(choose_backend(false, false, true), BackendKind::Tmux);
    assert_eq!(choose_backend(false, false, false), BackendKind::Psmux);
}
