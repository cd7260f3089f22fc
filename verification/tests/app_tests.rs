use hcm::app::{
    shellexpand_home, next_field, prev_field, spawn_cwd, App, Effect, GhLookup, Key, KeyCode,
    NewSessionField, Overlay, SpawnPlan, View,
};
use hcm::backend::Session;
use hcm::gh::GhOutput;
use hcm::state::PersistedState;
use hcm::worktree::Worktree;

fn session(id: &str, name: &str) -> Session {
    Session {
        id: id.to_string(),
        name: name.to_string(),
        cmd: String::new(),
        running: true,
        created_at: 0,
        cwd: "/listed".to_string(),
        worktree: None,
    }
}

fn key(c: char) -> Key {
    Key { code: KeyCode::Char(c), ctrl: false }
}

fn ctrl(c: char) -> Key {
    Key { code: KeyCode::Char(c), ctrl: true }
}

fn code(k: KeyCode) -> Key {
    Key { code: k, ctrl: false }
}

fn app_with(names: &[&str]) -> App {
    let mut app = App::new("vim".to_string(), "/ws".to_string(), "/cwd".to_string(), None, PersistedState::new());
    let listed: Vec<Session> =
        names.iter().enumerate().map(|(i, n)| session(&format!("${}", i), n)).collect();
    app.refresh_sessions(listed);
    app
}

#[test]
fn new_app_starts_on_dashboard() {
    let app = App::new("vim".to_string(), "/ws".to_string(), "/cwd".to_string(), None, PersistedState::new());
    assert!(matches!(app.view, View::Dashboard));
    assert!(app.sessions.is_empty());
    assert_eq!(app.selected, 0);
    assert!(app.running);
    assert!(app.overlay.is_none());
    assert_eq!(app.snapshot, "");
}

#[test]
fn field_cycle() {
    let mut f = NewSessionField::Name;
    for _ in 0..4 {
        f = next_field(&f);
    }
    assert_eq!(f, NewSessionField::Name);
    assert_eq!(next_field(&NewSessionField::Cmd), NewSessionField::Cwd);
    assert_eq!(prev_field(&NewSessionField::Name), NewSessionField::Worktree);
    assert_eq!(prev_field(&next_field(&NewSessionField::Cwd)), NewSessionField::Cwd);
}

#[test]
fn session_names() {
    let app = app_with(&[]);
    assert_eq!(app.next_session_name(), "session-1");
    let app = app_with(&["session-1", "session-3"]);
    assert_eq!(app.next_session_name(), "session-2");
    let app = app_with(&["session-2"]);
    assert_eq!(app.next_session_name(), "session-1");
    let names: Vec<String> = (1..1000).map(|i| format!("session-{}", i)).collect();
    let refs: Vec<&str> = names.iter().map(|s| s.as_str()).collect();
    let app = app_with(&refs);
    assert_eq!(app.next_session_name(), "session-1000");
}

#[test]
fn navigation_stays_in_list() {
    let mut app = app_with(&["a", "b", "c"]);
    app.handle_key(code(KeyCode::Down));
    app.handle_key(code(KeyCode::Down));
    app.handle_key(code(KeyCode::Down));
    assert_eq!(app.selected, 2);
    app.handle_key(code(KeyCode::Up));
    assert_eq!(app.selected, 1);
    app.handle_key(code(KeyCode::Up));
    app.handle_key(code(KeyCode::Up));
    assert_eq!(app.selected, 0);
    let mut empty = app_with(&[]);
    empty.handle_key(code(KeyCode::Down));
    assert_eq!(empty.selected, 0);
}

#[test]
fn quit_and_detail() {
    let mut app = app_with(&["a", "b"]);
    app.handle_key(code(KeyCode::Down));
    app.handle_key(code(KeyCode::Enter));
    assert!(matches!(&app.view, View::Detail(id) if id == "$1"));
    app.handle_key(code(KeyCode::Esc));
    assert!(matches!(app.view, View::Dashboard));
    app.handle_key(key('Q'));
    assert!(!app.running);
}

#[test]
fn detail_keys() {
    let mut app = app_with(&["a"]);
    app.handle_key(code(KeyCode::Enter));
    assert!(matches!(app.handle_key(ctrl('y')), Effect::GhPanel { target } if target == "$0"));
    app.handle_key(ctrl('t'));
    assert_eq!(app.take_pending_attach(), Some("$0".to_string()));
    assert_eq!(app.take_pending_attach(), None);
    app.handle_key(ctrl('r'));
    assert!(matches!(&app.overlay, Some(Overlay::Rename { target, buffer, .. }) if target == "$0" && buffer == "a"));
    app.handle_key(code(KeyCode::Esc));
    assert!(app.overlay.is_none());
    app.handle_key(ctrl('\\'));
    assert!(matches!(app.view, View::Dashboard));
    app.handle_key(code(KeyCode::Enter));
    app.handle_key(key('q'));
    assert!(matches!(app.view, View::Dashboard));
}

#[test]
fn quick_new_spawns() {
    let mut app = app_with(&["session-1"]);
    match app.handle_key(key('n')) {
        Effect::Spawn(p) => {
            assert_eq!(p.name, "session-2");
            assert_eq!(p.cmd, "vim");
            assert_eq!(p.cwd, "/cwd");
            assert!(p.use_worktree);
        }
        _ => panic!("expected a spawn"),
    }
    // with Control held, n does nothing
    assert!(matches!(app.handle_key(ctrl('n')), Effect::Nothing));
    let mut no_cmd = App::new(String::new(), "/ws".to_string(), "/cwd".to_string(), None, PersistedState::new());
    assert!(matches!(no_cmd.handle_key(key('n')), Effect::Nothing));
}

#[test]
fn new_session_form() {
    let mut app = app_with(&[]);
    app.handle_key(key('N'));
    assert!(matches!(&app.overlay, Some(Overlay::NewSession { name, focus: NewSessionField::Name, use_worktree: true, .. }) if name == "session-1"));
    app.handle_key(key('x'));
    app.handle_key(code(KeyCode::Tab));
    app.handle_key(code(KeyCode::Backspace));
    app.handle_key(code(KeyCode::Backspace));
    app.handle_key(key('i'));
    app.handle_key(code(KeyCode::Tab));
    app.handle_key(code(KeyCode::Tab));
    app.handle_key(key(' '));
    match &app.overlay {
        Some(Overlay::NewSession { name, cmd, use_worktree, focus, .. }) => {
            assert_eq!(name, "session-1x");
            assert_eq!(cmd, "vi");
            assert!(!use_worktree);
            assert_eq!(*focus, NewSessionField::Worktree);
        }
        _ => panic!("form expected"),
    }
    app.handle_key(key('y'));
    app.handle_key(code(KeyCode::BackTab));
    app.handle_key(key(' '));
    match app.handle_key(code(KeyCode::Enter)) {
        Effect::Spawn(p) => {
            assert_eq!(p.name, "session-1x");
            assert_eq!(p.cmd, "vi");
            assert_eq!(p.cwd, "/cwd ");
            assert!(p.use_worktree);
        }
        _ => panic!("expected a spawn"),
    }
    assert!(app.overlay.is_none());
}

#[test]
fn home_expansion() {
    assert_eq!(shellexpand_home("~/src", Some("/home/u".to_string())), "/home/u/src");
    assert_eq!(shellexpand_home("~", Some("/home/u".to_string())), "/home/u");
    assert_eq!(shellexpand_home("~x", Some("/home/u".to_string())), "~x");
    assert_eq!(shellexpand_home("/abs", Some("/home/u".to_string())), "/abs");
    assert_eq!(shellexpand_home("~/src", None), "~/src");
    assert_eq!(shellexpand_home("~//etc", Some("/home/u".to_string())), "/etc");
}

#[test]
fn rename_flow() {
    let mut app = app_with(&["a"]);
    let plan = SpawnPlan { name: "a".to_string(), cmd: "top".to_string(), cwd: "/c".to_string(), use_worktree: false };
    assert!(app.spawn_with(&plan, None, true).is_none());
    app.handle_key(code(KeyCode::Enter));
    app.handle_key(ctrl('r'));
    app.handle_key(code(KeyCode::Backspace));
    app.handle_key(key('b'));
    match app.handle_key(code(KeyCode::Enter)) {
        Effect::Rename { target, new_name } => {
            assert_eq!(target, "$0");
            assert_eq!(new_name, "b");
        }
        _ => panic!("rename expected"),
    }
    assert!(matches!(&app.view, View::Detail(id) if id == "b"));
    assert!(app.state().get("a").is_none());
    assert_eq!(app.state().get("b").unwrap().original_cmd, "top");
    // the same name again only refreshes
    app.handle_key(key('q'));
    app.handle_key(ctrl('r'));
    assert!(matches!(app.handle_key(code(KeyCode::Enter)), Effect::Refresh));
}

#[test]
fn kill_flow() {
    let mut app = app_with(&["a", "b"]);
    let wt = Worktree { path: "/ws/worktrees/r-a".to_string(), branch: "hcm/a".to_string(), repo_root: "/r".to_string() };
    let plan = SpawnPlan { name: "a".to_string(), cmd: "top".to_string(), cwd: "/c".to_string(), use_worktree: true };
    app.spawn_with(&plan, Some(wt), true);
    assert_eq!(app.state().get("a").unwrap().cwd, "/ws/worktrees/r-a");
    app.handle_key(key('K'));
    assert!(matches!(&app.overlay, Some(Overlay::ConfirmKill { target_name, .. }) if target_name == "a"));
    match app.handle_key(key('Y')) {
        Effect::Kill { target, name } => {
            assert_eq!(target, "$0");
            assert_eq!(name, "a");
            let wt = app.do_kill(&target, &name).unwrap();
            assert_eq!(wt.branch, "hcm/a");
        }
        _ => panic!("kill expected"),
    }
    assert!(app.state().get("a").is_none());
    app.handle_key(key('K'));
    assert!(matches!(app.handle_key(key('x')), Effect::Nothing));
    assert!(app.overlay.is_none());
    assert!(app.do_kill("$9", "nobody").is_none());
}

#[test]
fn failed_spawn_returns_worktree() {
    let mut app = app_with(&[]);
    let wt = Worktree { path: "/p".to_string(), branch: "hcm/s".to_string(), repo_root: "/r".to_string() };
    let plan = SpawnPlan { name: "s".to_string(), cmd: "top".to_string(), cwd: "/c".to_string(), use_worktree: true };
    let back = app.spawn_with(&plan, Some(wt), false).unwrap();
    assert_eq!(back.path, "/p");
    assert!(app.state().get("s").is_none());
    assert_eq!(spawn_cwd("/c", &None), "/c");
}

#[test]
fn refresh_merges_records_and_clamps() {
    let mut app = app_with(&["a", "b", "c"]);
    app.selected = 2;
    let plan = SpawnPlan { name: "b".to_string(), cmd: "top -d 1".to_string(), cwd: "/c".to_string(), use_worktree: false };
    app.spawn_with(&plan, None, true);
    let empty_cmd = SpawnPlan { name: "zz".to_string(), cmd: String::new(), cwd: "/z".to_string(), use_worktree: false };
    app.spawn_with(&empty_cmd, None, true);
    app.refresh_sessions(vec![session("$0", "a"), session("$1", "b")]);
    assert_eq!(app.selected, 1);
    assert_eq!(app.sessions[1].cmd, "top -d 1");
    assert_eq!(app.sessions[1].cwd, "/c");
    assert_eq!(app.sessions[0].cwd, "/listed");
    assert!(app.state().get("zz").is_none());
    app.refresh_sessions(vec![]);
    assert_eq!(app.selected, 1);
    assert!(app.state().get("b").is_none());
}

#[test]
fn snapshot_and_gh_panel() {
    let mut app = app_with(&["a"]);
    app.refresh_snapshot(Some("out".to_string()));
    assert_eq!(app.snapshot, "");
    app.handle_key(code(KeyCode::Enter));
    app.refresh_snapshot(None);
    assert_eq!(app.snapshot, "(no snapshot available)");
    app.refresh_snapshot(Some("out".to_string()));
    assert_eq!(app.snapshot, "out");
    assert!(matches!(app.gh_lookup("$0"), GhLookup::Outside { cwd } if cwd == "/listed"));
    assert!(matches!(app.gh_lookup("$7"), GhLookup::NoSession));
    app.open_gh_panel(GhOutput { title: "T".to_string(), body: "B".to_string() });
    app.handle_key(key('j'));
    app.handle_key(key('j'));
    app.handle_key(code(KeyCode::Up));
    assert!(matches!(&app.overlay, Some(Overlay::GhPanel { scroll: 1, .. })));
    app.handle_key(code(KeyCode::Up));
    app.handle_key(code(KeyCode::Up));
    assert!(matches!(&app.overlay, Some(Overlay::GhPanel { scroll: 0, .. })));
    app.handle_key(key('x'));
    assert!(app.overlay.is_none());
}

#[test]
fn dashboard_jk_navigation() {
    let mut app = app_with(&["a", "b", "c"]);
    assert_eq!(app.selected, 0);
    assert!(matches!(app.handle_key(key('j')), Effect::Nothing));
    assert_eq!(app.selected, 1);
    app.handle_key(key('j'));
    app.handle_key(key('j'));
    assert_eq!(app.selected, 2);
    app.handle_key(key('k'));
    assert_eq!(app.selected, 1);
    app.handle_key(code(KeyCode::Up));
    app.handle_key(key('k'));
    assert_eq!(app.selected, 0);
    app.handle_key(code(KeyCode::Down));
    assert_eq!(app.selected, 1);
    assert!(app.overlay.is_none());
    assert!(matches!(app.view, View::Dashboard));
    // lower-case k never opens the kill prompt; Ctrl-K does nothing
    app.handle_key(ctrl('K'));
    assert!(app.overlay.is_none());
    app.handle_key(key('K'));
    assert!(matches!(&app.overlay, Some(Overlay::ConfirmKill { target_name, .. }) if target_name == "b"));
}

#[test]
fn new_session_form_expands_home() {
    let mut app = App::new(
        "vim".to_string(),
        "/ws".to_string(),
        "/cwd".to_string(),
        Some("/home/u".to_string()),
        PersistedState::new(),
    );
    app.handle_key(key('N'));
    app.handle_key(code(KeyCode::Tab));
    app.handle_key(code(KeyCode::Tab));
    for _ in 0..4 {
        app.handle_key(code(KeyCode::Backspace));
    }
    for c in "~/src".chars() {
        app.handle_key(key(c));
    }
    match app.handle_key(code(KeyCode::Enter)) {
        Effect::Spawn(p) => {
            assert_eq!(p.name, "session-1");
            assert_eq!(p.cmd, "vim");
            assert_eq!(p.cwd, "/home/u/src");
        }
        _ => panic!("expected a spawn"),
    }
}

#[test]
fn new_session_form_without_home_keeps_tilde() {
    let mut app = app_with(&[]);
    app.handle_key(key('N'));
    app.handle_key(code(KeyCode::Tab));
    app.handle_key(code(KeyCode::Tab));
    for _ in 0..4 {
        app.handle_key(code(KeyCode::Backspace));
    }
    app.handle_key(key('~'));
    match app.handle_key(code(KeyCode::Enter)) {
        Effect::Spawn(p) => assert_eq!(p.cwd, "~"),
        _ => panic!("expected a spawn"),
    }
}
