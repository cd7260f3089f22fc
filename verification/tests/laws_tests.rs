use hcm::app::{App, Key, KeyCode};
use hcm::backend::tmux::parse_session_list;
use hcm::backend::Session;
use hcm::state::PersistedState;
use hcm::text::{split_lines, split_whitespace};
use hcm::ui::modal::{centered_rect, Rect};

fn listed(id: &str, name: &str, created: u64, cwd: &str) -> Session {
    Session {
        id: id.to_string(),
        name: name.to_string(),
        cmd: String::new(),
        running: true,
        created_at: created,
        cwd: cwd.to_string(),
        worktree: None,
    }
}

#[test]
fn printed_session_list_reads_back() {
    let ss = vec![
        listed("$0", "main", 1725029869, "/home/u/repo"),
        listed("$12", "session-2", 0, "/tmp/a|b"),
        listed("$3", "x y", 18446744073709551615, ""),
    ];
    let mut out = String::new();
    for s in &ss {
        out.push_str(&format!("{}|{}|{}|{}\n", s.id, s.name, s.created_at, s.cwd));
    }
    let back = parse_session_list(&out);
    assert_eq!(back.len(), ss.len());
    for (a, b) in back.iter().zip(ss.iter()) {
        assert_eq!(a.id, b.id);
        assert_eq!(a.name, b.name);
        assert_eq!(a.created_at, b.created_at);
        assert_eq!(a.cwd, b.cwd);
        assert_eq!(a.cmd, "");
        assert!(a.running);
        assert!(a.worktree.is_none());
    }
}

#[test]
fn refresh_twice_is_refresh_once() {
    let mut app = App::new("vim".to_string(), "/ws".to_string(), "/c".to_string(), None, PersistedState::new());
    let plan = hcm::app::SpawnPlan { name: "a".to_string(), cmd: "top".to_string(), cwd: "/d".to_string(), use_worktree: false };
    app.spawn_with(&plan, None, true);
    let list = vec![listed("$0", "a", 5, "/x"), listed("$1", "b", 6, "/y")];
    app.selected = 9;
    app.refresh_sessions(list.clone());
    let once: Vec<(String, String, String)> =
        app.sessions.iter().map(|s| (s.name.clone(), s.cmd.clone(), s.cwd.clone())).collect();
    let sel = app.selected;
    app.refresh_sessions(list);
    let twice: Vec<(String, String, String)> =
        app.sessions.iter().map(|s| (s.name.clone(), s.cmd.clone(), s.cwd.clone())).collect();
    assert_eq!(once, twice);
    assert_eq!(sel, 1);
    assert_eq!(app.selected, 1);
    assert_eq!(once[0], ("a".to_string(), "top".to_string(), "/d".to_string()));
}

#[test]
fn new_session_name_is_fresh() {
    let mut app = App::new("vim".to_string(), "/ws".to_string(), "/c".to_string(), None, PersistedState::new());
    let list: Vec<Session> = (1..=500)
        .filter(|i| i % 3 != 0)
        .map(|i| listed(&format!("${}", i), &format!("session-{}", i), 0, "/"))
        .collect();
    app.refresh_sessions(list);
    let n = app.next_session_name();
    assert_eq!(n, "session-3");
    assert!(app.sessions.iter().all(|s| s.name != n));
}

#[test]
fn dialogs_stay_inside_area() {
    for &(x, y, w, h) in &[(0u16, 0u16, 100u16, 40u16), (5, 7, 41, 3), (10, 2, 1, 0), (0, 0, 300, 90)] {
        let area = Rect { x, y, width: w, height: h };
        for &(p, ht) in &[(70u16, 14u16), (50, 6), (80, 100), (0, 0)] {
            let r = centered_rect(p, ht, area);
            assert!(r.x >= x && r.x + r.width <= x + w);
            assert!(r.y >= y && r.y + r.height <= y + h);
        }
    }
}

#[test]
fn words_and_lines_are_clean() {
    for w in split_whitespace(" a\tb\u{3000}c\n\u{a0}d  ") {
        assert!(!w.is_empty());
        assert!(!w.chars().any(char::is_whitespace));
    }
    assert_eq!(split_whitespace(" a\tb\u{3000}c\n\u{a0}d  ").len(), 4);
    for l in split_lines("x\r\n\ny\rz\n") {
        assert!(!l.contains(&'\n'));
    }
    assert_eq!(split_lines("x\r\n\ny\rz\n").len(), 3);
}

#[test]
fn escape_closes_dialogs() {
    let mut app = App::new("vim".to_string(), "/ws".to_string(), "/c".to_string(), None, PersistedState::new());
    app.handle_key(Key { code: KeyCode::Char('N'), ctrl: false });
    assert!(app.overlay.is_some());
    app.handle_key(Key { code: KeyCode::Esc, ctrl: false });
    assert!(app.overlay.is_none());
    assert!(app.running);
}
