use hcm::state::{state_path, PersistedState, SessionRecord};
use hcm::worktree::Worktree;

fn record(cwd: &str, cmd: &str) -> SessionRecord {
    SessionRecord { cwd: cwd.to_string(), original_cmd: cmd.to_string(), worktree: None }
}

#[test]
fn get_after_insert() {
    let mut st = PersistedState::new();
    st.insert("a".to_string(), record("/x", "vim"));
    st.insert("b".to_string(), record("/y", "top"));
    assert_eq!(st.get("a").unwrap().cwd, "/x");
    assert_eq!(st.get("b").unwrap().original_cmd, "top");
    assert!(st.get("c").is_none());
    st.insert("a".to_string(), record("/z", "htop"));
    assert_eq!(st.get("a").unwrap().cwd, "/z");
    assert_eq!(st.names().len(), 2);
}

#[test]
fn remove_gives_back_record() {
    let mut st = PersistedState::new();
    st.insert("a".to_string(), record("/x", "vim"));
    let r = st.remove("a").unwrap();
    assert_eq!(r.cwd, "/x");
    assert!(st.get("a").is_none());
    assert!(st.remove("a").is_none());
    assert!(st.names().is_empty());
}

#[test]
fn rename_moves_record() {
    let mut st = PersistedState::new();
    let wt = Worktree {
        path: "/w/repo-a".to_string(),
        branch: "hcm/a".to_string(),
        repo_root: "/repo".to_string(),
    };
    st.insert(
        "a".to_string(),
        SessionRecord { cwd: "/w/repo-a".to_string(), original_cmd: "vim".to_string(), worktree: Some(wt) },
    );
    st.rename("a", "b".to_string());
    assert!(st.get("a").is_none());
    let b = st.get("b").unwrap();
    assert_eq!(b.worktree.as_ref().unwrap().branch, "hcm/a");
    // renaming a name that is not remembered changes nothing
    st.rename("zzz", "q".to_string());
    assert!(st.get("q").is_none());
    assert_eq!(st.names(), vec!["b".to_string()]);
}

#[test]
fn gc_keeps_only_live_names() {
    let mut st = PersistedState::new();
    st.insert("a".to_string(), record("/a", "x"));
    st.insert("b".to_string(), record("/b", "y"));
    st.insert("c".to_string(), record("/c", "z"));
    st.gc(&["c".to_string(), "a".to_string(), "other".to_string()]);
    assert!(st.get("a").is_some());
    assert!(st.get("b").is_none());
    assert!(st.get("c").is_some());
    st.gc(&["c".to_string(), "a".to_string()]);
    let mut names = st.names();
    names.sort();
    assert_eq!(names, vec!["a".to_string(), "c".to_string()]);
    st.gc(&[]);
    assert!(st.names().is_empty());
}

#[test]
fn state_file_location() {
    assert_eq!(state_path("/home/u/.hcm"), "/home/u/.hcm/state.json");
    assert_eq!(state_path("/home/u/.hcm/"), "/home/u/.hcm/state.json");
    assert_eq!(state_path(""), "state.json");
}
