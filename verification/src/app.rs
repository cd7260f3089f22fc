//! The session manager's screen state and how it answers each key.
//!
//! Everything that the terminal, the multiplexer, git or the disk must do
//! is handed back as an [`Effect`]; the caller performs it and reports the
//! outcome through the methods that take it.

use vstd::prelude::*;
use vstd::view::View as _;
use crate::backend::{Session, SessionId, SessionView, sessions_view};
use crate::gh::GhOutput;
use crate::path::join_path;
use crate::state::{PersistedState, RecordView, SessionRecord, name_set};
use crate::text::{
    chars_of, decimal, has_prefix, push_decimal, starts_with, str_eq, string_pop,
    string_push,
};
use crate::worktree::{Worktree, WorktreeView, opt_worktree_view};

verus! {

/// Which screen is shown.
#[derive(Debug, Clone, PartialEq)]
pub enum View {
    Dashboard,
    Detail(SessionId),
}

/// A screen by the characters of the session it shows.
pub enum ScreenView {
    Dashboard,
    Detail(Seq<char>),
}

impl vstd::view::View for View {
    type V = ScreenView;

    open spec fn view(&self) -> ScreenView {
        match self {
            View::Dashboard => ScreenView::Dashboard,
            View::Detail(id) => ScreenView::Detail(id@),
        }
    }
}

/// The field of the new-session form that has the focus.
#[derive(PartialEq, Eq, Structural, Clone, Copy, Debug)]
pub enum NewSessionField {
    Name,
    Cmd,
    Cwd,
    Worktree,
}

/// The field after `f`, going round.
pub open spec fn next_of(f: NewSessionField) -> NewSessionField {
    match f {
        NewSessionField::Name => NewSessionField::Cmd,
        NewSessionField::Cmd => NewSessionField::Cwd,
        NewSessionField::Cwd => NewSessionField::Worktree,
        NewSessionField::Worktree => NewSessionField::Name,
    }
}

/// The field before `f`, going round.
pub open spec fn prev_of(f: NewSessionField) -> NewSessionField {
    match f {
        NewSessionField::Name => NewSessionField::Worktree,
        NewSessionField::Cmd => NewSessionField::Name,
        NewSessionField::Cwd => NewSessionField::Cmd,
        NewSessionField::Worktree => NewSessionField::Cwd,
    }
}

/// The field after `f`, going round.
pub fn next_field(f: &NewSessionField) -> (r: NewSessionField)
    ensures
        r == next_of(*f),
{
    match f {
        NewSessionField::Name => NewSessionField::Cmd,
        NewSessionField::Cmd => NewSessionField::Cwd,
        NewSessionField::Cwd => NewSessionField::Worktree,
        NewSessionField::Worktree => NewSessionField::Name,
    }
}

/// The field before `f`, going round.
pub fn prev_field(f: &NewSessionField) -> (r: NewSessionField)
    ensures
        r == prev_of(*f),
{
    match f {
        NewSessionField::Name => NewSessionField::Worktree,
        NewSessionField::Cmd => NewSessionField::Name,
        NewSessionField::Cwd => NewSessionField::Cmd,
        NewSessionField::Worktree => NewSessionField::Cwd,
    }
}

/// A dialog over the current screen.
#[derive(Debug, Clone)]
pub enum Overlay {
    NewSession {
        name: String,
        cmd: String,
        cwd: String,
        use_worktree: bool,
        focus: NewSessionField,
    },
    Rename { target: SessionId, target_name: String, buffer: String },
    ConfirmKill { target: SessionId, target_name: String },
    GhPanel { title: String, content: String, scroll: u16 },
}

/// A dialog by the characters of its fields.
pub enum OverlayView {
    NewSession {
        name: Seq<char>,
        cmd: Seq<char>,
        cwd: Seq<char>,
        use_worktree: bool,
        focus: NewSessionField,
    },
    Rename { target: Seq<char>, target_name: Seq<char>, buffer: Seq<char> },
    ConfirmKill { target: Seq<char>, target_name: Seq<char> },
    GhPanel { title: Seq<char>, content: Seq<char>, scroll: u16 },
}

impl vstd::view::View for Overlay {
    type V = OverlayView;

    open spec fn view(&self) -> OverlayView {
        match self {
            Overlay::NewSession { name, cmd, cwd, use_worktree, focus } => OverlayView::NewSession {
                name: name@,
                cmd: cmd@,
                cwd: cwd@,
                use_worktree: *use_worktree,
                focus: *focus,
            },
            Overlay::Rename { target, target_name, buffer } => OverlayView::Rename {
                target: target@,
                target_name: target_name@,
                buffer: buffer@,
            },
            Overlay::ConfirmKill { target, target_name } => OverlayView::ConfirmKill {
                target: target@,
                target_name: target_name@,
            },
            Overlay::GhPanel { title, content, scroll } => OverlayView::GhPanel {
                title: title@,
                content: content@,
                scroll: *scroll,
            },
        }
    }
}

/// The optional dialog by its view.
pub open spec fn opt_overlay_view(o: Option<Overlay>) -> Option<OverlayView> {
    match o {
        Some(o) => Some(o@),
        None => None,
    }
}

/// The key codes that the screens answer to.
#[derive(PartialEq, Eq, Structural, Clone, Copy, Debug)]
pub enum KeyCode {
    Char(char),
    Up,
    Down,
    Enter,
    Esc,
    Tab,
    BackTab,
    Backspace,
    Other,
}

/// A pressed key, and whether Control was held.
#[derive(PartialEq, Eq, Structural, Clone, Copy, Debug)]
pub struct Key {
    pub code: KeyCode,
    pub ctrl: bool,
}

/// A session to start: its name, command and directory, and whether it is
/// to get a worktree of its own.
pub struct SpawnPlan {
    pub name: String,
    pub cmd: String,
    pub cwd: String,
    pub use_worktree: bool,
}

/// What the caller is to do after a key.
pub enum Effect {
    /// Nothing.
    Nothing,
    /// Reload the session list.
    Refresh,
    /// Rename session `target` to `new_name` in the multiplexer, save the
    /// state, and reload the session list.
    Rename { target: SessionId, new_name: String },
    /// Start a session (see [`App::spawn_with`]).
    Spawn(SpawnPlan),
    /// Kill session `target` in the multiplexer, then call [`App::do_kill`]
    /// with it and `name`.
    Kill { target: SessionId, name: String },
    /// Open the GitHub panel for session `target` (see [`App::gh_lookup`]).
    GhPanel { target: SessionId },
}

/// An effect by the characters of its fields.
pub enum EffectView {
    Nothing,
    Refresh,
    Rename { target: Seq<char>, new_name: Seq<char> },
    Spawn { name: Seq<char>, cmd: Seq<char>, cwd: Seq<char>, use_worktree: bool },
    Kill { target: Seq<char>, name: Seq<char> },
    GhPanel { target: Seq<char> },
}

impl vstd::view::View for Effect {
    type V = EffectView;

    open spec fn view(&self) -> EffectView {
        match self {
            Effect::Nothing => EffectView::Nothing,
            Effect::Refresh => EffectView::Refresh,
            Effect::Rename { target, new_name } => EffectView::Rename {
                target: target@,
                new_name: new_name@,
            },
            Effect::Spawn(p) => EffectView::Spawn {
                name: p.name@,
                cmd: p.cmd@,
                cwd: p.cwd@,
                use_worktree: p.use_worktree,
            },
            Effect::Kill { target, name } => EffectView::Kill { target: target@, name: name@ },
            Effect::GhPanel { target } => EffectView::GhPanel { target: target@ },
        }
    }
}

/// The whole screen state, by the characters of its texts.
#[verifier::ext_equal]
pub struct AppModel {
    pub view: ScreenView,
    pub sessions: Seq<SessionView>,
    pub selected: int,
    pub cmd: Seq<char>,
    pub running: bool,
    pub overlay: Option<OverlayView>,
    pub workspace: Seq<char>,
    pub cwd: Seq<char>,
    pub snapshot: Seq<char>,
    pub state: Map<Seq<char>, RecordView>,
    pub pending_attach: Option<Seq<char>>,
    pub home: Option<Seq<char>>,
}

/// The session manager's screen state.
pub struct App {
    pub view: View,
    pub sessions: Vec<Session>,
    pub selected: usize,
    pub cmd: String,
    pub running: bool,
    pub overlay: Option<Overlay>,
    pub workspace: String,
    pub cwd: String,
    pub snapshot: String,
    /// The user's home directory, which a `~` in a new session's directory
    /// stands for.
    pub home: Option<String>,
    state: PersistedState,
    pending_attach: Option<SessionId>,
}

impl vstd::view::View for App {
    type V = AppModel;

    closed spec fn view(&self) -> AppModel {
        AppModel {
            view: self.view@,
            sessions: sessions_view(self.sessions@),
            selected: self.selected as int,
            cmd: self.cmd@,
            running: self.running,
            overlay: opt_overlay_view(self.overlay),
            workspace: self.workspace@,
            cwd: self.cwd@,
            snapshot: self.snapshot@,
            state: self.state_view(),
            pending_attach: self.pending_view(),
            home: opt_str_view(self.home),
        }
    }
}

// ---------------------------------------------------------------------------
// The names of new sessions
// ---------------------------------------------------------------------------

/// The name `session-<i>`.
pub open spec fn session_name(i: nat) -> Seq<char> {
    "session-"@ + decimal(i)
}

/// Whether some session is named `n`.
pub open spec fn name_taken(sessions: Seq<SessionView>, n: Seq<char>) -> bool {
    exists|j: int| 0 <= j < sessions.len() && #[trigger] sessions[j].name == n
}

/// The first of `session-<i>`, ..., `session-999` that no session has;
/// `session-<count + 1>` when all are taken.
pub open spec fn first_free_name(sessions: Seq<SessionView>, i: nat) -> Seq<char>
    decreases 1000 - i,
{
    if i >= 1000 {
        session_name(sessions.len() + 1)
    } else if !name_taken(sessions, session_name(i)) {
        session_name(i)
    } else {
        first_free_name(sessions, i + 1)
    }
}

/// The name that a new session gets: the first `session-<i>`, `i` from 1
/// to 999, that no session has.
pub open spec fn next_name(sessions: Seq<SessionView>) -> Seq<char> {
    first_free_name(sessions, 1)
}

// ---------------------------------------------------------------------------
// The steps of the screen state
// ---------------------------------------------------------------------------

/// Start a session only when it has a name and a command.
pub open spec fn spawn_effect(name: Seq<char>, cmd: Seq<char>, cwd: Seq<char>, use_worktree: bool) -> EffectView {
    if name.len() == 0 || cmd.len() == 0 {
        EffectView::Nothing
    } else {
        EffectView::Spawn { name, cmd, cwd, use_worktree }
    }
}

/// `s` with `~` or a leading `~/` taken to be the home directory, when it
/// is known.
pub open spec fn expand_home(s: Seq<char>, home: Option<Seq<char>>) -> Seq<char> {
    match home {
        None => s,
        Some(h) => if has_prefix(s, "~/"@) {
            join_path(h, s.skip(2))
        } else if s == "~"@ {
            h
        } else {
            s
        },
    }
}

/// The rename dialog for a session, filled with its name.
pub open spec fn rename_overlay(s: SessionView) -> OverlayView {
    OverlayView::Rename { target: s.id, target_name: s.name, buffer: s.name }
}

/// The position of the first session with id `id`, or -1.
pub open spec fn first_with_id(sessions: Seq<SessionView>, id: Seq<char>) -> int {
    if exists|i: int| 0 <= i < sessions.len() && sessions[i].id == id && (forall|k: int|
        0 <= k < i ==> sessions[k].id != id) {
        choose|i: int|
            0 <= i < sessions.len() && sessions[i].id == id && (forall|k: int|
                0 <= k < i ==> sessions[k].id != id)
    } else {
        -1
    }
}

/// The selection one row down, stopping at the last session.
pub open spec fn moved_down(m: AppModel) -> AppModel {
    let len = m.sessions.len();
    if len > 0 {
        AppModel {
            selected: if m.selected >= len - 1 {
                len - 1
            } else {
                m.selected + 1
            },
            ..m
        }
    } else {
        m
    }
}

/// The selection one row up, stopping at the first session.
pub open spec fn moved_up(m: AppModel) -> AppModel {
    if m.selected > 0 {
        AppModel { selected: m.selected - 1, ..m }
    } else {
        m
    }
}

/// What the dashboard does with a key: `Q` quits, Down or `j` and Up or `k`
/// move the selection, Enter shows the selected session, `n` starts a
/// session, `N` opens the new-session form, Ctrl-`r` renames and `K` kills
/// the selected session.
pub open spec fn dashboard_step(m: AppModel, key: Key) -> (AppModel, EffectView) {
    let len = m.sessions.len();
    let selected_ok = 0 <= m.selected < len;
    match key.code {
        KeyCode::Char(c) => if c == 'Q' {
            (AppModel { running: false, ..m }, EffectView::Nothing)
        } else if c == 'n' && !key.ctrl {
            (m, spawn_effect(next_name(m.sessions), m.cmd, m.cwd, true))
        } else if c == 'N' {
            (
                AppModel {
                    overlay: Some(
                        OverlayView::NewSession {
                            name: next_name(m.sessions),
                            cmd: m.cmd,
                            cwd: m.cwd,
                            use_worktree: true,
                            focus: NewSessionField::Name,
                        },
                    ),
                    ..m
                },
                EffectView::Nothing,
            )
        } else if c == 'r' && key.ctrl && selected_ok {
            (
                AppModel { overlay: Some(rename_overlay(m.sessions[m.selected])), ..m },
                EffectView::Nothing,
            )
        } else if c == 'j' {
            (moved_down(m), EffectView::Nothing)
        } else if c == 'k' {
            (moved_up(m), EffectView::Nothing)
        } else if c == 'K' && !key.ctrl && selected_ok {
            (
                AppModel {
                    overlay: Some(
                        OverlayView::ConfirmKill {
                            target: m.sessions[m.selected].id,
                            target_name: m.sessions[m.selected].name,
                        },
                    ),
                    ..m
                },
                EffectView::Nothing,
            )
        } else {
            (m, EffectView::Nothing)
        },
        KeyCode::Down => (moved_down(m), EffectView::Nothing),
        KeyCode::Up => (moved_up(m), EffectView::Nothing),
        KeyCode::Enter => if selected_ok {
            (
                AppModel { view: ScreenView::Detail(m.sessions[m.selected].id), ..m },
                EffectView::Nothing,
            )
        } else {
            (m, EffectView::Nothing)
        },
        _ => (m, EffectView::Nothing),
    }
}

/// The model with the dialog `o` shown.
pub open spec fn with_overlay(m: AppModel, o: OverlayView) -> AppModel {
    AppModel { overlay: Some(o), ..m }
}

/// The rename dialog for the first session with id `id`, if there is one.
pub open spec fn rename_for(m: AppModel, id: Seq<char>) -> AppModel {
    let i = first_with_id(m.sessions, id);
    if i >= 0 {
        with_overlay(m, rename_overlay(m.sessions[i]))
    } else {
        m
    }
}

/// What the detail screen does with a key.
pub open spec fn detail_step(m: AppModel, key: Key) -> (AppModel, EffectView) {
    match m.view {
        ScreenView::Dashboard => (m, EffectView::Nothing),
        ScreenView::Detail(id) => {
            let back = AppModel { view: ScreenView::Dashboard, ..m };
            match key.code {
                KeyCode::Esc => (back, EffectView::Nothing),
                KeyCode::Char(c) => if c == 'q' {
                    (back, EffectView::Nothing)
                } else if key.ctrl && c == 't' {
                    (AppModel { pending_attach: Some(id), ..m }, EffectView::Nothing)
                } else if key.ctrl && c == 'y' {
                    (m, EffectView::GhPanel { target: id })
                } else if key.ctrl && c == 'r' {
                    (rename_for(m, id), EffectView::Nothing)
                } else if key.ctrl && c == '\\' {
                    (back, EffectView::Nothing)
                } else {
                    (m, EffectView::Nothing)
                },
                _ => (m, EffectView::Nothing),
            }
        },
    }
}

/// `s` without its last character, if it has one (`String::pop`).
pub open spec fn pop_last(s: Seq<char>) -> Seq<char> {
    if s.len() > 0 {
        s.drop_last()
    } else {
        s
    }
}

/// The new-session form after typing `c` into the field with the focus;
/// on the worktree switch, `y` turns it on and `n` off.
pub open spec fn form_typed(
    name: Seq<char>,
    cmd: Seq<char>,
    cwd: Seq<char>,
    use_worktree: bool,
    focus: NewSessionField,
    c: char,
) -> OverlayView {
    match focus {
        NewSessionField::Name => OverlayView::NewSession {
            name: name.push(c),
            cmd,
            cwd,
            use_worktree,
            focus,
        },
        NewSessionField::Cmd => OverlayView::NewSession {
            name,
            cmd: cmd.push(c),
            cwd,
            use_worktree,
            focus,
        },
        NewSessionField::Cwd => OverlayView::NewSession {
            name,
            cmd,
            cwd: cwd.push(c),
            use_worktree,
            focus,
        },
        NewSessionField::Worktree => OverlayView::NewSession {
            name,
            cmd,
            cwd,
            use_worktree: if c == 'y' || c == 'Y' {
                true
            } else if c == 'n' || c == 'N' {
                false
            } else {
                use_worktree
            },
            focus,
        },
    }
}

/// The new-session form after erasing the last character of the field
/// with the focus.
pub open spec fn form_erased(
    name: Seq<char>,
    cmd: Seq<char>,
    cwd: Seq<char>,
    use_worktree: bool,
    focus: NewSessionField,
) -> OverlayView {
    match focus {
        NewSessionField::Name => OverlayView::NewSession {
            name: pop_last(name),
            cmd,
            cwd,
            use_worktree,
            focus,
        },
        NewSessionField::Cmd => OverlayView::NewSession {
            name,
            cmd: pop_last(cmd),
            cwd,
            use_worktree,
            focus,
        },
        NewSessionField::Cwd => OverlayView::NewSession {
            name,
            cmd,
            cwd: pop_last(cwd),
            use_worktree,
            focus,
        },
        NewSessionField::Worktree => OverlayView::NewSession {
            name,
            cmd,
            cwd,
            use_worktree,
            focus,
        },
    }
}

/// The remembered state after a rename: the record moves to the new name.
pub open spec fn renamed(
    st: Map<Seq<char>, RecordView>,
    old_name: Seq<char>,
    new_name: Seq<char>,
) -> Map<Seq<char>, RecordView> {
    if st.contains_key(old_name) {
        st.remove(old_name).insert(new_name, st[old_name])
    } else {
        st
    }
}

/// What a dialog does with a key; a `~` in the directory of a new session
/// stands for the home directory that the screen was given.
pub open spec fn overlay_step(m: AppModel, key: Key) -> (AppModel, EffectView) {
    let closed = AppModel { overlay: None, ..m };
    match m.overlay {
        None => (m, EffectView::Nothing),
        Some(o) => match o {
            OverlayView::NewSession { name, cmd, cwd, use_worktree, focus } => match key.code {
                KeyCode::Esc => (closed, EffectView::Nothing),
                KeyCode::Tab => (
                    with_overlay(
                        m,
                        OverlayView::NewSession { name, cmd, cwd, use_worktree, focus: next_of(focus) },
                    ),
                    EffectView::Nothing,
                ),
                KeyCode::BackTab => (
                    with_overlay(
                        m,
                        OverlayView::NewSession { name, cmd, cwd, use_worktree, focus: prev_of(focus) },
                    ),
                    EffectView::Nothing,
                ),
                KeyCode::Enter => (
                    closed,
                    spawn_effect(name, cmd, expand_home(cwd, m.home), use_worktree),
                ),
                KeyCode::Char(c) => if c == ' ' && focus == NewSessionField::Worktree {
                    (
                        with_overlay(
                            m,
                            OverlayView::NewSession {
                                name,
                                cmd,
                                cwd,
                                use_worktree: !use_worktree,
                                focus,
                            },
                        ),
                        EffectView::Nothing,
                    )
                } else {
                    (
                        with_overlay(m, form_typed(name, cmd, cwd, use_worktree, focus, c)),
                        EffectView::Nothing,
                    )
                },
                KeyCode::Backspace => (
                    with_overlay(m, form_erased(name, cmd, cwd, use_worktree, focus)),
                    EffectView::Nothing,
                ),
                _ => (m, EffectView::Nothing),
            },
            OverlayView::Rename { target, target_name, buffer } => match key.code {
                KeyCode::Esc => (closed, EffectView::Nothing),
                KeyCode::Enter => if buffer.len() > 0 && buffer != target_name {
                    (
                        AppModel {
                            overlay: None,
                            state: renamed(m.state, target_name, buffer),
                            view: if m.view == ScreenView::Detail(target) {
                                ScreenView::Detail(buffer)
                            } else {
                                m.view
                            },
                            ..m
                        },
                        EffectView::Rename { target, new_name: buffer },
                    )
                } else {
                    (closed, EffectView::Refresh)
                },
                KeyCode::Backspace => (
                    with_overlay(
                        m,
                        OverlayView::Rename { target, target_name, buffer: pop_last(buffer) },
                    ),
                    EffectView::Nothing,
                ),
                KeyCode::Char(c) => (
                    with_overlay(
                        m,
                        OverlayView::Rename { target, target_name, buffer: buffer.push(c) },
                    ),
                    EffectView::Nothing,
                ),
                _ => (m, EffectView::Nothing),
            },
            OverlayView::ConfirmKill { target, target_name } => match key.code {
                KeyCode::Enter => (closed, EffectView::Kill { target, name: target_name }),
                KeyCode::Char(c) => if c == 'y' || c == 'Y' {
                    (closed, EffectView::Kill { target, name: target_name })
                } else {
                    (closed, EffectView::Nothing)
                },
                _ => (closed, EffectView::Nothing),
            },
            OverlayView::GhPanel { title, content, scroll } => {
                let down = key.code == KeyCode::Down || key.code == KeyCode::Char('j');
                let up = key.code == KeyCode::Up || key.code == KeyCode::Char('k');
                if down {
                    (
                        with_overlay(
                            m,
                            OverlayView::GhPanel {
                                title,
                                content,
                                scroll: if scroll == u16::MAX {
                                    scroll
                                } else {
                                    (scroll + 1) as u16
                                },
                            },
                        ),
                        EffectView::Nothing,
                    )
                } else if up {
                    (
                        with_overlay(
                            m,
                            OverlayView::GhPanel {
                                title,
                                content,
                                scroll: if scroll == 0 {
                                    scroll
                                } else {
                                    (scroll - 1) as u16
                                },
                            },
                        ),
                        EffectView::Nothing,
                    )
                } else {
                    (closed, EffectView::Nothing)
                }
            },
        },
    }
}

/// What the screen does with a key: a dialog takes it first, otherwise
/// the screen shown.
pub open spec fn key_step(m: AppModel, key: Key) -> (AppModel, EffectView) {
    if m.overlay is Some {
        overlay_step(m, key)
    } else {
        match m.view {
            ScreenView::Dashboard => dashboard_step(m, key),
            ScreenView::Detail(_) => detail_step(m, key),
        }
    }
}

/// A session as the refreshed list shows it: what is remembered of it
/// gives its directory, its worktree, and its command unless that is empty.
pub open spec fn with_record(s: SessionView, st: Map<Seq<char>, RecordView>) -> SessionView {
    if st.contains_key(s.name) {
        let rec = st[s.name];
        SessionView {
            cwd: rec.cwd,
            cmd: if rec.original_cmd.len() > 0 {
                rec.original_cmd
            } else {
                s.cmd
            },
            worktree: rec.worktree,
            ..s
        }
    } else {
        s
    }
}

/// The names of a list of sessions.
pub open spec fn session_names(ss: Seq<SessionView>) -> Set<Seq<char>> {
    Set::new(|k: Seq<char>| exists|j: int| 0 <= j < ss.len() && #[trigger] ss[j].name == k)
}

/// The screen after the multiplexer listed `listed`: the sessions take what
/// is remembered of them, records of sessions that are gone are dropped,
/// and a selection past the end moves to the last session.
pub open spec fn refreshed(m: AppModel, listed: Seq<SessionView>) -> AppModel {
    let ss = listed.map_values(|s: SessionView| with_record(s, m.state));
    AppModel {
        sessions: ss,
        state: m.state.restrict(session_names(listed)),
        selected: if ss.len() > 0 && m.selected >= ss.len() {
            ss.len() - 1
        } else {
            m.selected
        },
        ..m
    }
}

/// What the GitHub panel of a session is to show.
pub enum GhLookup {
    /// No session has the id.
    NoSession,
    /// The session has a worktree: its repository and branch.
    InWorktree { repo_root: String, branch: String },
    /// The session has no worktree: the repository, if any, is the one
    /// around its directory.
    Outside { cwd: String },
}

/// Whether some session has the id, and the worktree and directory of the
/// first one that has.
pub open spec fn gh_lookup_of(sessions: Seq<SessionView>, id: Seq<char>) -> (bool, Option<WorktreeView>, Seq<char>) {
    let i = first_with_id(sessions, id);
    if i < 0 {
        (false, None, seq![])
    } else {
        (true, sessions[i].worktree, sessions[i].cwd)
    }
}

/// The effect that starts a session, when it has a name and a command.
pub fn spawn_request(name: String, cmd: String, cwd: String, use_worktree: bool) -> (r: Effect)
    ensures
        r@ == spawn_effect(name@, cmd@, cwd@, use_worktree),
{
    if name.as_str().is_empty() || cmd.as_str().is_empty() {
        Effect::Nothing
    } else {
        Effect::Spawn(SpawnPlan { name, cmd, cwd, use_worktree })
    }
}

impl App {
    /// The remembered sessions, by name.
    pub closed spec fn state_view(&self) -> Map<Seq<char>, RecordView> {
        self.state@
    }

    /// The session to attach to once the screen is handed over.
    pub closed spec fn pending_view(&self) -> Option<Seq<char>> {
        match self.pending_attach {
            Some(p) => Some(p@),
            None => None,
        }
    }

    /// The remembered state has each name once.
    pub closed spec fn wf(&self) -> bool {
        self.state.wf()
    }

    /// The dashboard of a workspace, with the state loaded from it.
    pub fn new(
        cmd: String,
        workspace: String,
        cwd: String,
        home: Option<String>,
        state: PersistedState,
    ) -> (a: App)
        requires
            state.wf(),
        ensures
            a.wf(),
            a@ == (AppModel {
                view: ScreenView::Dashboard,
                sessions: seq![],
                selected: 0,
                cmd: cmd@,
                running: true,
                overlay: None,
                workspace: workspace@,
                cwd: cwd@,
                snapshot: seq![],
                state: state@,
                pending_attach: None,
                home: opt_str_view(home),
            }),
    {
        let a = App {
            view: View::Dashboard,
            sessions: Vec::new(),
            selected: 0,
            cmd,
            running: true,
            overlay: None,
            workspace,
            cwd,
            snapshot: String::new(),
            home,
            state,
            pending_attach: None,
        };
        assert(sessions_view(a.sessions@) =~= seq![]);
        a
    }

    /// The remembered state, to be saved.
    pub fn state(&self) -> (r: &PersistedState)
        requires
            self.wf(),
        ensures
            r.wf(),
            r@ == self@.state,
    {
        &self.state
    }

    /// The session to attach to, if one was asked for; it is asked for once.
    pub fn take_pending_attach(&mut self) -> (r: Option<SessionId>)
        requires
            old(self).wf(),
        ensures
            final(self).wf(),
            final(self)@ == (AppModel { pending_attach: None, ..old(self)@ }),
            match r {
                Some(id) => old(self)@.pending_attach == Some(id@),
                None => old(self)@.pending_attach is None,
            },
    {
        self.pending_attach.take()
    }

    /// Whether some session is named `n`.
    fn name_in_use(&self, n: &String) -> (r: bool)
        ensures
            r == name_taken(self@.sessions, n@),
    {
        let mut j: usize = 0;
        while j < self.sessions.len()
            invariant
                j <= self.sessions.len(),
                forall|k: int| 0 <= k < j ==> self.sessions@[k].name@ != n@,
            decreases self.sessions.len() - j,
        {
            if self.sessions[j].name == *n {
                assert(sessions_view(self.sessions@)[j as int].name == n@);
                return true;
            }
            j = j + 1;
        }
        assert(!name_taken(self@.sessions, n@)) by {
            if name_taken(self@.sessions, n@) {
                let k = choose|k: int|
                    0 <= k < self@.sessions.len() && #[trigger] self@.sessions[k].name == n@;
                assert(self.sessions@[k].name@ == n@);
            }
        }
        false
    }

    /// The name for a new session: the first `session-<i>`, `i` from 1 to
    /// 999, that no session has, else `session-<count + 1>`.
    pub fn next_session_name(&self) -> (r: String)
        requires
            self.wf(),
        ensures
            r@ == next_name(self@.sessions),
    {
        let mut i: u64 = 1;
        while i < 1000
            invariant
                1 <= i <= 1000,
                next_name(self@.sessions) == first_free_name(self@.sessions, i as nat),
            decreases 1000 - i,
        {
            let mut candidate = String::from_str("session-");
            push_decimal(&mut candidate, i);
            if !self.name_in_use(&candidate) {
                return candidate;
            }
            i = i + 1;
        }
        let mut fallback = String::from_str("session-");
        let count = self.sessions.len() as u64;
        if count < u64::MAX {
            push_decimal(&mut fallback, count + 1);
        } else {
            // `u64::MAX + 1` is written as the digits of its tenth, then 6.
            push_decimal(&mut fallback, u64::MAX / 10);
            string_push(&mut fallback, '6');
            proof {
                let n: nat = self.sessions.len() as nat + 1;
                assert(n / 10 == u64::MAX / 10 && n % 10 == 6);
            }
        }
        fallback
    }

    /// Starts a session named after the first free `session-<i>`, with the
    /// default command, in the working directory, in a worktree.
    pub fn quick_new(&self) -> (r: Effect)
        requires
            self.wf(),
        ensures
            r@ == spawn_effect(next_name(self@.sessions), self@.cmd, self@.cwd, true),
    {
        let name = self.next_session_name();
        spawn_request(name, self.cmd.clone(), self.cwd.clone(), true)
    }

    /// Opens the new-session form, filled with the next free name, the
    /// default command and the working directory.
    pub fn open_new_session_modal(&mut self)
        requires
            old(self).wf(),
        ensures
            final(self).wf(),
            final(self)@ == (AppModel {
                overlay: Some(
                    OverlayView::NewSession {
                        name: next_name(old(self)@.sessions),
                        cmd: old(self)@.cmd,
                        cwd: old(self)@.cwd,
                        use_worktree: true,
                        focus: NewSessionField::Name,
                    },
                ),
                ..old(self)@
            }),
    {
        let name = self.next_session_name();
        self.overlay = Some(
            Overlay::NewSession {
                name,
                cmd: self.cmd.clone(),
                cwd: self.cwd.clone(),
                use_worktree: true,
                focus: NewSessionField::Name,
            },
        );
    }

    /// Opens the rename dialog for the selected session, if there is one.
    pub fn open_rename_modal(&mut self)
        requires
            old(self).wf(),
        ensures
            final(self).wf(),
            0 <= old(self)@.selected < old(self)@.sessions.len() ==> final(self)@ == (AppModel {
                overlay: Some(rename_overlay(old(self)@.sessions[old(self)@.selected])),
                ..old(self)@
            }),
            !(0 <= old(self)@.selected < old(self)@.sessions.len()) ==> final(self)@ == old(
                self,
            )@,
    {
        if self.selected < self.sessions.len() {
            let s = &self.sessions[self.selected];
            let o = Overlay::Rename {
                target: s.id.clone(),
                target_name: s.name.clone(),
                buffer: s.name.clone(),
            };
            self.overlay = Some(o);
        }
    }

    /// The position of the first session with id `id`.
    fn position_of_id(&self, id: &str) -> (r: Option<usize>)
        ensures
            r matches Some(j) ==> j < self.sessions.len() && j as int == first_with_id(
                self@.sessions,
                id@,
            ),
            r is None ==> first_with_id(self@.sessions, id@) == -1,
    {
        let ghost ss = self@.sessions;
        let mut j: usize = 0;
        while j < self.sessions.len()
            invariant
                ss == sessions_view(self.sessions@),
                j <= self.sessions.len(),
                forall|k: int| 0 <= k < j ==> ss[k].id != id@,
            decreases self.sessions.len() - j,
        {
            if str_eq(self.sessions[j].id.as_str(), id) {
                proof {
                    assert(ss[j as int].id == id@);
                    let i = first_with_id(ss, id@);
                    assert(0 <= j < ss.len() && ss[j as int].id == id@ && (forall|k: int|
                        0 <= k < j ==> ss[k].id != id@));
                    assert(i == j) by {
                        if i < j {
                            assert(ss[i].id == id@);
                        }
                        if i > j {
                            assert(ss[j as int].id != id@);
                        }
                    }
                }
                return Some(j);
            }
            j = j + 1;
        }
        assert(first_with_id(ss, id@) == -1) by {
            if exists|i: int| 0 <= i < ss.len() && ss[i].id == id@ && (forall|k: int|
                0 <= k < i ==> ss[k].id != id@) {
                let i = choose|i: int|
                    0 <= i < ss.len() && ss[i].id == id@ && (forall|k: int|
                        0 <= k < i ==> ss[k].id != id@);
                assert(ss[i].id != id@);
            }
        }
        None
    }

    /// Opens the rename dialog for the first session with id `id`, if there
    /// is one.
    pub fn open_rename_modal_for(&mut self, id: &str)
        requires
            old(self).wf(),
        ensures
            final(self).wf(),
            ({
                let i = first_with_id(old(self)@.sessions, id@);
                &&& i >= 0 ==> final(self)@ == (AppModel {
                    overlay: Some(rename_overlay(old(self)@.sessions[i])),
                    ..old(self)@
                })
                &&& i < 0 ==> final(self)@ == old(self)@
            }),
    {
        if let Some(j) = self.position_of_id(id) {
            let s = &self.sessions[j];
            let o = Overlay::Rename {
                target: s.id.clone(),
                target_name: s.name.clone(),
                buffer: s.name.clone(),
            };
            self.overlay = Some(o);
        }
    }

    /// Opens the kill confirmation for the selected session, if there is
    /// one.
    pub fn open_kill_confirm(&mut self)
        requires
            old(self).wf(),
        ensures
            final(self).wf(),
            0 <= old(self)@.selected < old(self)@.sessions.len() ==> final(self)@ == (AppModel {
                overlay: Some(
                    OverlayView::ConfirmKill {
                        target: old(self)@.sessions[old(self)@.selected].id,
                        target_name: old(self)@.sessions[old(self)@.selected].name,
                    },
                ),
                ..old(self)@
            }),
            !(0 <= old(self)@.selected < old(self)@.sessions.len()) ==> final(self)@ == old(
                self,
            )@,
    {
        if self.selected < self.sessions.len() {
            let s = &self.sessions[self.selected];
            let o = Overlay::ConfirmKill { target: s.id.clone(), target_name: s.name.clone() };
            self.overlay = Some(o);
        }
    }

    /// Moves the selection one row down, stopping at the last session.
    fn move_down(&mut self)
        requires
            old(self).wf(),
        ensures
            final(self).wf(),
            final(self)@ == moved_down(old(self)@),
    {
        let len = self.sessions.len();
        if len > 0 {
            if self.selected >= len - 1 {
                self.selected = len - 1;
            } else {
                self.selected = self.selected + 1;
            }
        }
    }

    /// Moves the selection one row up, stopping at the first session.
    fn move_up(&mut self)
        requires
            old(self).wf(),
        ensures
            final(self).wf(),
            final(self)@ == moved_up(old(self)@),
    {
        if self.selected > 0 {
            self.selected = self.selected - 1;
        }
    }

    /// Answers a key on the dashboard.
    pub fn handle_dashboard_key(&mut self, key: Key) -> (r: Effect)
        requires
            old(self).wf(),
        ensures
            final(self).wf(),
            (final(self)@, r@) == dashboard_step(old(self)@, key),
    {
        let len = self.sessions.len();
        match key.code {
            KeyCode::Char(c) => {
                if c == 'Q' {
                    self.running = false;
                    Effect::Nothing
                } else if c == 'n' && !key.ctrl {
                    self.quick_new()
                } else if c == 'N' {
                    self.open_new_session_modal();
                    Effect::Nothing
                } else if c == 'r' && key.ctrl {
                    self.open_rename_modal();
                    Effect::Nothing
                } else if c == 'j' {
                    self.move_down();
                    Effect::Nothing
                } else if c == 'k' {
                    self.move_up();
                    Effect::Nothing
                } else if c == 'K' && !key.ctrl {
                    self.open_kill_confirm();
                    Effect::Nothing
                } else {
                    Effect::Nothing
                }
            },
            KeyCode::Down => {
                self.move_down();
                Effect::Nothing
            },
            KeyCode::Up => {
                self.move_up();
                Effect::Nothing
            },
            KeyCode::Enter => {
                if self.selected < len {
                    self.view = View::Detail(self.sessions[self.selected].id.clone());
                }
                Effect::Nothing
            },
            _ => Effect::Nothing,
        }
    }

    /// Answers a key on the detail screen of a session.
    pub fn handle_detail_key(&mut self, key: Key) -> (r: Effect)
        requires
            old(self).wf(),
        ensures
            final(self).wf(),
            (final(self)@, r@) == detail_step(old(self)@, key),
    {
        let id = match &self.view {
            View::Detail(id) => id.clone(),
            View::Dashboard => {
                return Effect::Nothing;
            },
        };
        match key.code {
            KeyCode::Esc => {
                self.view = View::Dashboard;
                Effect::Nothing
            },
            KeyCode::Char(c) => {
                if c == 'q' {
                    self.view = View::Dashboard;
                    Effect::Nothing
                } else if key.ctrl && c == 't' {
                    self.pending_attach = Some(id);
                    Effect::Nothing
                } else if key.ctrl && c == 'y' {
                    Effect::GhPanel { target: id }
                } else if key.ctrl && c == 'r' {
                    self.open_rename_modal_for(id.as_str());
                    Effect::Nothing
                } else if key.ctrl && c == '\\' {
                    self.view = View::Dashboard;
                    Effect::Nothing
                } else {
                    Effect::Nothing
                }
            },
            _ => Effect::Nothing,
        }
    }

    /// Answers a key in the dialog shown.
    pub fn handle_overlay_key(&mut self, key: Key) -> (r: Effect)
        requires
            old(self).wf(),
        ensures
            final(self).wf(),
            (final(self)@, r@) == overlay_step(old(self)@, key),
    {
        let ghost m = self@;
        let overlay = match self.overlay.take() {
            Some(o) => o,
            None => {
                assert((self@, Effect::Nothing@) == overlay_step(m, key));
                return Effect::Nothing;
            },
        };
        match overlay {
            Overlay::NewSession { mut name, mut cmd, mut cwd, mut use_worktree, mut focus } => {
                match key.code {
                    KeyCode::Esc => {
                        assert((self@, Effect::Nothing@) == overlay_step(m, key));
                        Effect::Nothing
                    },
                    KeyCode::Tab => {
                        focus = next_field(&focus);
                        self.overlay = Some(Overlay::NewSession { name, cmd, cwd, use_worktree, focus });
                        assert((self@, Effect::Nothing@) == overlay_step(m, key));
                        Effect::Nothing
                    },
                    KeyCode::BackTab => {
                        focus = prev_field(&focus);
                        self.overlay = Some(Overlay::NewSession { name, cmd, cwd, use_worktree, focus });
                        assert((self@, Effect::Nothing@) == overlay_step(m, key));
                        Effect::Nothing
                    },
                    KeyCode::Enter => {
                        let home = match &self.home {
                            Some(h) => Some(h.clone()),
                            None => None,
                        };
                        let expanded = shellexpand_home(cwd.as_str(), home);
                        let r = spawn_request(name, cmd, expanded, use_worktree);
                        assert((self@, r@) == overlay_step(m, key));
                        r
                    },
                    KeyCode::Char(c) => {
                        if c == ' ' && focus == NewSessionField::Worktree {
                            use_worktree = !use_worktree;
                        } else {
                            match focus {
                                NewSessionField::Name => string_push(&mut name, c),
                                NewSessionField::Cmd => string_push(&mut cmd, c),
                                NewSessionField::Cwd => string_push(&mut cwd, c),
                                NewSessionField::Worktree => {
                                    if c == 'y' || c == 'Y' {
                                        use_worktree = true;
                                    } else if c == 'n' || c == 'N' {
                                        use_worktree = false;
                                    }
                                },
                            }
                        }
                        self.overlay = Some(Overlay::NewSession { name, cmd, cwd, use_worktree, focus });
                        assert((self@, Effect::Nothing@) == overlay_step(m, key));
                        Effect::Nothing
                    },
                    KeyCode::Backspace => {
                        match focus {
                            NewSessionField::Name => {
                                string_pop(&mut name);
                            },
                            NewSessionField::Cmd => {
                                string_pop(&mut cmd);
                            },
                            NewSessionField::Cwd => {
                                string_pop(&mut cwd);
                            },
                            NewSessionField::Worktree => {},
                        }
                        self.overlay = Some(Overlay::NewSession { name, cmd, cwd, use_worktree, focus });
                        assert((self@, Effect::Nothing@) == overlay_step(m, key));
                        Effect::Nothing
                    },
                    _ => {
                        self.overlay = Some(Overlay::NewSession { name, cmd, cwd, use_worktree, focus });
                        assert((self@, Effect::Nothing@) == overlay_step(m, key));
                        Effect::Nothing
                    },
                }
            },
            Overlay::Rename { target, target_name, mut buffer } => {
                match key.code {
                    KeyCode::Esc => {
                        assert((self@, Effect::Nothing@) == overlay_step(m, key));
                        Effect::Nothing
                    },
                    KeyCode::Enter => {
                        if !buffer.as_str().is_empty() && !(buffer == target_name) {
                            self.state.rename(target_name.as_str(), buffer.clone());
                            let follow = match &self.view {
                                View::Detail(id) => *id == target,
                                View::Dashboard => false,
                            };
                            if follow {
                                self.view = View::Detail(buffer.clone());
                            }
                            let r = Effect::Rename { target, new_name: buffer };
                            assert((self@, r@) == overlay_step(m, key));
                            r
                        } else {
                            assert((self@, Effect::Refresh@) == overlay_step(m, key));
                            Effect::Refresh
                        }
                    },
                    KeyCode::Backspace => {
                        string_pop(&mut buffer);
                        self.overlay = Some(Overlay::Rename { target, target_name, buffer });
                        assert((self@, Effect::Nothing@) == overlay_step(m, key));
                        Effect::Nothing
                    },
                    KeyCode::Char(c) => {
                        string_push(&mut buffer, c);
                        self.overlay = Some(Overlay::Rename { target, target_name, buffer });
                        assert((self@, Effect::Nothing@) == overlay_step(m, key));
                        Effect::Nothing
                    },
                    _ => {
                        self.overlay = Some(Overlay::Rename { target, target_name, buffer });
                        assert((self@, Effect::Nothing@) == overlay_step(m, key));
                        Effect::Nothing
                    },
                }
            },
            Overlay::ConfirmKill { target, target_name } => {
                let confirm = match key.code {
                    KeyCode::Enter => true,
                    KeyCode::Char(c) => c == 'y' || c == 'Y',
                    _ => false,
                };
                if confirm {
                    let r = Effect::Kill { target, name: target_name };
                    assert((self@, r@) == overlay_step(m, key));
                    r
                } else {
                    assert((self@, Effect::Nothing@) == overlay_step(m, key));
                    Effect::Nothing
                }
            },
            Overlay::GhPanel { title, content, mut scroll } => {
                let down = key.code == KeyCode::Down || key.code == KeyCode::Char('j');
                let up = key.code == KeyCode::Up || key.code == KeyCode::Char('k');
                if down {
                    scroll = scroll.saturating_add(1);
                    self.overlay = Some(Overlay::GhPanel { title, content, scroll });
                } else if up {
                    scroll = scroll.saturating_sub(1);
                    self.overlay = Some(Overlay::GhPanel { title, content, scroll });
                }
                assert((self@, Effect::Nothing@) == overlay_step(m, key));
                Effect::Nothing
            },
        }
    }

    /// Answers a key: the dialog shown takes it, otherwise the screen.
    pub fn handle_key(&mut self, key: Key) -> (r: Effect)
        requires
            old(self).wf(),
        ensures
            final(self).wf(),
            (final(self)@, r@) == key_step(old(self)@, key),
    {
        let ghost m = self@;
        if self.overlay.is_some() {
            let r = self.handle_overlay_key(key);
            assert((self@, r@) == key_step(m, key));
            return r;
        }
        let r = match &self.view {
            View::Dashboard => self.handle_dashboard_key(key),
            View::Detail(_) => self.handle_detail_key(key),
        };
        assert((self@, r@) == key_step(m, key));
        r
    }

    /// Takes in the sessions that the multiplexer lists: each takes what is
    /// remembered of it, records of sessions that are gone are dropped, and
    /// a selection past the end moves to the last session.
    pub fn refresh_sessions(&mut self, listed: Vec<Session>)
        requires
            old(self).wf(),
        ensures
            final(self).wf(),
            final(self)@ == refreshed(old(self)@, sessions_view(listed@)),
    {
        let ghost m = self@;
        let ghost lv = sessions_view(listed@);
        let ghost st = self@.state;
        let mut sessions = listed;
        let mut i: usize = 0;
        while i < sessions.len()
            invariant
                self.wf(),
                self@ == m,
                st == m.state,
                sessions@.len() == lv.len(),
                i <= sessions@.len(),
                forall|k: int|
                    0 <= k < i ==> #[trigger] sessions@[k]@ == with_record(lv[k], st),
                forall|k: int| i <= k < sessions@.len() ==> #[trigger] sessions@[k]@ == lv[k],
            decreases sessions.len() - i,
        {
            let mut s = sessions[i].clone();
            assert(s@ == lv[i as int]);
            assert(st == self.state@);
            match self.state.get(s.name.as_str()) {
                Some(rec) => {
                    s.cwd = rec.cwd.clone();
                    if !rec.original_cmd.as_str().is_empty() {
                        s.cmd = rec.original_cmd.clone();
                    }
                    s.worktree = match &rec.worktree {
                        Some(w) => Some(w.clone()),
                        None => None,
                    };
                },
                None => {},
            }
            assert(s@ == with_record(lv[i as int], st));
            sessions.set(i, s);
            i = i + 1;
        }
        let mut live: Vec<String> = Vec::new();
        let mut j: usize = 0;
        while j < sessions.len()
            invariant
                j <= sessions@.len(),
                live@.len() == j,
                forall|k: int| 0 <= k < j ==> #[trigger] live@[k]@ == sessions@[k].name@,
            decreases sessions.len() - j,
        {
            live.push(sessions[j].name.clone());
            j = j + 1;
        }
        assert(name_set(live@) =~= session_names(lv)) by {
            assert forall|k: Seq<char>| name_set(live@).contains(k) implies session_names(
                lv,
            ).contains(k) by {
                let a = choose|a: int| 0 <= a < live@.len() && #[trigger] live@[a]@ == k;
                assert(sessions@[a]@ == with_record(lv[a], st));
                assert(lv[a].name == k);
            }
            assert forall|k: Seq<char>| session_names(lv).contains(k) implies name_set(
                live@,
            ).contains(k) by {
                let a = choose|a: int| 0 <= a < lv.len() && #[trigger] lv[a].name == k;
                assert(sessions@[a]@ == with_record(lv[a], st));
                assert(live@[a]@ == k);
            }
        }
        self.state.gc(live.as_slice());
        self.sessions = sessions;
        assert(sessions_view(self.sessions@) =~= lv.map_values(
            |s: SessionView| with_record(s, st),
        ));
        let len = self.sessions.len();
        if len > 0 && self.selected >= len {
            self.selected = len - 1;
        }
    }

    /// Takes in what the multiplexer captured of the session shown: the
    /// detail screen shows it, or a note that there is none; the dashboard
    /// shows no output.
    pub fn refresh_snapshot(&mut self, captured: Option<String>)
        requires
            old(self).wf(),
        ensures
            final(self).wf(),
            final(self)@ == (AppModel {
                snapshot: match old(self)@.view {
                    ScreenView::Detail(_) => match captured {
                        Some(c) => c@,
                        None => "(no snapshot available)"@,
                    },
                    ScreenView::Dashboard => seq![],
                },
                ..old(self)@
            }),
    {
        match &self.view {
            View::Detail(_) => {
                self.snapshot = match captured {
                    Some(c) => c,
                    None => String::from_str("(no snapshot available)"),
                };
            },
            View::Dashboard => {
                self.snapshot = String::new();
            },
        }
    }

    /// Forgets session `name` after its multiplexer session `id` was killed,
    /// and leaves its detail screen; gives back the worktree to remove.
    pub fn do_kill(&mut self, id: &str, name: &str) -> (r: Option<Worktree>)
        requires
            old(self).wf(),
        ensures
            final(self).wf(),
            final(self)@ == (AppModel {
                state: old(self)@.state.remove(name@),
                view: if old(self)@.view == ScreenView::Detail(id@) {
                    ScreenView::Dashboard
                } else {
                    old(self)@.view
                },
                ..old(self)@
            }),
            opt_worktree_view(r) == (if old(self)@.state.contains_key(name@) {
                old(self)@.state[name@].worktree
            } else {
                None
            }),
    {
        let wt = match self.state.remove(name) {
            Some(record) => record.worktree,
            None => None,
        };
        let leave = match &self.view {
            View::Detail(v) => str_eq(v.as_str(), id),
            View::Dashboard => false,
        };
        if leave {
            self.view = View::Dashboard;
        }
        wt
    }

    /// Records a session after the attempt to start it: when the
    /// multiplexer started it, it is remembered with its directory (its
    /// worktree's, if it got one), command and worktree; otherwise nothing
    /// is remembered and the worktree made for it comes back to be removed.
    pub fn spawn_with(&mut self, plan: &SpawnPlan, worktree: Option<Worktree>, spawned: bool) -> (r: Option<Worktree>)
        requires
            old(self).wf(),
        ensures
            final(self).wf(),
            spawned ==> r is None && final(self)@ == (AppModel {
                state: old(self)@.state.insert(
                    plan.name@,
                    RecordView {
                        cwd: spawn_cwd_of(plan.cwd@, opt_worktree_view(worktree)),
                        original_cmd: plan.cmd@,
                        worktree: opt_worktree_view(worktree),
                    },
                ),
                ..old(self)@
            }),
            !spawned ==> r == worktree && final(self)@ == old(self)@,
    {
        if spawned {
            let cwd = spawn_cwd(plan.cwd.as_str(), &worktree);
            self.state.insert(
                plan.name.clone(),
                SessionRecord { cwd, original_cmd: plan.cmd.clone(), worktree },
            );
            None
        } else {
            worktree
        }
    }

    /// What the GitHub panel of session `id` is to show.
    pub fn gh_lookup(&self, id: &str) -> (r: GhLookup)
        requires
            self.wf(),
        ensures
            ({
                let (found, wt, cwd) = gh_lookup_of(self@.sessions, id@);
                match r {
                    GhLookup::NoSession => !found,
                    GhLookup::InWorktree { repo_root, branch } => found && wt == Some(
                        WorktreeView { path: wt->0.path, branch: branch@, repo_root: repo_root@ },
                    ),
                    GhLookup::Outside { cwd: c } => found && wt is None && c@ == cwd,
                }
            }),
    {
        match self.position_of_id(id) {
            None => GhLookup::NoSession,
            Some(j) => {
                let s = &self.sessions[j];
                match &s.worktree {
                    Some(w) => GhLookup::InWorktree {
                        repo_root: w.repo_root.clone(),
                        branch: w.branch.clone(),
                    },
                    None => GhLookup::Outside { cwd: s.cwd.clone() },
                }
            },
        }
    }

    /// Opens the GitHub panel showing `out`, scrolled to the top.
    pub fn open_gh_panel(&mut self, out: GhOutput)
        requires
            old(self).wf(),
        ensures
            final(self).wf(),
            final(self)@ == with_overlay(
                old(self)@,
                OverlayView::GhPanel { title: out.title@, content: out.body@, scroll: 0 },
            ),
    {
        self.overlay = Some(Overlay::GhPanel { title: out.title, content: out.body, scroll: 0 });
    }
}

/// Where a session starts: in its worktree, if it got one.
pub open spec fn spawn_cwd_of(cwd: Seq<char>, worktree: Option<WorktreeView>) -> Seq<char> {
    match worktree {
        Some(w) => w.path,
        None => cwd,
    }
}

/// Where a session starts: in its worktree, if it got one.
pub fn spawn_cwd(cwd: &str, worktree: &Option<Worktree>) -> (r: String)
    ensures
        r@ == spawn_cwd_of(cwd@, opt_worktree_view(*worktree)),
{
    match worktree {
        Some(w) => w.path.clone(),
        None => String::from_str(cwd),
    }
}

/// The optional text by its characters.
pub open spec fn opt_str_view(o: Option<String>) -> Option<Seq<char>> {
    match o {
        Some(s) => Some(s@),
        None => None,
    }
}

/// `s` with `~` or a leading `~/` taken to be `home`, the user's home
/// directory, when it is known.
pub fn shellexpand_home(s: &str, home: Option<String>) -> (r: String)
    ensures
        r@ == expand_home(s@, opt_str_view(home)),
{
    match home {
        None => String::from_str(s),
        Some(h) => {
            if starts_with(s, "~/") {
                proof {
                    reveal_strlit("~/");
                }
                let v = chars_of(s);
                let rest = crate::text::string_from_range(&v, 2, v.len());
                assert(rest@ =~= s@.skip(2));
                crate::path::path_join(h.as_str(), rest.as_str())
            } else if str_eq(s, "~") {
                h
            } else {
                String::from_str(s)
            }
        },
    }
}

} // verus!

verus! {

// ---------------------------------------------------------------------------
// Laws
// ---------------------------------------------------------------------------

/// Tab and Shift-Tab undo each other, and four Tabs come back round.
pub proof fn lemma_field_cycle(f: NewSessionField)
    ensures
        prev_of(next_of(f)) == f,
        next_of(prev_of(f)) == f,
        next_of(next_of(next_of(next_of(f)))) == f,
{
}

/// Different numbers give different session names.
pub proof fn lemma_session_name_injective(a: nat, b: nat)
    requires
        session_name(a) == session_name(b),
    ensures
        a == b,
{
    let p = "session-"@;
    assert(session_name(a).skip(p.len() as int) =~= decimal(a));
    assert(session_name(b).skip(p.len() as int) =~= decimal(b));
    crate::text::lemma_decimal_injective(a, b);
}

/// The position of a session named `n`.
pub open spec fn holder_of(sessions: Seq<SessionView>, n: Seq<char>) -> int {
    choose|j: int| 0 <= j < sessions.len() && #[trigger] sessions[j].name == n
}

/// With fewer than 999 sessions, one of `session-1` ... `session-999` is
/// free.
pub proof fn lemma_some_name_free(sessions: Seq<SessionView>)
    requires
        sessions.len() < 999,
    ensures
        exists|i: nat| 1 <= i < 1000 && !name_taken(sessions, #[trigger] session_name(i)),
{
    if forall|i: nat| 1 <= i < 1000 ==> name_taken(sessions, #[trigger] session_name(i)) {
        let x = vstd::set_lib::set_int_range(1, 1000);
        let y = vstd::set_lib::set_int_range(0, sessions.len() as int);
        let f = |i: int| holder_of(sessions, session_name(i as nat));
        vstd::set_lib::lemma_int_range(1, 1000);
        vstd::set_lib::lemma_int_range(0, sessions.len() as int);
        assert forall|a: int| #[trigger] x.contains(a) implies 0 <= f(a) < sessions.len()
            && sessions[f(a)].name == session_name(a as nat) by {
            assert(name_taken(sessions, session_name(a as nat)));
        }
        assert(vstd::relations::injective_on(f, x)) by {
            assert forall|a: int, b: int|
                x.contains(a) && x.contains(b) && #[trigger] f(a) == #[trigger] f(b) implies a
                == b by {
                lemma_session_name_injective(a as nat, b as nat);
            }
        }
        vstd::set_lib::lemma_map_size(x, x.map(f), f);
        assert(x.map(f).subset_of(y)) by {
            assert forall|j: int| #[trigger] x.map(f).contains(j) implies y.contains(j) by {
                let a = choose|a: int| x.contains(a) && f(a) == j;
            }
        }
        vstd::set_lib::lemma_len_subset(x.map(f), y);
        assert(false);
    }
}

/// The search for a free name from `session-<k>` on finds a free one when
/// there is one at or after `k`.
pub proof fn lemma_first_free_is_free(sessions: Seq<SessionView>, k: nat)
    requires
        exists|i: nat| k <= i < 1000 && !name_taken(sessions, #[trigger] session_name(i)),
    ensures
        !name_taken(sessions, first_free_name(sessions, k)),
    decreases 1000 - k,
{
    let i = choose|i: nat| k <= i < 1000 && !name_taken(sessions, #[trigger] session_name(i));
    if name_taken(sessions, session_name(k)) {
        assert(i != k);
        lemma_first_free_is_free(sessions, k + 1);
    }
}

/// With fewer than 999 sessions, a new session's name is one that no
/// session has.
pub proof fn lemma_next_name_fresh(sessions: Seq<SessionView>)
    requires
        sessions.len() < 999,
    ensures
        !name_taken(sessions, next_name(sessions)),
{
    lemma_some_name_free(sessions);
    lemma_first_free_is_free(sessions, 1);
}

/// The selection of a screen is a row number: never negative, and within
/// `usize`.
pub proof fn lemma_selection_is_row(a: &App)
    ensures
        0 <= a@.selected <= usize::MAX,
{
}

/// Moving the selection on the dashboard keeps it on a session.
pub proof fn lemma_navigation_stays_in_list(m: AppModel, key: Key)
    requires
        m.overlay is None,
        m.view == ScreenView::Dashboard,
        0 <= m.selected < m.sessions.len(),
    ensures
        0 <= dashboard_step(m, key).0.selected < dashboard_step(m, key).0.sessions.len(),
{
}

/// After a refresh, a non-empty list has a session selected, and only
/// sessions that are listed are remembered.
pub proof fn lemma_refresh_consistent(m: AppModel, listed: Seq<SessionView>)
    requires
        m.selected >= 0,
    ensures
        listed.len() > 0 ==> 0 <= refreshed(m, listed).selected < refreshed(m, listed).sessions.len(),
        forall|k: Seq<char>| #[trigger] refreshed(m, listed).state.contains_key(k) ==> exists|j: int|
            0 <= j < listed.len() && #[trigger] listed[j].name == k,
{
}

/// A session that was started and is then listed by the multiplexer shows
/// the directory and worktree it was started with, and its command when
/// that is not empty.
pub proof fn lemma_started_session_shows_record(
    st: Map<Seq<char>, RecordView>,
    plan_name: Seq<char>,
    rec: RecordView,
    listed: SessionView,
)
    requires
        listed.name == plan_name,
    ensures
        with_record(listed, st.insert(plan_name, rec)).cwd == rec.cwd,
        with_record(listed, st.insert(plan_name, rec)).worktree == rec.worktree,
        rec.original_cmd.len() > 0 ==> with_record(listed, st.insert(plan_name, rec)).cmd
            == rec.original_cmd,
        with_record(listed, st.insert(plan_name, rec)).name == listed.name,
        with_record(listed, st.insert(plan_name, rec)).id == listed.id,
{
}

/// Confirming a rename to a new name moves the record to it: the new name
/// has what the old one had, and the old one has nothing.
pub proof fn lemma_rename_moves_record(
    st: Map<Seq<char>, RecordView>,
    old_name: Seq<char>,
    new_name: Seq<char>,
)
    requires
        st.contains_key(old_name),
        old_name != new_name,
    ensures
        renamed(st, old_name, new_name).contains_key(new_name),
        renamed(st, old_name, new_name)[new_name] == st[old_name],
        !renamed(st, old_name, new_name).contains_key(old_name),
        forall|k: Seq<char>|
            k != old_name && k != new_name ==> (#[trigger] renamed(st, old_name, new_name).contains_key(k)
                == st.contains_key(k)),
{
}

/// Confirming a kill hands the session to the caller to kill, and killing
/// it forgets it.
pub proof fn lemma_kill_forgets(m: AppModel, target: Seq<char>, name: Seq<char>)
    requires
        m.overlay == Some(OverlayView::ConfirmKill { target, target_name: name }),
    ensures
        overlay_step(m, Key { code: KeyCode::Enter, ctrl: false }).1 == (EffectView::Kill {
            target,
            name,
        }),
        overlay_step(m, Key { code: KeyCode::Enter, ctrl: false }).0.overlay is None,
        !m.state.remove(name).contains_key(name),
{
}

/// A dialog is closed by Esc, except the GitHub panel, which any key but a
/// scroll key closes.
pub proof fn lemma_escape_closes(m: AppModel)
    requires
        m.overlay is Some,
    ensures
        overlay_step(m, Key { code: KeyCode::Esc, ctrl: false }).0 == (AppModel {
            overlay: None,
            ..m
        }),
        overlay_step(m, Key { code: KeyCode::Esc, ctrl: false }).1 == EffectView::Nothing,
{
}

/// A directory that does not start with `~` is taken as it is.
pub proof fn lemma_expand_home_plain(s: Seq<char>, home: Option<Seq<char>>)
    requires
        s.len() == 0 || s[0] != '~',
    ensures
        expand_home(s, home) == s,
{
    reveal_strlit("~/");
    reveal_strlit("~");
    if s.len() >= 2 {
        assert(s.take(2)[0] != "~/"@[0]);
    }
}

} // verus!

verus! {

/// Taking in the same list twice gives what taking it in once gave.
pub proof fn lemma_refresh_idempotent(m: AppModel, listed: Seq<SessionView>)
    ensures
        refreshed(refreshed(m, listed), listed) == refreshed(m, listed),
{
    let r1 = refreshed(m, listed);
    let r2 = refreshed(r1, listed);
    let names = session_names(listed);
    assert(r1.state.restrict(names) =~= r1.state);
    assert forall|i: int| 0 <= i < listed.len() implies with_record(listed[i], r1.state)
        == with_record(listed[i], m.state) by {
        assert(names.contains(listed[i].name));
    }
    assert(r2.sessions =~= r1.sessions);
    assert(r2 =~= r1);
}

} // verus!

verus! {

/// Confirming the rename dialog with a new, non-empty name moves the
/// record to it, keeps the detail screen on the renamed session and asks
/// the multiplexer to rename; with an empty or unchanged name it only asks
/// for a refresh.
pub proof fn lemma_rename_dialog(
    m: AppModel,
    target: Seq<char>,
    target_name: Seq<char>,
    buffer: Seq<char>,
)
    requires
        m.overlay == Some(OverlayView::Rename { target, target_name, buffer }),
    ensures
        ({
            let (m2, e) = overlay_step(m, Key { code: KeyCode::Enter, ctrl: false });
            &&& m2.overlay is None
            &&& buffer.len() > 0 && buffer != target_name ==> {
                &&& e == EffectView::Rename { target, new_name: buffer }
                &&& m2.state == renamed(m.state, target_name, buffer)
                &&& m.view == ScreenView::Detail(target) ==> m2.view == ScreenView::Detail(buffer)
            }
            &&& !(buffer.len() > 0 && buffer != target_name) ==> {
                &&& e == EffectView::Refresh
                &&& m2.state == m.state
                &&& m2.view == m.view
            }
        }),
{
}

} // verus!

verus! {

/// Refreshing never alters what the multiplexer says of a session: each
/// listed session keeps its position, id, name, running flag and start
/// time. A session with no record comes through exactly as listed; one with
/// a record takes its directory and worktree from it, and its command too
/// unless the record's command is empty.
pub proof fn lemma_refresh_keeps_listed(m: AppModel, listed: Seq<SessionView>)
    ensures
        refreshed(m, listed).sessions.len() == listed.len(),
        forall|i: int|
            0 <= i < listed.len() ==> {
                let s = #[trigger] refreshed(m, listed).sessions[i];
                &&& s.id == listed[i].id
                &&& s.name == listed[i].name
                &&& s.running == listed[i].running
                &&& s.created_at == listed[i].created_at
            },
        forall|i: int|
            0 <= i < listed.len() && !m.state.contains_key(listed[i].name) ==> #[trigger] refreshed(
                m,
                listed,
            ).sessions[i] == listed[i],
        forall|i: int|
            0 <= i < listed.len() && m.state.contains_key(listed[i].name) ==> {
                let s = #[trigger] refreshed(m, listed).sessions[i];
                let rec = m.state[listed[i].name];
                &&& s.cwd == rec.cwd
                &&& s.worktree == rec.worktree
                &&& s.cmd == (if rec.original_cmd.len() > 0 {
                    rec.original_cmd
                } else {
                    listed[i].cmd
                })
            },
{
}

/// In the kill confirmation, `y`, `Y` and Enter (with or without Control)
/// close the dialog and ask for the session to be killed; any other key
/// closes it and asks for nothing.
pub proof fn lemma_kill_confirm_keys(m: AppModel, target: Seq<char>, name: Seq<char>, key: Key)
    requires
        m.overlay == Some(OverlayView::ConfirmKill { target, target_name: name }),
    ensures
        ({
            let yes = key.code == KeyCode::Char('y') || key.code == KeyCode::Char('Y')
                || key.code == KeyCode::Enter;
            let closed = AppModel { overlay: None, ..m };
            &&& yes ==> overlay_step(m, key) == (closed, EffectView::Kill { target, name })
            &&& !yes ==> overlay_step(m, key) == (closed, EffectView::Nothing)
            &&& key_step(m, key) == overlay_step(m, key)
        }),
{
}

/// In the new-session form with the focus on the worktree switch, `n` or
/// `N` turns it off, `y` or `Y` turns it on, Space flips it, and any other
/// character leaves it; the name, command and directory stay as they are
/// and nothing is asked of the multiplexer.
pub proof fn lemma_worktree_switch(
    m: AppModel,
    name: Seq<char>,
    cmd: Seq<char>,
    cwd: Seq<char>,
    use_worktree: bool,
    c: char,
    ctrl: bool,
)
    requires
        m.overlay == Some(
            OverlayView::NewSession {
                name,
                cmd,
                cwd,
                use_worktree,
                focus: NewSessionField::Worktree,
            },
        ),
    ensures
        ({
            let key = Key { code: KeyCode::Char(c), ctrl };
            let after = |w: bool|
                AppModel {
                    overlay: Some(
                        OverlayView::NewSession {
                            name,
                            cmd,
                            cwd,
                            use_worktree: w,
                            focus: NewSessionField::Worktree,
                        },
                    ),
                    ..m
                };
            &&& key_step(m, key) == overlay_step(m, key)
            &&& (c == 'n' || c == 'N') ==> overlay_step(m, key) == (after(false), EffectView::Nothing)
            &&& (c == 'y' || c == 'Y') ==> overlay_step(m, key) == (after(true), EffectView::Nothing)
            &&& c == ' ' ==> overlay_step(m, key) == (after(!use_worktree), EffectView::Nothing)
            &&& !(c == 'n' || c == 'N' || c == 'y' || c == 'Y' || c == ' ') ==> overlay_step(m, key)
                == (m, EffectView::Nothing)
        }),
{
    let key = Key { code: KeyCode::Char(c), ctrl };
    if !(c == 'n' || c == 'N' || c == 'y' || c == 'Y' || c == ' ') {
        assert(overlay_step(m, key).0 =~= m);
    }
}

} // verus!

verus! {

/// On the dashboard with no dialog: `Q` stops the program; Down or `j`
/// moves the selection one row down but not past the last session, Up or
/// `k` one row up but not above the first; Enter opens the selected
/// session; `K` (without Control) asks to confirm killing the selected
/// session; none of these asks anything of the multiplexer.
pub proof fn lemma_dashboard_keys(m: AppModel, key: Key)
    requires
        m.overlay is None,
        m.view == ScreenView::Dashboard,
        0 <= m.selected,
    ensures
        ({
            let (m2, e) = key_step(m, key);
            let len = m.sessions.len();
            let sel_ok = m.selected < len;
            &&& key.code == KeyCode::Char('Q') ==> m2 == (AppModel { running: false, ..m }) && e
                == EffectView::Nothing
            &&& (key.code == KeyCode::Down || key.code == KeyCode::Char('j')) ==> {
                &&& e == EffectView::Nothing
                &&& sel_ok && m.selected + 1 < len ==> m2 == (AppModel {
                    selected: m.selected + 1,
                    ..m
                })
                &&& sel_ok && m.selected + 1 == len ==> m2 == m
            }
            &&& (key.code == KeyCode::Up || key.code == KeyCode::Char('k')) ==> {
                &&& e == EffectView::Nothing
                &&& m.selected > 0 ==> m2 == (AppModel { selected: m.selected - 1, ..m })
                &&& m.selected == 0 ==> m2 == m
            }
            &&& key.code == KeyCode::Enter && sel_ok ==> m2 == (AppModel {
                view: ScreenView::Detail(m.sessions[m.selected].id),
                ..m
            }) && e == EffectView::Nothing
            &&& key.code == KeyCode::Char('K') && !key.ctrl && sel_ok ==> e == EffectView::Nothing
                && m2 == (AppModel {
                overlay: Some(
                    OverlayView::ConfirmKill {
                        target: m.sessions[m.selected].id,
                        target_name: m.sessions[m.selected].name,
                    },
                ),
                ..m
            })
        }),
{
}

/// On the detail screen of session `id` with no dialog: Esc, `q` and
/// Ctrl-`\` go back to the dashboard, Ctrl-`t` asks to attach to the
/// session, Ctrl-`y` asks for its GitHub panel, and nothing else changes.
pub proof fn lemma_detail_keys(m: AppModel, id: Seq<char>, key: Key)
    requires
        m.overlay is None,
        m.view == ScreenView::Detail(id),
    ensures
        ({
            let (m2, e) = key_step(m, key);
            let back = AppModel { view: ScreenView::Dashboard, ..m };
            &&& (key.code == KeyCode::Esc || key.code == KeyCode::Char('q') || (key.ctrl
                && key.code == KeyCode::Char('\\'))) ==> m2 == back && e == EffectView::Nothing
            &&& key.ctrl && key.code == KeyCode::Char('t') ==> m2 == (AppModel {
                pending_attach: Some(id),
                ..m
            }) && e == EffectView::Nothing
            &&& key.ctrl && key.code == KeyCode::Char('y') ==> m2 == m && e
                == EffectView::GhPanel { target: id }
        }),
{
}

/// In the new-session form, a character typed into the name, command or
/// directory is added at the end of that field alone, Backspace takes the
/// last character of that field alone, Tab and Shift-Tab move the focus
/// round the four fields in opposite directions, and Esc closes the form;
/// none of these asks anything of the multiplexer.
pub proof fn lemma_form_editing(
    m: AppModel,
    name: Seq<char>,
    cmd: Seq<char>,
    cwd: Seq<char>,
    use_worktree: bool,
    focus: NewSessionField,
    key: Key,
)
    requires
        m.overlay == Some(OverlayView::NewSession { name, cmd, cwd, use_worktree, focus }),
    ensures
        ({
            let (m2, e) = key_step(m, key);
            let form = |n: Seq<char>, c: Seq<char>, d: Seq<char>, f: NewSessionField|
                AppModel {
                    overlay: Some(
                        OverlayView::NewSession { name: n, cmd: c, cwd: d, use_worktree, focus: f },
                    ),
                    ..m
                };
            &&& key.code == KeyCode::Esc ==> m2 == (AppModel { overlay: None, ..m }) && e
                == EffectView::Nothing
            &&& key.code != KeyCode::Enter ==> e == EffectView::Nothing
            &&& forall|ch: char|
                key.code == KeyCode::Char(ch) ==> {
                    &&& focus == NewSessionField::Name ==> m2 == form(name.push(ch), cmd, cwd, focus)
                    &&& focus == NewSessionField::Cmd ==> m2 == form(name, cmd.push(ch), cwd, focus)
                    &&& focus == NewSessionField::Cwd ==> m2 == form(name, cmd, cwd.push(ch), focus)
                }
            &&& key.code == KeyCode::Backspace && name.len() > 0 && focus == NewSessionField::Name
                ==> m2 == form(name.drop_last(), cmd, cwd, focus)
            &&& key.code == KeyCode::Backspace && cmd.len() > 0 && focus == NewSessionField::Cmd
                ==> m2 == form(name, cmd.drop_last(), cwd, focus)
            &&& key.code == KeyCode::Backspace && cwd.len() > 0 && focus == NewSessionField::Cwd
                ==> m2 == form(name, cmd, cwd.drop_last(), focus)
            &&& key.code == KeyCode::Tab ==> m2 == form(
                name,
                cmd,
                cwd,
                match focus {
                    NewSessionField::Name => NewSessionField::Cmd,
                    NewSessionField::Cmd => NewSessionField::Cwd,
                    NewSessionField::Cwd => NewSessionField::Worktree,
                    NewSessionField::Worktree => NewSessionField::Name,
                },
            )
            &&& key.code == KeyCode::BackTab ==> key_step(
                m2,
                Key { code: KeyCode::Tab, ctrl: false },
            ).0 == m
        }),
{
    if key.code == KeyCode::BackTab {
        let m2 = key_step(m, key).0;
        assert(key_step(m2, Key { code: KeyCode::Tab, ctrl: false }).0 =~= m);
    }
}

/// In the rename dialog, a character is added at the end of the new name,
/// Backspace takes its last character, and Esc closes the dialog without
/// renaming; none of these asks anything of the multiplexer.
pub proof fn lemma_rename_editing(
    m: AppModel,
    target: Seq<char>,
    target_name: Seq<char>,
    buffer: Seq<char>,
    key: Key,
)
    requires
        m.overlay == Some(OverlayView::Rename { target, target_name, buffer }),
    ensures
        ({
            let (m2, e) = key_step(m, key);
            let with_buffer = |b: Seq<char>|
                AppModel {
                    overlay: Some(OverlayView::Rename { target, target_name, buffer: b }),
                    ..m
                };
            &&& key.code != KeyCode::Enter ==> e == EffectView::Nothing
            &&& key.code != KeyCode::Enter ==> m2.state == m.state
            &&& key.code == KeyCode::Esc ==> m2 == (AppModel { overlay: None, ..m })
            &&& forall|ch: char| key.code == KeyCode::Char(ch) ==> m2 == with_buffer(buffer.push(ch))
            &&& key.code == KeyCode::Backspace && buffer.len() > 0 ==> m2 == with_buffer(
                buffer.drop_last(),
            )
        }),
{
}

/// In the GitHub panel, Down or `j` scrolls one line further (stopping at
/// the largest offset), Up or `k` one line back (stopping at the top), and
/// any other key closes the panel; none of these asks anything of the
/// multiplexer.
pub proof fn lemma_gh_panel_keys(
    m: AppModel,
    title: Seq<char>,
    content: Seq<char>,
    scroll: u16,
    key: Key,
)
    requires
        m.overlay == Some(OverlayView::GhPanel { title, content, scroll }),
    ensures
        ({
            let (m2, e) = key_step(m, key);
            let at = |s: int|
                AppModel {
                    overlay: Some(OverlayView::GhPanel { title, content, scroll: s as u16 }),
                    ..m
                };
            let down = key.code == KeyCode::Down || key.code == KeyCode::Char('j');
            let up = key.code == KeyCode::Up || key.code == KeyCode::Char('k');
            &&& e == EffectView::Nothing
            &&& down && scroll < u16::MAX ==> m2 == at(scroll + 1)
            &&& down && scroll == u16::MAX ==> m2 == m
            &&& up && scroll > 0 ==> m2 == at(scroll - 1)
            &&& up && scroll == 0 ==> m2 == m
            &&& !down && !up ==> m2 == (AppModel { overlay: None, ..m })
        }),
{
}

} // verus!
