//! Terminal multiplexers that host the sessions, and what is known of a
//! session.

pub mod psmux;
pub mod tmux;
pub mod wezterm;

use vstd::prelude::*;
use crate::worktree::{Worktree, WorktreeView, opt_worktree_view};

verus! {

/// How a multiplexer names a session.
pub type SessionId = String;

/// A session as the dashboard shows it.
#[derive(Debug)]
pub struct Session {
    pub id: SessionId,
    pub name: String,
    pub cmd: String,
    pub running: bool,
    /// When the session was started, in seconds since the Unix epoch.
    pub created_at: u64,
    pub cwd: String,
    pub worktree: Option<Worktree>,
}

/// A session by the characters of its fields.
pub struct SessionView {
    pub id: Seq<char>,
    pub name: Seq<char>,
    pub cmd: Seq<char>,
    pub running: bool,
    pub created_at: u64,
    pub cwd: Seq<char>,
    pub worktree: Option<WorktreeView>,
}

impl View for Session {
    type V = SessionView;

    open spec fn view(&self) -> SessionView {
        SessionView {
            id: self.id@,
            name: self.name@,
            cmd: self.cmd@,
            running: self.running,
            created_at: self.created_at,
            cwd: self.cwd@,
            worktree: opt_worktree_view(self.worktree),
        }
    }
}

impl Clone for Session {
    fn clone(&self) -> (r: Self)
        ensures
            r == *self,
    {
        Session {
            id: self.id.clone(),
            name: self.name.clone(),
            cmd: self.cmd.clone(),
            running: self.running,
            created_at: self.created_at,
            cwd: self.cwd.clone(),
            worktree: match &self.worktree {
                Some(w) => Some(w.clone()),
                None => None,
            },
        }
    }
}

/// A list of sessions, each by its view.
pub open spec fn sessions_view(v: Seq<Session>) -> Seq<SessionView> {
    v.map_values(|s: Session| s@)
}

/// The multiplexers that can host the sessions.
#[derive(PartialEq, Eq, Structural, Clone, Copy, Debug)]
pub enum BackendKind {
    WezTerm,
    Tmux,
    Psmux,
}

/// The backend to use at startup: WezTerm when its socket is set, tmux when
/// running inside tmux or when tmux is installed, otherwise the fallback.
pub open spec fn backend_for(wezterm_socket: bool, in_tmux: bool, tmux_in_path: bool) -> BackendKind {
    if wezterm_socket {
        BackendKind::WezTerm
    } else if in_tmux || tmux_in_path {
        BackendKind::Tmux
    } else {
        BackendKind::Psmux
    }
}

/// The backend to use at startup, from what the environment shows.
pub fn choose_backend(wezterm_socket: bool, in_tmux: bool, tmux_in_path: bool) -> (r: BackendKind)
    ensures
        r == backend_for(wezterm_socket, in_tmux, tmux_in_path),
{
    if wezterm_socket {
        BackendKind::WezTerm
    } else if in_tmux || tmux_in_path {
        BackendKind::Tmux
    } else {
        BackendKind::Psmux
    }
}

/// What a new session is started with.
pub struct SpawnOptions<'a> {
    pub name: &'a str,
    pub cmd: &'a str,
    pub cwd: &'a str,
}

} // verus!

verus! {

/// WezTerm wins whenever its socket is set, whatever tmux shows; without
/// it tmux is used when running inside tmux or when it is installed, and
/// the fallback only when neither holds.
pub proof fn lemma_backend_priority(in_tmux: bool, tmux_in_path: bool)
    ensures
        backend_for(true, in_tmux, tmux_in_path) == BackendKind::WezTerm,
        (in_tmux || tmux_in_path) ==> backend_for(false, in_tmux, tmux_in_path)
            == BackendKind::Tmux,
        backend_for(false, false, false) == BackendKind::Psmux,
{
}

} // verus!
