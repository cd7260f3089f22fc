//! The WezTerm backend: panes stand for sessions.

use vstd::prelude::*;
use crate::backend::{Session, SessionView};
use crate::text::{
    decimal, push_decimal, split_whitespace, string_push, strings_view, trim, trim_str, words,
    u64_to_string,
};

verus! {

/// The WezTerm backend.
pub struct WezTermBackend;

impl WezTermBackend {
    pub fn new() -> (r: Self)
        ensures
            r == WezTermBackend,
    {
        WezTermBackend
    }
}

/// A pane as `wezterm cli list --format json` reports it.
pub struct WezPane {
    pub pane_id: u64,
    pub title: String,
    pub tty_name: String,
}

/// The session that a pane stands for: named by its title, identified by
/// its pane number, with its terminal device as command, seen at `now`.
pub open spec fn pane_session_view(pane_id: u64, title: Seq<char>, tty_name: Seq<char>, now: u64) -> SessionView {
    SessionView {
        id: decimal(pane_id as nat),
        name: title,
        cmd: tty_name,
        running: true,
        created_at: now,
        cwd: seq![],
        worktree: None,
    }
}

/// The session that a pane stands for, seen at `now` (seconds since the
/// Unix epoch).
pub fn pane_session(p: &WezPane, now: u64) -> (s: Session)
    ensures
        s@ == pane_session_view(p.pane_id, p.title@, p.tty_name@, now),
{
    Session {
        id: u64_to_string(p.pane_id),
        name: p.title.clone(),
        cmd: p.tty_name.clone(),
        running: true,
        created_at: now,
        cwd: String::new(),
        worktree: None,
    }
}

/// The arguments of `wezterm cli spawn` that run the words of `cmd`.
pub open spec fn spawn_argv(cmd: Seq<char>) -> Seq<Seq<char>> {
    seq!["cli"@, "spawn"@, "--"@] + words(cmd)
}

/// The arguments of `wezterm cli spawn` that run `cmd`.
pub fn spawn_args(cmd: &str) -> (r: Vec<String>)
    ensures
        strings_view(r@) == spawn_argv(cmd@),
{
    let mut r: Vec<String> = Vec::new();
    r.push(String::from_str("cli"));
    r.push(String::from_str("spawn"));
    r.push(String::from_str("--"));
    let ghost head = strings_view(r@);
    assert(head =~= seq!["cli"@, "spawn"@, "--"@]);
    let toks = split_whitespace(cmd);
    let mut i: usize = 0;
    while i < toks.len()
        invariant
            i <= toks.len(),
            strings_view(r@) == head + strings_view(toks@).take(i as int),
            head == seq!["cli"@, "spawn"@, "--"@],
            strings_view(toks@) == words(cmd@),
        decreases toks.len() - i,
    {
        let t = toks[i].clone();
        proof {
            assert(strings_view(r@.push(t)) =~= strings_view(r@).push(t@));
            assert(strings_view(toks@).take(i + 1) =~= strings_view(toks@).take(i as int).push(
                t@,
            ));
        }
        r.push(t);
        i = i + 1;
    }
    assert(strings_view(toks@).take(toks.len() as int) =~= strings_view(toks@));
    r
}

/// The pane id that `wezterm cli spawn` printed: its output, trimmed.
pub fn spawned_pane_id(stdout: &str) -> (r: String)
    ensures
        r@ == trim(stdout@),
{
    trim_str(stdout)
}

/// The tab title that stands for a size: `<cols>x<rows>`.
pub open spec fn size_title(rows: u16, cols: u16) -> Seq<char> {
    decimal(cols as nat) + seq!['x'] + decimal(rows as nat)
}

/// The tab title that stands for a size: `<cols>x<rows>`.
pub fn size_title_of(rows: u16, cols: u16) -> (r: String)
    ensures
        r@ == size_title(rows, cols),
{
    let mut r = String::new();
    push_decimal(&mut r, cols as u64);
    string_push(&mut r, 'x');
    push_decimal(&mut r, rows as u64);
    assert(r@ =~= size_title(rows, cols));
    r
}

} // verus!
