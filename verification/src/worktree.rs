//! Git worktrees that give each session a branch and checkout of its own.

use vstd::prelude::*;
use crate::path::{file_name, join_path, path_join, path_file_name};
use crate::text::{chars_of, contains_seq, contains_str, push_str, string_push, trim, trim_str};

verus! {

/// A worktree made for a session: its checkout directory, its branch and
/// the repository it belongs to.
#[derive(Debug)]
pub struct Worktree {
    pub path: String,
    pub branch: String,
    pub repo_root: String,
}

/// A worktree by the characters of its fields.
pub struct WorktreeView {
    pub path: Seq<char>,
    pub branch: Seq<char>,
    pub repo_root: Seq<char>,
}

impl View for Worktree {
    type V = WorktreeView;

    open spec fn view(&self) -> WorktreeView {
        WorktreeView { path: self.path@, branch: self.branch@, repo_root: self.repo_root@ }
    }
}

impl Clone for Worktree {
    fn clone(&self) -> (r: Self)
        ensures
            r == *self,
    {
        Worktree {
            path: self.path.clone(),
            branch: self.branch.clone(),
            repo_root: self.repo_root.clone(),
        }
    }
}

/// The optional worktree by its view.
pub open spec fn opt_worktree_view(w: Option<Worktree>) -> Option<WorktreeView> {
    match w {
        Some(w) => Some(w@),
        None => None,
    }
}

/// Whether `c` may stand in a slug unchanged.
pub open spec fn slug_char_ok(c: char) -> bool {
    ||| ('a' <= c && c <= 'z')
    ||| ('A' <= c && c <= 'Z')
    ||| ('0' <= c && c <= '9')
    ||| c == '-'
    ||| c == '_'
}

/// `c` as it stands in a slug: ASCII letters, digits, `-` and `_` are
/// kept, anything else becomes `-`.
pub open spec fn slug_char(c: char) -> char {
    if slug_char_ok(c) {
        c
    } else {
        '-'
    }
}

/// `s` with every character made a slug character.
pub open spec fn sanitized(s: Seq<char>) -> Seq<char> {
    s.map_values(|c: char| slug_char(c))
}

/// `s` made safe for a branch or directory name: every character that is
/// not an ASCII letter, digit, `-` or `_` becomes `-`.
pub fn sanitize(s: &str) -> (r: String)
    ensures
        r@ == sanitized(s@),
{
    let v = chars_of(s);
    let mut r = String::new();
    let mut i: usize = 0;
    while i < v.len()
        invariant
            v@ == s@,
            i <= v.len(),
            r@ == sanitized(s@.take(i as int)),
        decreases v.len() - i,
    {
        let c = v[i];
        let ok = ('a' <= c && c <= 'z') || ('A' <= c && c <= 'Z') || ('0' <= c && c <= '9') || c
            == '-' || c == '_';
        string_push(&mut r, if ok { c } else { '-' });
        assert(sanitized(s@.take(i + 1)) =~= sanitized(s@.take(i as int)).push(slug_char(c)));
        i = i + 1;
    }
    assert(s@.take(v.len() as int) =~= s@);
    r
}

/// The slug of a repository: the sanitized last component of its root, or
/// `repo` when the root has none.
pub open spec fn repo_slug_of(repo_root: Seq<char>) -> Seq<char> {
    match file_name(repo_root) {
        Some(n) => sanitized(n),
        None => sanitized("repo"@),
    }
}

/// The slug of a repository: the sanitized last component of its root, or
/// `repo` when the root has none.
pub fn repo_slug(repo_root: &str) -> (r: String)
    ensures
        r@ == repo_slug_of(repo_root@),
{
    match path_file_name(repo_root) {
        Some(n) => sanitize(n.as_str()),
        None => sanitize("repo"),
    }
}

/// The branch that a session's worktree checks out: `hcm/` and the
/// sanitized session name.
pub open spec fn branch_for(session_name: Seq<char>) -> Seq<char> {
    "hcm/"@ + sanitized(session_name)
}

/// Where a session's worktree goes: `<workspace>/worktrees/<repo>-<session>`.
pub open spec fn worktree_dir_for(
    workspace: Seq<char>,
    repo_root: Seq<char>,
    session_name: Seq<char>,
) -> Seq<char> {
    join_path(
        join_path(workspace, "worktrees"@),
        repo_slug_of(repo_root) + "-"@ + sanitized(session_name),
    )
}

/// The worktree that `create` sets up for a session: its directory under
/// the workspace, its branch, and the repository.
pub fn plan_worktree(workspace: &str, repo_root: &str, session_name: &str) -> (w: Worktree)
    ensures
        w.path@ == worktree_dir_for(workspace@, repo_root@, session_name@),
        w.branch@ == branch_for(session_name@),
        w.repo_root@ == repo_root@,
{
    let slug = sanitize(session_name);
    let mut branch = String::from_str("hcm/");
    push_str(&mut branch, slug.as_str());
    let mut dir = repo_slug(repo_root);
    push_str(&mut dir, "-");
    push_str(&mut dir, slug.as_str());
    let base = path_join(workspace, "worktrees");
    let path = path_join(base.as_str(), dir.as_str());
    Worktree { path, branch, repo_root: String::from_str(repo_root) }
}

/// Whether `git worktree add -b` failed because the branch is already
/// there, so that the branch is to be checked out as it is.
pub open spec fn branch_taken(stderr: Seq<char>) -> bool {
    contains_seq(stderr, "already exists"@) || contains_seq(stderr, "already used"@)
}

/// Whether `git worktree add -b` failed because the branch is already
/// there (its error text says "already exists" or "already used").
pub fn is_branch_taken(stderr: &str) -> (r: bool)
    ensures
        r == branch_taken(stderr@),
{
    contains_str(stderr, "already exists") || contains_str(stderr, "already used")
}

/// The repository root that `git rev-parse --show-toplevel` printed: its
/// output trimmed, unless nothing is left.
pub open spec fn repo_root_of_output(stdout: Seq<char>) -> Option<Seq<char>> {
    if trim(stdout).len() == 0 {
        None
    } else {
        Some(trim(stdout))
    }
}

/// The repository root that `git rev-parse --show-toplevel` printed.
pub fn parse_repo_root(stdout: &str) -> (r: Option<String>)
    ensures
        r matches Some(s) ==> repo_root_of_output(stdout@) == Some(s@),
        r is None ==> repo_root_of_output(stdout@) is None,
{
    let t = trim_str(stdout);
    if t.as_str().is_empty() {
        None
    } else {
        Some(t)
    }
}

} // verus!

verus! {

/// A sanitized name is as long as the name, holds only ASCII letters,
/// digits, `-` and `_`, and sanitizing it again changes nothing.
pub proof fn lemma_sanitized_is_safe(s: Seq<char>)
    ensures
        sanitized(s).len() == s.len(),
        forall|i: int| 0 <= i < s.len() ==> slug_char_ok(#[trigger] sanitized(s)[i]),
        sanitized(sanitized(s)) == sanitized(s),
{
    assert(sanitized(sanitized(s)) =~= sanitized(s));
}

/// A worktree's branch is `hcm/` followed by a slug.
pub proof fn lemma_branch_is_slug(session_name: Seq<char>)
    ensures
        branch_for(session_name).take(4) == "hcm/"@,
        forall|i: int|
            4 <= i < branch_for(session_name).len() ==> slug_char_ok(#[trigger] branch_for(session_name)[i]),
{
    reveal_strlit("hcm/");
    assert(branch_for(session_name).take(4) =~= "hcm/"@);
    assert forall|i: int| 4 <= i < branch_for(session_name).len() implies slug_char_ok(
        #[trigger] branch_for(session_name)[i],
    ) by {
        assert(branch_for(session_name)[i] == sanitized(session_name)[i - 4]);
    }
}

} // verus!
