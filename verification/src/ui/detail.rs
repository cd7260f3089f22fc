//! The detail screen of a session.

use vstd::prelude::*;
use crate::backend::{Session, SessionView};
use crate::path::{file_name, path_file_name};
use crate::text::{lines, split_lines, string_from_chars, strings_view};
use crate::ui::dashboard::{age_text, format_age, status_label, status_text};

verus! {

/// The lines of a snapshot that fit `height` rows: its last ones.
pub open spec fn visible_lines_of(snapshot: Seq<char>, height: nat) -> Seq<Seq<char>> {
    let ls = lines(snapshot);
    if ls.len() > height {
        ls.skip(ls.len() - height)
    } else {
        ls
    }
}

/// The lines of a snapshot that fit `height` rows: its last ones.
pub fn visible_lines(snapshot: &str, height: usize) -> (r: Vec<String>)
    ensures
        r@.map_values(|l: String| l@) == visible_lines_of(snapshot@, height as nat),
{
    let ls = split_lines(snapshot);
    let ghost lv = ls@.map_values(|l: Vec<char>| l@);
    let start = if ls.len() > height {
        ls.len() - height
    } else {
        0
    };
    let mut r: Vec<String> = Vec::new();
    let mut i = start;
    while i < ls.len()
        invariant
            lv == ls@.map_values(|l: Vec<char>| l@),
            lv == lines(snapshot@),
            start <= i <= ls.len(),
            r@.map_values(|l: String| l@) == lv.subrange(start as int, i as int),
        decreases ls.len() - i,
    {
        let l = string_from_chars(&ls[i]);
        proof {
            assert(r@.push(l).map_values(|l: String| l@) =~= r@.map_values(|l: String| l@).push(
                l@,
            ));
            assert(lv.subrange(start as int, i + 1) =~= lv.subrange(start as int, i as int).push(
                lv[i as int],
            ));
        }
        r.push(l);
        i = i + 1;
    }
    assert(lv.subrange(start as int, ls.len() as int) =~= visible_lines_of(
        snapshot@,
        height as nat,
    ));
    r
}


/// The lines of a session's information panel, seen at `now`, each as
/// the pieces of text it is drawn from: its name, command, status with
/// age, and directory; then the path, branch and repository name of its
/// worktree, or a dash where it has none.
pub open spec fn metadata_of(s: SessionView, now: u64) -> Seq<Seq<Seq<char>>> {
    let head = seq![
        seq!["  Name:    "@, s.name],
        seq!["  Command: "@, s.cmd],
        seq![
            "  Status:  "@,
            status_text(s.running),
            "    "@,
            "started "@,
            age_text(now, s.created_at),
        ],
        seq!["  Cwd:     "@, s.cwd],
    ];
    match s.worktree {
        Some(w) => head + seq![
            seq!["  Worktree: "@, w.path],
            seq!["  Branch:   "@, w.branch],
            seq![
                "  Repo:     "@,
                match file_name(w.repo_root) {
                    Some(n) => n,
                    None => seq![],
                },
            ],
        ],
        None => head.push(seq!["  Worktree: "@, "—"@]),
    }
}

/// The pieces of every line of a panel, by their characters.
pub open spec fn panel_view(ls: Seq<Vec<String>>) -> Seq<Seq<Seq<char>>> {
    ls.map_values(|l: Vec<String>| strings_view(l@))
}

/// A line of a label and a value.
fn labelled(label: &str, value: String) -> (r: Vec<String>)
    ensures
        strings_view(r@) == seq![label@, value@],
{
    let mut r: Vec<String> = Vec::new();
    r.push(String::from_str(label));
    r.push(value);
    assert(strings_view(r@) =~= seq![label@, value@]);
    r
}

/// The lines of a session's information panel, seen at `now`, each as
/// the pieces of text it is drawn from.
pub fn metadata_lines(s: &Session, now: u64) -> (r: Vec<Vec<String>>)
    ensures
        panel_view(r@) == metadata_of(s@, now),
{
    let mut r: Vec<Vec<String>> = Vec::new();
    r.push(labelled("  Name:    ", s.name.clone()));
    r.push(labelled("  Command: ", s.cmd.clone()));
    let mut status: Vec<String> = Vec::new();
    status.push(String::from_str("  Status:  "));
    status.push(status_label(s.running));
    status.push(String::from_str("    "));
    status.push(String::from_str("started "));
    status.push(format_age(now, s.created_at));
    assert(strings_view(status@) =~= seq![
        "  Status:  "@,
        status_text(s.running),
        "    "@,
        "started "@,
        age_text(now, s.created_at),
    ]);
    r.push(status);
    r.push(labelled("  Cwd:     ", s.cwd.clone()));
    match &s.worktree {
        Some(w) => {
            r.push(labelled("  Worktree: ", w.path.clone()));
            r.push(labelled("  Branch:   ", w.branch.clone()));
            let repo = match path_file_name(w.repo_root.as_str()) {
                Some(n) => n,
                None => String::new(),
            };
            assert(repo@ == match file_name(w.repo_root@) {
                Some(n) => n,
                None => seq![],
            });
            r.push(labelled("  Repo:     ", repo));
            assert(r@.len() == 7);
            assert(panel_view(r@) =~= metadata_of(s@, now)) by {
                assert forall|i: int| 0 <= i < 7 implies #[trigger] panel_view(r@)[i] == metadata_of(
                    s@,
                    now,
                )[i] by {}
            }
        },
        None => {
            r.push(labelled("  Worktree: ", String::from_str("—")));
            assert(r@.len() == 5);
            assert(panel_view(r@) =~= metadata_of(s@, now)) by {
                assert forall|i: int| 0 <= i < 5 implies #[trigger] panel_view(r@)[i] == metadata_of(
                    s@,
                    now,
                )[i] by {}
            }
        },
    }
    r
}

} // verus!
