//! What the GitHub CLI panel shows about a session's pull request.

use vstd::prelude::*;
use crate::text::{push_i32, push_str, signed_decimal, strings_view};

verus! {

/// Result of a `gh` CLI invocation, ready to render in a panel.
pub struct GhOutput {
    pub title: String,
    pub body: String,
}

/// The panel shown when `gh` is not installed.
pub fn not_installed() -> (r: GhOutput)
    ensures
        r.title@ == "GitHub CLI"@,
        r.body@ == "gh is not installed. See https://cli.github.com/"@,
{
    GhOutput {
        title: String::from_str("GitHub CLI"),
        body: String::from_str("gh is not installed. See https://cli.github.com/"),
    }
}

/// The panel shown for a session outside any git repository.
pub fn not_in_repo() -> (r: GhOutput)
    ensures
        r.title@ == "GitHub CLI"@,
        r.body@ == "Session is not in a git repository."@,
{
    GhOutput {
        title: String::from_str("GitHub CLI"),
        body: String::from_str("Session is not in a git repository."),
    }
}

/// The panel title: the pull request of a branch, or the status of all.
pub open spec fn pr_title_of(branch: Option<Seq<char>>) -> Seq<char> {
    match branch {
        Some(b) => "gh pr — branch "@ + b,
        None => "gh pr status"@,
    }
}

/// The panel title: the pull request of a branch, or the status of all.
pub fn pr_title(branch: Option<&str>) -> (r: String)
    ensures
        r@ == pr_title_of(
            match branch {
                Some(b) => Some(b@),
                None => None,
            },
        ),
{
    match branch {
        Some(b) => {
            let mut t = String::from_str("gh pr — branch ");
            push_str(&mut t, b);
            t
        },
        None => String::from_str("gh pr status"),
    }
}

/// The `gh` arguments: `pr view <branch>` for a branch, `pr status` without.
pub open spec fn pr_argv(branch: Option<Seq<char>>) -> Seq<Seq<char>> {
    match branch {
        Some(b) => seq!["pr"@, "view"@, b],
        None => seq!["pr"@, "status"@],
    }
}

/// The `gh` arguments for a branch, or for the status of all.
pub fn pr_args(branch: Option<&str>) -> (r: Vec<String>)
    ensures
        strings_view(r@) == pr_argv(
            match branch {
                Some(b) => Some(b@),
                None => None,
            },
        ),
{
    let mut r: Vec<String> = Vec::new();
    r.push(String::from_str("pr"));
    match branch {
        Some(b) => {
            r.push(String::from_str("view"));
            r.push(String::from_str(b));
        },
        None => {
            r.push(String::from_str("status"));
        },
    }
    assert(strings_view(r@) =~= pr_argv(
        match branch {
            Some(b) => Some(b@),
            None => None,
        },
    ));
    r
}

/// The panel body when `gh` could not be started.
pub open spec fn invoke_failed_body(err: Seq<char>) -> Seq<char> {
    "Failed to invoke gh: "@ + err
}

/// The panel body when `gh` ran: its output if it succeeded, otherwise its
/// exit code (`-1` when it has none) and error output.
pub open spec fn pr_body_of(success: bool, code: Option<i32>, stdout: Seq<char>, stderr: Seq<char>) -> Seq<char> {
    if success {
        stdout
    } else {
        "gh exited "@ + signed_decimal(
            match code {
                Some(c) => c as int,
                None => -1,
            },
        ) + "\n\n"@ + stderr
    }
}

/// The panel when `gh` could not be started.
pub fn invoke_failed(title: String, err: &str) -> (r: GhOutput)
    ensures
        r.title@ == title@,
        r.body@ == invoke_failed_body(err@),
{
    let mut body = String::from_str("Failed to invoke gh: ");
    push_str(&mut body, err);
    GhOutput { title, body }
}

/// The panel when `gh` ran.
pub fn pr_result(title: String, success: bool, code: Option<i32>, stdout: &str, stderr: &str) -> (r: GhOutput)
    ensures
        r.title@ == title@,
        r.body@ == pr_body_of(success, code, stdout@, stderr@),
{
    if success {
        GhOutput { title, body: String::from_str(stdout) }
    } else {
        let mut body = String::from_str("gh exited ");
        let c: i32 = match code {
            Some(c) => c,
            None => -1,
        };
        push_i32(&mut body, c);
        push_str(&mut body, "\n\n");
        push_str(&mut body, stderr);
        GhOutput { title, body }
    }
}

} // verus!
