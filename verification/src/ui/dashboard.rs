//! The rows of the session list.

use vstd::prelude::*;
use crate::backend::{Session, SessionView};
use crate::text::{decimal, lemma_decimal_injective, push_decimal, push_str, split_whitespace, string_push, strings_view, words};

verus! {

/// How long ago something started `created_at` seconds after the epoch,
/// seen at `now`: seconds below a minute, minutes below an hour, else
/// hours, rounded down; a start in the future counts as now.
pub open spec fn age_text(now: u64, created_at: u64) -> Seq<char> {
    let secs: nat = if now >= created_at {
        (now - created_at) as nat
    } else {
        0
    };
    if secs < 60 {
        decimal(secs) + "s ago"@
    } else if secs < 3600 {
        decimal(secs / 60) + "m ago"@
    } else {
        decimal(secs / 3600) + "h ago"@
    }
}

/// How long ago a session started, as the list shows it.
pub fn format_age(now: u64, created_at: u64) -> (r: String)
    ensures
        r@ == age_text(now, created_at),
{
    let secs: u64 = if now >= created_at {
        now - created_at
    } else {
        0
    };
    let mut r = String::new();
    if secs < 60 {
        push_decimal(&mut r, secs);
        push_str(&mut r, "s ago");
    } else if secs < 3600 {
        push_decimal(&mut r, secs / 60);
        push_str(&mut r, "m ago");
    } else {
        push_decimal(&mut r, secs / 3600);
        push_str(&mut r, "h ago");
    }
    assert(r@ =~= age_text(now, created_at));
    r
}

/// The program of a command: its first word, or the command itself when
/// it has none.
pub open spec fn short_cmd_of(cmd: Seq<char>) -> Seq<char> {
    if words(cmd).len() > 0 {
        words(cmd)[0]
    } else {
        cmd
    }
}

/// The program of a command: its first word, or the command itself when
/// it has none.
pub fn short_cmd(cmd: &str) -> (r: String)
    ensures
        r@ == short_cmd_of(cmd@),
{
    let ws = split_whitespace(cmd);
    if ws.len() > 0 {
        assert(strings_view(ws@)[0] == ws@[0]@);
        ws[0].clone()
    } else {
        String::from_str(cmd)
    }
}

/// `s` filled out with spaces to `width` characters (`{:<width}`).
pub open spec fn padded(s: Seq<char>, width: nat) -> Seq<char> {
    if s.len() < width {
        s + Seq::new((width - s.len()) as nat, |i: int| ' ')
    } else {
        s
    }
}

/// `s` filled out with spaces to `width` characters (`{:<width}`).
pub fn pad_right(s: &str, width: usize) -> (r: String)
    ensures
        r@ == padded(s@, width as nat),
{
    let mut r = String::from_str(s);
    let n = s.unicode_len();
    if n < width {
        let mut k = n;
        while k < width
            invariant
                n <= k <= width,
                n == s@.len(),
                r@ == s@ + Seq::new((k - n) as nat, |i: int| ' '),
            decreases width - k,
        {
            string_push(&mut r, ' ');
            k = k + 1;
            assert(r@ =~= s@ + Seq::new((k - n) as nat, |i: int| ' '));
        }
    }
    r
}

/// Whether a session shows as running or idle.
pub open spec fn status_text(running: bool) -> Seq<char> {
    if running {
        "running"@
    } else {
        "idle"@
    }
}

/// Whether a session shows as running or idle.
pub fn status_label(running: bool) -> (r: String)
    ensures
        r@ == status_text(running),
{
    if running {
        String::from_str("running")
    } else {
        String::from_str("idle")
    }
}

/// The columns of a session's row in the list: the selection marker, the
/// name in 22 columns, the program in 10, the status in 10, and the age.
pub open spec fn row_columns(s: SessionView, selected: bool, now: u64) -> Seq<Seq<char>> {
    seq![
        if selected { "▶ "@ } else { "  "@ },
        padded(s.name, 22),
        padded(short_cmd_of(s.cmd), 10),
        padded(status_text(s.running), 10),
        age_text(now, s.created_at),
    ]
}

/// The columns of a session's row in the list, seen at `now`.
pub fn session_row(s: &Session, selected: bool, now: u64) -> (r: Vec<String>)
    ensures
        strings_view(r@) == row_columns(s@, selected, now),
{
    let mut r: Vec<String> = Vec::new();
    r.push(if selected {
        String::from_str("▶ ")
    } else {
        String::from_str("  ")
    });
    r.push(pad_right(s.name.as_str(), 22));
    let prog = short_cmd(s.cmd.as_str());
    r.push(pad_right(prog.as_str(), 10));
    let status = status_label(s.running);
    r.push(pad_right(status.as_str(), 10));
    r.push(format_age(now, s.created_at));
    assert(strings_view(r@) =~= row_columns(s@, selected, now));
    r
}

} // verus!

verus! {

/// The age of a session by the time elapsed, `now - created_at`: below a
/// minute the whole seconds, below an hour the whole minutes, otherwise the
/// whole hours however many they are, each written in decimal; a start in
/// the future reads as `0s ago`. Two ages in hours read alike only when
/// they are the same number of whole hours.
pub proof fn lemma_age_units(now: u64, created_at: u64, later: u64)
    ensures
        now < created_at ==> age_text(now, created_at) == "0s ago"@,
        created_at <= now < created_at + 60 ==> age_text(now, created_at) == decimal(
            (now - created_at) as nat,
        ) + "s ago"@,
        created_at + 60 <= now < created_at + 3600 ==> age_text(now, created_at) == decimal(
            ((now - created_at) / 60) as nat,
        ) + "m ago"@,
        created_at + 3600 <= now ==> age_text(now, created_at) == decimal(
            ((now - created_at) / 3600) as nat,
        ) + "h ago"@,
        created_at + 3600 <= now && created_at + 3600 <= later && age_text(now, created_at)
            == age_text(later, created_at) ==> (now - created_at) / 3600 == (later - created_at)
            / 3600,
{
    reveal_strlit("0s ago");
    reveal_strlit("s ago");
    reveal_strlit("h ago");
    if now < created_at {
        assert(decimal(0) =~= seq!['0']);
        assert(age_text(now, created_at) =~= "0s ago"@);
    }
    if created_at + 3600 <= now && created_at + 3600 <= later && age_text(now, created_at)
        == age_text(later, created_at) {
        let a = ((now - created_at) / 3600) as nat;
        let b = ((later - created_at) / 3600) as nat;
        let ta = decimal(a) + "h ago"@;
        let tb = decimal(b) + "h ago"@;
        assert(ta == tb);
        assert(decimal(a).len() == decimal(b).len()) by {
            assert(ta.len() == tb.len());
        }
        assert(decimal(a) =~= ta.take(decimal(a).len() as int));
        assert(decimal(b) =~= tb.take(decimal(b).len() as int));
        lemma_decimal_injective(a, b);
    }
}

} // verus!

verus! {

/// A padded column is the text itself followed by spaces up to the width:
/// it is never shorter than the width nor than the text, and text longer
/// than the width is kept whole. A live session reads `running`, any other
/// `idle`.
pub proof fn lemma_column_texts(s: Seq<char>, width: nat)
    ensures
        padded(s, width).len() == if s.len() < width {
            width
        } else {
            s.len()
        },
        padded(s, width).take(s.len() as int) == s,
        forall|i: int| s.len() <= i < padded(s, width).len() ==> #[trigger] padded(s, width)[i] == ' ',
        status_text(true) == "running"@,
        status_text(false) == "idle"@,
{
    assert(padded(s, width).take(s.len() as int) =~= s);
}

} // verus!
