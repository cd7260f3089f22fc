//! The tmux backend: the command lines it runs and the session list it
//! reads back.

use vstd::prelude::*;
use crate::backend::{Session, SessionView, SpawnOptions, sessions_view};
use crate::text::{
    find_char, is_first, lemma_split_first, lemma_split_first_none, lines, parse_u64,
    parse_u64_range, push_decimal, split_first, split_lines, split_whitespace, string_from_range,
    string_push, strings_view, decimal, words,
};

verus! {

/// The tmux backend.
pub struct TmuxBackend;

impl TmuxBackend {
    pub fn new() -> (r: Self)
        ensures
            r == TmuxBackend,
    {
        TmuxBackend
    }
}

/// The session that one line of `tmux list-sessions -F
/// '#{session_id}|#{session_name}|#{session_created}|#{session_path}'`
/// describes: id, name and creation time are cut at the first three `|`,
/// the rest is the path; a line with fewer fields, or a time that is no
/// number, describes none.
pub open spec fn session_line(line: Seq<char>) -> Option<SessionView> {
    match split_first(line, '|') {
        None => None,
        Some((id, r1)) => match split_first(r1, '|') {
            None => None,
            Some((name, r2)) => match split_first(r2, '|') {
                None => None,
                Some((secs, path)) => match parse_u64(secs) {
                    None => None,
                    Some(t) => Some(
                        SessionView {
                            id,
                            name,
                            cmd: seq![],
                            running: true,
                            created_at: t,
                            cwd: path,
                            worktree: None,
                        },
                    ),
                },
            },
        },
    }
}

/// The sessions that a list of lines describes, in order; lines that
/// describe none are skipped.
pub open spec fn session_list(ls: Seq<Seq<char>>) -> Seq<SessionView>
    decreases ls.len(),
{
    if ls.len() == 0 {
        seq![]
    } else {
        let rest = session_list(ls.drop_last());
        match session_line(ls.last()) {
            Some(s) => rest.push(s),
            None => rest,
        }
    }
}

/// `split_first` of `v[lo..]` at `c`, from what `find_char` found.
proof fn lemma_cut(v: Seq<char>, lo: int, c: char, found: Option<usize>)
    requires
        0 <= lo <= v.len(),
        found matches Some(i) ==> lo <= i < v.len() && is_first(v.skip(lo), c, i - lo),
        found is None ==> !v.skip(lo).contains(c),
    ensures
        found matches Some(i) ==> split_first(v.skip(lo), c) == Some(
            (v.subrange(lo, i as int), v.skip(i + 1)),
        ),
        found is None ==> split_first(v.skip(lo), c) is None,
{
    match found {
        Some(i) => {
            lemma_split_first(v.skip(lo), c, i - lo);
            assert(v.skip(lo).take(i - lo) =~= v.subrange(lo, i as int));
            assert(v.skip(lo).skip(i - lo + 1) =~= v.skip(i + 1));
        },
        None => {
            lemma_split_first_none(v.skip(lo), c);
        },
    }
}

/// The session that one line of the session list describes.
pub fn parse_session_line(line: &Vec<char>) -> (r: Option<Session>)
    ensures
        r matches Some(s) ==> session_line(line@) == Some(s@),
        r is None ==> session_line(line@) is None,
{
    let ghost l = line@;
    assert(l.skip(0) =~= l);
    let f1 = find_char(line, 0, '|');
    proof {
        lemma_cut(l, 0, '|', f1);
    }
    let i = match f1 {
        Some(i) => i,
        None => return None,
    };
    let f2 = find_char(line, i + 1, '|');
    proof {
        lemma_cut(l, i + 1, '|', f2);
    }
    let j = match f2 {
        Some(j) => j,
        None => return None,
    };
    let f3 = find_char(line, j + 1, '|');
    proof {
        lemma_cut(l, j + 1, '|', f3);
    }
    let k = match f3 {
        Some(k) => k,
        None => return None,
    };
    assert(l.subrange(0, i as int) =~= l.take(i as int));
    let created = match parse_u64_range(line, j + 1, k) {
        Some(t) => t,
        None => return None,
    };
    let id = string_from_range(line, 0, i);
    let name = string_from_range(line, i + 1, j);
    let cwd = string_from_range(line, k + 1, line.len());
    assert(l.subrange(k + 1, l.len() as int) =~= l.skip(k + 1));
    Some(
        Session {
            id,
            name,
            cmd: String::new(),
            running: true,
            created_at: created,
            cwd,
            worktree: None,
        },
    )
}

/// The sessions that the output of `tmux list-sessions` describes, one per
/// well-formed line, in order.
pub fn parse_session_list(stdout: &str) -> (r: Vec<Session>)
    ensures
        sessions_view(r@) == session_list(lines(stdout@)),
{
    let ls = split_lines(stdout);
    let ghost lv = ls@.map_values(|l: Vec<char>| l@);
    let mut r: Vec<Session> = Vec::new();
    let mut i: usize = 0;
    while i < ls.len()
        invariant
            lv == ls@.map_values(|l: Vec<char>| l@),
            lv == lines(stdout@),
            i <= ls.len(),
            sessions_view(r@) == session_list(lv.take(i as int)),
        decreases ls.len() - i,
    {
        assert(lv.take(i + 1).drop_last() =~= lv.take(i as int));
        assert(lv.take(i + 1).last() == ls@[i as int]@);
        match parse_session_line(&ls[i]) {
            Some(s) => {
                proof {
                    assert(sessions_view(r@.push(s)) =~= sessions_view(r@).push(s@));
                }
                r.push(s);
            },
            None => {},
        }
        i = i + 1;
    }
    assert(lv.take(ls.len() as int) =~= lv);
    r
}

/// The arguments of `tmux new-session` that start a detached session
/// named `opts.name` in `opts.cwd`, running the words of `opts.cmd`.
pub open spec fn new_session_argv(name: Seq<char>, cmd: Seq<char>, cwd: Seq<char>) -> Seq<
    Seq<char>,
> {
    seq!["new-session"@, "-d"@, "-s"@, name, "-c"@, cwd] + words(cmd)
}

/// The arguments of `tmux new-session` for a new session.
pub fn new_session_args(opts: &SpawnOptions) -> (r: Vec<String>)
    ensures
        strings_view(r@) == new_session_argv(opts.name@, opts.cmd@, opts.cwd@),
{
    let mut r: Vec<String> = Vec::new();
    r.push(String::from_str("new-session"));
    r.push(String::from_str("-d"));
    r.push(String::from_str("-s"));
    r.push(String::from_str(opts.name));
    r.push(String::from_str("-c"));
    r.push(String::from_str(opts.cwd));
    let ghost head = strings_view(r@);
    assert(head =~= seq!["new-session"@, "-d"@, "-s"@, opts.name@, "-c"@, opts.cwd@]);
    let toks = split_whitespace(opts.cmd);
    let mut i: usize = 0;
    while i < toks.len()
        invariant
            i <= toks.len(),
            strings_view(r@) == head + strings_view(toks@).take(i as int),
            head == seq!["new-session"@, "-d"@, "-s"@, opts.name@, "-c"@, opts.cwd@],
            strings_view(toks@) == words(opts.cmd@),
        decreases toks.len() - i,
    {
        let t = toks[i].clone();
        proof {
            assert(strings_view(r@.push(t)) =~= strings_view(r@).push(t@));
            assert(strings_view(toks@).take(i + 1) =~= strings_view(toks@).take(i as int).push(
                t@,
            ));
        }
        r.push(t);
        i = i + 1;
    }
    assert(strings_view(toks@).take(toks.len() as int) =~= strings_view(toks@));
    r
}

/// The arguments that bring up session `id`: `switch-client` from inside
/// tmux, `attach-session` from outside.
pub open spec fn attach_argv(in_tmux: bool, id: Seq<char>) -> Seq<Seq<char>> {
    if in_tmux {
        seq!["switch-client"@, "-t"@, id]
    } else {
        seq!["attach-session"@, "-t"@, id]
    }
}

/// The arguments that bring up session `id`.
pub fn attach_args(in_tmux: bool, id: &str) -> (r: Vec<String>)
    ensures
        strings_view(r@) == attach_argv(in_tmux, id@),
{
    let mut r: Vec<String> = Vec::new();
    if in_tmux {
        r.push(String::from_str("switch-client"));
    } else {
        r.push(String::from_str("attach-session"));
    }
    r.push(String::from_str("-t"));
    r.push(String::from_str(id));
    assert(strings_view(r@) =~= attach_argv(in_tmux, id@));
    r
}

/// The arguments of `tmux resize-window` that give session `id` `cols`
/// columns and `rows` rows.
pub open spec fn resize_window_argv(id: Seq<char>, rows: u16, cols: u16) -> Seq<Seq<char>> {
    seq!["resize-window"@, "-t"@, id, "-x"@, decimal(cols as nat), "-y"@, decimal(rows as nat)]
}

/// The arguments of `tmux resize-window` for session `id`.
pub fn resize_window_args(id: &str, rows: u16, cols: u16) -> (r: Vec<String>)
    ensures
        strings_view(r@) == resize_window_argv(id@, rows, cols),
{
    let mut c = String::new();
    push_decimal(&mut c, cols as u64);
    let mut w = String::new();
    push_decimal(&mut w, rows as u64);
    let mut r: Vec<String> = Vec::new();
    r.push(String::from_str("resize-window"));
    r.push(String::from_str("-t"));
    r.push(String::from_str(id));
    r.push(String::from_str("-x"));
    r.push(c);
    r.push(String::from_str("-y"));
    r.push(w);
    assert(strings_view(r@) =~= resize_window_argv(id@, rows, cols));
    r
}

/// The arguments of `tmux capture-pane` that print the last `lines` lines
/// of session `id`.
pub open spec fn capture_pane_argv(id: Seq<char>, lines: u16) -> Seq<Seq<char>> {
    seq!["capture-pane"@, "-p"@, "-t"@, id, "-S"@, seq!['-'] + decimal(lines as nat)]
}

/// The arguments of `tmux capture-pane` for session `id`.
pub fn capture_pane_args(id: &str, lines: u16) -> (r: Vec<String>)
    ensures
        strings_view(r@) == capture_pane_argv(id@, lines),
{
    let mut start = String::new();
    string_push(&mut start, '-');
    push_decimal(&mut start, lines as u64);
    let mut r: Vec<String> = Vec::new();
    r.push(String::from_str("capture-pane"));
    r.push(String::from_str("-p"));
    r.push(String::from_str("-t"));
    r.push(String::from_str(id));
    r.push(String::from_str("-S"));
    r.push(start);
    assert(strings_view(r@) =~= capture_pane_argv(id@, lines));
    r
}

} // verus!

verus! {

/// The line that `tmux list-sessions` prints for a session, in the format
/// the backend asks for: id, name, creation time and path, cut by `|`.
pub open spec fn list_line(id: Seq<char>, name: Seq<char>, created_at: u64, path: Seq<char>) -> Seq<char> {
    id + seq!['|'] + name + seq!['|'] + decimal(created_at as nat) + seq!['|'] + path
}

/// A line that tmux prints for a session whose id and name hold no `|` is
/// read back as that session.
pub proof fn lemma_list_line_read_back(id: Seq<char>, name: Seq<char>, created_at: u64, path: Seq<char>)
    requires
        !id.contains('|'),
        !name.contains('|'),
    ensures
        session_line(list_line(id, name, created_at, path)) == Some(
            SessionView {
                id,
                name,
                cmd: seq![],
                running: true,
                created_at,
                cwd: path,
                worktree: None,
            },
        ),
{
    let d = decimal(created_at as nat);
    crate::text::lemma_decimal_digits(created_at as nat);
    crate::text::lemma_parse_decimal(created_at);
    let line = list_line(id, name, created_at, path);
    let i = id.len() as int;
    assert forall|k: int| 0 <= k < i implies line[k] != '|' by {
        assert(line[k] == id[k]);
        if id[k] == '|' {
            assert(id.contains('|'));
        }
    }
    assert(line[i] == '|');
    lemma_split_first(line, '|', i);
    assert(line.take(i) =~= id);
    let r1 = line.skip(i + 1);
    assert(r1 =~= name + seq!['|'] + d + seq!['|'] + path);
    let j = name.len() as int;
    assert forall|k: int| 0 <= k < j implies r1[k] != '|' by {
        assert(r1[k] == name[k]);
        if name[k] == '|' {
            assert(name.contains('|'));
        }
    }
    assert(r1[j] == '|');
    lemma_split_first(r1, '|', j);
    assert(r1.take(j) =~= name);
    let r2 = r1.skip(j + 1);
    assert(r2 =~= d + seq!['|'] + path);
    let k = d.len() as int;
    assert forall|q: int| 0 <= q < k implies r2[q] != '|' by {
        assert(r2[q] == d[q]);
        assert(crate::text::is_digit(d[q]));
    }
    assert(r2[k] == '|');
    lemma_split_first(r2, '|', k);
    assert(r2.take(k) =~= d);
    assert(r2.skip(k + 1) =~= path);
}

} // verus!

verus! {

/// Lines printed one after another, each ended by `\n`.
pub open spec fn printed(ls: Seq<Seq<char>>) -> Seq<char>
    decreases ls.len(),
{
    if ls.len() == 0 {
        seq![]
    } else {
        printed(ls.drop_last()) + ls.last() + seq!['\n']
    }
}

/// Reading characters that hold no line break only extends the line
/// being read.
proof fn lemma_line_scan_extend(p: Seq<char>, l: Seq<char>)
    requires
        !l.contains('\n'),
    ensures
        crate::text::line_scan(p + l) == (crate::text::line_scan(p).0, crate::text::line_scan(p).1 + l),
    decreases l.len(),
{
    if l.len() == 0 {
        assert(p + l =~= p);
        assert(crate::text::line_scan(p).1 + l =~= crate::text::line_scan(p).1);
    } else {
        let l0 = l.drop_last();
        assert(!l0.contains('\n')) by {
            if l0.contains('\n') {
                let k = choose|k: int| 0 <= k < l0.len() && l0[k] == '\n';
                assert(l[k] == '\n');
            }
        }
        lemma_line_scan_extend(p, l0);
        assert((p + l).drop_last() =~= p + l0);
        assert(l.last() != '\n') by {
            if l.last() == '\n' {
                assert(l[l.len() - 1] == '\n');
            }
        }
        assert(crate::text::line_scan(p).1 + l0 + seq![l.last()] =~= crate::text::line_scan(p).1 + l);
    }
}

/// Lines that hold no line break and do not end in a carriage return are
/// read back from their printing.
pub proof fn lemma_printed_lines(ls: Seq<Seq<char>>)
    requires
        forall|i: int| 0 <= i < ls.len() ==> !(#[trigger] ls[i]).contains('\n'),
        forall|i: int| 0 <= i < ls.len() ==> (#[trigger] ls[i]).len() == 0 || ls[i].last() != '\r',
    ensures
        crate::text::line_scan(printed(ls)) == (ls, Seq::<char>::empty()),
        lines(printed(ls)) == ls,
    decreases ls.len(),
{
    if ls.len() == 0 {
        assert(crate::text::line_scan(printed(ls)) == (Seq::<Seq<char>>::empty(), Seq::<char>::empty()));
        assert(ls =~= Seq::<Seq<char>>::empty());
    } else {
        let front = ls.drop_last();
        let l = ls.last();
        assert(l == ls[ls.len() - 1]);
        lemma_printed_lines(front);
        lemma_line_scan_extend(printed(front), l);
        let whole = printed(front) + l + seq!['\n'];
        assert(printed(ls) == whole);
        assert(whole.drop_last() =~= printed(front) + l);
        assert(Seq::<char>::empty() + l =~= l);
        assert(crate::text::strip_cr(l) == l);
        assert(front.push(l) =~= ls);
    }
}

/// The sessions that printed list lines describe.
pub open spec fn list_lines(ss: Seq<SessionView>) -> Seq<Seq<char>> {
    ss.map_values(|s: SessionView| list_line(s.id, s.name, s.created_at, s.cwd))
}

/// A session as tmux lists it: no command or worktree known, running.
pub open spec fn as_listed(s: SessionView) -> bool {
    s.cmd == Seq::<char>::empty() && s.running && s.worktree is None
}

/// What tmux prints for its sessions is read back as those sessions, when
/// ids and names hold no `|` and paths hold no line break and do not end in
/// a carriage return.
pub proof fn lemma_session_list_read_back(ss: Seq<SessionView>)
    requires
        forall|i: int| 0 <= i < ss.len() ==> as_listed(#[trigger] ss[i]),
        forall|i: int| 0 <= i < ss.len() ==> !(#[trigger] ss[i]).id.contains('|') && !ss[i].name.contains('|'),
        forall|i: int| 0 <= i < ss.len() ==> !(#[trigger] ss[i]).id.contains('\n') && !ss[i].name.contains('\n') && !ss[i].cwd.contains('\n'),
        forall|i: int| 0 <= i < ss.len() ==> (#[trigger] ss[i]).cwd.len() == 0 || ss[i].cwd.last() != '\r',
    ensures
        session_list(lines(printed(list_lines(ss)))) == ss,
    decreases ss.len(),
{
    let ls = list_lines(ss);
    assert forall|i: int| 0 <= i < ls.len() implies !(#[trigger] ls[i]).contains('\n') by {
        let s = ss[i];
        let d = decimal(s.created_at as nat);
        crate::text::lemma_decimal_digits(s.created_at as nat);
        if ls[i].contains('\n') {
            let k = choose|k: int| 0 <= k < ls[i].len() && ls[i][k] == '\n';
            let a = s.id.len() as int;
            let b = a + 1 + s.name.len();
            let c = b + 1 + d.len();
            if k < a {
                assert(s.id[k] == '\n');
                assert(s.id.contains('\n'));
            } else if a < k < b {
                assert(s.name[k - a - 1] == '\n');
                assert(s.name.contains('\n'));
            } else if b < k < c {
                assert(d[k - b - 1] == '\n');
                assert(crate::text::is_digit(d[k - b - 1]));
            } else if c < k {
                assert(s.cwd[k - c - 1] == '\n');
                assert(s.cwd.contains('\n'));
            }
        }
    }
    assert forall|i: int| 0 <= i < ls.len() implies (#[trigger] ls[i]).len() == 0 || ls[i].last() != '\r' by {
        if ss[i].cwd.len() > 0 {
            assert(ls[i].last() == ss[i].cwd.last());
        } else {
            assert(ls[i].last() == '|');
        }
    }
    lemma_printed_lines(ls);
    lemma_session_list_of(ss);
}

/// Reading the list lines of sessions, one by one, gives the sessions.
proof fn lemma_session_list_of(ss: Seq<SessionView>)
    requires
        forall|i: int| 0 <= i < ss.len() ==> as_listed(#[trigger] ss[i]),
        forall|i: int| 0 <= i < ss.len() ==> !(#[trigger] ss[i]).id.contains('|') && !ss[i].name.contains('|'),
    ensures
        session_list(list_lines(ss)) == ss,
    decreases ss.len(),
{
    if ss.len() > 0 {
        let front = ss.drop_last();
        let s = ss.last();
        assert(s == ss[ss.len() - 1]);
        assert(list_lines(ss).drop_last() =~= list_lines(front));
        lemma_session_list_of(front);
        lemma_list_line_read_back(s.id, s.name, s.created_at, s.cwd);
        assert(front.push(s) =~= ss);
    } else {
        assert(ss =~= Seq::<SessionView>::empty());
    }
}

} // verus!
