//! What the session manager remembers about its sessions between runs.

use vstd::prelude::*;
use crate::path::{join_path, path_join};
use crate::text::strings_view;
use crate::worktree::{Worktree, WorktreeView, opt_worktree_view};

verus! {

/// What is remembered of one session: where it runs, the command it was
/// started with, and its worktree if it has one.
#[derive(Debug)]
pub struct SessionRecord {
    pub cwd: String,
    pub original_cmd: String,
    pub worktree: Option<Worktree>,
}

/// A session record by the characters of its fields.
pub struct RecordView {
    pub cwd: Seq<char>,
    pub original_cmd: Seq<char>,
    pub worktree: Option<WorktreeView>,
}

impl View for SessionRecord {
    type V = RecordView;

    open spec fn view(&self) -> RecordView {
        RecordView {
            cwd: self.cwd@,
            original_cmd: self.original_cmd@,
            worktree: opt_worktree_view(self.worktree),
        }
    }
}

impl Clone for SessionRecord {
    fn clone(&self) -> (r: Self)
        ensures
            r == *self,
    {
        SessionRecord {
            cwd: self.cwd.clone(),
            original_cmd: self.original_cmd.clone(),
            worktree: match &self.worktree {
                Some(w) => Some(w.clone()),
                None => None,
            },
        }
    }
}

/// No two entries share a name.
pub open spec fn names_distinct(e: Seq<(String, SessionRecord)>) -> bool {
    forall|i: int, j: int|
        0 <= i < e.len() && 0 <= j < e.len() && #[trigger] e[i].0@ == #[trigger] e[j].0@ ==> i
            == j
}

/// Whether some entry is named `k`.
pub open spec fn has_name(e: Seq<(String, SessionRecord)>, k: Seq<char>) -> bool {
    exists|i: int| 0 <= i < e.len() && #[trigger] e[i].0@ == k
}

/// The position of the entry named `k`.
pub open spec fn position_of(e: Seq<(String, SessionRecord)>, k: Seq<char>) -> int {
    choose|i: int| 0 <= i < e.len() && #[trigger] e[i].0@ == k
}

/// The records of a list of named entries, by name.
pub open spec fn entries_view(e: Seq<(String, SessionRecord)>) -> Map<Seq<char>, RecordView> {
    Map::new(|k: Seq<char>| has_name(e, k), |k: Seq<char>| e[position_of(e, k)].1@)
}

/// The entry at `i` is what the map holds under its name.
pub proof fn lemma_entry_in_view(e: Seq<(String, SessionRecord)>, i: int)
    requires
        names_distinct(e),
        0 <= i < e.len(),
    ensures
        entries_view(e).contains_key(e[i].0@),
        entries_view(e)[e[i].0@] == e[i].1@,
{
    assert(has_name(e, e[i].0@));
    let j = position_of(e, e[i].0@);
    assert(e[j].0@ == e[i].0@);
}

/// A name that no entry has is not in the map.
pub proof fn lemma_name_not_in_view(e: Seq<(String, SessionRecord)>, k: Seq<char>)
    requires
        forall|i: int| 0 <= i < e.len() ==> e[i].0@ != k,
    ensures
        !entries_view(e).contains_key(k),
{
    if has_name(e, k) {
        let j = choose|i: int| 0 <= i < e.len() && #[trigger] e[i].0@ == k;
        assert(e[j].0@ == k);
    }
}

/// The sessions that the manager remembers, by session name.
#[derive(Debug)]
pub struct PersistedState {
    entries: Vec<(String, SessionRecord)>,
}

impl View for PersistedState {
    type V = Map<Seq<char>, RecordView>;

    closed spec fn view(&self) -> Map<Seq<char>, RecordView> {
        entries_view(self.entries@)
    }
}

impl Default for PersistedState {
    fn default() -> (s: Self)
        ensures
            s.wf(),
            s@ == Map::<Seq<char>, RecordView>::empty(),
    {
        PersistedState::new()
    }
}

impl PersistedState {
    /// No name is remembered twice.
    pub closed spec fn wf(&self) -> bool {
        names_distinct(self.entries@)
    }

    /// An empty state.
    pub fn new() -> (s: Self)
        ensures
            s.wf(),
            s@ == Map::<Seq<char>, RecordView>::empty(),
    {
        let s = PersistedState { entries: Vec::new() };
        assert(s@ =~= Map::<Seq<char>, RecordView>::empty());
        s
    }

    /// The position of the entry named `name`.
    fn find(&self, name: &str) -> (r: Option<usize>)
        requires
            self.wf(),
        ensures
            r matches Some(i) ==> i < self.entries.len() && self.entries@[i as int].0@ == name@,
            r is None ==> forall|i: int|
                0 <= i < self.entries.len() ==> self.entries@[i].0@ != name@,
    {
        let n = String::from_str(name);
        let mut i: usize = 0;
        while i < self.entries.len()
            invariant
                i <= self.entries.len(),
                n@ == name@,
                forall|j: int| 0 <= j < i ==> self.entries@[j].0@ != name@,
            decreases self.entries.len() - i,
        {
            if self.entries[i].0 == n {
                return Some(i);
            }
            i = i + 1;
        }
        None
    }

    /// Remembers `record` under `name`, in place of what was there.
    pub fn insert(&mut self, name: String, record: SessionRecord)
        requires
            old(self).wf(),
        ensures
            final(self).wf(),
            final(self)@ == old(self)@.insert(name@, record@),
    {
        let ghost e0 = self.entries@;
        let ghost k = name@;
        let ghost rv = record@;
        match self.find(name.as_str()) {
            Some(i) => {
                self.entries.set(i, (name, record));
                let ghost e1 = self.entries@;
                assert(names_distinct(e1)) by {
                    assert forall|a: int, b: int|
                        0 <= a < e1.len() && 0 <= b < e1.len() && #[trigger] e1[a].0@
                            == #[trigger] e1[b].0@ implies a == b by {
                        assert(e1[a].0@ == e0[a].0@);
                        assert(e1[b].0@ == e0[b].0@);
                    }
                }
                assert(entries_view(e1) =~= entries_view(e0).insert(k, rv)) by {
                    lemma_entry_in_view(e1, i as int);
                    assert forall|x: Seq<char>| #[trigger]
                        entries_view(e1).contains_key(x) <==> entries_view(e0).insert(
                            k,
                            rv,
                        ).contains_key(x) by {
                        if x != k {
                            if has_name(e1, x) {
                                let j = choose|j: int| 0 <= j < e1.len() && #[trigger] e1[j].0@ == x;
                                assert(e0[j].0@ == x);
                                lemma_entry_in_view(e0, j);
                            }
                            if has_name(e0, x) {
                                let j = choose|j: int| 0 <= j < e0.len() && #[trigger] e0[j].0@ == x;
                                assert(e1[j].0@ == x);
                                lemma_entry_in_view(e1, j);
                            }
                        }
                    }
                    assert forall|x: Seq<char>| #[trigger]
                        entries_view(e1).contains_key(x) implies entries_view(e1)[x]
                        == entries_view(e0).insert(k, rv)[x] by {
                        if x != k {
                            let j = choose|j: int| 0 <= j < e1.len() && #[trigger] e1[j].0@ == x;
                            assert(e0[j].0@ == x);
                            lemma_entry_in_view(e1, j);
                            lemma_entry_in_view(e0, j);
                        }
                    }
                }
            },
            None => {
                self.entries.push((name, record));
                let ghost e1 = self.entries@;
                assert(names_distinct(e1)) by {
                    assert forall|a: int, b: int|
                        0 <= a < e1.len() && 0 <= b < e1.len() && #[trigger] e1[a].0@
                            == #[trigger] e1[b].0@ implies a == b by {
                        if a < e0.len() && b < e0.len() {
                            assert(e1[a] == e0[a]);
                            assert(e1[b] == e0[b]);
                        } else if a < e0.len() {
                            assert(e1[a] == e0[a]);
                        } else if b < e0.len() {
                            assert(e1[b] == e0[b]);
                        }
                    }
                }
                assert(entries_view(e1) =~= entries_view(e0).insert(k, rv)) by {
                    lemma_entry_in_view(e1, e0.len() as int);
                    assert forall|x: Seq<char>| #[trigger]
                        entries_view(e1).contains_key(x) <==> entries_view(e0).insert(
                            k,
                            rv,
                        ).contains_key(x) by {
                        if x != k {
                            if has_name(e1, x) {
                                let j = choose|j: int| 0 <= j < e1.len() && #[trigger] e1[j].0@ == x;
                                assert(j < e0.len());
                                assert(e0[j] == e1[j]);
                                lemma_entry_in_view(e0, j);
                            }
                            if has_name(e0, x) {
                                let j = choose|j: int| 0 <= j < e0.len() && #[trigger] e0[j].0@ == x;
                                assert(e1[j] == e0[j]);
                                lemma_entry_in_view(e1, j);
                            }
                        }
                    }
                    assert forall|x: Seq<char>| #[trigger]
                        entries_view(e1).contains_key(x) implies entries_view(e1)[x]
                        == entries_view(e0).insert(k, rv)[x] by {
                        if x != k {
                            let j = choose|j: int| 0 <= j < e1.len() && #[trigger] e1[j].0@ == x;
                            assert(j < e0.len());
                            assert(e0[j] == e1[j]);
                            lemma_entry_in_view(e1, j);
                            lemma_entry_in_view(e0, j);
                        }
                    }
                }
            },
        }
    }

    /// Forgets `name`, and gives back what was remembered under it.
    pub fn remove(&mut self, name: &str) -> (r: Option<SessionRecord>)
        requires
            old(self).wf(),
        ensures
            final(self).wf(),
            final(self)@ == old(self)@.remove(name@),
            r is None <==> !old(self)@.contains_key(name@),
            r matches Some(rec) ==> rec@ == old(self)@[name@],
    {
        let ghost e0 = self.entries@;
        let ghost k = name@;
        match self.find(name) {
            Some(i) => {
                proof {
                    lemma_entry_in_view(e0, i as int);
                }
                let (_, rec) = self.entries.remove(i);
                let ghost e1 = self.entries@;
                assert(forall|a: int| 0 <= a < e1.len() ==> #[trigger] e1[a] == (if a < i {
                    e0[a]
                } else {
                    e0[a + 1]
                }));
                assert(names_distinct(e1)) by {
                    assert forall|a: int, b: int|
                        0 <= a < e1.len() && 0 <= b < e1.len() && #[trigger] e1[a].0@
                            == #[trigger] e1[b].0@ implies a == b by {
                        let a0 = if a < i { a } else { a + 1 };
                        let b0 = if b < i { b } else { b + 1 };
                        assert(e0[a0].0@ == e0[b0].0@);
                    }
                }
                assert(entries_view(e1) =~= entries_view(e0).remove(k)) by {
                    assert forall|x: Seq<char>| #[trigger]
                        entries_view(e1).contains_key(x) <==> entries_view(e0).remove(
                            k,
                        ).contains_key(x) by {
                        if has_name(e1, x) {
                            let j = choose|j: int| 0 <= j < e1.len() && #[trigger] e1[j].0@ == x;
                            let j0 = if j < i { j } else { j + 1 };
                            assert(e0[j0].0@ == x);
                            lemma_entry_in_view(e0, j0);
                        }
                        if x != k && has_name(e0, x) {
                            let j0 = choose|j: int| 0 <= j < e0.len() && #[trigger] e0[j].0@ == x;
                            assert(j0 != i);
                            let j = if j0 < i { j0 } else { j0 - 1 };
                            assert(e1[j].0@ == x);
                            lemma_entry_in_view(e1, j);
                        }
                    }
                    assert forall|x: Seq<char>| #[trigger]
                        entries_view(e1).contains_key(x) implies entries_view(e1)[x]
                        == entries_view(e0).remove(k)[x] by {
                        let j = choose|j: int| 0 <= j < e1.len() && #[trigger] e1[j].0@ == x;
                        let j0 = if j < i { j } else { j + 1 };
                        assert(e0[j0].0@ == x);
                        lemma_entry_in_view(e1, j);
                        lemma_entry_in_view(e0, j0);
                    }
                }
                Some(rec)
            },
            None => {
                proof {
                    lemma_name_not_in_view(e0, k);
                }
                assert(entries_view(e0) =~= entries_view(e0).remove(k));
                None
            },
        }
    }

    /// Moves what is remembered under `old_name` to `new_name`; nothing
    /// changes when nothing is remembered under `old_name`.
    pub fn rename(&mut self, old_name: &str, new_name: String)
        requires
            old(self).wf(),
        ensures
            final(self).wf(),
            old(self)@.contains_key(old_name@) ==> final(self)@ == old(self)@.remove(
                old_name@,
            ).insert(new_name@, old(self)@[old_name@]),
            !old(self)@.contains_key(old_name@) ==> final(self)@ == old(self)@,
    {
        if let Some(record) = self.remove(old_name) {
            self.insert(new_name, record);
        }
    }

    /// What is remembered under `name`.
    pub fn get(&self, name: &str) -> (r: Option<&SessionRecord>)
        requires
            self.wf(),
        ensures
            r is None <==> !self@.contains_key(name@),
            r matches Some(rec) ==> rec@ == self@[name@],
    {
        match self.find(name) {
            Some(i) => {
                proof {
                    lemma_entry_in_view(self.entries@, i as int);
                }
                Some(&self.entries[i].1)
            },
            None => {
                proof {
                    lemma_name_not_in_view(self.entries@, name@);
                }
                None
            },
        }
    }

    /// Drops the records whose session is not among `live_names`.
    pub fn gc(&mut self, live_names: &[String])
        requires
            old(self).wf(),
        ensures
            final(self).wf(),
            final(self)@ == old(self)@.restrict(name_set(live_names@)),
    {
        let ghost m0 = self@;
        let ghost live = name_set(live_names@);
        let names = self.names();
        let ghost ns = strings_view(names@);
        let mut i: usize = 0;
        assert(m0 =~= m0.restrict(kept_names(live, ns, 0)));
        while i < names.len()
            invariant
                self.wf(),
                ns == strings_view(names@),
                live == name_set(live_names@),
                forall|k: Seq<char>| m0.contains_key(k) <==> ns.contains(k),
                i <= names.len(),
                self@ == m0.restrict(kept_names(live, ns, i as int)),
            decreases names.len() - i,
        {
            let n = &names[i];
            assert(ns[i as int] == n@);
            assert(ns.take(i + 1) =~= ns.take(i as int).push(n@));
            assert forall|k: Seq<char>| #[trigger] ns.take(i + 1).contains(k) <==> (ns.take(
                i as int,
            ).contains(k) || k == n@) by {
                if ns.take(i + 1).contains(k) && k != n@ {
                    let j = choose|j: int| 0 <= j < i + 1 && #[trigger] ns.take(i + 1)[j] == k;
                    assert(ns.take(i as int)[j] == k);
                }
                if ns.take(i as int).contains(k) {
                    let j = choose|j: int| 0 <= j < i && #[trigger] ns.take(i as int)[j] == k;
                    assert(ns.take(i + 1)[j] == k);
                }
                if k == n@ {
                    assert(ns.take(i + 1)[i as int] == k);
                }
            }
            if !contains_name(live_names, n.as_str()) {
                self.remove(n.as_str());
                assert(self@ =~= m0.restrict(kept_names(live, ns, i + 1)));
            } else {
                assert(self@ =~= m0.restrict(kept_names(live, ns, i + 1)));
            }
            i = i + 1;
        }
        assert(ns.take(names.len() as int) =~= ns);
        assert(self@ =~= m0.restrict(live));
    }

    /// The remembered session names, each once.
    pub fn names(&self) -> (r: Vec<String>)
        requires
            self.wf(),
        ensures
            strings_view(r@).no_duplicates(),
            forall|k: Seq<char>| self@.contains_key(k) <==> strings_view(r@).contains(k),
    {
        let mut r: Vec<String> = Vec::new();
        let mut i: usize = 0;
        while i < self.entries.len()
            invariant
                self.wf(),
                i <= self.entries.len(),
                r@.len() == i,
                forall|a: int| 0 <= a < i ==> #[trigger] r@[a]@ == self.entries@[a].0@,
            decreases self.entries.len() - i,
        {
            r.push(self.entries[i].0.clone());
            i = i + 1;
        }
        let ghost e = self.entries@;
        assert(strings_view(r@).no_duplicates()) by {
            assert forall|a: int, b: int|
                0 <= a < strings_view(r@).len() && 0 <= b < strings_view(r@).len() && a != b
                    implies strings_view(r@)[a] != strings_view(r@)[b] by {
                assert(strings_view(r@)[a] == e[a].0@);
                assert(strings_view(r@)[b] == e[b].0@);
            }
        }
        assert forall|k: Seq<char>| self@.contains_key(k) <==> strings_view(r@).contains(k) by {
            if self@.contains_key(k) {
                let j = choose|j: int| 0 <= j < e.len() && #[trigger] e[j].0@ == k;
                assert(strings_view(r@)[j] == k);
            }
            if strings_view(r@).contains(k) {
                let a = choose|a: int| 0 <= a < strings_view(r@).len() && strings_view(r@)[a] == k;
                assert(e[a].0@ == k);
                assert(has_name(e, k));
            }
        }
        r
    }
}

/// The names to keep after the first `i` of `names` have been looked at:
/// the live ones, and those not looked at yet.
pub open spec fn kept_names(live: Set<Seq<char>>, names: Seq<Seq<char>>, i: int) -> Set<
    Seq<char>,
> {
    Set::new(|k: Seq<char>| live.contains(k) || !names.take(i).contains(k))
}

/// The names held by a list of strings.
pub open spec fn name_set(names: Seq<String>) -> Set<Seq<char>> {
    Set::new(|k: Seq<char>| exists|j: int| 0 <= j < names.len() && #[trigger] names[j]@ == k)
}

/// Whether `name` is among `names`.
pub fn contains_name(names: &[String], name: &str) -> (r: bool)
    ensures
        r == name_set(names@).contains(name@),
{
    let n = String::from_str(name);
    let mut j: usize = 0;
    while j < names.len()
        invariant
            j <= names@.len(),
            n@ == name@,
            forall|a: int| 0 <= a < j ==> names@[a]@ != name@,
        decreases names@.len() - j,
    {
        if names[j] == n {
            assert(names@[j as int]@ == name@);
            return true;
        }
        j = j + 1;
    }
    assert(!name_set(names@).contains(name@)) by {
        if name_set(names@).contains(name@) {
            let a = choose|a: int| 0 <= a < names@.len() && #[trigger] names@[a]@ == name@;
            assert(names@[a]@ != name@);
        }
    }
    false
}

/// Where the state file of a workspace lies: `state.json` in it.
pub open spec fn state_path_of(workspace: Seq<char>) -> Seq<char> {
    join_path(workspace, "state.json"@)
}

/// Where the state file of a workspace lies: `state.json` in it.
pub fn state_path(workspace: &str) -> (r: String)
    ensures
        r@ == state_path_of(workspace@),
{
    path_join(workspace, "state.json")
}

} // verus!

verus! {

/// What is read back under a name is what was last written under it, and
/// writing one name leaves the others as they were.
pub proof fn lemma_read_after_write(
    m: Map<Seq<char>, RecordView>,
    name: Seq<char>,
    rec: RecordView,
    other: Seq<char>,
)
    requires
        other != name,
    ensures
        m.insert(name, rec).contains_key(name),
        m.insert(name, rec)[name] == rec,
        m.insert(name, rec).contains_key(other) == m.contains_key(other),
        m.contains_key(other) ==> m.insert(name, rec)[other] == m[other],
{
}

/// Removing a name that was just written under gives back what was written,
/// and leaves the state as it was when the name was new.
pub proof fn lemma_remove_after_insert(m: Map<Seq<char>, RecordView>, name: Seq<char>, rec: RecordView)
    ensures
        m.insert(name, rec)[name] == rec,
        !m.contains_key(name) ==> m.insert(name, rec).remove(name) == m,
{
    if !m.contains_key(name) {
        assert(m.insert(name, rec).remove(name) =~= m);
    }
}

/// After a collection only live names are remembered, every live name that
/// was remembered still is, and collecting again changes nothing.
pub proof fn lemma_gc_keeps_live(m: Map<Seq<char>, RecordView>, live: Set<Seq<char>>)
    ensures
        forall|k: Seq<char>| #[trigger] m.restrict(live).contains_key(k) ==> live.contains(k),
        forall|k: Seq<char>|
            m.contains_key(k) && live.contains(k) ==> #[trigger] m.restrict(live).contains_key(k)
                && m.restrict(live)[k] == m[k],
        m.restrict(live).restrict(live) == m.restrict(live),
{
    assert(m.restrict(live).restrict(live) =~= m.restrict(live));
}

} // verus!
