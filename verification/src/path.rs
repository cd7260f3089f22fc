//! File-system paths as text, with the joining and last-component rules of
//! `std::path` on Unix.

use vstd::prelude::*;
use crate::text::{chars_of, string_from_range, push_str, string_push};

verus! {

/// `base` joined with `p` (`Path::join`): an absolute `p` replaces `base`,
/// otherwise a `/` is put between them unless `base` is empty or already
/// ends with one.
pub open spec fn join_path(base: Seq<char>, p: Seq<char>) -> Seq<char> {
    if p.len() > 0 && p[0] == '/' {
        p
    } else if base.len() > 0 && base.last() != '/' {
        base + seq!['/'] + p
    } else {
        base + p
    }
}

/// `base` joined with `p` (`Path::join`).
pub fn path_join(base: &str, p: &str) -> (r: String)
    ensures
        r@ == join_path(base@, p@),
{
    let pv = chars_of(p);
    if pv.len() > 0 && pv[0] == '/' {
        return String::from_str(p);
    }
    let bv = chars_of(base);
    let mut r = String::from_str(base);
    if bv.len() > 0 && bv[bv.len() - 1] != '/' {
        string_push(&mut r, '/');
    }
    push_str(&mut r, p);
    r
}

/// Where the last `/`-separated segment of `p` begins.
pub open spec fn segment_start(p: Seq<char>) -> int
    decreases p.len(),
{
    if p.len() == 0 {
        0
    } else if p.last() == '/' {
        p.len() as int
    } else {
        segment_start(p.drop_last())
    }
}

/// Bounds of `segment_start`.
pub proof fn lemma_segment_start_bounds(p: Seq<char>)
    ensures
        0 <= segment_start(p) <= p.len(),
        p.len() > 0 && p.last() != '/' ==> segment_start(p) < p.len(),
    decreases p.len(),
{
    if p.len() > 0 && p.last() != '/' {
        lemma_segment_start_bounds(p.drop_last());
    }
}

/// A position `k` after which no `/` stands, and which is the start or
/// follows a `/`, is where the last segment begins.
pub proof fn lemma_segment_start(p: Seq<char>, k: int)
    requires
        0 <= k <= p.len(),
        forall|j: int| k <= j < p.len() ==> p[j] != '/',
        k == 0 || p[k - 1] == '/',
    ensures
        segment_start(p) == k,
    decreases p.len(),
{
    if p.len() > k {
        assert(p.last() == p[p.len() - 1]);
        lemma_segment_start(p.drop_last(), k);
    }
}

/// The last component of `p`, if it is a name (`Path::file_name`):
/// trailing `/` and `.` components are skipped, and a path that ends in
/// `..`, or has no component, has none.
pub open spec fn file_name(p: Seq<char>) -> Option<Seq<char>>
    decreases p.len(),
{
    if p.len() == 0 {
        None
    } else if p.last() == '/' {
        file_name(p.drop_last())
    } else {
        let k = segment_start(p);
        let seg = p.subrange(k, p.len() as int);
        if seg == seq!['.'] {
            proof {
                lemma_segment_start_bounds(p);
            }
            file_name(p.take(k))
        } else if seg == seq!['.', '.'] {
            None
        } else {
            Some(seg)
        }
    }
}

/// The last component of `p`, if it is a name (`Path::file_name`).
pub fn path_file_name(p: &str) -> (r: Option<String>)
    ensures
        r matches Some(n) ==> file_name(p@) == Some(n@),
        r is None ==> file_name(p@) is None,
{
    let v = chars_of(p);
    let mut end = v.len();
    assert(p@.take(end as int) =~= p@);
    loop
        invariant
            v@ == p@,
            end <= v.len(),
            file_name(p@) == file_name(p@.take(end as int)),
        decreases end,
    {
        let ghost end0 = end;
        while end > 0 && v[end - 1] == '/'
            invariant
                v@ == p@,
                end <= end0 <= v.len(),
                file_name(p@) == file_name(p@.take(end as int)),
            decreases end,
        {
            assert(p@.take(end as int).drop_last() =~= p@.take(end - 1));
            end = end - 1;
        }
        if end == 0 {
            return None;
        }
        let ghost q = p@.take(end as int);
        let mut k = end;
        while k > 0 && v[k - 1] != '/'
            invariant
                v@ == p@,
                k <= end <= end0 <= v.len(),
                end > 0,
                v@[end - 1] != '/',
                forall|j: int| k <= j < end ==> v@[j] != '/',
            decreases k,
        {
            k = k - 1;
        }
        proof {
            lemma_segment_start(q, k as int);
            assert(q.last() == v@[end - 1]);
        }
        let len = end - k;
        if len == 1 && v[k] == '.' {
            assert(q.subrange(k as int, end as int) =~= seq!['.']);
            assert(q.take(k as int) =~= p@.take(k as int));
            end = k;
        } else if len == 2 && v[k] == '.' && v[k + 1] == '.' {
            assert(q.subrange(k as int, end as int) =~= seq!['.', '.']);
            return None;
        } else {
            let seg = string_from_range(&v, k, end);
            assert(q.subrange(k as int, end as int) =~= v@.subrange(k as int, end as int));
            assert(q.subrange(k as int, end as int) != seq!['.']) by {
                if len == 1 {
                    assert(q.subrange(k as int, end as int)[0] != '.');
                }
            }
            assert(q.subrange(k as int, end as int) != seq!['.', '.']) by {
                if len == 2 {
                    assert(q.subrange(k as int, end as int)[0] != '.' || q.subrange(
                        k as int,
                        end as int,
                    )[1] != '.');
                }
            }
            return Some(seg);
        }
    }
}

} // verus!
