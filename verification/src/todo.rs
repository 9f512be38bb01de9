//! `TODO(issue: <slug>)` markers in source files.
use vstd::prelude::*;
use crate::args::answered;
use crate::text::{chars_of, find_char, index_of_char, string_from_range, trim, trim_seq};

verus! {

/// `n` occurs in `s` at position `i`.
pub open spec fn occurs_at(s: Seq<char>, n: Seq<char>, i: int) -> bool {
    0 <= i && i + n.len() <= s.len() && s.subrange(i, i + n.len()) == n
}

/// Position of the first occurrence of `n` in `s`, or `-1`.
pub open spec fn find_sub(s: Seq<char>, n: Seq<char>) -> int
    decreases s.len(),
{
    if n.len() > s.len() {
        -1
    } else if s.take(n.len() as int) == n {
        0
    } else if s.len() == 0 {
        -1
    } else {
        let r = find_sub(s.drop_first(), n);
        if r < 0 {
            -1
        } else {
            r + 1
        }
    }
}

pub(crate) proof fn lemma_find_sub(s: Seq<char>, n: Seq<char>, i: int)
    requires
        0 <= i,
        forall|j: int| 0 <= j < i ==> !occurs_at(s, n, j),
        occurs_at(s, n, i) || i + n.len() > s.len(),
    ensures
        occurs_at(s, n, i) ==> find_sub(s, n) == i,
        !occurs_at(s, n, i) ==> find_sub(s, n) == -1,
    decreases i,
{
    if n.len() > s.len() {
    } else if i == 0 {
        if occurs_at(s, n, 0) {
            assert(s.subrange(0, n.len() as int) =~= s.take(n.len() as int));
        }
    } else {
        assert(!occurs_at(s, n, 0));
        assert(s.subrange(0, n.len() as int) =~= s.take(n.len() as int));
        if n.len() == 0 {
            assert(s.subrange(0, 0) =~= n);
        }
        assert(s.len() > 0);
        let t = s.drop_first();
        assert forall|j: int| 0 <= j < i - 1 implies !occurs_at(t, n, j) by {
            if occurs_at(t, n, j) {
                assert(j + 1 + n.len() <= s.len());
                assert(t.subrange(j, j + n.len()) =~= s.subrange(j + 1, j + 1 + n.len()));
                assert(occurs_at(s, n, j + 1));
            }
        }
        if occurs_at(s, n, i) {
            assert(t.subrange(i - 1, i - 1 + n.len()) =~= s.subrange(i, i + n.len()));
        }
        lemma_find_sub(t, n, i - 1);
    }
}

/// Position of the first occurrence of `n` in `v`, if any.
pub fn find_substring(v: &Vec<char>, n: &Vec<char>) -> (r: Option<usize>)
    ensures
        match r {
            Some(i) => i == find_sub(v@, n@) && occurs_at(v@, n@, i as int),
            None => find_sub(v@, n@) == -1,
        },
{
    let mut i: usize = 0;
    while i <= v.len() && n.len() <= v.len() - i
        invariant
            forall|j: int| 0 <= j < i ==> !occurs_at(v@, n@, j),
        decreases v.len() + 1 - i,
    {
        let mut k: usize = 0;
        while k < n.len() && v[i + k] == n[k]
            invariant
                i + n.len() <= v.len(),
                k <= n.len(),
                forall|j: int| 0 <= j < k ==> v@[i + j] == n@[j],
            decreases n.len() - k,
        {
            k += 1;
        }
        if k == n.len() {
            assert(v@.subrange(i as int, i + n.len()) =~= n@);
            proof {
                lemma_find_sub(v@, n@, i as int);
            }
            return Some(i);
        }
        assert(v@.subrange(i as int, i + n.len())[k as int] == v@[i + k]);
        i += 1;
    }
    proof {
        lemma_find_sub(v@, n@, i as int);
    }
    None
}

/// What a marker line refers to.
#[derive(Debug)]
pub enum TodoMarker {
    /// `TODO(issue: <slug>)` naming a well-formed slug.
    Linked(String),
    /// `TODO(issue:)`, or a marker whose slug is malformed.
    Untracked,
}

pub open spec fn needle() -> Seq<char> {
    "TODO(issue:"@
}

/// The text between the marker's `:` and the next `)`, trimmed: `None`
/// when the line has no complete marker.
pub open spec fn marker_inner(line: Seq<char>) -> Option<Seq<char>> {
    let start = find_sub(line, needle());
    if start < 0 {
        None
    } else {
        let rest = line.skip(start + needle().len());
        let end = index_of_char(rest, ')');
        if end >= rest.len() {
            None
        } else {
            Some(trim_seq(rest.take(end)))
        }
    }
}

/// `s` without one leading `@`.
pub open spec fn strip_at(s: Seq<char>) -> Seq<char> {
    if s.len() > 0 && s[0] == '@' {
        s.drop_first()
    } else {
        s
    }
}

/// Recognise the first `TODO(issue: <slug>)` or `TODO(issue:)` marker on a
/// line. Whitespace inside the parentheses and a leading `@` are
/// tolerated; the slug must pass `is_valid_slug` (the issue store's slug
/// rule) or the marker counts as untracked.
pub fn parse_todo_marker<F: Fn(&str) -> bool>(line: &str, is_valid_slug: F) -> (r: Option<TodoMarker>)
    requires
        forall|x: &str| #[trigger] is_valid_slug.requires((x,)),
    ensures
        match marker_inner(line@) {
            None => r is None,
            Some(inner) => if inner.len() == 0 {
                r matches Some(TodoMarker::Untracked)
            } else {
                (r matches Some(TodoMarker::Linked(s)) && s@ == strip_at(inner) && answered(
                    is_valid_slug,
                    strip_at(inner),
                    true,
                )) || (r matches Some(TodoMarker::Untracked) && answered(
                    is_valid_slug,
                    strip_at(inner),
                    false,
                ))
            },
        },
{
    let v = chars_of(line);
    let n = chars_of("TODO(issue:");
    let start = match find_substring(&v, &n) {
        None => return None,
        Some(i) => i,
    };
    let nl = n.len();
    assert(start + nl <= v.len());
    let after = start + nl;
    let rest = string_from_range(&v, after, v.len());
    let rv = chars_of(rest.as_str());
    assert(rv@ =~= v@.skip(after as int));
    let end = find_char(&rv, ')');
    if end == rv.len() {
        return None;
    }
    let inside = string_from_range(&rv, 0, end);
    assert(rv@.subrange(0, end as int) =~= rv@.take(end as int));
    let inner = trim(inside.as_str());
    let iv = chars_of(inner.as_str());
    if iv.len() == 0 {
        return Some(TodoMarker::Untracked);
    }
    let slug = if iv[0] == '@' {
        let s = string_from_range(&iv, 1, iv.len());
        assert(iv@.subrange(1, iv.len() as int) =~= iv@.drop_first());
        s
    } else {
        inner
    };
    let ok = is_valid_slug(slug.as_str());
    assert(answered(is_valid_slug, slug@, ok));
    if ok {
        Some(TodoMarker::Linked(slug))
    } else {
        Some(TodoMarker::Untracked)
    }
}

} // verus!
