//! Duplicate and overlap checks over lists of field keys.
use vstd::prelude::*;
use crate::order::{chars_lt, lemma_seq_lt_total, lemma_seq_lt_transitive, seq_lt};
use crate::text::{chars_of, debug_str, with_quoted};

verus! {

/// The views of a list of strings.
pub open spec fn views(s: Seq<String>) -> Seq<Seq<char>> {
    Seq::new(s.len(), |i: int| s[i]@)
}

/// `s[j]` repeats an earlier entry.
pub open spec fn repeats_at(s: Seq<Seq<char>>, j: int) -> bool {
    0 <= j < s.len() && exists|i: int| 0 <= i < j && s[i] == #[trigger] s[j]
}

/// `j` is the first position whose entry repeats an earlier one.
pub open spec fn is_first_repeat(s: Seq<Seq<char>>, j: int) -> bool {
    repeats_at(s, j) && forall|k: int| 0 <= k < j ==> !repeats_at(s, k)
}

pub open spec fn has_repeat(s: Seq<Seq<char>>) -> bool {
    exists|j: int| repeats_at(s, j)
}

/// The first entry of `s` that repeats an earlier one.
pub open spec fn first_repeated(s: Seq<Seq<char>>) -> Seq<char> {
    s[choose|j: int| is_first_repeat(s, j)]
}

pub open spec fn in_both(a: Seq<Seq<char>>, b: Seq<Seq<char>>, k: Seq<char>) -> bool {
    a.contains(k) && b.contains(k)
}

pub open spec fn overlaps(a: Seq<Seq<char>>, b: Seq<Seq<char>>) -> bool {
    exists|k: Seq<char>| in_both(a, b, k)
}

/// `k` is in both lists and no key in both sorts before it.
pub open spec fn is_least_common(a: Seq<Seq<char>>, b: Seq<Seq<char>>, k: Seq<char>) -> bool {
    in_both(a, b, k) && forall|k2: Seq<char>| #[trigger] in_both(a, b, k2) ==> !seq_lt(k2, k)
}

/// The smallest key (in string order) found in both lists.
pub open spec fn least_common(a: Seq<Seq<char>>, b: Seq<Seq<char>>) -> Seq<char> {
    choose|k: Seq<char>| is_least_common(a, b, k)
}

pub open spec fn repeated_message(flag: Seq<char>, k: Seq<char>) -> Seq<char> {
    flag + " "@ + debug_str(k) + " given more than once"@
}

pub open spec fn overlap_message(set_flag: Seq<char>, clear_flag: Seq<char>, k: Seq<char>) -> Seq<
    char,
> {
    "field "@ + debug_str(k) + " appears in both "@ + set_flag + " and "@ + clear_flag
}

/// What `validate_key_patches` reports for key lists `set` and `clear`.
pub open spec fn key_patches_result(
    set: Seq<Seq<char>>,
    clear: Seq<Seq<char>>,
    set_flag: Seq<char>,
    clear_flag: Seq<char>,
) -> Result<(), Seq<char>> {
    if has_repeat(set) {
        Err(repeated_message(set_flag, first_repeated(set)))
    } else if has_repeat(clear) {
        Err(repeated_message(clear_flag, first_repeated(clear)))
    } else if overlaps(set, clear) {
        Err(overlap_message(set_flag, clear_flag, least_common(set, clear)))
    } else {
        Ok(())
    }
}

proof fn lemma_first_repeat_unique(s: Seq<Seq<char>>, j1: int, j2: int)
    requires
        is_first_repeat(s, j1),
        is_first_repeat(s, j2),
    ensures
        j1 == j2,
{
    if j1 < j2 {
        assert(!repeats_at(s, j1));
    } else if j2 < j1 {
        assert(!repeats_at(s, j2));
    }
}

proof fn lemma_least_common_unique(a: Seq<Seq<char>>, b: Seq<Seq<char>>, k1: Seq<char>, k2: Seq<char>)
    requires
        is_least_common(a, b, k1),
        is_least_common(a, b, k2),
    ensures
        k1 == k2,
{
    lemma_seq_lt_total(k1, k2);
    assert(in_both(a, b, k1));
    assert(in_both(a, b, k2));
}

/// Position of the first entry repeating an earlier one, if any.
fn find_first_repeat(keys: &Vec<String>) -> (r: Option<usize>)
    ensures
        match r {
            Some(j) => j < keys.len() && is_first_repeat(views(keys@), j as int),
            None => !has_repeat(views(keys@)),
        },
{
    let ghost s = views(keys@);
    let mut j: usize = 0;
    while j < keys.len()
        invariant
            j <= keys.len(),
            s == views(keys@),
            forall|k: int| 0 <= k < j ==> !repeats_at(s, k),
        decreases keys.len() - j,
    {
        let mut i: usize = 0;
        while i < j
            invariant
                i <= j < keys.len(),
                s == views(keys@),
                forall|k: int| 0 <= k < j ==> !repeats_at(s, k),
                forall|m: int| 0 <= m < i ==> s[m] != s[j as int],
            decreases j - i,
        {
            if keys[i] == keys[j] {
                assert(s[i as int] == s[j as int]);
                assert(repeats_at(s, j as int));
                return Some(j);
            }
            i += 1;
        }
        assert(!repeats_at(s, j as int));
        j += 1;
    }
    None
}

/// Whether `keys` holds an entry equal to `k`.
fn contains_key(keys: &Vec<String>, k: &String) -> (r: bool)
    ensures
        r == views(keys@).contains(k@),
{
    let ghost s = views(keys@);
    let mut i: usize = 0;
    while i < keys.len()
        invariant
            i <= keys.len(),
            s == views(keys@),
            forall|m: int| 0 <= m < i ==> s[m] != k@,
        decreases keys.len() - i,
    {
        if keys[i] == *k {
            assert(s[i as int] == k@);
            return true;
        }
        i += 1;
    }
    false
}

/// The smallest key found in both lists, as an index into `set`.
fn find_least_common(set: &Vec<String>, clear: &Vec<String>) -> (r: Option<usize>)
    ensures
        match r {
            Some(i) => i < set.len() && is_least_common(views(set@), views(clear@), set@[i as int]@),
            None => !overlaps(views(set@), views(clear@)),
        },
{
    let ghost a = views(set@);
    let ghost b = views(clear@);
    let mut best: Option<usize> = None;
    let mut i: usize = 0;
    while i < set.len()
        invariant
            i <= set.len(),
            a == views(set@),
            b == views(clear@),
            match best {
                Some(m) => m < i && in_both(a, b, a[m as int]) && forall|k2: Seq<char>|
                    #[trigger] in_both(a, b, k2) && a.take(i as int).contains(k2) ==> !seq_lt(
                        k2,
                        a[m as int],
                    ),
                None => forall|k2: Seq<char>| #[trigger] in_both(a, b, k2) ==> !a.take(
                    i as int,
                ).contains(k2),
            },
        decreases set.len() - i,
    {
        let ghost prev = a.take(i as int);
        let ghost next = a.take(i + 1);
        assert(next =~= prev.push(a[i as int]));
        assert(a[i as int] == set@[i as int]@);
        if contains_key(clear, &set[i]) {
            assert(a.contains(a[i as int])) by {
                assert(a[i as int] == a[i as int]);
            }
            assert(in_both(a, b, a[i as int]));
            match best {
                None => {
                    best = Some(i);
                    assert forall|k2: Seq<char>| #[trigger] in_both(a, b, k2) && next.contains(k2)
                        implies !seq_lt(k2, a[i as int]) by {
                        if prev.contains(k2) {
                        } else {
                            let w = choose|w: int| 0 <= w < next.len() && next[w] == k2;
                            assert(w == i);
                            crate::order::lemma_seq_lt_irreflexive(k2);
                        }
                    }
                },
                Some(m) => {
                    let cur = chars_of(set[i].as_str());
                    let old_best = chars_of(set[m].as_str());
                    if chars_lt(&cur, &old_best) {
                        best = Some(i);
                        assert forall|k2: Seq<char>| #[trigger] in_both(a, b, k2) && next.contains(k2)
                            implies !seq_lt(k2, a[i as int]) by {
                            if prev.contains(k2) {
                                if seq_lt(k2, a[i as int]) {
                                    lemma_seq_lt_transitive(k2, a[i as int], a[m as int]);
                                }
                            } else {
                                let w = choose|w: int| 0 <= w < next.len() && next[w] == k2;
                                assert(w == i);
                                crate::order::lemma_seq_lt_irreflexive(k2);
                            }
                        }
                    } else {
                        assert forall|k2: Seq<char>| #[trigger] in_both(a, b, k2) && next.contains(k2)
                            implies !seq_lt(k2, a[m as int]) by {
                            if !prev.contains(k2) {
                                let w = choose|w: int| 0 <= w < next.len() && next[w] == k2;
                                assert(w == i);
                            }
                        }
                    }
                },
            }
        } else {
            assert(!b.contains(a[i as int]));
            match best {
                None => {
                    assert forall|k2: Seq<char>| #[trigger] in_both(a, b, k2) implies !next.contains(k2) by {
                        if next.contains(k2) {
                            let w = choose|w: int| 0 <= w < next.len() && next[w] == k2;
                            if w < i {
                                assert(prev[w] == k2);
                            }
                        }
                    }
                },
                Some(m) => {
                    assert forall|k2: Seq<char>| #[trigger] in_both(a, b, k2) && next.contains(k2)
                        implies !seq_lt(k2, a[m as int]) by {
                        let w = choose|w: int| 0 <= w < next.len() && next[w] == k2;
                        if w < i {
                            assert(prev[w] == k2);
                        }
                    }
                },
            }
        }
        i += 1;
    }
    assert(a.take(set.len() as int) =~= a);
    best
}

/// Reject a key named twice in `set`, twice in `clear`, or in both lists.
/// `set_flag` / `clear_flag` name the two flags in the messages.
pub fn validate_key_patches(set: &Vec<String>, clear: &Vec<String>, set_flag: &str, clear_flag: &str) -> (r: Result<(), String>)
    ensures
        match key_patches_result(views(set@), views(clear@), set_flag@, clear_flag@) {
            Ok(()) => r is Ok,
            Err(m) => r matches Err(e) && e@ == m,
        },
{
    let ghost a = views(set@);
    let ghost b = views(clear@);
    match find_first_repeat(set) {
        Some(j) => {
            proof {
                let c = choose|x: int| is_first_repeat(a, x);
                lemma_first_repeat_unique(a, c, j as int);
            }
            let mut m = String::from_str(set_flag);
            m.append(" ");
            let q = crate::text::debug_quote(set[j].as_str());
            m.append(q.as_str());
            m.append(" given more than once");
            return Err(m);
        },
        None => {},
    }
    match find_first_repeat(clear) {
        Some(j) => {
            proof {
                let c = choose|x: int| is_first_repeat(b, x);
                lemma_first_repeat_unique(b, c, j as int);
            }
            let mut m = String::from_str(clear_flag);
            m.append(" ");
            let q = crate::text::debug_quote(clear[j].as_str());
            m.append(q.as_str());
            m.append(" given more than once");
            return Err(m);
        },
        None => {},
    }
    match find_least_common(set, clear) {
        Some(i) => {
            proof {
                let c = choose|k: Seq<char>| is_least_common(a, b, k);
                lemma_least_common_unique(a, b, c, set@[i as int]@);
            }
            let mut m = with_quoted("field ", set[i].as_str());
            m.append(" appears in both ");
            m.append(set_flag);
            m.append(" and ");
            m.append(clear_flag);
            Err(m)
        },
        None => Ok(()),
    }
}

} // verus!
