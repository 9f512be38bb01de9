//! The values that shell completion offers: issue slugs, and the labels and
//! people named anywhere in the tracker, each once and in sorted order.
use vstd::prelude::*;
use crate::keys::views;
use crate::order::{chars_lt, lemma_seq_lt_total, lemma_seq_lt_transitive, seq_lt};
use crate::text::{chars_of, str_eq};

verus! {

/// What completion reads of an issue.
pub struct CompletionIssue {
    pub slug: String,
    pub folder: String,
    pub labels: Option<Vec<String>>,
    pub reporter: Option<String>,
    pub assignee: Option<String>,
    pub owner: Option<String>,
}

/// Each entry sorts strictly before every later one: sorted, no repeats.
pub open spec fn strictly_sorted(s: Seq<Seq<char>>) -> bool {
    forall|i: int, j: int| 0 <= i < j < s.len() ==> seq_lt(s[i], s[j])
}

/// The slugs offered: those of the open issues, or of all issues.
pub open spec fn slug_seq(issues: Seq<CompletionIssue>, all: bool) -> Seq<Seq<char>>
    decreases issues.len(),
{
    if issues.len() == 0 {
        seq![]
    } else if all || issues.last().folder@ == "open"@ {
        slug_seq(issues.drop_last(), all).push(issues.last().slug@)
    } else {
        slug_seq(issues.drop_last(), all)
    }
}

/// Every label of every issue, in order, repeats included.
pub open spec fn label_seq(issues: Seq<CompletionIssue>) -> Seq<Seq<char>>
    decreases issues.len(),
{
    if issues.len() == 0 {
        seq![]
    } else {
        label_seq(issues.drop_last()) + match issues.last().labels {
            Some(ls) => views(ls@),
            None => seq![],
        }
    }
}

pub open spec fn opt_seq(o: Option<String>) -> Seq<Seq<char>> {
    match o {
        Some(s) => seq![s@],
        None => seq![],
    }
}

/// Every reporter, assignee and owner of every issue, in order, repeats
/// included.
pub open spec fn user_seq(issues: Seq<CompletionIssue>) -> Seq<Seq<char>>
    decreases issues.len(),
{
    if issues.len() == 0 {
        seq![]
    } else {
        user_seq(issues.drop_last()) + opt_seq(issues.last().reporter) + opt_seq(issues.last().assignee) + opt_seq(
            issues.last().owner,
        )
    }
}

/// The first position of sorted `out` whose entry does not sort before `v`.
fn lower_bound(out: &Vec<String>, v: &Vec<char>) -> (i: usize)
    ensures
        i <= out.len(),
        forall|k: int| 0 <= k < i ==> seq_lt(#[trigger] out@[k]@, v@),
        i < out.len() ==> !seq_lt(out@[i as int]@, v@),
{
    let mut i: usize = 0;
    while i < out.len()
        invariant
            i <= out.len(),
            forall|k: int| 0 <= k < i ==> seq_lt(#[trigger] out@[k]@, v@),
        decreases out.len() - i,
    {
        if !chars_lt(&chars_of(out[i].as_str()), v) {
            return i;
        }
        i = i + 1;
    }
    i
}

/// Add `v` to the strictly sorted `out`, where it is not there yet.
pub fn insert_sorted(out: &mut Vec<String>, v: String)
    requires
        strictly_sorted(views(old(out)@)),
    ensures
        strictly_sorted(views(final(out)@)),
        views(final(out)@).to_set() == views(old(out)@).to_set().insert(v@),
{
    let vc = chars_of(v.as_str());
    let i = lower_bound(out, &vc);
    let ghost old_v = views(out@);
    if i < out.len() && str_eq(out[i].as_str(), v.as_str()) {
        assert(old_v[i as int] == v@);
        assert(old_v.to_set().insert(v@) =~= old_v.to_set());
        return;
    }
    proof {
        if i < out.len() {
            lemma_seq_lt_total(out@[i as int]@, v@);
        }
    }
    let ghost vv = v@;
    out.insert(i, v);
    let ghost new_v = views(out@);
    assert(new_v =~= old_v.insert(i as int, vv));
    assert forall|a: int, b: int| 0 <= a < b < new_v.len() implies seq_lt(new_v[a], new_v[b]) by {
        if b < i {
        } else if b == i {
            assert(new_v[a] == old_v[a]);
        } else if a < i {
            assert(new_v[a] == old_v[a]);
            assert(new_v[b] == old_v[b - 1]);
            assert(seq_lt(old_v[a], vv));
            assert(seq_lt(vv, old_v[i as int]));
            if b - 1 > i {
                assert(seq_lt(old_v[i as int], old_v[b - 1]));
                lemma_seq_lt_transitive(vv, old_v[i as int], old_v[b - 1]);
            }
            lemma_seq_lt_transitive(old_v[a], vv, old_v[b - 1]);
        } else if a == i {
            assert(new_v[b] == old_v[b - 1]);
            if b - 1 > i {
                lemma_seq_lt_transitive(vv, old_v[i as int], old_v[b - 1]);
            }
        } else {
            assert(new_v[a] == old_v[a - 1]);
            assert(new_v[b] == old_v[b - 1]);
        }
    }
    assert forall|x: Seq<char>| new_v.to_set().contains(x) <==> old_v.to_set().insert(vv).contains(x) by {
        if new_v.contains(x) {
            let k = choose|k: int| 0 <= k < new_v.len() && new_v[k] == x;
            if k < i {
                assert(old_v[k] == x);
            } else if k > i {
                assert(old_v[k - 1] == x);
            }
        }
        if old_v.contains(x) {
            let k = choose|k: int| 0 <= k < old_v.len() && old_v[k] == x;
            if k < i {
                assert(new_v[k] == x);
            } else {
                assert(new_v[k + 1] == x);
            }
        }
        if x == vv {
            assert(new_v[i as int] == x);
        }
    }
    assert(new_v.to_set() =~= old_v.to_set().insert(vv));
}

/// `values` sorted, each once.
pub fn sorted_unique(values: &Vec<String>) -> (r: Vec<String>)
    ensures
        strictly_sorted(views(r@)),
        views(r@).to_set() == views(values@).to_set(),
{
    let mut r: Vec<String> = Vec::new();
    let mut i: usize = 0;
    while i < values.len()
        invariant
            i <= values.len(),
            strictly_sorted(views(r@)),
            views(r@).to_set() == views(values@).take(i as int).to_set(),
        decreases values.len() - i,
    {
        insert_sorted(&mut r, values[i].clone());
        proof {
            assert(views(values@).take(i + 1) =~= views(values@).take(i as int).push(values@[i as int]@));
            views(values@).take(i as int).lemma_push_to_set_commute(values@[i as int]@);
        }
        i = i + 1;
    }
    assert(views(values@).take(i as int) =~= views(values@));
    r
}

/// The slugs to offer: those of the open issues, or of every issue.
pub fn completion_slugs(issues: &Vec<CompletionIssue>, all: bool) -> (r: Vec<String>)
    ensures
        views(r@) == slug_seq(issues@, all),
{
    let mut r: Vec<String> = Vec::new();
    let mut i: usize = 0;
    while i < issues.len()
        invariant
            i <= issues.len(),
            views(r@) == slug_seq(issues@.take(i as int), all),
        decreases issues.len() - i,
    {
        proof {
            assert(issues@.take(i + 1).drop_last() =~= issues@.take(i as int));
        }
        if all || str_eq(issues[i].folder.as_str(), "open") {
            let s = issues[i].slug.clone();
            let ghost before = views(r@);
            r.push(s);
            assert(views(r@) =~= before.push(s@));
        }
        i = i + 1;
    }
    assert(issues@.take(i as int) =~= issues@);
    r
}

fn push_all(out: &mut Vec<String>, items: &Vec<String>)
    ensures
        views(final(out)@) == views(old(out)@) + views(items@),
{
    let mut j: usize = 0;
    while j < items.len()
        invariant
            j <= items.len(),
            views(out@) == views(old(out)@) + views(items@).take(j as int),
        decreases items.len() - j,
    {
        let s = items[j].clone();
        let ghost before = views(out@);
        out.push(s);
        assert(views(out@) =~= before.push(s@));
        j = j + 1;
        assert(views(out@) =~= views(old(out)@) + views(items@).take(j as int));
    }
    assert(views(items@).take(j as int) =~= views(items@));
}

fn push_opt(out: &mut Vec<String>, o: &Option<String>)
    ensures
        views(final(out)@) == views(old(out)@) + opt_seq(*o),
{
    match o {
        Some(s) => {
            out.push(s.clone());
            assert(views(out@) =~= views(old(out)@) + opt_seq(*o));
        },
        None => {
            assert(views(out@) =~= views(old(out)@) + opt_seq(*o));
        },
    }
}

/// The labels to offer: every label in use, sorted, each once.
pub fn completion_labels(issues: &Vec<CompletionIssue>) -> (r: Vec<String>)
    ensures
        strictly_sorted(views(r@)),
        views(r@).to_set() == label_seq(issues@).to_set(),
{
    let mut all: Vec<String> = Vec::new();
    let mut i: usize = 0;
    while i < issues.len()
        invariant
            i <= issues.len(),
            views(all@) == label_seq(issues@.take(i as int)),
        decreases issues.len() - i,
    {
        proof {
            assert(issues@.take(i + 1).drop_last() =~= issues@.take(i as int));
        }
        match &issues[i].labels {
            Some(ls) => push_all(&mut all, ls),
            None => {
                assert(views(all@) =~= views(all@) + Seq::<Seq<char>>::empty());
            },
        }
        i = i + 1;
    }
    assert(issues@.take(i as int) =~= issues@);
    sorted_unique(&all)
}

/// The people to offer: every reporter, assignee and owner, sorted, each
/// once.
pub fn completion_users(issues: &Vec<CompletionIssue>) -> (r: Vec<String>)
    ensures
        strictly_sorted(views(r@)),
        views(r@).to_set() == user_seq(issues@).to_set(),
{
    let mut all: Vec<String> = Vec::new();
    let mut i: usize = 0;
    while i < issues.len()
        invariant
            i <= issues.len(),
            views(all@) == user_seq(issues@.take(i as int)),
        decreases issues.len() - i,
    {
        proof {
            assert(issues@.take(i + 1).drop_last() =~= issues@.take(i as int));
        }
        push_opt(&mut all, &issues[i].reporter);
        push_opt(&mut all, &issues[i].assignee);
        push_opt(&mut all, &issues[i].owner);
        i = i + 1;
    }
    assert(issues@.take(i as int) =~= issues@);
    sorted_unique(&all)
}

} // verus!
