//! Tallies of issues by a key (status, type, priority, ...) and the order
//! in which a tally is shown.
use vstd::prelude::*;
use crate::keys::views;
use crate::order::{chars_lt, lemma_seq_lt_asymmetric, lemma_seq_lt_irreflexive, lemma_seq_lt_total, lemma_seq_lt_transitive, seq_lt};
use crate::text::chars_of;

verus! {

/// How many entries of `s` equal `k`.
pub open spec fn occurrences(s: Seq<Seq<char>>, k: Seq<char>) -> nat
    decreases s.len(),
{
    if s.len() == 0 {
        0
    } else {
        occurrences(s.drop_last(), k) + if s.last() == k {
            1nat
        } else {
            0nat
        }
    }
}

pub(crate) proof fn lemma_occurrences_witness(s: Seq<Seq<char>>, k: Seq<char>)
    requires
        occurrences(s, k) > 0,
    ensures
        exists|j: int| 0 <= j < s.len() && s[j] == k,
    decreases s.len(),
{
    if s.last() != k {
        lemma_occurrences_witness(s.drop_last(), k);
        let j = choose|j: int| 0 <= j < s.len() - 1 && s.drop_last()[j] == k;
        assert(s[j] == k);
    } else {
        assert(s[s.len() - 1] == k);
    }
}

proof fn lemma_occurrences_bound(s: Seq<Seq<char>>, k: Seq<char>)
    ensures
        occurrences(s, k) <= s.len(),
    decreases s.len(),
{
    if s.len() > 0 {
        lemma_occurrences_bound(s.drop_last(), k);
    }
}

/// The keys of a tally.
pub open spec fn tally_keys(t: Seq<(String, usize)>) -> Seq<Seq<char>> {
    Seq::new(t.len(), |i: int| t[i].0@)
}

/// `t` tallies `s`: its keys are the distinct entries of `s` in ascending
/// order, each with the number of times it occurs. Every count is positive,
/// so every listed key occurs in `s`.
pub open spec fn tallies(t: Seq<(String, usize)>, s: Seq<Seq<char>>) -> bool {
    &&& forall|a: int, b: int| 0 <= a < b < t.len() ==> seq_lt(#[trigger] t[a].0@, #[trigger] t[b].0@)
    &&& forall|a: int| 0 <= a < t.len() ==> (#[trigger] t[a]).1 == occurrences(s, t[a].0@)
    &&& forall|a: int| 0 <= a < t.len() ==> (#[trigger] t[a]).1 > 0
    &&& forall|j: int| 0 <= j < s.len() ==> tally_keys(t).contains(#[trigger] s[j])
}

/// Count each key, keys in ascending order (as an ordered map of counts
/// gives them).
pub fn count_keys(keys: &Vec<String>) -> (r: Vec<(String, usize)>)
    ensures
        tallies(r@, views(keys@)),
{
    let ghost s = views(keys@);
    let mut out: Vec<(String, usize)> = Vec::new();
    let mut i: usize = 0;
    while i < keys.len()
        invariant
            i <= keys.len(),
            s == views(keys@),
            out@.len() <= i,
            tallies(out@, s.take(i as int)),
        decreases keys.len() - i,
    {
        let ghost t = s.take(i as int);
        let ghost t1 = s.take(i as int + 1);
        let x = &keys[i];
        let xv = chars_of(x.as_str());
        assert(t1.drop_last() =~= t);
        assert(t1.last() == x@);
        // first entry whose key does not sort before `x`
        let mut p: usize = 0;
        let mut done = false;
        while !done && p < out.len()
            invariant
                p <= out.len(),
                xv@ == x@,
                forall|a: int| 0 <= a < p ==> seq_lt(#[trigger] out@[a].0@, x@),
                done ==> p < out.len() && !seq_lt(out@[p as int].0@, x@),
            decreases out.len() - p, if done { 0int } else { 1int },
        {
            let kv = chars_of(out[p].0.as_str());
            if chars_lt(&kv, &xv) {
                p = p + 1;
            } else {
                done = true;
            }
        }
        let ghost old_out = out@;
        let found = done && crate::text::str_eq(out[p].0.as_str(), x.as_str());
        if found {
            let c = out[p].1;
            proof {
                assert(occurrences(t1, x@) == occurrences(t, x@) + 1);
                assert(c == occurrences(t, x@));
                lemma_occurrences_bound(t, x@);
            }
            let k = out[p].0.clone();
            out.set(p, (k, c + 1));
            proof {
                assert forall|a: int, b: int| 0 <= a < b < out@.len() implies seq_lt(#[trigger] out@[a].0@, #[trigger] out@[b].0@) by {
                    assert(out@[a].0@ == old_out[a].0@ && out@[b].0@ == old_out[b].0@);
                }
                assert forall|a: int| 0 <= a < out@.len() implies (#[trigger] out@[a]).1 == occurrences(t1, out@[a].0@) by {
                    if a != p {
                        if out@[a].0@ == x@ {
                            if a < p {
                                lemma_seq_lt_irreflexive(x@);
                            } else {
                                assert(seq_lt(old_out[p as int].0@, old_out[a].0@));
                                lemma_seq_lt_irreflexive(x@);
                            }
                        }
                    }
                }
                assert forall|j: int| 0 <= j < t1.len() implies tally_keys(out@).contains(#[trigger] t1[j]) by {
                    if j < t.len() {
                        assert(t1[j] == t[j]);
                        let a = choose|a: int| 0 <= a < tally_keys(old_out).len() && tally_keys(old_out)[a] == t[j];
                        assert(tally_keys(out@)[a] == t[j]);
                    } else {
                        assert(tally_keys(out@)[p as int] == x@);
                    }
                }
            }
        } else {
            proof {
                if occurrences(t, x@) > 0 {
                    lemma_occurrences_witness(t, x@);
                    let j = choose|j: int| 0 <= j < t.len() && t[j] == x@;
                    let a = choose|a: int| 0 <= a < tally_keys(old_out).len() && tally_keys(old_out)[a] == t[j];
                    assert(old_out[a].0@ == x@);
                    if a < p {
                        lemma_seq_lt_irreflexive(x@);
                    } else if a > p {
                        assert(done);
                        lemma_seq_lt_total(old_out[p as int].0@, x@);
                        assert(seq_lt(old_out[p as int].0@, old_out[a].0@));
                    } else {
                        assert(done);
                    }
                }
                assert(occurrences(t1, x@) == 1);
            }
            out.insert(p, (x.clone(), 1));
            proof {
                assert forall|a: int, b: int| 0 <= a < b < out@.len() implies seq_lt(#[trigger] out@[a].0@, #[trigger] out@[b].0@) by {
                    if b < p {
                        assert(out@[a] == old_out[a] && out@[b] == old_out[b]);
                    } else if b == p {
                        assert(out@[a] == old_out[a]);
                    } else if a == p {
                        assert(out@[b] == old_out[b - 1]);
                        assert(done);
                        lemma_seq_lt_total(old_out[p as int].0@, x@);
                        if b - 1 > p {
                            assert(seq_lt(old_out[p as int].0@, old_out[b - 1].0@));
                            if old_out[p as int].0@ != x@ {
                                lemma_seq_lt_transitive(x@, old_out[p as int].0@, old_out[b - 1].0@);
                            }
                        }
                    } else if a < p {
                        assert(out@[a] == old_out[a] && out@[b] == old_out[b - 1]);
                    } else {
                        assert(out@[a] == old_out[a - 1] && out@[b] == old_out[b - 1]);
                    }
                }
                assert forall|a: int| 0 <= a < out@.len() implies (#[trigger] out@[a]).1 == occurrences(t1, out@[a].0@) by {
                    if a < p {
                        assert(out@[a] == old_out[a]);
                        if old_out[a].0@ == x@ {
                            lemma_seq_lt_irreflexive(x@);
                        }
                    } else if a > p {
                        assert(out@[a] == old_out[a - 1]);
                        if old_out[a - 1].0@ == x@ {
                            assert(done);
                            if a - 1 > p {
                                assert(seq_lt(old_out[p as int].0@, old_out[a - 1].0@));
                                lemma_seq_lt_asymmetric(old_out[p as int].0@, x@);
                                lemma_seq_lt_total(old_out[p as int].0@, x@);
                            }
                        }
                    }
                }
                assert forall|j: int| 0 <= j < t1.len() implies tally_keys(out@).contains(#[trigger] t1[j]) by {
                    if j < t.len() {
                        assert(t1[j] == t[j]);
                        let a = choose|a: int| 0 <= a < tally_keys(old_out).len() && tally_keys(old_out)[a] == t[j];
                        if a < p {
                            assert(tally_keys(out@)[a] == t[j]);
                        } else {
                            assert(tally_keys(out@)[a + 1] == t[j]);
                        }
                    } else {
                        assert(tally_keys(out@)[p as int] == x@);
                    }
                }
            }
        }
        i = i + 1;
    }
    assert(s.take(keys@.len() as int) =~= s);
    out
}

/// A tally entry as plain values.
pub open spec fn pair_views(t: Seq<(String, usize)>) -> Seq<(Seq<char>, usize)> {
    Seq::new(t.len(), |i: int| (t[i].0@, t[i].1))
}

/// `r` lists the most frequent keys first, ties in ascending key order.
pub open spec fn by_count(r: Seq<(String, usize)>) -> bool {
    forall|a: int, b: int| 0 <= a < b < r.len() ==> (#[trigger] r[a]).1 > (#[trigger] r[b]).1 || (r[a].1
        == r[b].1 && seq_lt(r[a].0@, r[b].0@))
}

/// A tally reordered for display: the most frequent keys first, keys of
/// equal count keeping their ascending order (a stable sort by descending
/// count).
pub fn order_by_count(t: Vec<(String, usize)>) -> (r: Vec<(String, usize)>)
    requires
        forall|a: int, b: int| 0 <= a < b < t@.len() ==> seq_lt(#[trigger] t@[a].0@, #[trigger] t@[b].0@),
    ensures
        by_count(r@),
        pair_views(r@).to_multiset() == pair_views(t@).to_multiset(),
{
    let mut out: Vec<(String, usize)> = Vec::new();
    let mut i: usize = 0;
    assert(pair_views(out@) =~= Seq::<(Seq<char>, usize)>::empty());
    assert(pair_views(t@).take(0) =~= Seq::<(Seq<char>, usize)>::empty());
    while i < t.len()
        invariant
            i <= t.len(),
            forall|a: int, b: int| 0 <= a < b < t@.len() ==> seq_lt(#[trigger] t@[a].0@, #[trigger] t@[b].0@),
            by_count(out@),
            pair_views(out@).to_multiset() == pair_views(t@).take(i as int).to_multiset(),
            forall|a: int, j: int| 0 <= a < out@.len() && i <= j < t@.len() ==> seq_lt(#[trigger] out@[a].0@, #[trigger] t@[j].0@),
        decreases t.len() - i,
    {
        let e = (t[i].0.clone(), t[i].1);
        assert(e.0@ == t@[i as int].0@);
        let mut p: usize = 0;
        let mut done = false;
        while !done && p < out.len()
            invariant
                p <= out.len(),
                e.1 == t@[i as int].1,
                forall|a: int| 0 <= a < p ==> (#[trigger] out@[a]).1 >= e.1,
                done ==> p < out.len() && out@[p as int].1 < e.1,
            decreases out.len() - p, if done { 0int } else { 1int },
        {
            if out[p].1 < e.1 {
                done = true;
            } else {
                p = p + 1;
            }
        }
        let ghost old_out = out@;
        out.insert(p, e);
        proof {
            assert forall|a: int, b: int| 0 <= a < b < out@.len() implies (#[trigger] out@[a]).1 > (#[trigger] out@[b]).1 || (out@[a].1
                == out@[b].1 && seq_lt(out@[a].0@, out@[b].0@)) by {
                if b < p {
                    assert(out@[a] == old_out[a] && out@[b] == old_out[b]);
                } else if b == p {
                    assert(out@[a] == old_out[a]);
                    assert(seq_lt(old_out[a].0@, t@[i as int].0@));
                } else if a == p {
                    assert(out@[b] == old_out[b - 1]);
                    if b - 1 > p {
                        assert(old_out[p as int].1 >= old_out[b - 1].1);
                    }
                } else if a < p {
                    assert(out@[a] == old_out[a] && out@[b] == old_out[b - 1]);
                } else {
                    assert(out@[a] == old_out[a - 1] && out@[b] == old_out[b - 1]);
                }
            }
            assert(pair_views(out@) =~= pair_views(old_out).insert(p as int, (t@[i as int].0@, t@[i as int].1)));
            let x = (t@[i as int].0@, t@[i as int].1);
            assert(pair_views(t@).take(i as int + 1) =~= pair_views(t@).take(i as int).push(x));
            vstd::seq_lib::to_multiset_insert(pair_views(old_out), p as int, x);
            vstd::seq_lib::to_multiset_build(pair_views(t@).take(i as int), x);
            assert forall|a: int, j: int| 0 <= a < out@.len() && i + 1 <= j < t@.len() implies seq_lt(#[trigger] out@[a].0@, #[trigger] t@[j].0@) by {
                if a < p {
                    assert(out@[a] == old_out[a]);
                } else if a > p {
                    assert(out@[a] == old_out[a - 1]);
                }
            }
        }
        i = i + 1;
    }
    assert(pair_views(t@).take(t@.len() as int) =~= pair_views(t@));
    out
}

} // verus!
