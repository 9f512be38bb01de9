//! Dependency references between issues: the derived reverse `blocks` view
//! and the `@`-prefixed form references take in JSON output.
use vstd::prelude::*;
use crate::keys::views;
use crate::order::{chars_lt, lemma_seq_lt_asymmetric, lemma_seq_lt_total, lemma_seq_lt_transitive, seq_lt};
use crate::text::{chars_of, str_eq};

verus! {

broadcast use vstd::seq_lib::to_multiset_insert, vstd::seq_lib::to_multiset_build;

/// What the `blocks` derivation reads of an issue.
pub struct IssueDeps {
    /// The issue's slug.
    pub slug: String,
    /// Its canonical `blocked_by:` slugs.
    pub blocked_by: Vec<String>,
}

/// No entry of `s` sorts after a later one.
pub open spec fn sorted(s: Seq<Seq<char>>) -> bool {
    forall|a: int, b: int| 0 <= a < b < s.len() ==> !seq_lt(#[trigger] s[b], #[trigger] s[a])
}

/// The issue `it` is blocked by `slug` and is not `slug` itself.
pub open spec fn blocks(it: IssueDeps, slug: Seq<char>) -> bool {
    it.slug@ != slug && views(it.blocked_by@).contains(slug)
}

/// The slugs of the issues that `slug` blocks, in list order.
pub open spec fn blocked_slugs(issues: Seq<IssueDeps>, slug: Seq<char>) -> Seq<Seq<char>>
    decreases issues.len(),
{
    if issues.len() == 0 {
        seq![]
    } else {
        let rest = blocked_slugs(issues.drop_last(), slug);
        if blocks(issues.last(), slug) {
            rest.push(issues.last().slug@)
        } else {
            rest
        }
    }
}

/// Insert `x` into the sorted list `out` after every entry that does not
/// sort after it.
fn insert_sorted(out: &mut Vec<String>, x: String)
    requires
        sorted(views(old(out)@)),
    ensures
        sorted(views(final(out)@)),
        views(final(out)@).to_multiset() == views(old(out)@).to_multiset().insert(x@),
{
    let ghost s = views(out@);
    let xv = chars_of(x.as_str());
    let mut p: usize = 0;
    let mut done = false;
    while !done && p < out.len()
        invariant
            p <= out.len(),
            s == views(out@),
            xv@ == x@,
            forall|k: int| 0 <= k < p ==> !seq_lt(x@, #[trigger] s[k]),
            done ==> p < out.len() && seq_lt(x@, s[p as int]),
        decreases out.len() - p, if done { 0int } else { 1int },
    {
        let ov = chars_of(out[p].as_str());
        if chars_lt(&xv, &ov) {
            done = true;
        } else {
            p = p + 1;
        }
    }
    proof {
        let t = s.insert(p as int, x@);
        assert forall|a: int, b: int| 0 <= a < b < t.len() implies !seq_lt(#[trigger] t[b], #[trigger] t[a]) by {
            if b < p {
                assert(t[a] == s[a] && t[b] == s[b]);
            } else if b == p {
                assert(t[a] == s[a]);
            } else if a == p {
                let m = b - 1;
                assert(t[b] == s[m]);
                assert(seq_lt(x@, s[p as int]));
                lemma_seq_lt_total(s[p as int], s[m]);
                if m > p {
                    assert(!seq_lt(s[m], s[p as int]));
                }
                if s[p as int] != s[m] {
                    lemma_seq_lt_transitive(x@, s[p as int], s[m]);
                }
                lemma_seq_lt_asymmetric(x@, s[m]);
            } else if a < p {
                assert(t[a] == s[a] && t[b] == s[b - 1]);
            } else {
                assert(t[a] == s[a - 1] && t[b] == s[b - 1]);
            }
        }
    }
    out.insert(p, x);
    assert(views(out@) =~= s.insert(p as int, x@));
}

/// The derived reverse `blocks` view for `slug`: the sorted slugs of every
/// issue whose `blocked_by` list names it. An issue that names itself never
/// appears in its own view.
pub fn blocks_of(issues: &Vec<IssueDeps>, slug: &str) -> (r: Vec<String>)
    ensures
        sorted(views(r@)),
        views(r@).to_multiset() == blocked_slugs(issues@, slug@).to_multiset(),
{
    let mut out: Vec<String> = Vec::new();
    let mut i: usize = 0;
    assert(issues@.take(0) =~= Seq::<IssueDeps>::empty());
    assert(views(out@) =~= Seq::<Seq<char>>::empty());
    while i < issues.len()
        invariant
            i <= issues.len(),
            sorted(views(out@)),
            views(out@).to_multiset() == blocked_slugs(issues@.take(i as int), slug@).to_multiset(),
        decreases issues.len() - i,
    {
        assert(issues@.take(i as int + 1).drop_last() =~= issues@.take(i as int));
        let it = &issues[i];
        if !str_eq(it.slug.as_str(), slug) && names(&it.blocked_by, slug) {
            insert_sorted(&mut out, it.slug.clone());
        }
        i = i + 1;
    }
    assert(issues@.take(issues@.len() as int) =~= issues@);
    out
}

/// Whether the list `deps` names `slug`.
fn names(deps: &Vec<String>, slug: &str) -> (r: bool)
    ensures
        r == views(deps@).contains(slug@),
{
    let mut i: usize = 0;
    while i < deps.len()
        invariant
            i <= deps.len(),
            forall|j: int| 0 <= j < i ==> deps@[j]@ != slug@,
        decreases deps.len() - i,
    {
        if str_eq(deps[i].as_str(), slug) {
            assert(views(deps@)[i as int] == slug@);
            return true;
        }
        i = i + 1;
    }
    false
}

/// The `@`-prefixed reference form of each (canonical) slug, in order: the
/// frontmatter-facing shape of `blocked_by` / `blocks` in JSON output.
pub fn at_refs(slugs: &Vec<String>) -> (r: Vec<String>)
    ensures
        r@.len() == slugs@.len(),
        forall|i: int| 0 <= i < r@.len() ==> (#[trigger] r@[i])@ == seq!['@'] + slugs@[i]@,
{
    let mut out: Vec<String> = Vec::new();
    let mut i: usize = 0;
    while i < slugs.len()
        invariant
            i <= slugs.len(),
            out@.len() == i,
            forall|j: int| 0 <= j < i ==> (#[trigger] out@[j])@ == seq!['@'] + slugs@[j]@,
        decreases slugs.len() - i,
    {
        let mut t = String::from_str("@");
        t.append(slugs[i].as_str());
        proof {
            reveal_strlit("@");
        }
        out.push(t);
        i = i + 1;
    }
    out
}

} // verus!
