//! The interactive picker: which issues match a query, and how a choice
//! among them is made.
use vstd::prelude::*;
use crate::keys::views;
use crate::number::{decimal_digits, decimal_string, parse_usize, parse_usize_spec};
use crate::text::{chars_of, debug_quote, debug_str, str_eq, trim, trim_seq};
use crate::todo::{find_sub, find_substring};

verus! {

/// The Unicode lowercase mapping of `s`, as `str::to_lowercase` computes it.
pub uninterp spec fn lowercase(s: Seq<char>) -> Seq<char>;

/// `str::to_lowercase`.
///
/// Trusted: std's full Unicode lowercase mapping, a pure function of the
/// text; the contract only names its result (`lowercase`).
#[verifier::external_body]
fn to_lower(s: &str) -> (r: String)
    ensures
        r@ == lowercase(s@),
{
    s.to_lowercase()
}

/// What the picker reads of an issue.
pub struct PickItem {
    pub slug: String,
    pub title: String,
    /// The folder the issue lives in (`open`, `closed`, `inbox`, ...).
    pub folder: String,
    pub labels: Option<Vec<String>>,
}

pub open spec fn item_labels(it: PickItem) -> Seq<Seq<char>> {
    match it.labels {
        Some(ls) => views(ls@),
        None => seq![],
    }
}

/// `n` occurs somewhere in `s`.
pub open spec fn contains_text(s: Seq<char>, n: Seq<char>) -> bool {
    find_sub(s, n) >= 0
}

/// The query matches the item, case-insensitively, in its slug, its title
/// or one of its labels.
pub open spec fn matches_query(it: PickItem, q: Seq<char>) -> bool {
    let n = lowercase(q);
    ||| contains_text(lowercase(it.slug@), n)
    ||| contains_text(lowercase(it.title@), n)
    ||| exists|j: int| 0 <= j < item_labels(it).len() && contains_text(lowercase(#[trigger] item_labels(it)[j]), n)
}

/// The picker offers the item: it is open (any folder with `--all`) and
/// matches the query, if there is one.
pub open spec fn offered(it: PickItem, query: Option<Seq<char>>, all: bool) -> bool {
    (all || it.folder@ == "open"@) && match query {
        None => true,
        Some(q) => matches_query(it, q),
    }
}

fn contains_lower(hay: &str, needle: &Vec<char>) -> (r: bool)
    ensures
        r == contains_text(lowercase(hay@), needle@),
{
    let h = to_lower(hay);
    let hv = chars_of(h.as_str());
    find_substring(&hv, needle).is_some()
}

fn item_matches(it: &PickItem, needle: &Vec<char>, Ghost(q): Ghost<Seq<char>>) -> (r: bool)
    requires
        needle@ == lowercase(q),
    ensures
        r == matches_query(*it, q),
{
    if contains_lower(it.slug.as_str(), needle) || contains_lower(it.title.as_str(), needle) {
        return true;
    }
    match &it.labels {
        None => false,
        Some(ls) => {
            let mut j: usize = 0;
            while j < ls.len()
                invariant
                    j <= ls.len(),
                    it.labels == Some(*ls),
                    needle@ == lowercase(q),
                    forall|k: int| 0 <= k < j ==> !contains_text(lowercase(ls@[k]@), needle@),
                decreases ls.len() - j,
            {
                if contains_lower(ls[j].as_str(), needle) {
                    assert(item_labels(*it)[j as int] == ls@[j as int]@);
                    return true;
                }
                j = j + 1;
            }
            proof {
                assert forall|k: int| 0 <= k < item_labels(*it).len() implies !contains_text(lowercase(#[trigger] item_labels(*it)[k]), needle@) by {
                    assert(item_labels(*it)[k] == ls@[k]@);
                }
            }
            false
        },
    }
}

pub open spec fn opt_text(q: Option<String>) -> Option<Seq<char>> {
    match q {
        Some(s) => Some(s@),
        None => None,
    }
}

/// The positions of the issues the picker offers for `query` (see
/// `offered`), in list order.
pub fn pick_candidates(items: &Vec<PickItem>, query: &Option<String>, all: bool) -> (r: Vec<usize>)
    ensures
        forall|a: int, b: int| 0 <= a < b < r@.len() ==> r@[a] < r@[b],
        forall|k: int| 0 <= k < r@.len() ==> (#[trigger] r@[k]) < items@.len() && offered(items@[r@[k] as int], opt_text(*query), all),
        forall|i: int| 0 <= i < items@.len() && offered(#[trigger] items@[i], opt_text(*query), all) ==> r@.contains(i as usize),
{
    let needle = match query {
        Some(q) => chars_of(to_lower(q.as_str()).as_str()),
        None => Vec::new(),
    };
    let ghost q = opt_text(*query);
    let mut out: Vec<usize> = Vec::new();
    let mut i: usize = 0;
    while i < items.len()
        invariant
            i <= items.len(),
            q == opt_text(*query),
            q is Some ==> needle@ == lowercase(q->0),
            forall|a: int, b: int| 0 <= a < b < out@.len() ==> out@[a] < out@[b],
            forall|k: int| 0 <= k < out@.len() ==> (#[trigger] out@[k]) < i && offered(items@[out@[k] as int], q, all),
            forall|m: int| 0 <= m < i && offered(#[trigger] items@[m], q, all) ==> out@.contains(m as usize),
        decreases items.len() - i,
    {
        let it = &items[i];
        let in_scope = all || str_eq(it.folder.as_str(), "open");
        let hit = in_scope && match query {
            None => true,
            Some(_) => item_matches(it, &needle, Ghost(q->0)),
        };
        if hit {
            let ghost old_out = out@;
            out.push(i);
            proof {
                assert(out@[out@.len() - 1] == i);
                assert forall|m: int| 0 <= m < i + 1 && offered(#[trigger] items@[m], q, all) implies out@.contains(m as usize) by {
                    if m < i {
                        assert(old_out.contains(m as usize));
                        let k = choose|k: int| 0 <= k < old_out.len() && old_out[k] == m as usize;
                        assert(out@[k] == m as usize);
                    } else {
                        assert(out@[out@.len() - 1] == m as usize);
                    }
                }
            }
        }
        i = i + 1;
    }
    out
}

/// What the picker does with its candidates.
pub enum PickStep {
    /// Nothing matched: report it and fail.
    NoMatch,
    /// Take the candidate at this position without asking.
    Take(usize),
    /// Show the numbered menu and read a choice.
    Ask,
}

/// No candidate is a failure; a single candidate, or `--first`, is taken
/// at once; otherwise the user is asked.
pub fn pick_step(count: usize, first: bool) -> (r: PickStep)
    ensures
        count == 0 ==> r is NoMatch,
        count > 0 && (count == 1 || first) ==> r == PickStep::Take(0),
        count > 1 && !first ==> r is Ask,
{
    if count == 0 {
        PickStep::NoMatch
    } else if count == 1 || first {
        PickStep::Take(0)
    } else {
        PickStep::Ask
    }
}

pub open spec fn invalid_selection_message(line: Seq<char>) -> Seq<char> {
    "invalid selection: "@ + debug_str(line)
}

pub open spec fn out_of_range_message(n: nat) -> Seq<char> {
    "selection out of range: "@ + decimal_digits(n)
}

/// The position chosen by the menu answer `line` (the 1-based number the
/// user typed, surrounding whitespace ignored) among `count` candidates.
pub fn parse_selection(line: &str, count: usize) -> (r: Result<usize, String>)
    ensures
        parse_usize_spec(trim_seq(line@)) is None ==> (r matches Err(e) && e@
            == invalid_selection_message(line@)),
        parse_usize_spec(trim_seq(line@)) is Some && (parse_usize_spec(trim_seq(line@))->0 == 0
            || parse_usize_spec(trim_seq(line@))->0 > count) ==> (r matches Err(e) && e@
            == out_of_range_message(parse_usize_spec(trim_seq(line@))->0 as nat)),
        parse_usize_spec(trim_seq(line@)) is Some && 1 <= parse_usize_spec(trim_seq(line@))->0 <= count
            ==> r == Ok::<usize, String>((parse_usize_spec(trim_seq(line@))->0 - 1) as usize),
{
    let t = trim(line);
    match parse_usize(t.as_str()) {
        None => {
            let mut m = String::from_str("invalid selection: ");
            m.append(debug_quote(line).as_str());
            Err(m)
        },
        Some(n) => {
            if n == 0 || n > count {
                let mut m = String::from_str("selection out of range: ");
                m.append(decimal_string(n).as_str());
                Err(m)
            } else {
                Ok(n - 1)
            }
        },
    }
}

} // verus!
