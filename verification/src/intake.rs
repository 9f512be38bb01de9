//! The reception queue's view of an issue: labels, legacy reception forms,
//! and where an item came in from.
use vstd::prelude::*;
use crate::args::opt_view;
use crate::keys::views;
use crate::text::{chars_of, str_eq, string_from_range};
use crate::usage::{starts_with, starts_with_at};
use crate::number::{decimal_digits, decimal_string};
use crate::order::{chars_lt, lemma_seq_lt_asymmetric, lemma_seq_lt_irreflexive, lemma_seq_lt_total, lemma_seq_lt_transitive, seq_lt};
use crate::tree::row_views;

verus! {

/// What the intake queue reads of an issue.
pub struct IntakeItem {
    /// Workflow status.
    pub status: String,
    /// Labels, when the issue has a `labels:` list at all.
    pub labels: Option<Vec<String>>,
    /// The `provenance:` frontmatter value, when it is a string.
    pub provenance: Option<String>,
}

/// The item's labels (none when it has no `labels:` list).
pub open spec fn label_views(item: IntakeItem) -> Seq<Seq<char>> {
    match item.labels {
        Some(ls) => views(ls@),
        None => seq![],
    }
}

/// The item carries the label `label`.
pub open spec fn labelled(item: IntakeItem, label: Seq<char>) -> bool {
    label_views(item).contains(label)
}

/// Whether the item carries the label `label`.
pub fn has_label(item: &IntakeItem, label: &str) -> (r: bool)
    ensures
        r == labelled(*item, label@),
{
    match &item.labels {
        None => false,
        Some(ls) => {
            let mut i: usize = 0;
            while i < ls.len()
                invariant
                    i <= ls.len(),
                    item.labels == Some(*ls),
                    forall|j: int| 0 <= j < i ==> ls@[j]@ != label@,
                decreases ls.len() - i,
            {
                if str_eq(ls[i].as_str(), label) {
                    assert(label_views(*item)[i as int] == label@);
                    return true;
                }
                i = i + 1;
            }
            proof {
                if label_views(*item).contains(label@) {
                    let j = choose|j: int| 0 <= j < label_views(*item).len() && label_views(*item)[j] == label@;
                    assert(ls@[j]@ == label@);
                }
            }
            false
        },
    }
}

/// A legacy reception form that the migration has not yet converted: an
/// open issue labelled `needs-triage` or `deferred`. Such items stay out of
/// the queue rows but are counted for the migration warning.
pub open spec fn legacy_intake(item: IntakeItem) -> bool {
    item.status@ == "open"@ && (labelled(item, "needs-triage"@) || labelled(item, "deferred"@))
}

/// Whether the item is a legacy reception form (see `legacy_intake`).
pub fn is_legacy_intake_item(item: &IntakeItem) -> (r: bool)
    ensures
        r == legacy_intake(*item),
{
    str_eq(item.status.as_str(), "open") && (has_label(item, "needs-triage") || has_label(item, "deferred"))
}

/// A label that names an intake channel: `via:` followed by a non-empty
/// channel name.
pub open spec fn is_via(l: Seq<char>) -> bool {
    starts_with(l, "via:"@) && l.len() > 4
}

/// The channels named by the `via:` labels of `ls`, in label order.
pub open spec fn via_channels(ls: Seq<Seq<char>>) -> Seq<Seq<char>>
    decreases ls.len(),
{
    if ls.len() == 0 {
        seq![]
    } else {
        let rest = via_channels(ls.drop_last());
        if is_via(ls.last()) {
            rest.push(ls.last().skip(4))
        } else {
            rest
        }
    }
}

/// Where a queue item came in from: its `provenance:` value; failing that,
/// the channel its `via:` labels name, when they all name the same one;
/// otherwise nothing.
pub open spec fn provenance_of(item: IntakeItem) -> Option<Seq<char>> {
    if item.provenance is Some {
        opt_view(item.provenance)
    } else {
        let ch = via_channels(label_views(item));
        if ch.len() > 0 && forall|j: int| 0 <= j < ch.len() ==> #[trigger] ch[j] == ch[0] {
            Some(ch[0])
        } else {
            None
        }
    }
}

/// The channel that one label names, if it is a `via:` label.
fn via_channel(l: &str) -> (r: Option<String>)
    ensures
        is_via(l@) ==> (r matches Some(c) && c@ == l@.skip(4)),
        !is_via(l@) ==> r is None,
{
    let v = chars_of(l);
    let p = chars_of("via:");
    proof {
        reveal_strlit("via:");
    }
    if v.len() > 4 && starts_with_at(&v, 0, &p) {
        assert(v@.skip(0) =~= v@);
        let c = string_from_range(&v, 4, v.len());
        assert(v@.subrange(4, v@.len() as int) =~= l@.skip(4));
        Some(c)
    } else {
        assert(v@.skip(0) =~= v@);
        None
    }
}

/// Where a queue item came in from (see `provenance_of`).
pub fn queue_provenance(item: &IntakeItem) -> (r: Option<String>)
    ensures
        opt_view(r) == provenance_of(*item),
{
    if let Some(p) = &item.provenance {
        return Some(p.clone());
    }
    let ghost ls = label_views(*item);
    let mut first: Option<String> = None;
    let mut same = true;
    match &item.labels {
        None => {},
        Some(labels) => {
            let mut i: usize = 0;
            while i < labels.len()
                invariant
                    i <= labels.len(),
                    ls == views(labels@),
                    ({
                        let ch = via_channels(ls.take(i as int));
                        &&& (first is None <==> ch.len() == 0)
                        &&& (ch.len() == 0 ==> same)
                        &&& (first is Some ==> first->0@ == ch[0])
                        &&& (ch.len() > 0 ==> (same <==> forall|j: int| 0 <= j < ch.len() ==> #[trigger] ch[j] == ch[0]))
                    }),
                decreases labels.len() - i,
            {
                assert(ls.take(i as int + 1).drop_last() =~= ls.take(i as int));
                assert(ls.take(i as int + 1).last() == labels@[i as int]@);
                let ghost before = via_channels(ls.take(i as int));
                assert(is_via(labels@[i as int]@) ==> via_channels(ls.take(i as int + 1)) == before.push(labels@[i as int]@.skip(4)));
                assert(!is_via(labels@[i as int]@) ==> via_channels(ls.take(i as int + 1)) == before);
                match via_channel(labels[i].as_str()) {
                    None => {},
                    Some(c) => {
                        match &first {
                            None => {
                                first = Some(c);
                            },
                            Some(f) => {
                                let ghost was_same = same;
                                if !str_eq(f.as_str(), c.as_str()) {
                                    same = false;
                                }
                                proof {
                                    let ch = before.push(c@);
                                    if same {
                                        assert forall|j: int| 0 <= j < ch.len() implies #[trigger] ch[j] == ch[0] by {
                                            if j < before.len() {
                                                assert(ch[j] == before[j]);
                                            }
                                        }
                                    } else if !was_same {
                                        let j = choose|j: int| 0 <= j < before.len() && #[trigger] before[j] != before[0];
                                        assert(ch[j] != ch[0]);
                                    } else {
                                        assert(ch[before.len() as int] == c@);
                                        assert(ch[before.len() as int] != ch[0]);
                                    }
                                }
                            },
                        }
                    },
                }
                i = i + 1;
            }
            assert(ls.take(labels.len() as int) =~= ls);
        },
    }
    proof {
        if item.labels is None {
            assert(label_views(*item) =~= seq![]);
        }
    }
    if same {
        first
    } else {
        None
    }
}

/// What the reception queue reads of an issue.
pub struct QueueItem {
    pub slug: String,
    pub issue_type: String,
    pub title: String,
    /// The `created:` date, when there is one.
    pub created: Option<String>,
    /// Whether the body already holds a triage analysis section.
    pub analysed: bool,
    /// Status, labels and provenance.
    pub intake: IntakeItem,
}

/// How many items are legacy reception forms (see `legacy_intake`).
pub open spec fn legacy_total(items: Seq<QueueItem>) -> nat
    decreases items.len(),
{
    if items.len() == 0 {
        0
    } else {
        legacy_total(items.drop_last()) + if legacy_intake(items.last().intake) {
            1nat
        } else {
            0nat
        }
    }
}

/// The number of legacy reception forms among `items`.
pub fn legacy_count(items: &Vec<QueueItem>) -> (r: usize)
    ensures
        r == legacy_total(items@),
{
    let mut n: usize = 0;
    let mut i: usize = 0;
    while i < items.len()
        invariant
            i <= items.len(),
            n == legacy_total(items@.take(i as int)),
            n <= i,
        decreases items.len() - i,
    {
        assert(items@.take(i as int + 1).drop_last() =~= items@.take(i as int));
        if is_legacy_intake_item(&items[i].intake) {
            n = n + 1;
        }
        i = i + 1;
    }
    assert(items@.take(items@.len() as int) =~= items@);
    n
}

pub open spec fn legacy_warning_text(n: nat) -> Seq<char> {
    decimal_digits(n)
        + " legacy label-based intake item(s) hidden from the status-based queue; run `issuectl intake migrate --apply` to admit them"@
}

/// The warning shown when legacy reception forms are hidden from the
/// queue, if any are.
pub fn legacy_warning(count: usize) -> (r: Option<String>)
    ensures
        count == 0 ==> r is None,
        count > 0 ==> (r matches Some(w) && w@ == legacy_warning_text(count as nat)),
{
    if count == 0 {
        return None;
    }
    let mut m = decimal_string(count);
    m.append(" legacy label-based intake item(s) hidden from the status-based queue; run `issuectl intake migrate --apply` to admit them");
    Some(m)
}

/// The item belongs in the `target` queue under the given filters: status
/// exactly `target`, the type and provenance asked for (if any), and no
/// analysis yet when only items needing one are wanted.
pub open spec fn in_queue(it: QueueItem, target: Seq<char>, issue_type: Option<Seq<char>>, provenance: Option<Seq<char>>, needs_analysis: bool) -> bool {
    &&& it.intake.status@ == target
    &&& (issue_type matches Some(t) ==> it.issue_type@ == t)
    &&& (provenance matches Some(p) ==> provenance_of(it.intake) == Some(p))
    &&& (needs_analysis ==> !it.analysed)
}

/// The queue's sort key: dated items first, oldest date first, then slug.
pub open spec fn queue_key(it: QueueItem) -> (bool, Seq<char>, Seq<char>) {
    match it.created {
        Some(c) => (false, c@, it.slug@),
        None => (true, seq![], it.slug@),
    }
}

/// `x` sorts strictly before `y`.
pub open spec fn key_lt(x: (bool, Seq<char>, Seq<char>), y: (bool, Seq<char>, Seq<char>)) -> bool {
    (!x.0 && y.0) || (x.0 == y.0 && (seq_lt(x.1, y.1) || (x.1 == y.1 && seq_lt(x.2, y.2))))
}

proof fn lemma_key_order(x: (bool, Seq<char>, Seq<char>), y: (bool, Seq<char>, Seq<char>), z: (bool, Seq<char>, Seq<char>))
    ensures
        !key_lt(x, x),
        key_lt(x, y) || key_lt(y, x) || x == y,
        key_lt(x, y) && key_lt(y, z) ==> key_lt(x, z),
        key_lt(x, y) ==> !key_lt(y, x),
{
    lemma_seq_lt_irreflexive(x.1);
    lemma_seq_lt_irreflexive(x.2);
    lemma_seq_lt_total(x.1, y.1);
    lemma_seq_lt_total(x.2, y.2);
    if seq_lt(x.1, y.1) && seq_lt(y.1, z.1) {
        lemma_seq_lt_transitive(x.1, y.1, z.1);
    }
    if seq_lt(x.2, y.2) && seq_lt(y.2, z.2) {
        lemma_seq_lt_transitive(x.2, y.2, z.2);
    }
    if seq_lt(x.1, y.1) {
        lemma_seq_lt_asymmetric(x.1, y.1);
    }
    if seq_lt(x.2, y.2) {
        lemma_seq_lt_asymmetric(x.2, y.2);
    }
    if x.0 == y.0 && x.1 == y.1 && x.2 == y.2 {
        assert(x == y);
    }
}

/// The queue lists `r` in order: no entry sorts before an earlier one, and
/// entries with equal keys keep their list order.
pub open spec fn queue_ordered(items: Seq<QueueItem>, r: Seq<usize>) -> bool {
    forall|a: int, b: int| 0 <= a < b < r.len() ==> key_lt(queue_key(items[r[a] as int]), queue_key(items[r[b] as int]))
        || (queue_key(items[r[a] as int]) == queue_key(items[r[b] as int]) && r[a] < r[b])
}

fn queue_key_lt(a: &QueueItem, b: &QueueItem) -> (r: bool)
    ensures
        r == key_lt(queue_key(*a), queue_key(*b)),
{
    let sa = chars_of(a.slug.as_str());
    let sb = chars_of(b.slug.as_str());
    match (&a.created, &b.created) {
        (Some(x), Some(y)) => {
            let xv = chars_of(x.as_str());
            let yv = chars_of(y.as_str());
            chars_lt(&xv, &yv) || (str_eq(x.as_str(), y.as_str()) && chars_lt(&sa, &sb))
        },
        (Some(_), None) => true,
        (None, Some(_)) => false,
        (None, None) => {
            proof {
                lemma_seq_lt_irreflexive(seq![]);
            }
            chars_lt(&sa, &sb)
        },
    }
}

fn matches_filters(it: &QueueItem, target: &str, issue_type: &Option<String>, provenance: &Option<String>, needs_analysis: bool) -> (r: bool)
    ensures
        r == in_queue(*it, target@, opt_view(*issue_type), opt_view(*provenance), needs_analysis),
{
    if !str_eq(it.intake.status.as_str(), target) {
        return false;
    }
    if let Some(t) = issue_type {
        if !str_eq(it.issue_type.as_str(), t.as_str()) {
            return false;
        }
    }
    if let Some(p) = provenance {
        let q = queue_provenance(&it.intake);
        match q {
            Some(x) => {
                if !str_eq(x.as_str(), p.as_str()) {
                    return false;
                }
            },
            None => {
                return false;
            },
        }
    }
    !needs_analysis || !it.analysed
}

/// The positions of the items in the `target` queue (see `in_queue`), in
/// queue order: dated items first, oldest first, then by slug; items with
/// equal keys keep their list order.
pub fn queue_rows(items: &Vec<QueueItem>, target: &str, issue_type: &Option<String>, provenance: &Option<String>, needs_analysis: bool) -> (r: Vec<usize>)
    ensures
        forall|k: int| 0 <= k < r@.len() ==> (#[trigger] r@[k]) < items@.len() && in_queue(items@[r@[k] as int], target@, opt_view(*issue_type), opt_view(*provenance), needs_analysis),
        forall|i: int| 0 <= i < items@.len() && in_queue(#[trigger] items@[i], target@, opt_view(*issue_type), opt_view(*provenance), needs_analysis) ==> r@.contains(i as usize),
        queue_ordered(items@, r@),
{
    let ghost ty = opt_view(*issue_type);
    let ghost pv = opt_view(*provenance);
    let mut out: Vec<usize> = Vec::new();
    let mut i: usize = 0;
    while i < items.len()
        invariant
            i <= items.len(),
            ty == opt_view(*issue_type),
            pv == opt_view(*provenance),
            forall|k: int| 0 <= k < out@.len() ==> (#[trigger] out@[k]) < i && in_queue(items@[out@[k] as int], target@, ty, pv, needs_analysis),
            forall|m: int| 0 <= m < i && in_queue(#[trigger] items@[m], target@, ty, pv, needs_analysis) ==> out@.contains(m as usize),
            queue_ordered(items@, out@),
        decreases items.len() - i,
    {
        if matches_filters(&items[i], target, issue_type, provenance, needs_analysis) {
            let mut p: usize = 0;
            let mut done = false;
            while !done && p < out.len()
                invariant
                    i < items.len(),
                    p <= out.len(),
                    forall|k: int| 0 <= k < out@.len() ==> (#[trigger] out@[k]) < i,
                    forall|a: int| 0 <= a < p ==> !key_lt(queue_key(items@[i as int]), queue_key(items@[#[trigger] out@[a] as int])),
                    done ==> p < out.len() && key_lt(queue_key(items@[i as int]), queue_key(items@[out@[p as int] as int])),
                decreases out.len() - p, if done { 0int } else { 1int },
            {
                if queue_key_lt(&items[i], &items[out[p]]) {
                    done = true;
                } else {
                    p = p + 1;
                }
            }
            let ghost old_out = out@;
            out.insert(p, i);
            proof {
                let e = queue_key(items@[i as int]);
                assert forall|a: int, b: int| 0 <= a < b < out@.len() implies key_lt(queue_key(items@[out@[a] as int]), queue_key(items@[out@[b] as int]))
                    || (queue_key(items@[out@[a] as int]) == queue_key(items@[out@[b] as int]) && out@[a] < out@[b]) by {
                    if b < p {
                        assert(out@[a] == old_out[a] && out@[b] == old_out[b]);
                    } else if b == p {
                        assert(out@[a] == old_out[a]);
                        lemma_key_order(queue_key(items@[old_out[a] as int]), e, e);
                    } else if a == p {
                        assert(out@[b] == old_out[b - 1]);
                        let f = queue_key(items@[old_out[p as int] as int]);
                        let g = queue_key(items@[old_out[b - 1] as int]);
                        lemma_key_order(e, f, g);
                        if b - 1 > p {
                            lemma_key_order(f, g, g);
                        }
                    } else if a < p {
                        assert(out@[a] == old_out[a] && out@[b] == old_out[b - 1]);
                    } else {
                        assert(out@[a] == old_out[a - 1] && out@[b] == old_out[b - 1]);
                    }
                }
                assert forall|m: int| 0 <= m < i + 1 && in_queue(#[trigger] items@[m], target@, ty, pv, needs_analysis) implies out@.contains(m as usize) by {
                    if m < i {
                        assert(old_out.contains(m as usize));
                        let k = choose|k: int| 0 <= k < old_out.len() && old_out[k] == m as usize;
                        if k < p {
                            assert(out@[k] == m as usize);
                        } else {
                            assert(out@[k + 1] == m as usize);
                        }
                    } else {
                        assert(out@[p as int] == m as usize);
                    }
                }
                assert forall|k: int| 0 <= k < out@.len() implies (#[trigger] out@[k]) < i + 1 && in_queue(items@[out@[k] as int], target@, ty, pv, needs_analysis) by {
                    if k < p {
                        assert(out@[k] == old_out[k]);
                    } else if k > p {
                        assert(out@[k] == old_out[k - 1]);
                    }
                }
            }
        }
        i = i + 1;
    }
    out
}

/// One text row of the queue.
pub open spec fn queue_row_text(it: QueueItem) -> Seq<char> {
    "  "@ + match it.created {
        Some(c) => c@,
        None => "????-??-??"@,
    } + "  "@ + it.issue_type@ + "  "@ + it.slug@ + "  ("@ + match provenance_of(it.intake) {
        Some(p) => p,
        None => "-"@,
    } + ")  "@ + it.title@ + if it.analysed {
        seq![]
    } else {
        "  [needs-analysis]"@
    }
}

/// The text view of the `target` queue listing `rows` (positions into
/// `items`): a heading with the count, then one row per item; a single
/// notice when the queue is empty.
pub open spec fn queue_text(items: Seq<QueueItem>, rows: Seq<usize>, target: Seq<char>) -> Seq<Seq<char>> {
    if rows.len() == 0 {
        seq!["No items in the "@ + target + " queue."@]
    } else {
        seq!["Intake queue ("@ + target + ") — "@ + decimal_digits(rows.len()) + " item(s), oldest first:"@]
            + Seq::new(rows.len(), |k: int| queue_row_text(items[rows[k] as int]))
    }
}

fn queue_row(it: &QueueItem) -> (r: String)
    ensures
        r@ == queue_row_text(*it),
{
    let mut m = String::from_str("  ");
    match &it.created {
        Some(c) => m.append(c.as_str()),
        None => m.append("????-??-??"),
    }
    m.append("  ");
    m.append(it.issue_type.as_str());
    m.append("  ");
    m.append(it.slug.as_str());
    m.append("  (");
    match queue_provenance(&it.intake) {
        Some(p) => m.append(p.as_str()),
        None => m.append("-"),
    }
    m.append(")  ");
    m.append(it.title.as_str());
    if !it.analysed {
        m.append("  [needs-analysis]");
    }
    proof {
        if it.analysed {
            assert(m@ =~= queue_row_text(*it));
        }
    }
    m
}

/// The text lines of the `target` queue (see `queue_text`).
pub fn queue_lines(items: &Vec<QueueItem>, rows: &Vec<usize>, target: &str) -> (r: Vec<String>)
    requires
        forall|k: int| 0 <= k < rows@.len() ==> (#[trigger] rows@[k]) < items@.len(),
    ensures
        row_views(r@) == queue_text(items@, rows@, target@),
{
    let mut out: Vec<String> = Vec::new();
    if rows.len() == 0 {
        let mut m = String::from_str("No items in the ");
        m.append(target);
        m.append(" queue.");
        out.push(m);
        assert(row_views(out@) =~= queue_text(items@, rows@, target@));
        return out;
    }
    let mut h = String::from_str("Intake queue (");
    h.append(target);
    h.append(") — ");
    h.append(decimal_string(rows.len()).as_str());
    h.append(" item(s), oldest first:");
    out.push(h);
    let mut k: usize = 0;
    while k < rows.len()
        invariant
            k <= rows.len(),
            rows@.len() > 0,
            forall|j: int| 0 <= j < rows@.len() ==> (#[trigger] rows@[j]) < items@.len(),
            row_views(out@) == seq!["Intake queue ("@ + target@ + ") — "@ + decimal_digits(rows@.len()) + " item(s), oldest first:"@]
                + Seq::new(k as nat, |j: int| queue_row_text(items@[rows@[j] as int])),
        decreases rows.len() - k,
    {
        let line = queue_row(&items[rows[k]]);
        let ghost before = row_views(out@);
        out.push(line);
        assert(row_views(out@) =~= before.push(queue_row_text(items@[rows@[k as int] as int])));
        k = k + 1;
        assert(row_views(out@) =~= seq!["Intake queue ("@ + target@ + ") — "@ + decimal_digits(rows@.len()) + " item(s), oldest first:"@]
            + Seq::new(k as nat, |j: int| queue_row_text(items@[rows@[j] as int])));
    }
    assert(row_views(out@) =~= queue_text(items@, rows@, target@));
    out
}

/// The heading of the section that holds a triage analysis.
pub open spec fn analysis_heading() -> Seq<char> {
    "Triage analysis"@
}

/// What the reception view prints after an issue's detail: its attachments
/// under a heading, then its triage analysis, or a notice that there is
/// none yet. The analysis is printed as one text block.
pub open spec fn intake_show_tail_text(attachments: Seq<String>, analysis: Option<String>) -> Seq<Seq<char>> {
    (if attachments.len() == 0 {
        seq![]
    } else {
        seq![seq![], "Attachments:"@] + Seq::new(attachments.len(), |i: int| "  "@ + attachments[i]@)
    }) + match analysis {
        Some(a) => seq![seq![], "## "@ + analysis_heading(), a@],
        None => seq![seq![], "(no "@ + analysis_heading() + " section yet)"@],
    }
}

/// The lines after an issue's detail in the reception view.
pub fn intake_show_tail(attachments: &Vec<String>, analysis: Option<String>) -> (l: Vec<String>)
    ensures
        row_views(l@) == intake_show_tail_text(attachments@, analysis),
{
    let mut l: Vec<String> = Vec::new();
    if attachments.len() > 0 {
        let blank = String::new();
        assert(blank@ =~= Seq::<char>::empty());
        l.push(blank);
        l.push(String::from_str("Attachments:"));
        let ghost top = row_views(l@);
        assert(top =~= seq![seq![], "Attachments:"@]);
        let mut i: usize = 0;
        while i < attachments.len()
            invariant
                i <= attachments.len(),
                row_views(l@) == top + Seq::new(i as nat, |k: int| "  "@ + attachments@[k]@),
            decreases attachments.len() - i,
        {
            let mut m = String::from_str("  ");
            m.append(attachments[i].as_str());
            let ghost before = row_views(l@);
            l.push(m);
            assert(row_views(l@) =~= before.push(m@));
            i = i + 1;
            assert(row_views(l@) =~= top + Seq::new(i as nat, |k: int| "  "@ + attachments@[k]@));
        }
    }
    let ghost head = row_views(l@);
    assert(head =~= (if attachments@.len() == 0 {
        seq![]
    } else {
        seq![seq![], "Attachments:"@] + Seq::new(attachments@.len(), |i: int| "  "@ + attachments@[i]@)
    }));
    let blank = String::new();
    assert(blank@ =~= Seq::<char>::empty());
    l.push(blank);
    match analysis {
        Some(a) => {
            let mut h = String::from_str("## ");
            h.append("Triage analysis");
            l.push(h);
            l.push(a);
        },
        None => {
            let mut h = String::from_str("(no ");
            h.append("Triage analysis");
            h.append(" section yet)");
            l.push(h);
        },
    }
    assert(row_views(l@) =~= intake_show_tail_text(attachments@, analysis));
    l
}

/// The line that reports an intake transition: the slug and its new status.
pub fn intake_transition_line(slug: &str, status: &str) -> (r: String)
    ensures
        r@ == slug@ + " → "@ + status@,
{
    let mut m = String::from_str(slug);
    m.append(" → ");
    m.append(status);
    m
}

/// The confirmation of `intake file`: a new untriaged issue, or the
/// existing one that the source reference matched.
pub fn filed_line(slug: &str, deduplicated: bool) -> (r: String)
    ensures
        r@ == if deduplicated {
            "Existing issue "@ + slug@ + " returned (deduplicated on source-ref)"@
        } else {
            "Filed "@ + slug@ + " (untriaged)"@
        },
{
    let mut m = if deduplicated {
        String::from_str("Existing issue ")
    } else {
        String::from_str("Filed ")
    };
    m.append(slug);
    if deduplicated {
        m.append(" returned (deduplicated on source-ref)");
    } else {
        m.append(" (untriaged)");
    }
    m
}

} // verus!
