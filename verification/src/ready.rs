//! The definition-of-done report of `ready`: how many boxes of each
//! checklist section are ticked, which are not, and whether the notes exist.
use vstd::prelude::*;
use crate::number::{decimal_digits, decimal_string};
use crate::tree::row_views;

verus! {

/// One checklist item of an issue body.
pub struct Checkbox {
    pub checked: bool,
    pub text: String,
}

/// A checklist section of an issue body.
pub struct SectionStatus {
    /// The section heading occurs in the body.
    pub present: bool,
    pub items: Vec<Checkbox>,
}

/// What `ready` reports of one issue.
pub struct ReadyReport {
    pub slug: String,
    pub status: String,
    /// Every acceptance criterion is met.
    pub ready: bool,
    pub acceptance: SectionStatus,
    pub tests: SectionStatus,
    /// The implementation notes section occurs in the body.
    pub notes_present: bool,
}

/// How many of `items` are ticked.
pub open spec fn checked_count(items: Seq<Checkbox>) -> nat
    decreases items.len(),
{
    if items.len() == 0 {
        0
    } else {
        checked_count(items.drop_last()) + if items.last().checked {
            1nat
        } else {
            0nat
        }
    }
}

/// An open box line for each item that is not ticked, in order.
pub open spec fn unchecked_lines(items: Seq<Checkbox>) -> Seq<Seq<char>>
    decreases items.len(),
{
    if items.len() == 0 {
        seq![]
    } else if items.last().checked {
        unchecked_lines(items.drop_last())
    } else {
        unchecked_lines(items.drop_last()).push("    [ ] "@ + items.last().text@)
    }
}

/// `bool` as `format!("{b}")` writes it.
pub open spec fn bool_text(b: bool) -> Seq<char> {
    if b {
        "true"@
    } else {
        "false"@
    }
}

/// The tally line of a section: ticked boxes of all boxes, and a note where
/// the section is missing.
pub open spec fn section_text(label: Seq<char>, s: SectionStatus) -> Seq<char> {
    label + decimal_digits(checked_count(s.items@)) + " of "@ + decimal_digits(s.items@.len()) + " checked"@
        + if s.present {
        seq![]
    } else {
        " (section missing)"@
    }
}

pub open spec fn ready_text(r: ReadyReport) -> Seq<Seq<char>> {
    seq![
        "issue: "@ + r.slug@ + " ("@ + r.status@ + ")"@,
        "ready: "@ + bool_text(r.ready),
        section_text("  Acceptance Criteria: "@, r.acceptance),
    ] + unchecked_lines(r.acceptance.items@) + seq![
        section_text("  Tests Run: "@, r.tests),
        "  Implementation Notes: "@ + if r.notes_present {
            "present"@
        } else {
            "missing"@
        },
    ]
}

proof fn lemma_checked_bounded(items: Seq<Checkbox>)
    ensures
        checked_count(items) <= items.len(),
    decreases items.len(),
{
    if items.len() > 0 {
        lemma_checked_bounded(items.drop_last());
    }
}

/// The number of ticked boxes in `items`.
pub fn count_checked(items: &Vec<Checkbox>) -> (n: usize)
    ensures
        n == checked_count(items@),
{
    let mut n: usize = 0;
    let mut i: usize = 0;
    while i < items.len()
        invariant
            i <= items.len(),
            n == checked_count(items@.take(i as int)),
        decreases items.len() - i,
    {
        proof {
            assert(items@.take(i + 1).drop_last() =~= items@.take(i as int));
            lemma_checked_bounded(items@.take(i + 1));
        }
        if items[i].checked {
            n = n + 1;
        }
        i = i + 1;
    }
    assert(items@.take(i as int) =~= items@);
    n
}

fn section_line(label: &str, s: &SectionStatus) -> (r: String)
    ensures
        r@ == section_text(label@, *s),
{
    let mut m = String::from_str(label);
    m.append(decimal_string(count_checked(&s.items)).as_str());
    m.append(" of ");
    m.append(decimal_string(s.items.len()).as_str());
    m.append(" checked");
    if !s.present {
        m.append(" (section missing)");
    }
    assert(m@ =~= section_text(label@, *s));
    m
}

/// The text lines of the `ready` report.
pub fn ready_lines(r: &ReadyReport) -> (l: Vec<String>)
    ensures
        row_views(l@) == ready_text(*r),
{
    let mut l: Vec<String> = Vec::new();
    let mut a = String::from_str("issue: ");
    a.append(r.slug.as_str());
    a.append(" (");
    a.append(r.status.as_str());
    a.append(")");
    l.push(a);
    let mut b = String::from_str("ready: ");
    b.append(if r.ready { "true" } else { "false" });
    l.push(b);
    l.push(section_line("  Acceptance Criteria: ", &r.acceptance));
    let ghost head = row_views(l@);
    let items = &r.acceptance.items;
    let mut i: usize = 0;
    while i < items.len()
        invariant
            i <= items.len(),
            row_views(l@) == head + unchecked_lines(items@.take(i as int)),
        decreases items.len() - i,
    {
        proof {
            assert(items@.take(i + 1).drop_last() =~= items@.take(i as int));
        }
        if !items[i].checked {
            let mut m = String::from_str("    [ ] ");
            m.append(items[i].text.as_str());
            let ghost before = row_views(l@);
            l.push(m);
            assert(row_views(l@) =~= before.push(m@));
        }
        i = i + 1;
    }
    assert(items@.take(i as int) =~= items@);
    let ghost mid = row_views(l@);
    l.push(section_line("  Tests Run: ", &r.tests));
    let mut c = String::from_str("  Implementation Notes: ");
    c.append(if r.notes_present { "present" } else { "missing" });
    l.push(c);
    assert(row_views(l@) =~= mid + seq![section_text("  Tests Run: "@, r.tests), c@]);
    assert(row_views(l@) =~= ready_text(*r));
    l
}

} // verus!
