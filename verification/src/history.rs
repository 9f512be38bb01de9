//! The text of `activity` and `timeline`: commits that touched issue files,
//! and the status changes of one issue.
use vstd::prelude::*;
use crate::keys::views;
use crate::report::{join, join_strings, pad_right, push_line, push_padded};
use crate::tree::row_views;

verus! {

/// One commit that touched issue files.
pub struct ActivityEntry {
    pub date: String,
    pub sha: String,
    /// The issues it touched.
    pub slugs: Vec<String>,
    pub summary: String,
}

pub open spec fn activity_row(e: ActivityEntry) -> Seq<char> {
    e.date@ + "  "@ + e.sha@ + "  "@ + join(views(e.slugs@), ","@) + "  "@ + e.summary@
}

pub open spec fn activity_text(es: Seq<ActivityEntry>) -> Seq<Seq<char>> {
    if es.len() == 0 {
        seq!["(no issue-file activity in range)"@]
    } else {
        Seq::new(es.len(), |i: int| activity_row(es[i]))
    }
}

/// The lines of `activity`: one per commit, or a notice when none.
pub fn activity_lines(es: &Vec<ActivityEntry>) -> (l: Vec<String>)
    ensures
        row_views(l@) == activity_text(es@),
{
    let mut l: Vec<String> = Vec::new();
    if es.len() == 0 {
        push_line(&mut l, String::from_str("(no issue-file activity in range)"));
        assert(row_views(l@) =~= activity_text(es@));
        return l;
    }
    let mut i: usize = 0;
    while i < es.len()
        invariant
            i <= es.len(),
            row_views(l@) == Seq::new(i as nat, |k: int| activity_row(es@[k])),
        decreases es.len() - i,
    {
        let e = &es[i];
        let mut m = e.date.clone();
        m.append("  ");
        m.append(e.sha.as_str());
        m.append("  ");
        m.append(join_strings(&e.slugs, ",").as_str());
        m.append("  ");
        m.append(e.summary.as_str());
        push_line(&mut l, m);
        i = i + 1;
        assert(row_views(l@) =~= Seq::new(i as nat, |k: int| activity_row(es@[k])));
    }
    assert(row_views(l@) =~= activity_text(es@));
    l
}

/// One status change in an issue's history.
pub struct TimelineEvent {
    pub date: String,
    pub sha: String,
    /// The status before; none for the commit that created the issue.
    pub prev_status: Option<String>,
    pub status: String,
    pub summary: String,
}

pub open spec fn transition_text(e: TimelineEvent) -> Seq<char> {
    match e.prev_status {
        Some(p) => p@ + " → "@ + e.status@,
        None => "(created) "@ + e.status@,
    }
}

pub open spec fn timeline_row(e: TimelineEvent) -> Seq<char> {
    e.date@ + "  "@ + e.sha@ + "  "@ + pad_right(transition_text(e), 28) + " "@ + e.summary@
}

pub open spec fn timeline_text(slug: Seq<char>, es: Seq<TimelineEvent>) -> Seq<Seq<char>> {
    if es.len() == 0 {
        seq!["(no history for "@ + slug + ")"@]
    } else {
        Seq::new(es.len(), |i: int| timeline_row(es[i]))
    }
}

fn timeline_line(e: &TimelineEvent) -> (r: String)
    ensures
        r@ == timeline_row(*e),
{
    let arrow = match &e.prev_status {
        Some(p) => {
            let mut a = p.clone();
            a.append(" → ");
            a.append(e.status.as_str());
            a
        },
        None => {
            let mut a = String::from_str("(created) ");
            a.append(e.status.as_str());
            a
        },
    };
    let mut m = e.date.clone();
    m.append("  ");
    m.append(e.sha.as_str());
    m.append("  ");
    push_padded(&mut m, arrow.as_str(), 28);
    m.append(" ");
    m.append(e.summary.as_str());
    assert(m@ =~= timeline_row(*e));
    m
}

/// The lines of `timeline`: one per status change, or a notice when the
/// issue has no history.
pub fn timeline_lines(slug: &str, es: &Vec<TimelineEvent>) -> (l: Vec<String>)
    ensures
        row_views(l@) == timeline_text(slug@, es@),
{
    let mut l: Vec<String> = Vec::new();
    if es.len() == 0 {
        let mut m = String::from_str("(no history for ");
        m.append(slug);
        m.append(")");
        push_line(&mut l, m);
        assert(row_views(l@) =~= timeline_text(slug@, es@));
        return l;
    }
    let mut i: usize = 0;
    while i < es.len()
        invariant
            i <= es.len(),
            row_views(l@) == Seq::new(i as nat, |k: int| timeline_row(es@[k])),
        decreases es.len() - i,
    {
        push_line(&mut l, timeline_line(&es[i]));
        i = i + 1;
        assert(row_views(l@) =~= Seq::new(i as nat, |k: int| timeline_row(es@[k])));
    }
    assert(row_views(l@) =~= timeline_text(slug@, es@));
    l
}

} // verus!
