//! The text of `stale` and `archive`: the issues that saw no activity for a
//! number of days, and the closed issues moved to the archive.
use vstd::prelude::*;
use crate::number::{decimal_digits, decimal_string, decimal_string_i64, signed_digits};
use crate::report::push_line;
use crate::tree::row_views;

verus! {

/// An issue with no activity for a while.
pub struct StaleIssue {
    pub slug: String,
    pub status: String,
    pub in_progress: bool,
    pub days_inactive: i64,
    /// When it last saw activity.
    pub last_activity: String,
    /// Where that activity was seen.
    pub source: String,
    pub assignee: Option<String>,
}

pub open spec fn stale_row(s: StaleIssue) -> Seq<char> {
    "  "@ + s.slug@ + " ("@ + s.status@ + ")"@ + if s.in_progress {
        " [in-progress]"@
    } else {
        seq![]
    } + "  "@ + signed_digits(s.days_inactive as int) + " days, last "@ + s.last_activity@ + " via "@ + s.source@
        + match s.assignee {
        Some(a) => " — "@ + a@,
        None => seq![],
    }
}

/// The stale report for a threshold of `days`: a notice when nothing is
/// stale, else a count and one row per issue.
pub open spec fn stale_text(days: i64, stale: Seq<StaleIssue>) -> Seq<Seq<char>> {
    if stale.len() == 0 {
        seq!["No issues stale for "@ + signed_digits(days as int) + "+ days."@]
    } else {
        seq![
            decimal_digits(stale.len()) + " issue(s) with no activity in "@ + signed_digits(days as int)
                + "+ days:"@,
        ] + Seq::new(stale.len(), |i: int| stale_row(stale[i]))
    }
}

fn stale_line(s: &StaleIssue) -> (r: String)
    ensures
        r@ == stale_row(*s),
{
    let mut m = String::from_str("  ");
    m.append(s.slug.as_str());
    m.append(" (");
    m.append(s.status.as_str());
    m.append(")");
    let ghost a = m@;
    if s.in_progress {
        m.append(" [in-progress]");
    }
    let ghost b = m@;
    assert(b =~= a + if s.in_progress {
        " [in-progress]"@
    } else {
        seq![]
    });
    m.append("  ");
    m.append(decimal_string_i64(s.days_inactive).as_str());
    m.append(" days, last ");
    m.append(s.last_activity.as_str());
    m.append(" via ");
    m.append(s.source.as_str());
    match &s.assignee {
        Some(a) => {
            m.append(" — ");
            m.append(a.as_str());
        },
        None => {},
    }
    assert(m@ =~= stale_row(*s));
    m
}

/// The lines of the stale report.
pub fn stale_lines(days: i64, stale: &Vec<StaleIssue>) -> (l: Vec<String>)
    ensures
        row_views(l@) == stale_text(days, stale@),
{
    let mut l: Vec<String> = Vec::new();
    if stale.len() == 0 {
        let mut m = String::from_str("No issues stale for ");
        m.append(decimal_string_i64(days).as_str());
        m.append("+ days.");
        push_line(&mut l, m);
        assert(row_views(l@) =~= stale_text(days, stale@));
        return l;
    }
    let mut m = decimal_string(stale.len());
    m.append(" issue(s) with no activity in ");
    m.append(decimal_string_i64(days).as_str());
    m.append("+ days:");
    push_line(&mut l, m);
    let ghost top = row_views(l@);
    let mut i: usize = 0;
    while i < stale.len()
        invariant
            i <= stale.len(),
            row_views(l@) == top + Seq::new(i as nat, |k: int| stale_row(stale@[k])),
        decreases stale.len() - i,
    {
        push_line(&mut l, stale_line(&stale[i]));
        i = i + 1;
        assert(row_views(l@) =~= top + Seq::new(i as nat, |k: int| stale_row(stale@[k])));
    }
    assert(row_views(l@) =~= stale_text(days, stale@));
    l
}

/// The lines of an archive run.
pub struct ArchiveLines {
    pub out: Vec<String>,
    pub err: Vec<String>,
}

/// The archive report: what was moved where (each move a `(slug,
/// destination)` pair), or a notice when nothing was; and on stderr each
/// skipped issue (a `(slug, reason)` pair).
pub open spec fn archive_out(older_than: i64, dry_run: bool, moved: Seq<(String, String)>) -> Seq<Seq<char>> {
    if moved.len() == 0 {
        seq!["Nothing to archive (closed "@ + signed_digits(older_than as int) + "+ days ago)."@]
    } else {
        seq![
            if dry_run {
                "Would archive"@
            } else {
                "Archived"@
            } + " "@ + decimal_digits(moved.len()) + " issue(s):"@,
        ] + Seq::new(moved.len(), |i: int| "  "@ + moved[i].0@ + " → "@ + moved[i].1@)
    }
}

pub open spec fn archive_err(skipped: Seq<(String, String)>) -> Seq<Seq<char>> {
    Seq::new(skipped.len(), |i: int| "Warning: skipped "@ + skipped[i].0@ + " ("@ + skipped[i].1@ + ")"@)
}

/// The lines of the archive report.
pub fn archive_lines(older_than: i64, dry_run: bool, moved: &Vec<(String, String)>, skipped: &Vec<(String, String)>) -> (l: ArchiveLines)
    ensures
        row_views(l.out@) == archive_out(older_than, dry_run, moved@),
        row_views(l.err@) == archive_err(skipped@),
{
    let mut out: Vec<String> = Vec::new();
    if moved.len() == 0 {
        let mut m = String::from_str("Nothing to archive (closed ");
        m.append(decimal_string_i64(older_than).as_str());
        m.append("+ days ago).");
        push_line(&mut out, m);
        assert(row_views(out@) =~= archive_out(older_than, dry_run, moved@));
    } else {
        let mut m = if dry_run {
            String::from_str("Would archive")
        } else {
            String::from_str("Archived")
        };
        m.append(" ");
        m.append(decimal_string(moved.len()).as_str());
        m.append(" issue(s):");
        push_line(&mut out, m);
        let ghost top = row_views(out@);
        let mut i: usize = 0;
        while i < moved.len()
            invariant
                i <= moved.len(),
                row_views(out@) == top + Seq::new(i as nat, |k: int| "  "@ + moved@[k].0@ + " → "@ + moved@[k].1@),
            decreases moved.len() - i,
        {
            let mut r = String::from_str("  ");
            r.append(moved[i].0.as_str());
            r.append(" → ");
            r.append(moved[i].1.as_str());
            push_line(&mut out, r);
            i = i + 1;
            assert(row_views(out@) =~= top + Seq::new(i as nat, |k: int| "  "@ + moved@[k].0@ + " → "@ + moved@[k].1@));
        }
        assert(row_views(out@) =~= archive_out(older_than, dry_run, moved@));
    }
    let mut err: Vec<String> = Vec::new();
    let mut j: usize = 0;
    while j < skipped.len()
        invariant
            j <= skipped.len(),
            row_views(err@) == archive_err(skipped@.take(j as int)),
        decreases skipped.len() - j,
    {
        let mut w = String::from_str("Warning: skipped ");
        w.append(skipped[j].0.as_str());
        w.append(" (");
        w.append(skipped[j].1.as_str());
        w.append(")");
        push_line(&mut err, w);
        j = j + 1;
        assert(row_views(err@) =~= archive_err(skipped@.take(j as int)));
    }
    assert(skipped@.take(j as int) =~= skipped@);
    ArchiveLines { out, err }
}

} // verus!
