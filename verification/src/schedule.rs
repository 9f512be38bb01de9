//! The text of `schedule list` and `schedule run`: the recurrence
//! definitions, and what one run materialised, subscribed, capped or failed.
use vstd::prelude::*;
use crate::number::{decimal_digits, decimal_string};
use crate::report::{pad_right, push_line, push_padded};
use crate::text::{debug_quote, debug_str};
use crate::tree::row_views;

verus! {

/// One recurrence definition.
pub struct RecurrenceDef {
    pub name: String,
    /// Its cron expression.
    pub schedule: String,
    pub title: String,
}

pub open spec fn schedule_row(name: Seq<char>, schedule: Seq<char>, title: Seq<char>) -> Seq<char> {
    pad_right(name, 24) + " "@ + pad_right(schedule, 18) + " "@ + title
}

pub open spec fn schedule_list_text(defs: Seq<RecurrenceDef>) -> Seq<Seq<char>> {
    if defs.len() == 0 {
        seq!["(no recurrences in .issuectl/recurrences/)"@]
    } else {
        seq![schedule_row("NAME"@, "SCHEDULE"@, "TITLE"@)] + Seq::new(
            defs.len(),
            |i: int| schedule_row(defs[i].name@, defs[i].schedule@, defs[i].title@),
        )
    }
}

fn schedule_line(name: &str, schedule: &str, title: &str) -> (s: String)
    ensures
        s@ == schedule_row(name@, schedule@, title@),
{
    let mut m = String::new();
    push_padded(&mut m, name, 24);
    m.append(" ");
    push_padded(&mut m, schedule, 18);
    m.append(" ");
    m.append(title);
    assert(m@ =~= schedule_row(name@, schedule@, title@));
    m
}

/// The recurrence table: name in 24 characters, schedule in 18, title; or
/// a notice when none is defined.
pub fn schedule_list_lines(defs: &Vec<RecurrenceDef>) -> (l: Vec<String>)
    ensures
        row_views(l@) == schedule_list_text(defs@),
{
    let mut l: Vec<String> = Vec::new();
    if defs.len() == 0 {
        l.push(String::from_str("(no recurrences in .issuectl/recurrences/)"));
        assert(row_views(l@) =~= schedule_list_text(defs@));
        return l;
    }
    l.push(schedule_line("NAME", "SCHEDULE", "TITLE"));
    let ghost top = row_views(l@);
    let mut i: usize = 0;
    while i < defs.len()
        invariant
            i <= defs.len(),
            row_views(l@) == top + Seq::new(
                i as nat,
                |k: int| schedule_row(defs@[k].name@, defs@[k].schedule@, defs@[k].title@),
            ),
        decreases defs.len() - i,
    {
        let d = &defs[i];
        let line = schedule_line(d.name.as_str(), d.schedule.as_str(), d.title.as_str());
        push_line(&mut l, line);
        i = i + 1;
        assert(row_views(l@) =~= top + Seq::new(
            i as nat,
            |k: int| schedule_row(defs@[k].name@, defs@[k].schedule@, defs@[k].title@),
        ));
    }
    assert(row_views(l@) =~= schedule_list_text(defs@));
    l
}

/// One occurrence that a run materialised (or would have).
pub struct Materialized {
    pub recurrence: String,
    /// The occurrence's timestamp.
    pub occurrence: String,
    /// The slug of the issue it became.
    pub slug: String,
}

/// What one run of the scheduler did.
pub struct ScheduleRun {
    pub recurrences_evaluated: usize,
    pub materialized: Vec<Materialized>,
    /// Recurrences seen for the first time.
    pub subscribed: Vec<String>,
    /// Recurrences that hit the per-run catch-up cap.
    pub capped: Vec<String>,
    /// Recurrences that failed, with the message.
    pub errors: Vec<(String, String)>,
}

pub open spec fn materialized_row(m: Materialized, dry_run: bool) -> Seq<char> {
    if dry_run {
        "[dry-run] would materialize "@ + m.recurrence@ + " @ "@ + m.occurrence@
    } else {
        "materialized "@ + m.recurrence@ + " @ "@ + m.occurrence@ + " → "@ + m.slug@
    }
}

/// The stdout lines of a run.
pub open spec fn schedule_run_out(r: ScheduleRun, dry_run: bool) -> Seq<Seq<char>> {
    if r.materialized@.len() == 0 {
        seq![
            if dry_run {
                "[dry-run] "@
            } else {
                seq![]
            } + "no occurrences due ("@ + decimal_digits(r.recurrences_evaluated as nat) + " recurrence(s) evaluated)"@,
        ]
    } else {
        Seq::new(r.materialized@.len(), |i: int| materialized_row(r.materialized@[i], dry_run))
    }
}

pub open spec fn subscribed_row(name: Seq<char>) -> Seq<char> {
    "subscribed recurrence "@ + debug_str(name) + " at this run; first issue will materialize at next cron tick"@
}

pub open spec fn capped_row(name: Seq<char>, cap: usize) -> Seq<char> {
    "warning: recurrence "@ + debug_str(name) + " hit the per-run catch-up cap ("@ + decimal_digits(cap as nat)
        + " occurrences); rerun to continue"@
}

/// The stderr lines of a run: each new subscription, each capped
/// recurrence (with the cap), then each failure.
pub open spec fn schedule_run_err(r: ScheduleRun, cap: usize) -> Seq<Seq<char>> {
    Seq::new(r.subscribed@.len(), |i: int| subscribed_row(r.subscribed@[i]@)) + Seq::new(
        r.capped@.len(),
        |i: int| capped_row(r.capped@[i]@, cap),
    ) + Seq::new(r.errors@.len(), |i: int| "warning: recurrence "@ + r.errors@[i].0@ + ": "@ + r.errors@[i].1@)
}

/// The lines of a scheduler run.
pub struct ScheduleLines {
    pub out: Vec<String>,
    pub err: Vec<String>,
}

fn materialized_line(m: &Materialized, dry_run: bool) -> (s: String)
    ensures
        s@ == materialized_row(*m, dry_run),
{
    let mut s = if dry_run {
        String::from_str("[dry-run] would materialize ")
    } else {
        String::from_str("materialized ")
    };
    s.append(m.recurrence.as_str());
    s.append(" @ ");
    s.append(m.occurrence.as_str());
    if !dry_run {
        s.append(" → ");
        s.append(m.slug.as_str());
    }
    assert(s@ =~= materialized_row(*m, dry_run));
    s
}

/// The report of one scheduler run; `cap` is the per-run catch-up limit.
pub fn schedule_run_lines(r: &ScheduleRun, dry_run: bool, cap: usize) -> (l: ScheduleLines)
    ensures
        row_views(l.out@) == schedule_run_out(*r, dry_run),
        row_views(l.err@) == schedule_run_err(*r, cap),
{
    let mut out: Vec<String> = Vec::new();
    if r.materialized.len() == 0 {
        let mut m = if dry_run {
            String::from_str("[dry-run] ")
        } else {
            String::new()
        };
        let ghost p = m@;
        m.append("no occurrences due (");
        m.append(decimal_string(r.recurrences_evaluated).as_str());
        m.append(" recurrence(s) evaluated)");
        proof {
            if !dry_run {
                assert(p =~= Seq::<char>::empty());
            }
        }
        out.push(m);
        assert(row_views(out@) =~= schedule_run_out(*r, dry_run));
    } else {
        let mut i: usize = 0;
        while i < r.materialized.len()
            invariant
                i <= r.materialized.len(),
                row_views(out@) == Seq::new(i as nat, |k: int| materialized_row(r.materialized@[k], dry_run)),
            decreases r.materialized.len() - i,
        {
            push_line(&mut out, materialized_line(&r.materialized[i], dry_run));
            i = i + 1;
            assert(row_views(out@) =~= Seq::new(i as nat, |k: int| materialized_row(r.materialized@[k], dry_run)));
        }
    }
    let mut err: Vec<String> = Vec::new();
    let mut i: usize = 0;
    while i < r.subscribed.len()
        invariant
            i <= r.subscribed.len(),
            row_views(err@) == Seq::new(i as nat, |k: int| subscribed_row(r.subscribed@[k]@)),
        decreases r.subscribed.len() - i,
    {
        let mut m = String::from_str("subscribed recurrence ");
        m.append(debug_quote(r.subscribed[i].as_str()).as_str());
        m.append(" at this run; first issue will materialize at next cron tick");
        push_line(&mut err, m);
        i = i + 1;
        assert(row_views(err@) =~= Seq::new(i as nat, |k: int| subscribed_row(r.subscribed@[k]@)));
    }
    let ghost a = row_views(err@);
    let mut j: usize = 0;
    while j < r.capped.len()
        invariant
            j <= r.capped.len(),
            row_views(err@) == a + Seq::new(j as nat, |k: int| capped_row(r.capped@[k]@, cap)),
        decreases r.capped.len() - j,
    {
        let mut m = String::from_str("warning: recurrence ");
        m.append(debug_quote(r.capped[j].as_str()).as_str());
        m.append(" hit the per-run catch-up cap (");
        m.append(decimal_string(cap).as_str());
        m.append(" occurrences); rerun to continue");
        push_line(&mut err, m);
        j = j + 1;
        assert(row_views(err@) =~= a + Seq::new(j as nat, |k: int| capped_row(r.capped@[k]@, cap)));
    }
    let ghost b = row_views(err@);
    let mut e: usize = 0;
    while e < r.errors.len()
        invariant
            e <= r.errors.len(),
            row_views(err@) == b + Seq::new(
                e as nat,
                |k: int| "warning: recurrence "@ + r.errors@[k].0@ + ": "@ + r.errors@[k].1@,
            ),
        decreases r.errors.len() - e,
    {
        let mut m = String::from_str("warning: recurrence ");
        m.append(r.errors[e].0.as_str());
        m.append(": ");
        m.append(r.errors[e].1.as_str());
        push_line(&mut err, m);
        e = e + 1;
        assert(row_views(err@) =~= b + Seq::new(
            e as nat,
            |k: int| "warning: recurrence "@ + r.errors@[k].0@ + ": "@ + r.errors@[k].1@,
        ));
    }
    assert(row_views(err@) =~= schedule_run_err(*r, cap));
    ScheduleLines { out, err }
}

} // verus!
