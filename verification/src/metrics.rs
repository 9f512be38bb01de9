//! The text of `metrics`: throughput, cycle-time statistics and the
//! per-assignee tallies of a window.
use vstd::prelude::*;
use crate::number::{decimal_digits, decimal_string, decimal_string_i64, signed_digits};
use crate::report::{pad_right, push_line, push_padded};
use crate::tree::row_views;

verus! {

/// Cycle-time statistics, each number already written out.
pub struct CycleTimeText {
    pub median: String,
    pub p90: String,
    /// The mean, with one decimal.
    pub mean: String,
    pub sample: usize,
}

/// What `metrics` reports of a window.
pub struct MetricsView {
    /// The window in days; none for all time.
    pub since_days: Option<i64>,
    pub throughput: usize,
    pub cycle_time: Option<CycleTimeText>,
    pub closed_by_assignee: Vec<(String, usize)>,
    pub workload_by_assignee: Vec<(String, usize)>,
}

pub open spec fn assignee_row(k: Seq<char>, v: usize) -> Seq<char> {
    "  "@ + pad_right(k, 20) + " "@ + decimal_digits(v as nat)
}

/// A tally under its heading after a blank line; nothing when empty.
pub open spec fn assignee_block(heading: Seq<char>, t: Seq<(String, usize)>) -> Seq<Seq<char>> {
    if t.len() == 0 {
        seq![]
    } else {
        seq![seq![], heading] + Seq::new(t.len(), |i: int| assignee_row(t[i].0@, t[i].1))
    }
}

pub open spec fn cycle_time_line(c: Option<CycleTimeText>) -> Seq<char> {
    match c {
        Some(cs) => "  cycle time (days): median "@ + cs.median@ + ", p90 "@ + cs.p90@ + ", mean "@ + cs.mean@
            + " (n="@ + decimal_digits(cs.sample as nat) + ")"@,
        None => "  cycle time: (no samples)"@,
    }
}

pub open spec fn metrics_text(m: MetricsView) -> Seq<Seq<char>> {
    seq![
        match m.since_days {
            Some(d) => "Since "@ + signed_digits(d as int) + "d:"@,
            None => "All-time:"@,
        },
        "  throughput: "@ + decimal_digits(m.throughput as nat),
        cycle_time_line(m.cycle_time),
    ] + assignee_block("Closed in window by assignee:"@, m.closed_by_assignee@) + assignee_block(
        "Open workload by assignee:"@,
        m.workload_by_assignee@,
    )
}

fn push_assignee_block(l: &mut Vec<String>, heading: &str, t: &Vec<(String, usize)>)
    ensures
        row_views(final(l)@) == row_views(old(l)@) + assignee_block(heading@, t@),
{
    if t.len() == 0 {
        assert(row_views(l@) =~= row_views(old(l)@) + assignee_block(heading@, t@));
        return;
    }
    let blank = String::new();
    assert(blank@ =~= Seq::<char>::empty());
    push_line(l, blank);
    push_line(l, String::from_str(heading));
    let ghost top = row_views(l@);
    assert(top =~= row_views(old(l)@) + seq![seq![], heading@]);
    let mut i: usize = 0;
    while i < t.len()
        invariant
            i <= t.len(),
            row_views(l@) == top + Seq::new(i as nat, |k: int| assignee_row(t@[k].0@, t@[k].1)),
        decreases t.len() - i,
    {
        let mut m = String::from_str("  ");
        push_padded(&mut m, t[i].0.as_str(), 20);
        m.append(" ");
        m.append(decimal_string(t[i].1).as_str());
        assert(m@ =~= assignee_row(t@[i as int].0@, t@[i as int].1));
        push_line(l, m);
        i = i + 1;
        assert(row_views(l@) =~= top + Seq::new(i as nat, |k: int| assignee_row(t@[k].0@, t@[k].1)));
    }
    assert(row_views(l@) =~= row_views(old(l)@) + assignee_block(heading@, t@));
}

/// The lines of `metrics`.
pub fn metrics_lines(m: &MetricsView) -> (l: Vec<String>)
    ensures
        row_views(l@) == metrics_text(*m),
{
    let mut l: Vec<String> = Vec::new();
    let head = match m.since_days {
        Some(d) => {
            let mut h = String::from_str("Since ");
            h.append(decimal_string_i64(d).as_str());
            h.append("d:");
            h
        },
        None => String::from_str("All-time:"),
    };
    l.push(head);
    let mut t = String::from_str("  throughput: ");
    t.append(decimal_string(m.throughput).as_str());
    l.push(t);
    let c = match &m.cycle_time {
        Some(cs) => {
            let mut c = String::from_str("  cycle time (days): median ");
            c.append(cs.median.as_str());
            c.append(", p90 ");
            c.append(cs.p90.as_str());
            c.append(", mean ");
            c.append(cs.mean.as_str());
            c.append(" (n=");
            c.append(decimal_string(cs.sample).as_str());
            c.append(")");
            c
        },
        None => String::from_str("  cycle time: (no samples)"),
    };
    assert(c@ =~= cycle_time_line(m.cycle_time));
    l.push(c);
    assert(row_views(l@) =~= seq![head@, t@, c@]);
    push_assignee_block(&mut l, "Closed in window by assignee:", &m.closed_by_assignee);
    push_assignee_block(&mut l, "Open workload by assignee:", &m.workload_by_assignee);
    assert(row_views(l@) =~= metrics_text(*m));
    l
}

} // verus!
