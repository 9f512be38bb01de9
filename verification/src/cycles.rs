//! The text of `cycle status`: one roll-up row per cycle, or one cycle's
//! counts with its open issues tallied by status and by type.
use vstd::prelude::*;
use crate::number::{decimal_digits, decimal_string};
use crate::report::{pad_left, pad_right, push_line, push_padded, push_padded_left};
use crate::table::{cells_fit, issue_table_lines, table_lines, IssueRow};
use crate::tree::row_views;

verus! {

/// How many issues of a cycle are open and closed.
pub struct CycleRollup {
    pub cycle: String,
    pub open: usize,
    pub closed: usize,
    pub total: usize,
}

/// The columns of the roll-up table: cycle in 14 characters, then the
/// counts right-aligned in 5, 7 and 6.
pub open spec fn rollup_row(cycle: Seq<char>, open: Seq<char>, closed: Seq<char>, total: Seq<char>) -> Seq<char> {
    pad_right(cycle, 14) + " "@ + pad_left(open, 5) + " "@ + pad_left(closed, 7) + " "@ + pad_left(total, 6)
}

pub open spec fn rollup_text(r: CycleRollup) -> Seq<char> {
    rollup_row(r.cycle@, decimal_digits(r.open as nat), decimal_digits(r.closed as nat), decimal_digits(r.total as nat))
}

pub open spec fn rollups_text(rs: Seq<CycleRollup>) -> Seq<Seq<char>> {
    if rs.len() == 0 {
        seq!["(no cycles found)"@]
    } else {
        seq![rollup_row("CYCLE"@, "OPEN"@, "CLOSED"@, "TOTAL"@)] + Seq::new(rs.len(), |i: int| rollup_text(rs[i]))
    }
}

fn rollup_line(cycle: &str, open: &str, closed: &str, total: &str) -> (s: String)
    ensures
        s@ == rollup_row(cycle@, open@, closed@, total@),
{
    let mut m = String::new();
    push_padded(&mut m, cycle, 14);
    m.append(" ");
    push_padded_left(&mut m, open, 5);
    m.append(" ");
    push_padded_left(&mut m, closed, 7);
    m.append(" ");
    push_padded_left(&mut m, total, 6);
    assert(m@ =~= rollup_row(cycle@, open@, closed@, total@));
    m
}

/// The roll-up table of every cycle, or a notice when there is none.
pub fn cycle_rollup_lines(rs: &Vec<CycleRollup>) -> (l: Vec<String>)
    ensures
        row_views(l@) == rollups_text(rs@),
{
    let mut l: Vec<String> = Vec::new();
    if rs.len() == 0 {
        l.push(String::from_str("(no cycles found)"));
        assert(row_views(l@) =~= rollups_text(rs@));
        return l;
    }
    l.push(rollup_line("CYCLE", "OPEN", "CLOSED", "TOTAL"));
    let ghost top = row_views(l@);
    let mut i: usize = 0;
    while i < rs.len()
        invariant
            i <= rs.len(),
            row_views(l@) == top + Seq::new(i as nat, |k: int| rollup_text(rs@[k])),
        decreases rs.len() - i,
    {
        let r = &rs[i];
        let line = rollup_line(
            r.cycle.as_str(),
            decimal_string(r.open).as_str(),
            decimal_string(r.closed).as_str(),
            decimal_string(r.total).as_str(),
        );
        let ghost before = row_views(l@);
        l.push(line);
        assert(row_views(l@) =~= before.push(line@));
        i = i + 1;
        assert(row_views(l@) =~= top + Seq::new(i as nat, |k: int| rollup_text(rs@[k])));
    }
    assert(row_views(l@) =~= rollups_text(rs@));
    l
}

/// One cycle's counts, with its open issues tallied by status and by type.
pub struct CycleStatus {
    pub cycle: String,
    pub open: usize,
    pub closed: usize,
    pub total: usize,
    pub by_status: Vec<(String, usize)>,
    pub by_type: Vec<(String, usize)>,
}

pub open spec fn tally_row(k: Seq<char>, v: usize) -> Seq<char> {
    "  "@ + pad_right(k, 14) + " "@ + decimal_digits(v as nat)
}

/// A tally under its heading after a blank line; nothing when it is empty.
pub open spec fn tally_block(heading: Seq<char>, t: Seq<(String, usize)>) -> Seq<Seq<char>> {
    if t.len() == 0 {
        seq![]
    } else {
        seq![seq![], heading] + Seq::new(t.len(), |i: int| tally_row(t[i].0@, t[i].1))
    }
}

pub open spec fn cycle_status_text(s: CycleStatus) -> Seq<Seq<char>> {
    seq![
        "Cycle "@ + s.cycle@ + ":  open: "@ + decimal_digits(s.open as nat) + ", closed: "@ + decimal_digits(
            s.closed as nat,
        ) + ", total: "@ + decimal_digits(s.total as nat),
    ] + tally_block("By status (open):"@, s.by_status@) + tally_block("By type (open):"@, s.by_type@)
}

fn push_tally_block(l: &mut Vec<String>, heading: &str, t: &Vec<(String, usize)>)
    ensures
        row_views(final(l)@) == row_views(old(l)@) + tally_block(heading@, t@),
{
    if t.len() == 0 {
        assert(row_views(l@) =~= row_views(old(l)@) + tally_block(heading@, t@));
        return;
    }
    let blank = String::new();
    assert(blank@ =~= Seq::<char>::empty());
    push_line(l, blank);
    push_line(l, String::from_str(heading));
    let ghost top = row_views(l@);
    assert(top =~= row_views(old(l)@) + seq![seq![], heading@]);
    let mut i: usize = 0;
    while i < t.len()
        invariant
            i <= t.len(),
            row_views(l@) == top + Seq::new(i as nat, |k: int| tally_row(t@[k].0@, t@[k].1)),
        decreases t.len() - i,
    {
        let mut m = String::from_str("  ");
        push_padded(&mut m, t[i].0.as_str(), 14);
        m.append(" ");
        m.append(decimal_string(t[i].1).as_str());
        assert(m@ =~= tally_row(t@[i as int].0@, t@[i as int].1));
        push_line(l, m);
        i = i + 1;
        assert(row_views(l@) =~= top + Seq::new(i as nat, |k: int| tally_row(t@[k].0@, t@[k].1)));
    }
    assert(row_views(l@) =~= row_views(old(l)@) + tally_block(heading@, t@));
}

/// The text of one cycle's status.
pub fn cycle_status_lines(s: &CycleStatus) -> (l: Vec<String>)
    ensures
        row_views(l@) == cycle_status_text(*s),
{
    let mut l: Vec<String> = Vec::new();
    let mut m = String::from_str("Cycle ");
    m.append(s.cycle.as_str());
    m.append(":  open: ");
    m.append(decimal_string(s.open).as_str());
    m.append(", closed: ");
    m.append(decimal_string(s.closed).as_str());
    m.append(", total: ");
    m.append(decimal_string(s.total).as_str());
    l.push(m);
    assert(row_views(l@) =~= seq![m@]);
    push_tally_block(&mut l, "By status (open):", &s.by_status);
    push_tally_block(&mut l, "By type (open):", &s.by_type);
    assert(row_views(l@) =~= cycle_status_text(*s));
    l
}

pub open spec fn cycle_plan_text(cycle: Seq<char>, rows: Seq<IssueRow>) -> Seq<Seq<char>> {
    if rows.len() == 0 {
        seq!["(no issues in cycle "@ + cycle + ")"@]
    } else {
        seq!["Cycle "@ + cycle + ":"@] + table_lines(rows)
    }
}

/// The issues planned for a cycle under its name, or a notice when there
/// are none.
pub fn cycle_plan_lines(cycle: &str, rows: &Vec<IssueRow>) -> (l: Vec<String>)
    requires
        cells_fit(rows@),
    ensures
        row_views(l@) == cycle_plan_text(cycle@, rows@),
{
    let mut l: Vec<String> = Vec::new();
    if rows.len() == 0 {
        let mut m = String::from_str("(no issues in cycle ");
        m.append(cycle);
        m.append(")");
        l.push(m);
        assert(row_views(l@) =~= cycle_plan_text(cycle@, rows@));
        return l;
    }
    let mut m = String::from_str("Cycle ");
    m.append(cycle);
    m.append(":");
    l.push(m);
    let t = issue_table_lines(rows);
    let mut i: usize = 0;
    while i < t.len()
        invariant
            i <= t.len(),
            row_views(l@) == seq![m@] + row_views(t@).take(i as int),
        decreases t.len() - i,
    {
        let ghost before = row_views(l@);
        l.push(t[i].clone());
        assert(row_views(l@) =~= before.push(t@[i as int]@));
        i = i + 1;
        assert(row_views(l@) =~= seq![m@] + row_views(t@).take(i as int));
    }
    assert(row_views(t@).take(i as int) =~= row_views(t@));
    l
}

} // verus!
