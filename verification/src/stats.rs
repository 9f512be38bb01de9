//! `stats`: how many issues sit in each folder, and the keys of the open
//! issues that the tallies by type, status, priority and assignee count.
use vstd::prelude::*;
use crate::number::{decimal_digits, decimal_string};
use crate::keys::views;
use crate::text::str_eq;

verus! {

/// The fields of an issue that `stats` reads.
pub struct StatIssue {
    pub folder: String,
    pub issue_type: String,
    pub status: String,
    pub priority: String,
    /// The assignee, or the owner where no assignee is set; empty for none.
    pub assignee: String,
}

/// The field that a tally groups by.
pub enum StatField {
    Type,
    Status,
    Priority,
    Assignee,
}

/// How many of `issues` sit in `folder`.
pub open spec fn folder_count(issues: Seq<StatIssue>, folder: Seq<char>) -> nat
    decreases issues.len(),
{
    if issues.len() == 0 {
        0
    } else {
        folder_count(issues.drop_last(), folder) + if issues.last().folder@ == folder {
            1nat
        } else {
            0nat
        }
    }
}

/// The key by which an issue is tallied; an issue with no assignee is
/// tallied under `(none)`.
pub open spec fn stat_key(i: StatIssue, f: StatField) -> Seq<char> {
    match f {
        StatField::Type => i.issue_type@,
        StatField::Status => i.status@,
        StatField::Priority => i.priority@,
        StatField::Assignee => if i.assignee@.len() == 0 {
            "(none)"@
        } else {
            i.assignee@
        },
    }
}

/// The keys of the open issues, in order.
pub open spec fn open_key_seq(issues: Seq<StatIssue>, f: StatField) -> Seq<Seq<char>>
    decreases issues.len(),
{
    if issues.len() == 0 {
        seq![]
    } else if issues.last().folder@ == "open"@ {
        open_key_seq(issues.drop_last(), f).push(stat_key(issues.last(), f))
    } else {
        open_key_seq(issues.drop_last(), f)
    }
}

pub open spec fn totals_text(issues: Seq<StatIssue>) -> Seq<char> {
    "Total: "@ + decimal_digits(issues.len()) + "  (open: "@ + decimal_digits(folder_count(issues, "open"@))
        + ", closed: "@ + decimal_digits(folder_count(issues, "closed"@)) + ")"@
}

proof fn lemma_folder_count_bounded(issues: Seq<StatIssue>, folder: Seq<char>)
    ensures
        folder_count(issues, folder) <= issues.len(),
    decreases issues.len(),
{
    if issues.len() > 0 {
        lemma_folder_count_bounded(issues.drop_last(), folder);
    }
}

/// How many of `issues` sit in `folder`.
pub fn count_in_folder(issues: &Vec<StatIssue>, folder: &str) -> (n: usize)
    ensures
        n == folder_count(issues@, folder@),
{
    let mut n: usize = 0;
    let mut i: usize = 0;
    while i < issues.len()
        invariant
            i <= issues.len(),
            n == folder_count(issues@.take(i as int), folder@),
        decreases issues.len() - i,
    {
        proof {
            assert(issues@.take(i + 1).drop_last() =~= issues@.take(i as int));
            lemma_folder_count_bounded(issues@.take(i + 1), folder@);
        }
        if str_eq(issues[i].folder.as_str(), folder) {
            n = n + 1;
        }
        i = i + 1;
    }
    assert(issues@.take(i as int) =~= issues@);
    n
}

/// The first line of `stats`: all issues, then the open and closed ones.
pub fn stats_totals_line(issues: &Vec<StatIssue>) -> (s: String)
    ensures
        s@ == totals_text(issues@),
{
    let mut m = String::from_str("Total: ");
    m.append(decimal_string(issues.len()).as_str());
    m.append("  (open: ");
    m.append(decimal_string(count_in_folder(issues, "open")).as_str());
    m.append(", closed: ");
    m.append(decimal_string(count_in_folder(issues, "closed")).as_str());
    m.append(")");
    assert(m@ =~= totals_text(issues@));
    m
}

fn key_of(i: &StatIssue, f: &StatField) -> (k: String)
    ensures
        k@ == stat_key(*i, *f),
{
    match f {
        StatField::Type => i.issue_type.clone(),
        StatField::Status => i.status.clone(),
        StatField::Priority => i.priority.clone(),
        StatField::Assignee => {
            if i.assignee.as_str().unicode_len() == 0 {
                String::from_str("(none)")
            } else {
                i.assignee.clone()
            }
        },
    }
}

/// The key of each open issue under `f`, in order: what a tally of the open
/// issues counts.
pub fn open_keys(issues: &Vec<StatIssue>, f: StatField) -> (r: Vec<String>)
    ensures
        views(r@) == open_key_seq(issues@, f),
{
    let mut r: Vec<String> = Vec::new();
    let mut i: usize = 0;
    while i < issues.len()
        invariant
            i <= issues.len(),
            views(r@) == open_key_seq(issues@.take(i as int), f),
        decreases issues.len() - i,
    {
        proof {
            assert(issues@.take(i + 1).drop_last() =~= issues@.take(i as int));
        }
        if str_eq(issues[i].folder.as_str(), "open") {
            let k = key_of(&issues[i], &f);
            let ghost before = views(r@);
            r.push(k);
            assert(views(r@) =~= before.push(k@));
        }
        i = i + 1;
    }
    assert(issues@.take(i as int) =~= issues@);
    r
}

} // verus!
