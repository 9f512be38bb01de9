//! What the mutating commands print once a write (or a planned write) is
//! done: the issues a bulk edit touched, with their diffs when planned, and
//! the one-line confirmation of the single-issue verbs.
use vstd::prelude::*;
use crate::number::{decimal_digits, decimal_string};
use crate::report::push_line;
use crate::tree::row_views;

verus! {

/// One issue that a bulk edit matched.
pub struct BulkOutcome {
    pub slug: String,
    /// The planned change, on a dry run.
    pub diff: Option<String>,
}

/// Each slug on a line of its own, indented.
pub open spec fn slug_block(rs: Seq<BulkOutcome>) -> Seq<char>
    decreases rs.len(),
{
    if rs.len() == 0 {
        seq![]
    } else {
        slug_block(rs.drop_last()) + "  "@ + rs.last().slug@ + "\n"@
    }
}

/// The planned diffs, the empty ones left out.
pub open spec fn diff_block(rs: Seq<BulkOutcome>) -> Seq<char>
    decreases rs.len(),
{
    if rs.len() == 0 {
        seq![]
    } else {
        diff_block(rs.drop_last()) + match rs.last().diff {
            Some(d) => d@,
            None => seq![],
        }
    }
}

/// The text of a bulk edit: a notice when nothing matched; on a dry run,
/// the issues that would change and then each diff; else the issues that
/// changed.
pub open spec fn bulk_report_text(rs: Seq<BulkOutcome>, dry_run: bool) -> Seq<char> {
    if rs.len() == 0 {
        "No issues match the query.\n"@
    } else if dry_run {
        decimal_digits(rs.len()) + " issue(s) would be updated:\n"@ + slug_block(rs) + "\n"@ + diff_block(rs)
    } else {
        "Updated "@ + decimal_digits(rs.len()) + " issue(s):\n"@ + slug_block(rs)
    }
}

fn push_slug_block(out: &mut String, rs: &Vec<BulkOutcome>)
    ensures
        final(out)@ == old(out)@ + slug_block(rs@),
{
    let mut i: usize = 0;
    while i < rs.len()
        invariant
            i <= rs.len(),
            out@ == old(out)@ + slug_block(rs@.take(i as int)),
        decreases rs.len() - i,
    {
        proof {
            assert(rs@.take(i + 1).drop_last() =~= rs@.take(i as int));
        }
        out.append("  ");
        out.append(rs[i].slug.as_str());
        out.append("\n");
        i = i + 1;
        assert(out@ =~= old(out)@ + slug_block(rs@.take(i as int)));
    }
    assert(rs@.take(i as int) =~= rs@);
}

fn push_diff_block(out: &mut String, rs: &Vec<BulkOutcome>)
    ensures
        final(out)@ == old(out)@ + diff_block(rs@),
{
    let mut i: usize = 0;
    while i < rs.len()
        invariant
            i <= rs.len(),
            out@ == old(out)@ + diff_block(rs@.take(i as int)),
        decreases rs.len() - i,
    {
        proof {
            assert(rs@.take(i + 1).drop_last() =~= rs@.take(i as int));
        }
        match &rs[i].diff {
            Some(d) => out.append(d.as_str()),
            None => {},
        }
        i = i + 1;
        assert(out@ =~= old(out)@ + diff_block(rs@.take(i as int)));
    }
    assert(rs@.take(i as int) =~= rs@);
}

/// The text of a bulk edit (see `bulk_report_text`).
pub fn bulk_report(rs: &Vec<BulkOutcome>, dry_run: bool) -> (t: String)
    ensures
        t@ == bulk_report_text(rs@, dry_run),
{
    if rs.len() == 0 {
        return String::from_str("No issues match the query.\n");
    }
    let mut t = String::new();
    if dry_run {
        t.append(decimal_string(rs.len()).as_str());
        t.append(" issue(s) would be updated:\n");
        push_slug_block(&mut t, rs);
        t.append("\n");
        push_diff_block(&mut t, rs);
        assert(t@ =~= bulk_report_text(rs@, dry_run));
    } else {
        t.append("Updated ");
        t.append(decimal_string(rs.len()).as_str());
        t.append(" issue(s):\n");
        push_slug_block(&mut t, rs);
        assert(t@ =~= bulk_report_text(rs@, dry_run));
    }
    t
}

/// The confirmation of a single-issue verb: the verb, then the slug.
pub fn mutation_line(verb: &str, slug: &str) -> (r: String)
    ensures
        r@ == verb@ + " "@ + slug@,
{
    let mut m = String::from_str(verb);
    m.append(" ");
    m.append(slug);
    m
}

/// One file copied into an issue's attachments.
pub struct AttachedFile {
    pub source: String,
    /// Where it was stored.
    pub path: String,
    /// It was stored under another name, to avoid a collision.
    pub renamed: bool,
    pub original_name: String,
}

pub open spec fn attached_row(f: AttachedFile) -> Seq<char> {
    "  "@ + f.source@ + " -> "@ + f.path@ + if f.renamed {
        " (renamed from "@ + f.original_name@ + ")"@
    } else {
        seq![]
    }
}

pub open spec fn attach_text(slug: Seq<char>, fs: Seq<AttachedFile>) -> Seq<Seq<char>> {
    seq!["Attached "@ + decimal_digits(fs.len()) + " file(s) to @"@ + slug + ":"@] + Seq::new(
        fs.len(),
        |i: int| attached_row(fs[i]),
    )
}

/// The report of `attach`: how many files went to the issue, then each
/// source and where it was stored, with its old name where it was renamed.
pub fn attach_lines(slug: &str, fs: &Vec<AttachedFile>) -> (l: Vec<String>)
    ensures
        row_views(l@) == attach_text(slug@, fs@),
{
    let mut l: Vec<String> = Vec::new();
    let mut h = String::from_str("Attached ");
    h.append(decimal_string(fs.len()).as_str());
    h.append(" file(s) to @");
    h.append(slug);
    h.append(":");
    push_line(&mut l, h);
    let ghost top = row_views(l@);
    let mut i: usize = 0;
    while i < fs.len()
        invariant
            i <= fs.len(),
            row_views(l@) == top + Seq::new(i as nat, |k: int| attached_row(fs@[k])),
        decreases fs.len() - i,
    {
        let f = &fs[i];
        let mut m = String::from_str("  ");
        m.append(f.source.as_str());
        m.append(" -> ");
        m.append(f.path.as_str());
        if f.renamed {
            m.append(" (renamed from ");
            m.append(f.original_name.as_str());
            m.append(")");
        }
        assert(m@ =~= attached_row(*f));
        push_line(&mut l, m);
        i = i + 1;
        assert(row_views(l@) =~= top + Seq::new(i as nat, |k: int| attached_row(fs@[k])));
    }
    assert(row_views(l@) =~= attach_text(slug@, fs@));
    l
}

/// The confirmation of `create`: the new slug and title, then the file.
pub fn created_lines(slug: &str, title: &str, path: &str) -> (l: Vec<String>)
    ensures
        row_views(l@) == seq!["Created "@ + slug@ + ": "@ + title@, "  "@ + path@],
{
    let mut l: Vec<String> = Vec::new();
    let mut a = String::from_str("Created ");
    a.append(slug);
    a.append(": ");
    a.append(title);
    push_line(&mut l, a);
    let mut b = String::from_str("  ");
    b.append(path);
    push_line(&mut l, b);
    assert(row_views(l@) =~= seq![a@, b@]);
    l
}

} // verus!
