//! The report of `rename`: how many references were rewritten across how
//! many files, each change where it is only planned, and each issue that
//! was skipped.
use vstd::prelude::*;
use crate::complete::sorted_unique;
use crate::keys::views;
use crate::number::{decimal_digits, decimal_string};
use crate::order::lemma_seq_lt_irreflexive;
use crate::report::push_line;
use crate::tree::row_views;

verus! {

/// The references rewritten in one field of one issue.
pub struct RenameChange {
    pub slug: String,
    pub field: String,
    pub occurrences: usize,
}

/// All rewritten references.
pub open spec fn occurrence_total(cs: Seq<RenameChange>) -> nat
    decreases cs.len(),
{
    if cs.len() == 0 {
        0
    } else {
        occurrence_total(cs.drop_last()) + cs.last().occurrences as nat
    }
}

/// The issues touched: each slug counted once.
pub open spec fn touched_files(cs: Seq<RenameChange>) -> nat {
    Seq::new(cs.len(), |i: int| cs[i].slug@).to_set().len()
}

pub open spec fn change_row(c: RenameChange) -> Seq<char> {
    "  "@ + c.slug@ + " "@ + c.field@ + " ("@ + decimal_digits(c.occurrences as nat) + ")"@
}

/// The stdout lines: the plan and each change for a dry run, else what was
/// renamed, where the issue now lives and what was rewritten.
pub open spec fn rename_out(
    old: Seq<char>,
    new: Seq<char>,
    dry_run: bool,
    new_dir: Seq<char>,
    cs: Seq<RenameChange>,
) -> Seq<Seq<char>> {
    if dry_run {
        seq![
            "Would rename "@ + old + " → "@ + new + " and rewrite "@ + decimal_digits(occurrence_total(cs))
                + " reference(s) across "@ + decimal_digits(touched_files(cs)) + " file(s)"@,
        ] + Seq::new(cs.len(), |i: int| change_row(cs[i]))
    } else {
        seq![
            "Renamed "@ + old + " → "@ + new + " ("@ + new_dir + "); rewrote "@ + decimal_digits(occurrence_total(cs))
                + " reference(s) across "@ + decimal_digits(touched_files(cs)) + " file(s)"@,
        ]
    }
}

/// The stderr lines: each skipped `(slug, reason)`, with the advice to run
/// the repository doctor.
pub open spec fn rename_err(old: Seq<char>, skipped: Seq<(String, String)>) -> Seq<Seq<char>> {
    Seq::new(
        skipped.len(),
        |i: int|
            "Warning: skipped "@ + skipped[i].0@ + " ("@ + skipped[i].1@ + "); any references to "@ + old
                + " there were left untouched — run `issuectl doctor`"@,
    )
}

/// The lines of a rename report.
pub struct RenameLines {
    pub out: Vec<String>,
    pub err: Vec<String>,
}

proof fn lemma_prefix_total(cs: Seq<RenameChange>, i: int)
    requires
        0 <= i <= cs.len(),
    ensures
        occurrence_total(cs.take(i)) <= occurrence_total(cs),
    decreases cs.len(),
{
    if i < cs.len() {
        assert(cs.take(i) =~= cs.drop_last().take(i));
        lemma_prefix_total(cs.drop_last(), i);
    } else {
        assert(cs.take(i) =~= cs);
    }
}

fn total_occurrences(cs: &Vec<RenameChange>) -> (n: usize)
    requires
        occurrence_total(cs@) <= usize::MAX,
    ensures
        n == occurrence_total(cs@),
{
    let mut n: usize = 0;
    let mut i: usize = 0;
    while i < cs.len()
        invariant
            i <= cs.len(),
            occurrence_total(cs@) <= usize::MAX,
            n == occurrence_total(cs@.take(i as int)),
        decreases cs.len() - i,
    {
        proof {
            lemma_prefix_total(cs@, i + 1);
            assert(cs@.take(i + 1).drop_last() =~= cs@.take(i as int));
        }
        n = n + cs[i].occurrences;
        i = i + 1;
    }
    assert(cs@.take(i as int) =~= cs@);
    n
}

/// How many distinct issues the changes touch.
pub fn touched_file_count(cs: &Vec<RenameChange>) -> (n: usize)
    ensures
        n == touched_files(cs@),
{
    let mut slugs: Vec<String> = Vec::new();
    let mut i: usize = 0;
    while i < cs.len()
        invariant
            i <= cs.len(),
            views(slugs@) == Seq::new(i as nat, |k: int| cs@[k].slug@),
        decreases cs.len() - i,
    {
        let s = cs[i].slug.clone();
        let ghost before = views(slugs@);
        slugs.push(s);
        assert(views(slugs@) =~= before.push(s@));
        i = i + 1;
        assert(views(slugs@) =~= Seq::new(i as nat, |k: int| cs@[k].slug@));
    }
    let u = sorted_unique(&slugs);
    proof {
        let uv = views(u@);
        assert forall|a: int, b: int| 0 <= a < uv.len() && 0 <= b < uv.len() && a != b implies uv[a] != uv[b] by {
            if a < b {
                lemma_seq_lt_irreflexive(uv[a]);
            } else {
                lemma_seq_lt_irreflexive(uv[b]);
            }
        }
        uv.unique_seq_to_set();
        assert(views(slugs@) =~= Seq::new(cs@.len(), |k: int| cs@[k].slug@));
    }
    u.len()
}

/// The report of a rename from `old` to `new`.
pub fn rename_report(
    old: &str,
    new: &str,
    dry_run: bool,
    new_dir: &str,
    cs: &Vec<RenameChange>,
    skipped: &Vec<(String, String)>,
) -> (l: RenameLines)
    requires
        occurrence_total(cs@) <= usize::MAX,
    ensures
        row_views(l.out@) == rename_out(old@, new@, dry_run, new_dir@, cs@),
        row_views(l.err@) == rename_err(old@, skipped@),
{
    let mut err: Vec<String> = Vec::new();
    let mut j: usize = 0;
    while j < skipped.len()
        invariant
            j <= skipped.len(),
            row_views(err@) == rename_err(old@, skipped@.take(j as int)),
        decreases skipped.len() - j,
    {
        let mut w = String::from_str("Warning: skipped ");
        w.append(skipped[j].0.as_str());
        w.append(" (");
        w.append(skipped[j].1.as_str());
        w.append("); any references to ");
        w.append(old);
        w.append(" there were left untouched — run `issuectl doctor`");
        push_line(&mut err, w);
        j = j + 1;
        assert(row_views(err@) =~= rename_err(old@, skipped@.take(j as int)));
    }
    assert(skipped@.take(j as int) =~= skipped@);
    let total = decimal_string(total_occurrences(cs));
    let files = decimal_string(touched_file_count(cs));
    let mut out: Vec<String> = Vec::new();
    if dry_run {
        let mut m = String::from_str("Would rename ");
        m.append(old);
        m.append(" → ");
        m.append(new);
        m.append(" and rewrite ");
        m.append(total.as_str());
        m.append(" reference(s) across ");
        m.append(files.as_str());
        m.append(" file(s)");
        push_line(&mut out, m);
        let ghost top = row_views(out@);
        let mut i: usize = 0;
        while i < cs.len()
            invariant
                i <= cs.len(),
                row_views(out@) == top + Seq::new(i as nat, |k: int| change_row(cs@[k])),
            decreases cs.len() - i,
        {
            let mut r = String::from_str("  ");
            r.append(cs[i].slug.as_str());
            r.append(" ");
            r.append(cs[i].field.as_str());
            r.append(" (");
            r.append(decimal_string(cs[i].occurrences).as_str());
            r.append(")");
            push_line(&mut out, r);
            i = i + 1;
            assert(row_views(out@) =~= top + Seq::new(i as nat, |k: int| change_row(cs@[k])));
        }
    } else {
        let mut m = String::from_str("Renamed ");
        m.append(old);
        m.append(" → ");
        m.append(new);
        m.append(" (");
        m.append(new_dir);
        m.append("); rewrote ");
        m.append(total.as_str());
        m.append(" reference(s) across ");
        m.append(files.as_str());
        m.append(" file(s)");
        push_line(&mut out, m);
    }
    assert(row_views(out@) =~= rename_out(old@, new@, dry_run, new_dir@, cs@));
    RenameLines { out, err }
}

} // verus!
