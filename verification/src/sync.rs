//! The plain-text report of `sync-commits`: which commits were attributed to
//! which issue, what was added, and the hints and warnings that go to stderr.
use vstd::prelude::*;
use crate::number::{decimal_digits, decimal_string};
use crate::report::{pad_right, push_padded};
use crate::tree::row_views;

verus! {

/// How a commit came to be attributed to an issue.
pub enum AttributionKind {
    /// A `Refs-Issue:` trailer.
    Refs,
    /// A `Fixes-Issue:` trailer.
    Fixes,
    /// The slug of the checked-out branch.
    Branch,
}

pub open spec fn kind_tag(k: AttributionKind) -> Seq<char> {
    match k {
        AttributionKind::Refs => "refs"@,
        AttributionKind::Fixes => "fixes"@,
        AttributionKind::Branch => "branch"@,
    }
}

/// The tag by which a report names an attribution kind.
pub fn attribution_tag(k: &AttributionKind) -> (r: &'static str)
    ensures
        r@ == kind_tag(*k),
{
    match k {
        AttributionKind::Refs => "refs",
        AttributionKind::Fixes => "fixes",
        AttributionKind::Branch => "branch",
    }
}

/// One commit planned for an issue's commit list.
pub struct PlannedCommit {
    pub slug: String,
    pub hash: String,
    pub summary: String,
    pub kind: AttributionKind,
    /// The issue already lists this commit.
    pub already_present: bool,
}

/// What a sync run found and did.
pub struct SyncReport {
    /// The revision range that was walked.
    pub range: String,
    /// The slug taken from the branch name, when the branch fallback applied.
    pub branch: Option<String>,
    pub planned: Vec<PlannedCommit>,
    /// Per issue slug, how many commits were added.
    pub applied: Vec<(String, usize)>,
    /// Slugs named by a `Fixes-Issue:` trailer.
    pub fixes_hints: Vec<String>,
    /// Slugs named by a trailer that match no issue.
    pub unknown_slugs: Vec<String>,
    pub load_warnings: Vec<String>,
    pub warnings: Vec<String>,
}

pub open spec fn planned_suffix(p: PlannedCommit, dry_run: bool) -> Seq<char> {
    if p.already_present {
        " (already present)"@
    } else if dry_run {
        " (would add)"@
    } else {
        seq![]
    }
}

/// One planned commit: the slug in a column of 32 characters, the hash, the
/// summary, the kind in brackets and what the run does with it.
pub open spec fn planned_row(p: PlannedCommit, dry_run: bool) -> Seq<char> {
    "  @"@ + pad_right(p.slug@, 32) + " "@ + p.hash@ + " "@ + p.summary@ + " ["@ + kind_tag(p.kind) + "]"@
        + planned_suffix(p, dry_run)
}

/// The number of commits added over all issues.
pub open spec fn applied_total(s: Seq<(String, usize)>) -> nat
    decreases s.len(),
{
    if s.len() == 0 {
        0
    } else {
        applied_total(s.drop_last()) + s.last().1 as nat
    }
}

pub open spec fn branch_text(b: Option<String>) -> Seq<Seq<char>> {
    match b {
        Some(s) => seq!["Branch fallback slug: @"@ + s@],
        None => seq![],
    }
}

pub open spec fn planned_text(planned: Seq<PlannedCommit>, dry_run: bool) -> Seq<Seq<char>> {
    if planned.len() == 0 {
        seq!["No commits with Refs-Issue / Fixes-Issue trailers in range."@]
    } else {
        Seq::new(planned.len(), |i: int| planned_row(planned[i], dry_run))
    }
}

pub open spec fn totals_text(r: SyncReport, dry_run: bool) -> Seq<Seq<char>> {
    if r.applied@.len() > 0 {
        seq![
            "Added "@ + decimal_digits(applied_total(r.applied@)) + " commit(s) across "@ + decimal_digits(
                r.applied@.len(),
            ) + " issue(s)."@,
        ]
    } else if !dry_run && r.planned@.len() > 0 {
        seq!["No new commits to add (all already present)."@]
    } else {
        seq![]
    }
}

/// `items`, each between `prefix` and `suffix`.
pub open spec fn framed(prefix: Seq<char>, items: Seq<String>, suffix: Seq<char>) -> Seq<Seq<char>> {
    Seq::new(items.len(), |i: int| prefix + items[i]@ + suffix)
}

/// The stdout lines of the report.
pub open spec fn sync_out_text(r: SyncReport, dry_run: bool) -> Seq<Seq<char>> {
    seq!["Range: "@ + r.range@] + branch_text(r.branch) + planned_text(r.planned@, dry_run) + totals_text(r, dry_run)
}

/// The hint for an issue that a `Fixes-Issue:` trailer names.
pub open spec fn hint_row(slug: Seq<char>) -> Seq<char> {
    "Hint: @"@ + slug + " has Fixes-Issue trailer — consider `issuectl close "@ + slug + "`"@
}

/// The stderr lines of the report: a hint for each fixed issue, then a
/// warning for each unknown slug, each load warning and each other warning.
pub open spec fn sync_err_text(r: SyncReport) -> Seq<Seq<char>> {
    Seq::new(r.fixes_hints@.len(), |i: int| hint_row(r.fixes_hints@[i]@))
        + framed("Warning: trailer references unknown slug @"@, r.unknown_slugs@, " (no issue with that slug)"@)
        + framed("Warning: "@, r.load_warnings@, ""@) + framed("Warning: "@, r.warnings@, ""@)
}

/// The lines of a sync report.
pub struct SyncLines {
    pub out: Vec<String>,
    pub err: Vec<String>,
}

proof fn lemma_prefix_total(s: Seq<(String, usize)>, i: int)
    requires
        0 <= i <= s.len(),
    ensures
        applied_total(s.take(i)) <= applied_total(s),
    decreases s.len(),
{
    if i < s.len() {
        assert(s.take(i) =~= s.drop_last().take(i));
        lemma_prefix_total(s.drop_last(), i);
    } else {
        assert(s.take(i) =~= s);
    }
}

/// Append each of `items`, between `prefix` and `suffix`, as a line of `out`.
fn push_framed(out: &mut Vec<String>, prefix: &str, items: &Vec<String>, suffix: &str)
    ensures
        row_views(final(out)@) == row_views(old(out)@) + framed(prefix@, items@, suffix@),
{
    let mut i: usize = 0;
    while i < items.len()
        invariant
            i <= items.len(),
            row_views(out@) == row_views(old(out)@) + framed(prefix@, items@.take(i as int), suffix@),
        decreases items.len() - i,
    {
        let mut m = String::from_str(prefix);
        m.append(items[i].as_str());
        m.append(suffix);
        let ghost before = row_views(out@);
        out.push(m);
        assert(row_views(out@) =~= before.push(m@));
        i = i + 1;
        assert(framed(prefix@, items@.take(i as int), suffix@) =~= framed(prefix@, items@.take(i - 1), suffix@).push(m@));
    }
    assert(items@.take(i as int) =~= items@);
}

/// One planned commit as a report line.
pub fn planned_line(p: &PlannedCommit, dry_run: bool) -> (r: String)
    ensures
        r@ == planned_row(*p, dry_run),
{
    let mut m = String::from_str("  @");
    push_padded(&mut m, p.slug.as_str(), 32);
    m.append(" ");
    m.append(p.hash.as_str());
    m.append(" ");
    m.append(p.summary.as_str());
    m.append(" [");
    m.append(attribution_tag(&p.kind));
    m.append("]");
    let ghost head = m@;
    if p.already_present {
        m.append(" (already present)");
    } else if dry_run {
        m.append(" (would add)");
    }
    assert(m@ =~= head + planned_suffix(*p, dry_run));
    m
}

/// The human report of a sync run. `dry_run` tells whether commits were only
/// planned.
pub fn sync_report_lines(r: &SyncReport, dry_run: bool) -> (l: SyncLines)
    requires
        applied_total(r.applied@) <= usize::MAX,
    ensures
        row_views(l.out@) == sync_out_text(*r, dry_run),
        row_views(l.err@) == sync_err_text(*r),
{
    let mut out: Vec<String> = Vec::new();
    let mut head = String::from_str("Range: ");
    head.append(r.range.as_str());
    out.push(head);
    assert(row_views(out@) =~= seq!["Range: "@ + r.range@]);
    match &r.branch {
        Some(b) => {
            let mut m = String::from_str("Branch fallback slug: @");
            m.append(b.as_str());
            let ghost before = row_views(out@);
            out.push(m);
            assert(row_views(out@) =~= before.push(m@));
        },
        None => {},
    }
    let ghost upto_branch = row_views(out@);
    assert(upto_branch =~= seq!["Range: "@ + r.range@] + branch_text(r.branch));
    if r.planned.len() == 0 {
        let ghost before = row_views(out@);
        out.push(String::from_str("No commits with Refs-Issue / Fixes-Issue trailers in range."));
        assert(row_views(out@) =~= before + planned_text(r.planned@, dry_run));
    } else {
        let mut i: usize = 0;
        while i < r.planned.len()
            invariant
                i <= r.planned.len(),
                row_views(out@) == upto_branch + Seq::new(i as nat, |k: int| planned_row(r.planned@[k], dry_run)),
            decreases r.planned.len() - i,
        {
            let m = planned_line(&r.planned[i], dry_run);
            let ghost before = row_views(out@);
            out.push(m);
            assert(row_views(out@) =~= before.push(m@));
            i = i + 1;
            assert(row_views(out@) =~= upto_branch + Seq::new(i as nat, |k: int| planned_row(r.planned@[k], dry_run)));
        }
        assert(row_views(out@) =~= upto_branch + planned_text(r.planned@, dry_run));
    }
    let ghost upto_planned = row_views(out@);
    if r.applied.len() > 0 {
        let mut total: usize = 0;
        let mut j: usize = 0;
        while j < r.applied.len()
            invariant
                j <= r.applied.len(),
                applied_total(r.applied@) <= usize::MAX,
                total == applied_total(r.applied@.take(j as int)),
            decreases r.applied.len() - j,
        {
            proof {
                lemma_prefix_total(r.applied@, j + 1);
                assert(r.applied@.take(j + 1).drop_last() =~= r.applied@.take(j as int));
            }
            total = total + r.applied[j].1;
            j = j + 1;
        }
        assert(r.applied@.take(j as int) =~= r.applied@);
        let mut m = String::from_str("Added ");
        m.append(decimal_string(total).as_str());
        m.append(" commit(s) across ");
        m.append(decimal_string(r.applied.len()).as_str());
        m.append(" issue(s).");
        out.push(m);
        assert(row_views(out@) =~= upto_planned + totals_text(*r, dry_run));
    } else if !dry_run && r.planned.len() > 0 {
        out.push(String::from_str("No new commits to add (all already present)."));
        assert(row_views(out@) =~= upto_planned + totals_text(*r, dry_run));
    } else {
        assert(row_views(out@) =~= upto_planned + totals_text(*r, dry_run));
    }
    let mut err: Vec<String> = Vec::new();
    let mut h: usize = 0;
    while h < r.fixes_hints.len()
        invariant
            h <= r.fixes_hints.len(),
            row_views(err@) == Seq::new(h as nat, |k: int| hint_row(r.fixes_hints@[k]@)),
        decreases r.fixes_hints.len() - h,
    {
        let slug = r.fixes_hints[h].as_str();
        let mut m = String::from_str("Hint: @");
        m.append(slug);
        m.append(" has Fixes-Issue trailer — consider `issuectl close ");
        m.append(slug);
        m.append("`");
        let ghost before = row_views(err@);
        err.push(m);
        assert(row_views(err@) =~= before.push(m@));
        h = h + 1;
        assert(row_views(err@) =~= Seq::new(h as nat, |k: int| hint_row(r.fixes_hints@[k]@)));
    }
    push_framed(&mut err, "Warning: trailer references unknown slug @", &r.unknown_slugs, " (no issue with that slug)");
    push_framed(&mut err, "Warning: ", &r.load_warnings, "");
    push_framed(&mut err, "Warning: ", &r.warnings, "");
    SyncLines { out, err }
}

} // verus!
