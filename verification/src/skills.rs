//! Reports of the pi.dev skill corpus: which installed skills are current,
//! and what a prune removed or left in place.
use vstd::prelude::*;
use crate::number::{decimal_digits, decimal_string};
use crate::report::{pad_right, push_line, push_padded};
use crate::tree::row_views;
use vstd::string::StringSliceAdditionalSpecFns;
use vstd::utf8::encode_utf8;

verus! {

/// Where an installed skill entry stands.
#[derive(Debug, PartialEq, Eq, Structural, Clone, Copy)]
pub enum PiSkillState {
    UpToDate,
    Unmanaged,
    Stale,
    Modified,
    Missing,
    Orphan,
    Inaccessible,
}

/// One entry of the status report.
pub struct PiSkillRow {
    pub name: String,
    pub state: PiSkillState,
    /// The state's label as the report spells it.
    pub label: String,
    /// The issuectl version recorded when the entry was installed.
    pub recorded_version: Option<String>,
}

/// The status report of the corpus.
pub struct PiStatus {
    pub root: String,
    /// The running issuectl version.
    pub version: String,
    pub skills: Vec<PiSkillRow>,
    /// Some entry needs attention.
    pub has_findings: bool,
}

pub open spec fn state_mark(s: PiSkillState) -> Seq<char> {
    match s {
        PiSkillState::UpToDate => "✓"@,
        PiSkillState::Unmanaged => "·"@,
        PiSkillState::Stale | PiSkillState::Modified => "⚠"@,
        PiSkillState::Missing | PiSkillState::Orphan => "✗"@,
        PiSkillState::Inaccessible => "?"@,
    }
}

/// What follows an entry's label: how to act on its state.
pub open spec fn state_detail(r: PiSkillRow, version: Seq<char>) -> Seq<char> {
    match r.state {
        PiSkillState::Stale => " (recorded "@ + match r.recorded_version {
            Some(v) => v@,
            None => "unknown"@,
        } + " ≠ running "@ + version + "; `issuectl skill install --force` rewrites it to "@ + version + ")"@,
        PiSkillState::Modified => " (hand-edited since install; run `issuectl skill install --force` to restore)"@,
        PiSkillState::Orphan => " (no longer shipped; run `issuectl skill pi-prune --force` to remove)"@,
        PiSkillState::Missing => " (copy gone; run `issuectl skill pi-prune --force` to clear the record)"@,
        PiSkillState::Inaccessible => " (could not read this entry — permission or I/O error; left untouched, not pruned)"@,
        PiSkillState::Unmanaged => " (not written by issuectl)"@,
        PiSkillState::UpToDate => seq![],
    }
}

/// The widest entry name, in UTF-8 bytes (0 for none).
pub open spec fn name_width(rows: Seq<PiSkillRow>) -> int
    decreases rows.len(),
{
    if rows.len() == 0 {
        0
    } else {
        let w = name_width(rows.drop_last());
        let b = encode_utf8(rows.last().name@).len() as int;
        if w < b {
            b
        } else {
            w
        }
    }
}

pub open spec fn entry_text(r: PiSkillRow, width: int, version: Seq<char>) -> Seq<char> {
    "  "@ + state_mark(r.state) + seq![' '] + pad_right(r.name@, width as nat) + "  "@ + r.label@ + state_detail(r, version)
}

/// The status report as printed lines.
pub open spec fn status_text(s: PiStatus) -> Seq<Seq<char>> {
    let head = seq!["pi.dev skill corpus  "@ + s.root@, "Running issuectl "@ + s.version@, seq![]];
    if s.skills@.len() == 0 {
        head + seq!["  (no skill entries found)"@]
    } else {
        head + Seq::new(s.skills@.len(), |i: int| entry_text(s.skills@[i], name_width(s.skills@), s.version@))
            + if s.has_findings {
            seq![]
        } else {
            seq![seq![], "  Everything issuectl owns is up to date."@]
        }
    }
}

fn mark_of(s: PiSkillState) -> (r: &'static str)
    ensures
        r@ == state_mark(s),
{
    match s {
        PiSkillState::UpToDate => "✓",
        PiSkillState::Unmanaged => "·",
        PiSkillState::Stale | PiSkillState::Modified => "⚠",
        PiSkillState::Missing | PiSkillState::Orphan => "✗",
        PiSkillState::Inaccessible => "?",
    }
}

fn detail_of(r: &PiSkillRow, version: &str) -> (d: String)
    ensures
        d@ == state_detail(*r, version@),
{
    match r.state {
        PiSkillState::Stale => {
            let mut m = String::from_str(" (recorded ");
            match &r.recorded_version {
                Some(v) => m.append(v.as_str()),
                None => m.append("unknown"),
            }
            m.append(" ≠ running ");
            m.append(version);
            m.append("; `issuectl skill install --force` rewrites it to ");
            m.append(version);
            m.append(")");
            m
        },
        PiSkillState::Modified => String::from_str(" (hand-edited since install; run `issuectl skill install --force` to restore)"),
        PiSkillState::Orphan => String::from_str(" (no longer shipped; run `issuectl skill pi-prune --force` to remove)"),
        PiSkillState::Missing => String::from_str(" (copy gone; run `issuectl skill pi-prune --force` to clear the record)"),
        PiSkillState::Inaccessible => String::from_str(" (could not read this entry — permission or I/O error; left untouched, not pruned)"),
        PiSkillState::Unmanaged => String::from_str(" (not written by issuectl)"),
        PiSkillState::UpToDate => String::new(),
    }
}

/// Every entry name's byte length fits a `usize`.
pub open spec fn names_fit(rows: Seq<PiSkillRow>) -> bool {
    forall|i: int| 0 <= i < rows.len() ==> encode_utf8(#[trigger] rows[i].name@).len() <= usize::MAX
}

fn widest(rows: &Vec<PiSkillRow>) -> (w: usize)
    requires
        names_fit(rows@),
    ensures
        w == name_width(rows@),
{
    let mut w: usize = 0;
    let mut i: usize = 0;
    while i < rows.len()
        invariant
            i <= rows.len(),
            names_fit(rows@),
            w == name_width(rows@.take(i as int)),
        decreases rows.len() - i,
    {
        assert(rows@.take(i as int + 1).drop_last() =~= rows@.take(i as int));
        assert(rows@.take(i as int + 1).last() == rows@[i as int]);
        let name = rows[i].name.as_str();
        assert(name.spec_bytes() == encode_utf8(name@));
        assert(encode_utf8(rows@[i as int].name@).len() <= usize::MAX);
        let b = name.len();
        if b > w {
            w = b;
        }
        i = i + 1;
    }
    assert(rows@.take(rows@.len() as int) =~= rows@);
    w
}

/// The human-readable status report of the corpus.
pub fn pi_status_lines(s: &PiStatus) -> (r: Vec<String>)
    requires
        names_fit(s.skills@),
    ensures
        row_views(r@) == status_text(*s),
{
    let mut out: Vec<String> = Vec::new();
    let mut a = String::from_str("pi.dev skill corpus  ");
    a.append(s.root.as_str());
    push_line(&mut out, a);
    let mut b = String::from_str("Running issuectl ");
    b.append(s.version.as_str());
    push_line(&mut out, b);
    push_line(&mut out, String::new());
    let ghost head = row_views(out@);
    if s.skills.len() == 0 {
        push_line(&mut out, String::from_str("  (no skill entries found)"));
        assert(row_views(out@) =~= status_text(*s));
        return out;
    }
    let width = widest(&s.skills);
    let mut i: usize = 0;
    while i < s.skills.len()
        invariant
            i <= s.skills.len(),
            width == name_width(s.skills@),
            row_views(out@) == head + Seq::new(i as nat, |k: int| entry_text(s.skills@[k], name_width(s.skills@), s.version@)),
        decreases s.skills.len() - i,
    {
        let row = &s.skills[i];
        let mut m = String::from_str("  ");
        m.append(mark_of(row.state));
        crate::text::push_char(&mut m, ' ');
        push_padded(&mut m, row.name.as_str(), width);
        m.append("  ");
        m.append(row.label.as_str());
        m.append(detail_of(row, s.version.as_str()).as_str());
        assert(m@ =~= entry_text(s.skills@[i as int], name_width(s.skills@), s.version@));
        let ghost before = row_views(out@);
        push_line(&mut out, m);
        i = i + 1;
        assert(row_views(out@) =~= head + Seq::new(i as nat, |k: int| entry_text(s.skills@[k], name_width(s.skills@), s.version@)));
    }
    if !s.has_findings {
        push_line(&mut out, String::new());
        push_line(&mut out, String::from_str("  Everything issuectl owns is up to date."));
    }
    assert(row_views(out@) =~= status_text(*s));
    out
}

/// Why a pruned record goes.
#[derive(Debug, PartialEq, Eq, Structural, Clone, Copy)]
pub enum PiPruneKind {
    Orphan,
    Missing,
}

/// An entry a prune removes (or would remove).
pub struct PrunedEntry {
    pub name: String,
    pub kind: PiPruneKind,
}

/// An orphan a prune leaves in place.
pub struct SkippedEntry {
    pub name: String,
    pub path: String,
}

pub open spec fn kind_text(k: PiPruneKind) -> Seq<char> {
    match k {
        PiPruneKind::Orphan => "orphan"@,
        PiPruneKind::Missing => "missing record"@,
    }
}

/// `entry` or `entries`, by count.
pub open spec fn entries_word(n: nat) -> Seq<char> {
    if n == 1 {
        "entry"@
    } else {
        "entries"@
    }
}

/// The prune report as printed lines: what was (or, without `--force`,
/// would be) removed, what was left in place, and how to apply a dry run.
pub open spec fn prune_text(removed: Seq<PrunedEntry>, skipped: Seq<SkippedEntry>, force: bool) -> Seq<Seq<char>> {
    if removed.len() == 0 && skipped.len() == 0 {
        seq!["Nothing to prune — the pi.dev skill corpus has no orphaned issuectl entries."@]
    } else {
        (if removed.len() > 0 {
            seq![
                if force {
                    "Removed "@ + decimal_digits(removed.len()) + seq![' '] + entries_word(removed.len())
                        + " from the pi.dev skill corpus:"@
                } else {
                    "Dry run — would remove "@ + decimal_digits(removed.len()) + seq![' '] + entries_word(
                        removed.len(),
                    ) + " (pass --force to apply):"@
                },
            ] + Seq::new(removed.len(), |i: int| "  - "@ + removed[i].name@ + " ("@ + kind_text(removed[i].kind) + ")"@)
        } else {
            seq![]
        }) + (if skipped.len() > 0 {
            seq![
                seq![],
                "Left "@ + decimal_digits(skipped.len()) + " orphan "@ + entries_word(skipped.len())
                    + " in place for safety (symlink, extra files, or unremovable):"@,
            ] + Seq::new(skipped.len(), |i: int| "  - "@ + skipped[i].name@ + " ("@ + skipped[i].path@ + ")"@) + seq![
                "  Inspect and remove these by hand if you want them gone."@,
            ]
        } else {
            seq![]
        }) + (if !force && removed.len() > 0 {
            seq![seq![], "  Re-run with `issuectl skill pi-prune --force` to apply."@]
        } else {
            seq![]
        })
    }
}

fn count_words(n: usize) -> (r: String)
    ensures
        r@ == decimal_digits(n as nat) + seq![' '] + entries_word(n as nat),
{
    let mut m = decimal_string(n);
    if n == 1 {
        m.append(" entry");
    } else {
        m.append(" entries");
    }
    proof {
        reveal_strlit(" entry");
        reveal_strlit(" entries");
        reveal_strlit("entry");
        reveal_strlit("entries");
    }
    assert(m@ =~= decimal_digits(n as nat) + seq![' '] + entries_word(n as nat));
    m
}

fn removed_lines(removed: &Vec<PrunedEntry>, force: bool) -> (r: Vec<String>)
    requires
        removed@.len() > 0,
    ensures
        row_views(r@) == seq![
            if force {
                "Removed "@ + decimal_digits(removed@.len()) + seq![' '] + entries_word(removed@.len())
                    + " from the pi.dev skill corpus:"@
            } else {
                "Dry run — would remove "@ + decimal_digits(removed@.len()) + seq![' '] + entries_word(
                    removed@.len(),
                ) + " (pass --force to apply):"@
            },
        ] + Seq::new(removed@.len(), |i: int| "  - "@ + removed@[i].name@ + " ("@ + kind_text(removed@[i].kind) + ")"@),
{
    let mut out: Vec<String> = Vec::new();
    let mut h = if force {
        String::from_str("Removed ")
    } else {
        String::from_str("Dry run — would remove ")
    };
    h.append(count_words(removed.len()).as_str());
    if force {
        h.append(" from the pi.dev skill corpus:");
    } else {
        h.append(" (pass --force to apply):");
    }
    assert(h@ =~= if force {
        "Removed "@ + decimal_digits(removed@.len()) + seq![' '] + entries_word(removed@.len())
            + " from the pi.dev skill corpus:"@
    } else {
        "Dry run — would remove "@ + decimal_digits(removed@.len()) + seq![' '] + entries_word(
            removed@.len(),
        ) + " (pass --force to apply):"@
    });
    push_line(&mut out, h);
    let ghost head = row_views(out@);
    let mut i: usize = 0;
    while i < removed.len()
        invariant
            i <= removed.len(),
            row_views(out@) == head + Seq::new(i as nat, |k: int| "  - "@ + removed@[k].name@ + " ("@ + kind_text(removed@[k].kind) + ")"@),
        decreases removed.len() - i,
    {
        let mut m = String::from_str("  - ");
        m.append(removed[i].name.as_str());
        m.append(" (");
        match removed[i].kind {
            PiPruneKind::Orphan => m.append("orphan"),
            PiPruneKind::Missing => m.append("missing record"),
        }
        m.append(")");
        push_line(&mut out, m);
        i = i + 1;
        assert(row_views(out@) =~= head + Seq::new(i as nat, |k: int| "  - "@ + removed@[k].name@ + " ("@ + kind_text(removed@[k].kind) + ")"@));
    }
    out
}

fn skipped_lines(skipped: &Vec<SkippedEntry>) -> (r: Vec<String>)
    requires
        skipped@.len() > 0,
    ensures
        row_views(r@) == seq![
            seq![],
            "Left "@ + decimal_digits(skipped@.len()) + " orphan "@ + entries_word(skipped@.len())
                + " in place for safety (symlink, extra files, or unremovable):"@,
        ] + Seq::new(skipped@.len(), |i: int| "  - "@ + skipped@[i].name@ + " ("@ + skipped@[i].path@ + ")"@) + seq![
            "  Inspect and remove these by hand if you want them gone."@,
        ],
{
    let mut out: Vec<String> = Vec::new();
    push_line(&mut out, String::new());
    let mut h = String::from_str("Left ");
    h.append(decimal_string(skipped.len()).as_str());
    h.append(" orphan ");
    if skipped.len() == 1 {
        h.append("entry");
    } else {
        h.append("entries");
    }
    h.append(" in place for safety (symlink, extra files, or unremovable):");
    push_line(&mut out, h);
    let ghost head = row_views(out@);
    let mut i: usize = 0;
    while i < skipped.len()
        invariant
            i <= skipped.len(),
            row_views(out@) == head + Seq::new(i as nat, |k: int| "  - "@ + skipped@[k].name@ + " ("@ + skipped@[k].path@ + ")"@),
        decreases skipped.len() - i,
    {
        let mut m = String::from_str("  - ");
        m.append(skipped[i].name.as_str());
        m.append(" (");
        m.append(skipped[i].path.as_str());
        m.append(")");
        push_line(&mut out, m);
        i = i + 1;
        assert(row_views(out@) =~= head + Seq::new(i as nat, |k: int| "  - "@ + skipped@[k].name@ + " ("@ + skipped@[k].path@ + ")"@));
    }
    push_line(&mut out, String::from_str("  Inspect and remove these by hand if you want them gone."));
    out
}

/// The human-readable report of a prune (see `prune_text`). `force` says
/// whether the prune was applied or only a dry run.
pub fn pi_prune_lines(removed: &Vec<PrunedEntry>, skipped: &Vec<SkippedEntry>, force: bool) -> (r: Vec<String>)
    ensures
        row_views(r@) == prune_text(removed@, skipped@, force),
{
    let mut out: Vec<String> = Vec::new();
    if removed.len() == 0 && skipped.len() == 0 {
        push_line(&mut out, String::from_str("Nothing to prune — the pi.dev skill corpus has no orphaned issuectl entries."));
        assert(row_views(out@) =~= prune_text(removed@, skipped@, force));
        return out;
    }
    let ghost s0 = row_views(out@);
    if removed.len() > 0 {
        let mut part = removed_lines(removed, force);
        let ghost p = row_views(part@);
        out.append(&mut part);
        assert(row_views(out@) =~= s0 + p);
    }
    let ghost s1 = row_views(out@);
    if skipped.len() > 0 {
        let mut part = skipped_lines(skipped);
        let ghost p = row_views(part@);
        out.append(&mut part);
        assert(row_views(out@) =~= s1 + p);
    }
    let ghost s2 = row_views(out@);
    if !force && removed.len() > 0 {
        push_line(&mut out, String::new());
        push_line(&mut out, String::from_str("  Re-run with `issuectl skill pi-prune --force` to apply."));
    }
    assert(row_views(out@) =~= prune_text(removed@, skipped@, force));
    out
}

/// Where a bundled skill can be installed for one agent.
pub struct InstallTarget {
    pub agent: String,
    pub label: String,
    pub path: String,
}

/// A bundled skill and its install targets.
pub struct SkillEntry {
    pub name: String,
    pub description: String,
    pub targets: Vec<InstallTarget>,
}

/// The widest agent name among `ts`, in UTF-8 bytes.
pub open spec fn agents_width(ts: Seq<InstallTarget>) -> int
    decreases ts.len(),
{
    if ts.len() == 0 {
        0
    } else {
        let w = agents_width(ts.drop_last());
        let b = encode_utf8(ts.last().agent@).len() as int;
        if w < b {
            b
        } else {
            w
        }
    }
}

/// The widest agent name in the whole catalog, in UTF-8 bytes.
pub open spec fn catalog_width(es: Seq<SkillEntry>) -> int
    decreases es.len(),
{
    if es.len() == 0 {
        0
    } else {
        let w = catalog_width(es.drop_last());
        let b = agents_width(es.last().targets@);
        if w < b {
            b
        } else {
            w
        }
    }
}

/// The lines for one catalog entry: name and description, then each
/// install target with its agent in a column `width` wide.
pub open spec fn entry_lines(e: SkillEntry, width: int) -> Seq<Seq<char>> {
    seq![e.name@ + "  "@ + e.description@] + Seq::new(e.targets@.len(), |i: int| "  ["@ + pad_right(e.targets@[i].agent@, width as nat) + "] "@ + e.targets@[i].label@ + "  "@ + e.targets@[i].path@)
}

/// The skill catalog as printed lines, entry after entry.
pub open spec fn catalog_text(es: Seq<SkillEntry>, width: int) -> Seq<Seq<char>>
    decreases es.len(),
{
    if es.len() == 0 {
        seq![]
    } else {
        catalog_text(es.drop_last(), width) + entry_lines(es.last(), width)
    }
}

/// Every agent name's byte length fits a `usize`.
pub open spec fn agents_fit(es: Seq<SkillEntry>) -> bool {
    forall|i: int, k: int| 0 <= i < es.len() && 0 <= k < es[i].targets@.len() ==> encode_utf8(#[trigger] es[i].targets@[k].agent@).len() <= usize::MAX
}

fn targets_width(ts: &Vec<InstallTarget>) -> (w: usize)
    requires
        forall|k: int| 0 <= k < ts@.len() ==> encode_utf8(#[trigger] ts@[k].agent@).len() <= usize::MAX,
    ensures
        w == agents_width(ts@),
{
    let mut w: usize = 0;
    let mut i: usize = 0;
    while i < ts.len()
        invariant
            i <= ts.len(),
            forall|k: int| 0 <= k < ts@.len() ==> encode_utf8(#[trigger] ts@[k].agent@).len() <= usize::MAX,
            w == agents_width(ts@.take(i as int)),
        decreases ts.len() - i,
    {
        assert(ts@.take(i as int + 1).drop_last() =~= ts@.take(i as int));
        assert(ts@.take(i as int + 1).last() == ts@[i as int]);
        let a = ts[i].agent.as_str();
        assert(a.spec_bytes() == encode_utf8(a@));
        assert(encode_utf8(ts@[i as int].agent@).len() <= usize::MAX);
        let b = a.len();
        if b > w {
            w = b;
        }
        i = i + 1;
    }
    assert(ts@.take(ts@.len() as int) =~= ts@);
    w
}

/// The human-readable skill catalog (see `catalog_text`), agent names
/// aligned across the whole catalog.
pub fn skill_catalog_lines(es: &Vec<SkillEntry>) -> (r: Vec<String>)
    requires
        agents_fit(es@),
    ensures
        row_views(r@) == catalog_text(es@, catalog_width(es@)),
{
    let mut width: usize = 0;
    let mut i: usize = 0;
    while i < es.len()
        invariant
            i <= es.len(),
            agents_fit(es@),
            width == catalog_width(es@.take(i as int)),
        decreases es.len() - i,
    {
        assert(es@.take(i as int + 1).drop_last() =~= es@.take(i as int));
        assert(es@.take(i as int + 1).last() == es@[i as int]);
        assert forall|k: int| 0 <= k < es@[i as int].targets@.len() implies encode_utf8(#[trigger] es@[i as int].targets@[k].agent@).len() <= usize::MAX by {}
        let b = targets_width(&es[i].targets);
        if b > width {
            width = b;
        }
        i = i + 1;
    }
    assert(es@.take(es@.len() as int) =~= es@);
    let ghost wd = catalog_width(es@);
    let mut out: Vec<String> = Vec::new();
    let mut i: usize = 0;
    assert(es@.take(0) =~= Seq::<SkillEntry>::empty());
    assert(row_views(out@) =~= Seq::<Seq<char>>::empty());
    while i < es.len()
        invariant
            i <= es.len(),
            width == wd,
            row_views(out@) == catalog_text(es@.take(i as int), wd),
        decreases es.len() - i,
    {
        assert(es@.take(i as int + 1).drop_last() =~= es@.take(i as int));
        assert(es@.take(i as int + 1).last() == es@[i as int]);
        let e = &es[i];
        let ghost start = row_views(out@);
        let mut h = String::from_str(e.name.as_str());
        h.append("  ");
        h.append(e.description.as_str());
        push_line(&mut out, h);
        let mut k: usize = 0;
        while k < e.targets.len()
            invariant
                k <= e.targets.len(),
                width == wd,
                row_views(out@) == start + seq![e.name@ + "  "@ + e.description@] + Seq::new(k as nat, |j: int| "  ["@ + pad_right(e.targets@[j].agent@, wd as nat) + "] "@ + e.targets@[j].label@ + "  "@ + e.targets@[j].path@),
            decreases e.targets.len() - k,
        {
            let t = &e.targets[k];
            let mut m = String::from_str("  [");
            push_padded(&mut m, t.agent.as_str(), width);
            m.append("] ");
            m.append(t.label.as_str());
            m.append("  ");
            m.append(t.path.as_str());
            push_line(&mut out, m);
            k = k + 1;
            assert(row_views(out@) =~= start + seq![e.name@ + "  "@ + e.description@] + Seq::new(k as nat, |j: int| "  ["@ + pad_right(e.targets@[j].agent@, wd as nat) + "] "@ + e.targets@[j].label@ + "  "@ + e.targets@[j].path@));
        }
        assert(row_views(out@) =~= start + entry_lines(*e, wd));
        i = i + 1;
    }
    assert(es@.take(es@.len() as int) =~= es@);
    out
}

} // verus!
