//! Plain-text report lines: padded columns, joined lists, tally rows,
//! scheduling-DAG rows and deprecation notices.
use vstd::prelude::*;
use crate::keys::views;
use crate::number::{decimal_digits, decimal_string};
use crate::text::{chars_of, debug_quote, debug_str, push_char};
use crate::tree::row_views;
use crate::display::{truncate_key, truncate_key_spec};
use crate::pick::PickItem;

verus! {

/// `n` spaces.
pub open spec fn spaces(n: nat) -> Seq<char> {
    Seq::new(n, |i: int| ' ')
}

/// `s` padded with spaces on the right to `width` characters, as a
/// `{:width}` / `{:<width}` format of a string does; longer text is kept
/// whole.
pub open spec fn pad_right(s: Seq<char>, width: nat) -> Seq<char> {
    if s.len() < width {
        s + spaces((width - s.len()) as nat)
    } else {
        s
    }
}

/// Append `s` to `out`, padded to `width` characters.
pub fn push_padded(out: &mut String, s: &str, width: usize)
    ensures
        final(out)@ == old(out)@ + pad_right(s@, width as nat),
{
    out.append(s);
    let n = chars_of(s).len();
    let ghost base = old(out)@ + s@;
    if n < width {
        let mut k: usize = 0;
        while k < width - n
            invariant
                n < width,
                k <= width - n,
                out@ == base + spaces(k as nat),
            decreases width - n - k,
        {
            push_char(out, ' ');
            k = k + 1;
            assert(out@ =~= base + spaces(k as nat));
        }
    } else {
        assert(out@ =~= old(out)@ + pad_right(s@, width as nat));
    }
}

/// `parts` joined with `sep` between neighbours.
pub open spec fn join(parts: Seq<Seq<char>>, sep: Seq<char>) -> Seq<char>
    decreases parts.len(),
{
    if parts.len() == 0 {
        seq![]
    } else if parts.len() == 1 {
        parts[0]
    } else {
        join(parts.drop_last(), sep) + sep + parts.last()
    }
}

/// `parts` joined with `sep`, as `[String]::join` does.
pub fn join_strings(parts: &Vec<String>, sep: &str) -> (r: String)
    ensures
        r@ == join(views(parts@), sep@),
{
    let ghost p = views(parts@);
    let mut out = String::new();
    let mut i: usize = 0;
    while i < parts.len()
        invariant
            i <= parts.len(),
            p == views(parts@),
            out@ == join(p.take(i as int), sep@),
        decreases parts.len() - i,
    {
        assert(p.take(i as int + 1).drop_last() =~= p.take(i as int));
        assert(p.take(i as int + 1).last() == parts@[i as int]@);
        if i > 0 {
            out.append(sep);
        } else {
            assert(p.take(1) =~= seq![parts@[0]@]);
        }
        out.append(parts[i].as_str());
        i = i + 1;
    }
    assert(p.take(parts@.len() as int) =~= p);
    out
}

/// One row of a tally: the key padded to 20 columns, then the count.
pub open spec fn count_row(key: Seq<char>, count: usize) -> Seq<char> {
    "  "@ + pad_right(key, 20) + seq![' '] + decimal_digits(count as nat)
}

/// The text row for one tally entry.
pub fn count_line(key: &str, count: usize) -> (r: String)
    ensures
        r@ == count_row(key@, count),
{
    let mut m = String::from_str("  ");
    push_padded(&mut m, key, 20);
    push_char(&mut m, ' ');
    m.append(decimal_string(count).as_str());
    m
}

/// What the scheduling-DAG view shows of one issue.
pub struct DagRow {
    pub slug: String,
    pub status: String,
    pub title: String,
    /// Open issues it waits for.
    pub blockers_open: Vec<String>,
    /// Dependencies that name no issue.
    pub blockers_missing: Vec<String>,
    /// Reserved by an agent.
    pub reserved: bool,
    /// Issues it collides with.
    pub collision: Vec<String>,
    /// Ready to be started now.
    pub spawnable: bool,
    /// First in its lane.
    pub is_head_of_line: bool,
}

/// The marker in front of a DAG row: `▶` for a spawnable issue, `◆` for a
/// head of line, a blank otherwise.
pub open spec fn dag_mark_text(spawnable: bool, head: bool) -> Seq<char> {
    if spawnable {
        "▶"@
    } else if head {
        "◆"@
    } else {
        " "@
    }
}

pub fn dag_mark(spawnable: bool, head: bool) -> (r: &'static str)
    ensures
        r@ == dag_mark_text(spawnable, head),
{
    if spawnable {
        "▶"
    } else if head {
        "◆"
    } else {
        " "
    }
}

/// `label` and the joined list, when the list is not empty.
pub open spec fn list_note(label: Seq<char>, items: Seq<Seq<char>>) -> Seq<char> {
    if items.len() == 0 {
        seq![]
    } else {
        label + join(items, seq![','])
    }
}

/// What follows a DAG row's title: its open and missing blockers, its
/// reservation and its collisions.
pub open spec fn dag_suffix(r: DagRow) -> Seq<char> {
    list_note(" blocked-by:"@, views(r.blockers_open@)) + list_note(" missing-dep:"@, views(r.blockers_missing@))
        + if r.reserved {
        " [reserved]"@
    } else {
        seq![]
    } + list_note(" collision:"@, views(r.collision@))
}

/// The text of a DAG row: mark, slug in 28 columns, status in 12, title,
/// then the suffix.
pub open spec fn dag_row_text(r: DagRow) -> Seq<char> {
    "  "@ + dag_mark_text(r.spawnable, r.is_head_of_line) + seq![' '] + pad_right(r.slug@, 28) + seq![' ']
        + pad_right(r.status@, 12) + seq![' '] + r.title@ + dag_suffix(r)
}

fn push_list_note(out: &mut String, label: &str, items: &Vec<String>)
    ensures
        final(out)@ == old(out)@ + list_note(label@, views(items@)),
{
    if items.len() > 0 {
        out.append(label);
        let j = join_strings(items, ",");
        proof {
            reveal_strlit(",");
            assert(","@ =~= seq![',']);
        }
        out.append(j.as_str());
        assert(out@ =~= old(out)@ + list_note(label@, views(items@)));
    } else {
        assert(out@ =~= old(out)@ + list_note(label@, views(items@)));
    }
}

/// The human-readable row for one issue of the scheduling DAG.
pub fn dag_row_line(r: &DagRow) -> (s: String)
    ensures
        s@ == dag_row_text(*r),
{
    let mut m = String::from_str("  ");
    m.append(dag_mark(r.spawnable, r.is_head_of_line));
    push_char(&mut m, ' ');
    push_padded(&mut m, r.slug.as_str(), 28);
    push_char(&mut m, ' ');
    push_padded(&mut m, r.status.as_str(), 12);
    push_char(&mut m, ' ');
    m.append(r.title.as_str());
    let ghost head = m@;
    push_list_note(&mut m, " blocked-by:", &r.blockers_open);
    push_list_note(&mut m, " missing-dep:", &r.blockers_missing);
    if r.reserved {
        m.append(" [reserved]");
    }
    push_list_note(&mut m, " collision:", &r.collision);
    assert(m@ =~= head + dag_suffix(*r));
    m
}

/// The version in which deprecated command spellings disappear.
pub open spec fn removal_version() -> Seq<char> {
    "0.18.0"@
}

/// The notice for a deprecated spelling: what is deprecated, when it goes,
/// the replacement command, and any further guidance.
pub open spec fn deprecation_text(deprecated: Seq<char>, replacement: Seq<Seq<char>>, guidance: Option<Seq<char>>) -> Seq<char> {
    deprecated + " is deprecated and will be removed in issuectl "@ + removal_version() + "; use `"@ + join(
        replacement,
        seq![' '],
    ) + "` instead"@ + match guidance {
        Some(g) => "; "@ + g,
        None => seq![],
    }
}

/// The deprecation notice for `deprecated`, pointing at `replacement_argv`.
pub fn deprecation_message(deprecated: &str, replacement_argv: &Vec<String>, guidance: Option<&str>) -> (r: String)
    ensures
        r@ == deprecation_text(deprecated@, views(replacement_argv@), match guidance {
            Some(g) => Some(g@),
            None => None,
        }),
{
    let mut m = String::from_str(deprecated);
    m.append(" is deprecated and will be removed in issuectl ");
    m.append("0.18.0");
    m.append("; use `");
    let j = join_strings(replacement_argv, " ");
    proof {
        reveal_strlit(" ");
    }
    m.append(j.as_str());
    m.append("` instead");
    proof {
        assert(" "@ =~= seq![' ']);
    }
    if let Some(g) = guidance {
        m.append("; ");
        m.append(g);
    }
    assert(m@ =~= deprecation_text(deprecated@, views(replacement_argv@), match guidance {
        Some(g) => Some(g@),
        None => None,
    }));
    m
}

/// One lane of the scheduling DAG.
pub struct DagLane {
    /// The lane's name.
    pub lane: String,
    pub depth: usize,
    /// The issue first in line, if any.
    pub head_of_line: Option<String>,
    pub issues: Vec<DagRow>,
}

/// The scheduling DAG: its lanes and the issues in none.
pub struct DagView {
    pub spawnable_heads: usize,
    pub lanes: Vec<DagLane>,
    pub unscheduled: Vec<DagRow>,
}

pub open spec fn lane_heading(l: DagLane) -> Seq<char> {
    "lane "@ + l.lane@ + " (depth: "@ + decimal_digits(l.depth as nat) + ", head-of-line: "@ + match l.head_of_line {
        Some(h) => h@,
        None => "—"@,
    } + ")"@
}

pub open spec fn rows_text(rows: Seq<DagRow>) -> Seq<Seq<char>> {
    Seq::new(rows.len(), |i: int| dag_row_text(rows[i]))
}

/// The lines of the lanes: each heading, its rows, then a blank line.
pub open spec fn lanes_text(lanes: Seq<DagLane>) -> Seq<Seq<char>>
    decreases lanes.len(),
{
    if lanes.len() == 0 {
        seq![]
    } else {
        lanes_text(lanes.drop_last()) + seq![lane_heading(lanes.last())] + rows_text(lanes.last().issues@) + seq![seq![]]
    }
}

/// The human-readable scheduling DAG.
pub open spec fn dag_text(v: DagView) -> Seq<Seq<char>> {
    if v.lanes@.len() == 0 && v.unscheduled@.len() == 0 {
        seq!["(no issues)"@]
    } else {
        seq!["spawnable heads: "@ + decimal_digits(v.spawnable_heads as nat)] + lanes_text(v.lanes@) + if v.unscheduled@.len() == 0 {
            seq![]
        } else {
            seq!["unscheduled"@] + rows_text(v.unscheduled@)
        }
    }
}

fn push_rows(out: &mut Vec<String>, rows: &Vec<DagRow>)
    ensures
        row_views(final(out)@) == row_views(old(out)@) + rows_text(rows@),
{
    let ghost start = row_views(out@);
    let mut i: usize = 0;
    while i < rows.len()
        invariant
            i <= rows.len(),
            row_views(out@) == start + rows_text(rows@.take(i as int)),
        decreases rows.len() - i,
    {
        let line = dag_row_line(&rows[i]);
        let ghost before = row_views(out@);
        out.push(line);
        assert(row_views(out@) =~= before.push(line@));
        i = i + 1;
        assert(rows_text(rows@.take(i as int)) =~= rows_text(rows@.take(i - 1)).push(dag_row_text(rows@[i - 1])));
    }
    assert(rows@.take(rows@.len() as int) =~= rows@);
}

/// The lines of the scheduling DAG view (see `dag_text`).
pub fn dag_lines(v: &DagView) -> (r: Vec<String>)
    ensures
        row_views(r@) == dag_text(*v),
{
    let mut out: Vec<String> = Vec::new();
    if v.lanes.len() == 0 && v.unscheduled.len() == 0 {
        out.push(String::from_str("(no issues)"));
        assert(row_views(out@) =~= dag_text(*v));
        return out;
    }
    let mut h = String::from_str("spawnable heads: ");
    h.append(decimal_string(v.spawnable_heads).as_str());
    out.push(h);
    let ghost head = row_views(out@);
    assert(head =~= seq!["spawnable heads: "@ + decimal_digits(v.spawnable_heads as nat)]);
    let mut i: usize = 0;
    while i < v.lanes.len()
        invariant
            i <= v.lanes.len(),
            row_views(out@) == head + lanes_text(v.lanes@.take(i as int)),
        decreases v.lanes.len() - i,
    {
        let lane = &v.lanes[i];
        let mut t = String::from_str("lane ");
        t.append(lane.lane.as_str());
        t.append(" (depth: ");
        t.append(decimal_string(lane.depth).as_str());
        t.append(", head-of-line: ");
        match &lane.head_of_line {
            Some(x) => t.append(x.as_str()),
            None => t.append("—"),
        }
        t.append(")");
        let ghost s0 = row_views(out@);
        out.push(t);
        assert(row_views(out@) =~= s0.push(lane_heading(*lane)));
        push_rows(&mut out, &lane.issues);
        let ghost s1 = row_views(out@);
        out.push(String::new());
        assert(row_views(out@) =~= s1.push(seq![]));
        i = i + 1;
        assert(v.lanes@.take(i as int).drop_last() =~= v.lanes@.take(i - 1));
        assert(row_views(out@) =~= head + lanes_text(v.lanes@.take(i as int)));
    }
    assert(v.lanes@.take(v.lanes@.len() as int) =~= v.lanes@);
    if v.unscheduled.len() > 0 {
        let ghost s2 = row_views(out@);
        out.push(String::from_str("unscheduled"));
        assert(row_views(out@) =~= s2.push("unscheduled"@));
        push_rows(&mut out, &v.unscheduled);
    }
    assert(row_views(out@) =~= dag_text(*v));
    out
}

/// How an import run ended.
pub struct ImportSummary {
    /// Lines for stdout.
    pub out: Vec<String>,
    /// Lines for stderr.
    pub err: Vec<String>,
    /// 0 when every record landed, 1 when none did, 2 when some failed.
    pub exit_code: i32,
}

/// The summary of an import: each created issue, each failed record (on
/// stderr, title quoted), the totals, and an exit code that tells total
/// from partial failure.
pub open spec fn import_text(created: Seq<(String, String)>, failed: Seq<(String, String)>) -> (Seq<Seq<char>>, Seq<Seq<char>>, i32) {
    (
        Seq::new(created.len(), |i: int| "Created "@ + created[i].0@ + ": "@ + created[i].1@) + seq![
            "Imported "@ + decimal_digits(created.len()) + " issue(s); "@ + decimal_digits(failed.len()) + " failed."@,
        ],
        Seq::new(failed.len(), |i: int| "Failed to import "@ + debug_str(failed[i].0@) + ": "@ + failed[i].1@),
        if failed.len() == 0 {
            0i32
        } else if created.len() == 0 {
            1i32
        } else {
            2i32
        },
    )
}

/// Summarise an import run: `created` holds `(slug, title)` pairs, `failed`
/// holds `(title, error)` pairs.
pub fn import_summary(created: &Vec<(String, String)>, failed: &Vec<(String, String)>) -> (r: ImportSummary)
    ensures
        (row_views(r.out@), row_views(r.err@), r.exit_code) == import_text(created@, failed@),
{
    let mut out: Vec<String> = Vec::new();
    let mut i: usize = 0;
    while i < created.len()
        invariant
            i <= created.len(),
            row_views(out@) == Seq::new(i as nat, |k: int| "Created "@ + created@[k].0@ + ": "@ + created@[k].1@),
        decreases created.len() - i,
    {
        let mut m = String::from_str("Created ");
        m.append(created[i].0.as_str());
        m.append(": ");
        m.append(created[i].1.as_str());
        let ghost before = row_views(out@);
        out.push(m);
        assert(row_views(out@) =~= before.push(m@));
        i = i + 1;
        assert(row_views(out@) =~= Seq::new(i as nat, |k: int| "Created "@ + created@[k].0@ + ": "@ + created@[k].1@));
    }
    let mut t = String::from_str("Imported ");
    t.append(decimal_string(created.len()).as_str());
    t.append(" issue(s); ");
    t.append(decimal_string(failed.len()).as_str());
    t.append(" failed.");
    let ghost before = row_views(out@);
    out.push(t);
    assert(row_views(out@) =~= before.push(t@));
    let mut err: Vec<String> = Vec::new();
    let mut j: usize = 0;
    while j < failed.len()
        invariant
            j <= failed.len(),
            row_views(err@) == Seq::new(j as nat, |k: int| "Failed to import "@ + debug_str(failed@[k].0@) + ": "@ + failed@[k].1@),
        decreases failed.len() - j,
    {
        let mut m = String::from_str("Failed to import ");
        m.append(debug_quote(failed[j].0.as_str()).as_str());
        m.append(": ");
        m.append(failed[j].1.as_str());
        let ghost before = row_views(err@);
        err.push(m);
        assert(row_views(err@) =~= before.push(m@));
        j = j + 1;
        assert(row_views(err@) =~= Seq::new(j as nat, |k: int| "Failed to import "@ + debug_str(failed@[k].0@) + ": "@ + failed@[k].1@));
    }
    let exit_code: i32 = if failed.len() == 0 {
        0
    } else if created.len() == 0 {
        1
    } else {
        2
    };
    assert(row_views(out@) =~= import_text(created@, failed@).0);
    ImportSummary { out, err, exit_code }
}

/// Append the line `s` to `out`.
pub fn push_line(out: &mut Vec<String>, s: String)
    ensures
        row_views(final(out)@) == row_views(old(out)@).push(s@),
{
    out.push(s);
    assert(row_views(out@) =~= row_views(old(out)@).push(s@));
}

/// `s` padded with spaces on the left to `width` characters, as a
/// `{:>width}` format does; longer text is kept whole.
pub open spec fn pad_left(s: Seq<char>, width: nat) -> Seq<char> {
    if s.len() < width {
        spaces((width - s.len()) as nat) + s
    } else {
        s
    }
}

/// Append `s` to `out`, right-aligned in `width` characters.
pub fn push_padded_left(out: &mut String, s: &str, width: usize)
    ensures
        final(out)@ == old(out)@ + pad_left(s@, width as nat),
{
    let n = chars_of(s).len();
    let ghost base = old(out)@;
    if n < width {
        let mut k: usize = 0;
        while k < width - n
            invariant
                n < width,
                k <= width - n,
                out@ == base + spaces(k as nat),
            decreases width - n - k,
        {
            push_char(out, ' ');
            k = k + 1;
            assert(out@ =~= base + spaces(k as nat));
        }
    }
    out.append(s);
    assert(out@ =~= old(out)@ + pad_left(s@, width as nat));
}

/// One row of a workload table.
pub struct WorkloadRow {
    pub key: String,
    pub count: usize,
    /// The estimated points, already written with one decimal.
    pub points: String,
    pub unestimated: usize,
}

pub open spec fn workload_row_text(r: WorkloadRow) -> Seq<char> {
    "  "@ + pad_right(truncate_key_spec(r.key@, 20), 20) + seq![' '] + pad_left(decimal_digits(r.count as nat), 6)
        + seq![' '] + pad_left(r.points@, 8) + seq![' '] + pad_left(decimal_digits(r.unestimated as nat), 12)
}

/// One workload table under its heading: a blank line, the heading, then
/// the column titles and a row per key, or a notice when there are none.
pub open spec fn workload_text(header: Seq<char>, rows: Seq<WorkloadRow>) -> Seq<Seq<char>> {
    seq![seq![], header + seq![':']] + if rows.len() == 0 {
        seq!["  (no issues)"@]
    } else {
        seq!["  "@ + pad_right("KEY"@, 20) + seq![' '] + pad_left("COUNT"@, 6) + seq![' '] + pad_left("POINTS"@, 8)
            + seq![' '] + pad_left("UNESTIMATED"@, 12)] + Seq::new(rows.len(), |i: int| workload_row_text(rows[i]))
    }
}

fn workload_row_line(r: &WorkloadRow) -> (s: String)
    ensures
        s@ == workload_row_text(*r),
{
    let mut m = String::from_str("  ");
    push_padded(&mut m, truncate_key(r.key.as_str(), 20).as_str(), 20);
    push_char(&mut m, ' ');
    push_padded_left(&mut m, decimal_string(r.count).as_str(), 6);
    push_char(&mut m, ' ');
    push_padded_left(&mut m, r.points.as_str(), 8);
    push_char(&mut m, ' ');
    push_padded_left(&mut m, decimal_string(r.unestimated).as_str(), 12);
    m
}

/// The lines of one workload table (see `workload_text`).
pub fn workload_lines(header: &str, rows: &Vec<WorkloadRow>) -> (r: Vec<String>)
    ensures
        row_views(r@) == workload_text(header@, rows@),
{
    let mut out: Vec<String> = Vec::new();
    assert(row_views(out@) =~= Seq::<Seq<char>>::empty());
    let blank = String::new();
    assert(blank@ =~= Seq::<char>::empty());
    push_line(&mut out, blank);
    assert(row_views(out@) =~= seq![Seq::<char>::empty()]);
    let mut h = String::from_str(header);
    push_char(&mut h, ':');
    assert(h@ =~= header@ + seq![':']);
    push_line(&mut out, h);
    let ghost head = row_views(out@);
    assert(head =~= seq![seq![], header@ + seq![':']]);
    if rows.len() == 0 {
        push_line(&mut out, String::from_str("  (no issues)"));
        assert(row_views(out@) =~= workload_text(header@, rows@));
        return out;
    }
    let mut t = String::from_str("  ");
    push_padded(&mut t, "KEY", 20);
    push_char(&mut t, ' ');
    push_padded_left(&mut t, "COUNT", 6);
    push_char(&mut t, ' ');
    push_padded_left(&mut t, "POINTS", 8);
    push_char(&mut t, ' ');
    push_padded_left(&mut t, "UNESTIMATED", 12);
    assert(t@ =~= "  "@ + pad_right("KEY"@, 20) + seq![' '] + pad_left("COUNT"@, 6) + seq![' '] + pad_left("POINTS"@, 8)
        + seq![' '] + pad_left("UNESTIMATED"@, 12));
    push_line(&mut out, t);
    let ghost top = row_views(out@);
    let mut i: usize = 0;
    while i < rows.len()
        invariant
            i <= rows.len(),
            row_views(out@) == top + Seq::new(i as nat, |k: int| workload_row_text(rows@[k])),
        decreases rows.len() - i,
    {
        let line = workload_row_line(&rows[i]);
        let ghost before = row_views(out@);
        out.push(line);
        assert(row_views(out@) =~= before.push(line@));
        i = i + 1;
        assert(row_views(out@) =~= top + Seq::new(i as nat, |k: int| workload_row_text(rows@[k])));
    }
    assert(row_views(out@) =~= workload_text(header@, rows@));
    out
}

/// The inbox drafts among `items`, in list order.
pub open spec fn drafts(items: Seq<PickItem>) -> Seq<PickItem> {
    items.filter(|it: PickItem| it.folder@ == "inbox"@)
}

/// The inbox listing of `triage`: each draft's slug and title, and how to
/// promote one; a notice when the inbox is empty.
pub open spec fn inbox_text(items: Seq<PickItem>) -> Seq<Seq<char>> {
    let d = drafts(items);
    if d.len() == 0 {
        seq!["Inbox is empty."@]
    } else {
        seq!["Inbox drafts ("@ + decimal_digits(d.len()) + "):"@] + Seq::new(d.len(), |i: int| "  "@ + d[i].slug@ + "  "@ + d[i].title@)
            + seq![seq![], "Promote one with: issuectl triage <slug>"@]
    }
}

/// The inbox drafts among `items` (see `drafts`).
pub fn inbox_drafts(items: &Vec<PickItem>) -> (r: Vec<usize>)
    ensures
        r@.len() == drafts(items@).len(),
        forall|k: int| 0 <= k < r@.len() ==> (#[trigger] r@[k]) < items@.len() && items@[r@[k] as int] == drafts(items@)[k],
{
    let mut out: Vec<usize> = Vec::new();
    let mut i: usize = 0;
    while i < items.len()
        invariant
            i <= items.len(),
            out@.len() == drafts(items@.take(i as int)).len(),
            forall|k: int| 0 <= k < out@.len() ==> (#[trigger] out@[k]) < i && items@[out@[k] as int] == drafts(items@.take(i as int))[k],
        decreases items.len() - i,
    {
        proof {
            reveal(Seq::filter);
            assert(items@.take(i as int + 1).drop_last() =~= items@.take(i as int));
        }
        if crate::text::str_eq(items[i].folder.as_str(), "inbox") {
            out.push(i);
        }
        i = i + 1;
    }
    assert(items@.take(items@.len() as int) =~= items@);
    out
}

/// The lines of the inbox listing (see `inbox_text`).
pub fn inbox_lines(items: &Vec<PickItem>) -> (r: Vec<String>)
    ensures
        row_views(r@) == inbox_text(items@),
{
    let idx = inbox_drafts(items);
    let ghost d = drafts(items@);
    let mut out: Vec<String> = Vec::new();
    if idx.len() == 0 {
        out.push(String::from_str("Inbox is empty."));
        assert(row_views(out@) =~= inbox_text(items@));
        return out;
    }
    let mut h = String::from_str("Inbox drafts (");
    h.append(decimal_string(idx.len()).as_str());
    h.append("):");
    push_line(&mut out, h);
    let ghost top = row_views(out@);
    let mut k: usize = 0;
    while k < idx.len()
        invariant
            k <= idx.len(),
            idx@.len() == d.len(),
            forall|j: int| 0 <= j < idx@.len() ==> (#[trigger] idx@[j]) < items@.len() && items@[idx@[j] as int] == d[j],
            row_views(out@) == top + Seq::new(k as nat, |j: int| "  "@ + d[j].slug@ + "  "@ + d[j].title@),
        decreases idx.len() - k,
    {
        let it = &items[idx[k]];
        let mut m = String::from_str("  ");
        m.append(it.slug.as_str());
        m.append("  ");
        m.append(it.title.as_str());
        let ghost before = row_views(out@);
        out.push(m);
        assert(row_views(out@) =~= before.push(m@));
        k = k + 1;
        assert(row_views(out@) =~= top + Seq::new(k as nat, |j: int| "  "@ + d[j].slug@ + "  "@ + d[j].title@));
    }
    push_line(&mut out, String::new());
    push_line(&mut out, String::from_str("Promote one with: issuectl triage <slug>"));
    assert(row_views(out@) =~= inbox_text(items@));
    out
}

} // verus!
