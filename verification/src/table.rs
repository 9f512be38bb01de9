//! The issue table of `list` and the detail view of `show`, as text lines.
use vstd::prelude::*;
use crate::display::{truncate, truncate_spec};
use crate::keys::views;
use crate::number::{decimal_digits, decimal_string};
use crate::report::{join, join_strings, pad_right, push_line, push_padded};
use crate::text::{push_char, trim_end, trim_end_seq};
use crate::tree::row_views;
use vstd::string::StringSliceAdditionalSpecFns;
use vstd::utf8::encode_utf8;

verus! {

/// What the issue table shows of one issue.
pub struct IssueRow {
    pub slug: String,
    pub title: String,
    pub issue_type: String,
    pub status: String,
    pub priority: String,
    /// The effective assignee (empty when there is none).
    pub assignee: String,
}

pub open spec fn headers() -> Seq<Seq<char>> {
    seq!["Slug"@, "Title"@, "Type"@, "Status"@, "Pri"@, "Assignee"@]
}

/// The cells of a row: the title cut to 50 characters.
pub open spec fn cells(r: IssueRow) -> Seq<Seq<char>> {
    seq![r.slug@, truncate_spec(r.title@, 50), r.issue_type@, r.status@, r.priority@, r.assignee@]
}

/// The width of a cell: its length in UTF-8 bytes.
pub open spec fn byte_len(s: Seq<char>) -> int {
    encode_utf8(s).len() as int
}

pub open spec fn max(a: int, b: int) -> int {
    if a < b {
        b
    } else {
        a
    }
}

/// The width of column `j`: the widest of its header and its cells.
pub open spec fn col_width(rows: Seq<IssueRow>, j: int) -> int
    decreases rows.len(),
{
    if rows.len() == 0 {
        byte_len(headers()[j])
    } else {
        max(col_width(rows.drop_last(), j), byte_len(cells(rows.last())[j]))
    }
}

/// The pieces of `s` one after another.
pub open spec fn concat(s: Seq<Seq<char>>) -> Seq<char>
    decreases s.len(),
{
    if s.len() == 0 {
        seq![]
    } else {
        concat(s.drop_last()) + s.last()
    }
}

/// `cells` laid out in the table's columns, each one column wider than
/// its widest entry, trailing blanks removed.
pub open spec fn table_line(cells: Seq<Seq<char>>, rows: Seq<IssueRow>) -> Seq<char> {
    trim_end_seq(concat(Seq::new(6, |j: int| pad_right(cells[j], (col_width(rows, j) + 1) as nat))))
}

/// `n` copies of `─`.
pub open spec fn rule(n: nat) -> Seq<char> {
    Seq::new(n, |i: int| '─')
}

/// The rule under the header, as wide as the columns.
pub open spec fn rule_line(rows: Seq<IssueRow>) -> Seq<char> {
    trim_end_seq(concat(Seq::new(6, |j: int| rule((col_width(rows, j) + 1) as nat))))
}

/// The table as printed lines: header, rule, one line per issue, a blank
/// line and the count; a single notice when there are no issues.
pub open spec fn table_lines(rows: Seq<IssueRow>) -> Seq<Seq<char>> {
    if rows.len() == 0 {
        seq!["No issues found."@]
    } else {
        seq![table_line(headers(), rows), rule_line(rows)] + Seq::new(rows.len(), |i: int| table_line(cells(rows[i]), rows))
            + seq![seq![], decimal_digits(rows.len()) + " issue(s)"@]
    }
}

fn byte_width(s: &str) -> (r: usize)
    requires
        byte_len(s@) < usize::MAX,
    ensures
        r == byte_len(s@),
{
    assert(s.spec_bytes() == encode_utf8(s@));
    s.len()
}

fn copy(s: &String) -> (r: String)
    ensures
        r@ == s@,
{
    s.clone()
}

fn row_cells(r: &IssueRow) -> (c: Vec<String>)
    ensures
        views(c@) == cells(*r),
        c@.len() == 6,
        forall|j: int| 0 <= j < 6 ==> (#[trigger] c@[j])@ == cells(*r)[j],
{
    let c = vec![copy(&r.slug), truncate(r.title.as_str(), 50), copy(&r.issue_type), copy(&r.status), copy(&r.priority), copy(&r.assignee)];
    assert(views(c@) =~= cells(*r));
    assert forall|j: int| 0 <= j < 6 implies (#[trigger] c@[j])@ == cells(*r)[j] by {
        assert(views(c@)[j] == c@[j]@);
    }
    c
}

fn header_cells() -> (c: Vec<String>)
    ensures
        views(c@) == headers(),
        c@.len() == 6,
        forall|j: int| 0 <= j < 6 ==> (#[trigger] c@[j])@ == headers()[j],
{
    let c = vec![String::from_str("Slug"), String::from_str("Title"), String::from_str("Type"), String::from_str("Status"), String::from_str("Pri"), String::from_str("Assignee")];
    assert(views(c@) =~= headers());
    assert forall|j: int| 0 <= j < 6 implies (#[trigger] c@[j])@ == headers()[j] by {
        assert(views(c@)[j] == c@[j]@);
    }
    c
}

proof fn lemma_header_widths()
    ensures
        byte_len(headers()[0]) == 4,
        byte_len(headers()[1]) == 5,
        byte_len(headers()[2]) == 4,
        byte_len(headers()[3]) == 6,
        byte_len(headers()[4]) == 3,
        byte_len(headers()[5]) == 8,
{
    reveal_strlit("Slug");
    reveal_strlit("Title");
    reveal_strlit("Type");
    reveal_strlit("Status");
    reveal_strlit("Pri");
    reveal_strlit("Assignee");
    vstd::utf8::is_ascii_chars_encode_utf8("Slug"@);
    vstd::utf8::is_ascii_chars_encode_utf8("Title"@);
    vstd::utf8::is_ascii_chars_encode_utf8("Type"@);
    vstd::utf8::is_ascii_chars_encode_utf8("Status"@);
    vstd::utf8::is_ascii_chars_encode_utf8("Pri"@);
    vstd::utf8::is_ascii_chars_encode_utf8("Assignee"@);
}

/// Every cell of the table fits a `usize` byte count with room to spare.
pub open spec fn cells_fit(rows: Seq<IssueRow>) -> bool {
    forall|i: int, j: int| 0 <= i < rows.len() && 0 <= j < 6 ==> byte_len(#[trigger] cells(rows[i])[j]) < usize::MAX
}

proof fn lemma_col_width_bound(rows: Seq<IssueRow>, j: int)
    requires
        0 <= j < 6,
        cells_fit(rows),
    ensures
        col_width(rows, j) < usize::MAX,
        col_width(rows, j) >= 0,
    decreases rows.len(),
{
    lemma_header_widths();
    if rows.len() > 0 {
        assert(cells_fit(rows.drop_last())) by {
            assert forall|i: int, k: int| 0 <= i < rows.drop_last().len() && 0 <= k < 6 implies byte_len(#[trigger] cells(rows.drop_last()[i])[k]) < usize::MAX by {
                assert(rows.drop_last()[i] == rows[i]);
            }
        }
        lemma_col_width_bound(rows.drop_last(), j);
        assert(byte_len(cells(rows[rows.len() - 1])[j]) < usize::MAX);
    }
}

/// The column widths, one per column.
fn column_widths(rows: &Vec<IssueRow>) -> (w: Vec<usize>)
    requires
        cells_fit(rows@),
    ensures
        w@.len() == 6,
        forall|j: int| 0 <= j < 6 ==> #[trigger] w@[j] == col_width(rows@, j),
{
    proof {
        lemma_header_widths();
    }
    let mut w: Vec<usize> = vec![4, 5, 4, 6, 3, 8];
    let mut i: usize = 0;
    assert(rows@.take(0) =~= Seq::<IssueRow>::empty());
    while i < rows.len()
        invariant
            i <= rows.len(),
            cells_fit(rows@),
            w@.len() == 6,
            forall|j: int| 0 <= j < 6 ==> #[trigger] w@[j] == col_width(rows@.take(i as int), j),
        decreases rows.len() - i,
    {
        let ghost t1 = rows@.take(i as int + 1);
        assert(t1.drop_last() =~= rows@.take(i as int));
        assert(t1.last() == rows@[i as int]);
        let c = row_cells(&rows[i]);
        let mut j: usize = 0;
        while j < 6
            invariant
                i < rows.len(),
                cells_fit(rows@),
                t1 == rows@.take(i as int + 1),
                t1.drop_last() == rows@.take(i as int),
                t1.last() == rows@[i as int],
                c@.len() == 6,
                forall|k: int| 0 <= k < 6 ==> (#[trigger] c@[k])@ == cells(rows@[i as int])[k],
                j <= 6,
                w@.len() == 6,
                forall|k: int| 0 <= k < j ==> #[trigger] w@[k] == col_width(t1, k),
                forall|k: int| j <= k < 6 ==> #[trigger] w@[k] == col_width(rows@.take(i as int), k),
            decreases 6 - j,
        {
            assert(c@[j as int]@ == cells(rows@[i as int])[j as int]);
            assert(byte_len(cells(rows@[i as int])[j as int]) < usize::MAX);
            let b = byte_width(c[j].as_str());
            if b > w[j] {
                w.set(j, b);
            }
            j = j + 1;
        }
        i = i + 1;
    }
    assert(rows@.take(rows@.len() as int) =~= rows@);
    w
}

/// Lay `cells` out in columns `widths[j] + 1` wide, trailing blanks
/// removed.
fn layout(cells: &Vec<String>, widths: &Vec<usize>) -> (r: String)
    requires
        cells@.len() == 6,
        widths@.len() == 6,
        forall|j: int| 0 <= j < 6 ==> #[trigger] widths@[j] < usize::MAX,
    ensures
        r@ == trim_end_seq(concat(Seq::new(6, |j: int| pad_right(cells@[j]@, (widths@[j] + 1) as nat)))),
{
    let ghost parts = Seq::new(6, |j: int| pad_right(cells@[j]@, (widths@[j] + 1) as nat));
    let mut m = String::new();
    let mut j: usize = 0;
    assert(parts.take(0) =~= Seq::<Seq<char>>::empty());
    while j < 6
        invariant
            j <= 6,
            cells@.len() == 6,
            widths@.len() == 6,
            forall|k: int| 0 <= k < 6 ==> #[trigger] widths@[k] < usize::MAX,
            parts == Seq::new(6, |k: int| pad_right(cells@[k]@, (widths@[k] + 1) as nat)),
            m@ == concat(parts.take(j as int)),
        decreases 6 - j,
    {
        assert(parts.take(j as int + 1).drop_last() =~= parts.take(j as int));
        push_padded(&mut m, cells[j].as_str(), widths[j] + 1);
        j = j + 1;
    }
    assert(parts.take(6) =~= parts);
    trim_end(m.as_str())
}

/// The rule under the header: `─` across each column, trailing blanks
/// removed.
fn rule_text(widths: &Vec<usize>) -> (r: String)
    requires
        widths@.len() == 6,
        forall|j: int| 0 <= j < 6 ==> #[trigger] widths@[j] < usize::MAX,
    ensures
        r@ == trim_end_seq(concat(Seq::new(6, |j: int| rule((widths@[j] + 1) as nat)))),
{
    let ghost parts = Seq::new(6, |j: int| rule((widths@[j] + 1) as nat));
    let mut m = String::new();
    let mut j: usize = 0;
    assert(parts.take(0) =~= Seq::<Seq<char>>::empty());
    while j < 6
        invariant
            j <= 6,
            widths@.len() == 6,
            forall|k: int| 0 <= k < 6 ==> #[trigger] widths@[k] < usize::MAX,
            parts == Seq::new(6, |k: int| rule((widths@[k] + 1) as nat)),
            m@ == concat(parts.take(j as int)),
        decreases 6 - j,
    {
        assert(parts.take(j as int + 1).drop_last() =~= parts.take(j as int));
        let ghost before = m@;
        let n = widths[j] + 1;
        let mut k: usize = 0;
        while k < n
            invariant
                k <= n,
                m@ == before + rule(k as nat),
            decreases n - k,
        {
            push_char(&mut m, '─');
            k = k + 1;
            assert(m@ =~= before + rule(k as nat));
        }
        j = j + 1;
    }
    assert(parts.take(6) =~= parts);
    trim_end(m.as_str())
}

/// The issue table as printed lines (see `table_lines`).
pub fn issue_table_lines(rows: &Vec<IssueRow>) -> (r: Vec<String>)
    requires
        cells_fit(rows@),
    ensures
        row_views(r@) == table_lines(rows@),
{
    let mut out: Vec<String> = Vec::new();
    if rows.len() == 0 {
        out.push(String::from_str("No issues found."));
        assert(row_views(out@) =~= table_lines(rows@));
        return out;
    }
    let w = column_widths(rows);
    proof {
        assert forall|j: int| 0 <= j < 6 implies #[trigger] w@[j] < usize::MAX by {
            lemma_col_width_bound(rows@, j);
        }
    }
    let h = header_cells();
    out.push(layout(&h, &w));
    out.push(rule_text(&w));
    proof {
        assert(Seq::new(6, |j: int| pad_right(h@[j]@, (w@[j] + 1) as nat)) =~= Seq::new(6, |j: int| pad_right(headers()[j], (col_width(rows@, j) + 1) as nat)));
        assert(Seq::new(6, |j: int| rule((w@[j] + 1) as nat)) =~= Seq::new(6, |j: int| rule((col_width(rows@, j) + 1) as nat)));
    }
    let mut i: usize = 0;
    while i < rows.len()
        invariant
            i <= rows.len(),
            rows@.len() > 0,
            w@.len() == 6,
            forall|j: int| 0 <= j < 6 ==> #[trigger] w@[j] == col_width(rows@, j),
            forall|j: int| 0 <= j < 6 ==> #[trigger] w@[j] < usize::MAX,
            row_views(out@) == seq![table_line(headers(), rows@), rule_line(rows@)] + Seq::new(i as nat, |k: int| table_line(cells(rows@[k]), rows@)),
        decreases rows.len() - i,
    {
        let c = row_cells(&rows[i]);
        let line = layout(&c, &w);
        proof {
            assert(Seq::new(6, |j: int| pad_right(c@[j]@, (w@[j] + 1) as nat)) =~= Seq::new(6, |j: int| pad_right(cells(rows@[i as int])[j], (col_width(rows@, j) + 1) as nat)));
        }
        let ghost before = row_views(out@);
        out.push(line);
        assert(row_views(out@) =~= before.push(line@));
        i = i + 1;
        assert(row_views(out@) =~= seq![table_line(headers(), rows@), rule_line(rows@)] + Seq::new(i as nat, |k: int| table_line(cells(rows@[k]), rows@)));
    }
    out.push(String::new());
    let mut last = decimal_string(rows.len());
    last.append(" issue(s)");
    out.push(last);
    assert(row_views(out@) =~= table_lines(rows@));
    out
}

/// What the detail view of `show` reads of an issue.
pub struct IssueDetail {
    pub slug: String,
    pub title: String,
    pub status: String,
    pub folder: String,
    pub issue_type: String,
    pub priority: String,
    pub assignee: Option<String>,
    pub owner: Option<String>,
    pub reporter: Option<String>,
    pub created: Option<String>,
    pub updated: Option<String>,
    pub epic: Option<String>,
    pub labels: Option<Vec<String>>,
    pub related: Option<Vec<String>>,
    pub closed: Option<String>,
    pub closed_by: Option<String>,
    /// Linked commits as `(hash, summary)`.
    pub commits: Option<Vec<(String, String)>>,
    pub body: String,
}

/// A labelled line for an optional field, when it is set.
pub open spec fn opt_line(label: Seq<char>, v: Option<String>) -> Seq<Seq<char>> {
    match v {
        Some(x) => seq![label + x@],
        None => seq![],
    }
}

/// A labelled, comma-joined line for an optional list, when it is set and
/// not empty.
pub open spec fn list_line(label: Seq<char>, v: Option<Vec<String>>) -> Seq<Seq<char>> {
    match v {
        Some(xs) => if xs@.len() == 0 {
            seq![]
        } else {
            seq![label + join(views(xs@), ", "@)]
        },
        None => seq![],
    }
}

/// The commits block: a heading and one line per commit, when there are
/// any.
pub open spec fn commit_lines(v: Option<Vec<(String, String)>>) -> Seq<Seq<char>> {
    match v {
        Some(cs) => if cs@.len() == 0 {
            seq![]
        } else {
            seq!["Commits:"@] + Seq::new(cs@.len(), |i: int| "  "@ + cs@[i].0@ + "  "@ + cs@[i].1@)
        },
        None => seq![],
    }
}

/// The first lines of the detail view: slug and title, a rule, status and
/// folder, type, priority.
pub open spec fn head_lines(d: IssueDetail) -> Seq<Seq<char>> {
    seq![
        d.slug@ + "  "@ + d.title@,
        rule(60),
        "Status:   "@ + d.status@ + "  ("@ + d.folder@ + ")"@,
        "Type:     "@ + d.issue_type@,
        "Priority: "@ + d.priority@,
    ]
}

/// The detail view as printed lines: the head, the fields that are set,
/// the commits, a blank line and the body.
pub open spec fn detail_lines(d: IssueDetail) -> Seq<Seq<char>> {
    head_lines(d) + people_lines(d) + link_lines(d) + commit_lines(d.commits) + seq![seq![], d.body@]
}

fn labelled(label: &str, v: &str) -> (r: String)
    ensures
        r@ == label@ + v@,
{
    let mut m = String::from_str(label);
    m.append(v);
    m
}

fn push_opt(out: &mut Vec<String>, label: &str, v: &Option<String>)
    ensures
        row_views(final(out)@) == row_views(old(out)@) + opt_line(label@, *v),
{
    match v {
        Some(x) => push_line(out, labelled(label, x.as_str())),
        None => {},
    }
    assert(row_views(out@) =~= row_views(old(out)@) + opt_line(label@, *v));
}

fn push_list(out: &mut Vec<String>, label: &str, v: &Option<Vec<String>>)
    ensures
        row_views(final(out)@) == row_views(old(out)@) + list_line(label@, *v),
{
    match v {
        Some(xs) => {
            if xs.len() > 0 {
                let j = join_strings(xs, ", ");
                push_line(out, labelled(label, j.as_str()));
            }
        },
        None => {},
    }
    assert(row_views(out@) =~= row_views(old(out)@) + list_line(label@, *v));
}

fn head_text(d: &IssueDetail) -> (r: Vec<String>)
    ensures
        row_views(r@) == head_lines(*d),
{
    let mut out: Vec<String> = Vec::new();
    let mut first = copy(&d.slug);
    first.append("  ");
    first.append(d.title.as_str());
    push_line(&mut out, first);
    let mut bar = String::new();
    let mut k: usize = 0;
    while k < 60
        invariant
            k <= 60,
            bar@ == rule(k as nat),
        decreases 60 - k,
    {
        push_char(&mut bar, '─');
        k = k + 1;
        assert(bar@ =~= rule(k as nat));
    }
    push_line(&mut out, bar);
    let mut st = labelled("Status:   ", d.status.as_str());
    st.append("  (");
    st.append(d.folder.as_str());
    st.append(")");
    push_line(&mut out, st);
    push_line(&mut out, labelled("Type:     ", d.issue_type.as_str()));
    push_line(&mut out, labelled("Priority: ", d.priority.as_str()));
    assert(row_views(out@) =~= head_lines(*d));
    out
}

/// The lines of the person and date fields that are set.
pub open spec fn people_lines(d: IssueDetail) -> Seq<Seq<char>> {
    opt_line("Assignee: "@, d.assignee) + opt_line("Owner:    "@, d.owner) + opt_line("Reporter: "@, d.reporter)
        + opt_line("Created:  "@, d.created) + opt_line("Updated:  "@, d.updated)
}

/// The lines of the link and closing fields that are set.
pub open spec fn link_lines(d: IssueDetail) -> Seq<Seq<char>> {
    opt_line("Epic:     @"@, d.epic) + list_line("Labels:   "@, d.labels) + list_line("Related:  "@, d.related)
        + opt_line("Closed:   "@, d.closed) + opt_line("Closed by: "@, d.closed_by)
}

fn push_people(out: &mut Vec<String>, d: &IssueDetail)
    ensures
        row_views(final(out)@) == row_views(old(out)@) + people_lines(*d),
{
    let ghost s0 = row_views(out@);
    push_opt(out, "Assignee: ", &d.assignee);
    push_opt(out, "Owner:    ", &d.owner);
    push_opt(out, "Reporter: ", &d.reporter);
    push_opt(out, "Created:  ", &d.created);
    push_opt(out, "Updated:  ", &d.updated);
    assert(row_views(out@) =~= s0 + people_lines(*d));
}

fn push_links(out: &mut Vec<String>, d: &IssueDetail)
    ensures
        row_views(final(out)@) == row_views(old(out)@) + link_lines(*d),
{
    let ghost s0 = row_views(out@);
    push_opt(out, "Epic:     @", &d.epic);
    push_list(out, "Labels:   ", &d.labels);
    push_list(out, "Related:  ", &d.related);
    push_opt(out, "Closed:   ", &d.closed);
    push_opt(out, "Closed by: ", &d.closed_by);
    assert(row_views(out@) =~= s0 + link_lines(*d));
}

fn push_commits(out: &mut Vec<String>, commits: &Option<Vec<(String, String)>>)
    ensures
        row_views(final(out)@) == row_views(old(out)@) + commit_lines(*commits),
{
    let ghost mid = row_views(out@);
    match commits {
        Some(cs) => {
            if cs.len() > 0 {
                push_line(out, String::from_str("Commits:"));
                let mut i: usize = 0;
                while i < cs.len()
                    invariant
                        i <= cs.len(),
                        row_views(out@) == mid + seq!["Commits:"@] + Seq::new(i as nat, |k: int| "  "@ + cs@[k].0@ + "  "@ + cs@[k].1@),
                    decreases cs.len() - i,
                {
                    let mut l = String::from_str("  ");
                    l.append(cs[i].0.as_str());
                    l.append("  ");
                    l.append(cs[i].1.as_str());
                    push_line(out, l);
                    i = i + 1;
                    assert(row_views(out@) =~= mid + seq!["Commits:"@] + Seq::new(i as nat, |k: int| "  "@ + cs@[k].0@ + "  "@ + cs@[k].1@));
                }
            }
        },
        None => {},
    }
    assert(row_views(out@) =~= mid + commit_lines(*commits));
}

/// The detail view of one issue as printed lines (see `detail_lines`).
pub fn issue_detail_lines(d: &IssueDetail) -> (r: Vec<String>)
    ensures
        row_views(r@) == detail_lines(*d),
{
    let mut out = head_text(d);
    push_people(&mut out, d);
    push_links(&mut out, d);
    push_commits(&mut out, &d.commits);
    push_line(&mut out, String::new());
    push_line(&mut out, copy(&d.body));
    assert(row_views(out@) =~= detail_lines(*d));
    out
}

} // verus!
