//! Scanning a source file's text for `TODO(issue: …)` markers, and how the
//! hits are reported.
use vstd::prelude::*;
use crate::args::answered;
use crate::number::{decimal_digits, decimal_string};
use crate::text::{chars_of, index_of_char, lemma_index_of_char, lemma_index_of_char_props, string_from_range, trim, trim_seq};
use crate::todo::{marker_inner, parse_todo_marker, strip_at, TodoMarker};

verus! {

/// `l` without one trailing carriage return.
pub open spec fn strip_cr(l: Seq<char>) -> Seq<char> {
    if l.len() > 0 && l.last() == '\r' {
        l.drop_last()
    } else {
        l
    }
}

/// The lines of `s` as `str::lines` yields them: split at each `\n`, one
/// `\r` before a `\n` dropped, and no empty line after a final `\n`.
pub open spec fn lines_of(s: Seq<char>) -> Seq<Seq<char>>
    decreases s.len(),
{
    let k = index_of_char(s, '\n');
    if s.len() == 0 {
        seq![]
    } else if k >= s.len() {
        seq![s]
    } else {
        proof {
            lemma_index_of_char_props(s, '\n');
        }
        seq![strip_cr(s.take(k))] + lines_of(s.skip(k + 1))
    }
}

/// Position of the first `c` at or after `pos` in `v` (`v.len()` if none).
fn find_from(v: &Vec<char>, pos: usize, c: char) -> (r: usize)
    requires
        pos <= v.len(),
    ensures
        r == pos + index_of_char(v@.skip(pos as int), c),
        pos <= r <= v.len(),
{
    let mut i = pos;
    while i < v.len() && v[i] != c
        invariant
            pos <= i <= v.len(),
            forall|j: int| pos <= j < i ==> #[trigger] v@[j] != c,
        decreases v.len() - i,
    {
        i += 1;
    }
    proof {
        let t = v@.skip(pos as int);
        assert forall|j: int| 0 <= j < i - pos implies #[trigger] t[j] != c by {
            assert(t[j] == v@[pos + j]);
        }
        lemma_index_of_char(t, c, i - pos);
    }
    i
}

/// The lines of `text`, as `str::lines` yields them (see `lines_of`).
pub fn split_lines(text: &str) -> (r: Vec<String>)
    ensures
        crate::keys::views(r@) == lines_of(text@),
{
    let v = chars_of(text);
    let mut out: Vec<String> = Vec::new();
    let mut pos: usize = 0;
    assert(v@.skip(0) =~= v@);
    assert(crate::keys::views(out@) =~= seq![]);
    while pos < v.len()
        invariant
            pos <= v.len(),
            v@ == text@,
            crate::keys::views(out@) + lines_of(v@.skip(pos as int)) == lines_of(v@),
        decreases v.len() - pos,
    {
        let ghost rest = v@.skip(pos as int);
        let ghost before = crate::keys::views(out@);
        let e = find_from(&v, pos, '\n');
        proof {
            lemma_index_of_char_props(rest, '\n');
        }
        if e == v.len() {
            let line = string_from_range(&v, pos, e);
            assert(line@ =~= rest);
            out.push(line);
            assert(crate::keys::views(out@) =~= before.push(line@));
            pos = e;
            assert(v@.skip(pos as int) =~= Seq::<char>::empty());
            assert(lines_of(rest) == seq![rest]);
            assert(crate::keys::views(out@) + lines_of(v@.skip(pos as int)) =~= before + seq![rest]);
        } else {
            let hi = if e > pos && v[e - 1] == '\r' {
                e - 1
            } else {
                e
            };
            let line = string_from_range(&v, pos, hi);
            let ghost k = e - pos;
            assert(rest.take(k) =~= v@.subrange(pos as int, e as int));
            assert(line@ =~= strip_cr(rest.take(k)));
            out.push(line);
            assert(crate::keys::views(out@) =~= before.push(line@));
            assert(rest.skip(k + 1) =~= v@.skip(e + 1));
            assert(lines_of(rest) == seq![strip_cr(rest.take(k))] + lines_of(rest.skip(k + 1)));
            pos = e + 1;
            assert(crate::keys::views(out@) + lines_of(v@.skip(pos as int)) =~= before + lines_of(rest));
        }
    }
    assert(v@.skip(pos as int) =~= Seq::<char>::empty());
    assert(crate::keys::views(out@) =~= crate::keys::views(out@) + lines_of(v@.skip(pos as int)));
    out
}

/// How a marker stands against the issue store.
#[derive(Debug)]
pub enum TodoStatus {
    /// Names an issue that is still open.
    Open,
    /// Names an issue whose status is closing.
    Stale,
    /// Names a slug the store does not know.
    Unknown,
    /// Names no issue.
    Untracked,
}

impl TodoStatus {
    /// The status as the report spells it.
    pub fn as_str(&self) -> (r: &'static str)
        ensures
            r@ == status_text(*self),
    {
        match self {
            TodoStatus::Open => "tracked",
            TodoStatus::Stale => "stale",
            TodoStatus::Unknown => "unknown",
            TodoStatus::Untracked => "untracked",
        }
    }
}

pub open spec fn status_text(s: TodoStatus) -> Seq<char> {
    match s {
        TodoStatus::Open => "tracked"@,
        TodoStatus::Stale => "stale"@,
        TodoStatus::Unknown => "unknown"@,
        TodoStatus::Untracked => "untracked"@,
    }
}

/// One marker found in a file's text.
pub struct TodoHit {
    /// 1-based line number.
    pub line: usize,
    /// The slug the marker names, when it names a well-formed one.
    pub slug: Option<String>,
    pub status: TodoStatus,
    /// The line, trimmed, cut to its first 200 characters.
    pub context: String,
}

/// Whether the issue `slug` has a closing status, by the store's
/// `(slug, closing)` list; a later entry for a slug wins.
pub open spec fn closing_of(known: Seq<(String, bool)>, slug: Seq<char>) -> Option<bool>
    decreases known.len(),
{
    if known.len() == 0 {
        None
    } else if known.last().0@ == slug {
        Some(known.last().1)
    } else {
        closing_of(known.drop_last(), slug)
    }
}

/// The status of a marker naming `slug`.
pub open spec fn linked_status(known: Seq<(String, bool)>, slug: Seq<char>) -> TodoStatus {
    match closing_of(known, slug) {
        Some(true) => TodoStatus::Stale,
        Some(false) => TodoStatus::Open,
        None => TodoStatus::Unknown,
    }
}

/// The context kept for a line: trimmed, at most 200 characters.
pub open spec fn context_of(line: Seq<char>) -> Seq<char> {
    let t = trim_seq(line);
    if t.len() <= 200 {
        t
    } else {
        t.take(200)
    }
}

/// `h` is the hit for the marker line `line` at 0-based position `idx`.
pub open spec fn hit_for<F: Fn(&str) -> bool>(
    h: TodoHit,
    line: Seq<char>,
    idx: int,
    known: Seq<(String, bool)>,
    is_valid_slug: F,
) -> bool {
    &&& h.line == idx + 1
    &&& h.context@ == context_of(line)
    &&& marker_inner(line) is Some
    &&& {
        let inner = marker_inner(line)->0;
        if inner.len() == 0 {
            h.slug is None && h.status is Untracked
        } else {
            ||| (h.slug matches Some(s) && s@ == strip_at(inner) && answered(is_valid_slug, strip_at(inner), true)
                && h.status == linked_status(known, strip_at(inner)))
            ||| (h.slug is None && h.status is Untracked && answered(is_valid_slug, strip_at(inner), false))
        }
    }
}

/// The positions of the lines of `ls` that hold a marker, in order.
pub open spec fn marked(ls: Seq<Seq<char>>) -> Seq<int>
    decreases ls.len(),
{
    if ls.len() == 0 {
        seq![]
    } else {
        let m = marked(ls.drop_last());
        if marker_inner(ls.last()) is Some {
            m.push(ls.len() - 1)
        } else {
            m
        }
    }
}

fn closing_lookup(known: &Vec<(String, bool)>, slug: &str) -> (r: Option<bool>)
    ensures
        r == closing_of(known@, slug@),
{
    let mut i = known.len();
    assert(known@.take(i as int) =~= known@);
    while i > 0
        invariant
            i <= known.len(),
            closing_of(known@, slug@) == closing_of(known@.take(i as int), slug@),
        decreases i,
    {
        assert(known@.take(i as int).drop_last() =~= known@.take(i - 1));
        assert(known@.take(i as int).last() == known@[i - 1]);
        if crate::text::str_eq(known[i - 1].0.as_str(), slug) {
            return Some(known[i - 1].1);
        }
        i -= 1;
    }
    None
}

fn context_text(line: &str) -> (r: String)
    ensures
        r@ == context_of(line@),
{
    let t = trim(line);
    let v = chars_of(t.as_str());
    let n = if v.len() <= 200 {
        v.len()
    } else {
        200
    };
    let r = string_from_range(&v, 0, n);
    assert(r@ =~= context_of(line@));
    r
}

/// The markers in one file's text, in line order; `None` for text that
/// looks binary (it holds a NUL character). `known` lists each issue's slug
/// with whether its status is closing; `is_valid_slug` is the store's slug
/// rule.
pub fn scan_text<F: Fn(&str) -> bool>(text: &str, known: &Vec<(String, bool)>, is_valid_slug: F) -> (r: Option<Vec<TodoHit>>)
    requires
        forall|x: &str| #[trigger] is_valid_slug.requires((x,)),
    ensures
        text@.contains('\0') ==> r is None,
        !text@.contains('\0') ==> (r matches Some(hits) && hits@.len() == marked(lines_of(text@)).len()
            && forall|k: int| 0 <= k < hits@.len() ==> hit_for(#[trigger] hits@[k], lines_of(text@)[marked(lines_of(text@))[k]], marked(lines_of(text@))[k], known@, is_valid_slug)),
{
    let v = chars_of(text);
    let nul = crate::text::find_char(&v, '\0');
    proof {
        lemma_index_of_char_props(text@, '\0');
    }
    if nul < v.len() {
        return None;
    }
    let lines = split_lines(text);
    let ghost ls = lines_of(text@);
    let mut hits: Vec<TodoHit> = Vec::new();
    let mut i: usize = 0;
    while i < lines.len()
        invariant
            i <= lines.len(),
            ls == crate::keys::views(lines@),
            forall|x: &str| #[trigger] is_valid_slug.requires((x,)),
            hits@.len() == marked(ls.take(i as int)).len(),
            forall|k: int| 0 <= k < hits@.len() ==> hit_for(#[trigger] hits@[k], ls[marked(ls.take(i as int))[k]], marked(ls.take(i as int))[k], known@, is_valid_slug),
        decreases lines.len() - i,
    {
        let line = lines[i].as_str();
        assert(line@ == ls[i as int]);
        assert(ls.take(i as int + 1).drop_last() =~= ls.take(i as int));
        assert(ls.take(i as int + 1).last() == ls[i as int]);
        let ghost before = marked(ls.take(i as int));
        match parse_todo_marker(line, &is_valid_slug) {
            None => {},
            Some(m) => {
                let (slug, status) = match m {
                    TodoMarker::Linked(s) => {
                        let st = match closing_lookup(known, s.as_str()) {
                            Some(true) => TodoStatus::Stale,
                            Some(false) => TodoStatus::Open,
                            None => TodoStatus::Unknown,
                        };
                        (Some(s), st)
                    },
                    TodoMarker::Untracked => (None, TodoStatus::Untracked),
                };
                let h = TodoHit { line: i + 1, slug, status, context: context_text(line) };
                hits.push(h);
            },
        }
        proof {
            let after = marked(ls.take(i as int + 1));
            assert forall|k: int| 0 <= k < hits@.len() implies hit_for(#[trigger] hits@[k], ls[after[k]], after[k], known@, is_valid_slug) by {
                if k < before.len() {
                    assert(after[k] == before[k]);
                }
            }
        }
        i = i + 1;
    }
    assert(ls.take(lines@.len() as int) =~= ls);
    Some(hits)
}

/// `file:line`, as the report and the drafts cite a hit.
pub open spec fn location(file: Seq<char>, line: usize) -> Seq<char> {
    file + seq![':'] + decimal_digits(line as nat)
}

/// The report line for a hit: status, location, slug (`-` when none), then
/// the context after two spaces when there is any.
pub open spec fn hit_line(file: Seq<char>, h: TodoHit) -> Seq<char> {
    status_text(h.status) + seq![' '] + location(file, h.line) + seq![' '] + match h.slug {
        Some(s) => s@,
        None => "-"@,
    } + if h.context@.len() == 0 {
        seq![]
    } else {
        "  "@ + h.context@
    }
}

fn location_text(file: &str, line: usize) -> (r: String)
    ensures
        r@ == location(file@, line),
{
    let mut m = String::from_str(file);
    crate::text::push_char(&mut m, ':');
    m.append(decimal_string(line).as_str());
    m
}

/// The human-readable report line for one hit in `file`.
pub fn todo_hit_line(file: &str, h: &TodoHit) -> (r: String)
    ensures
        r@ == hit_line(file@, *h),
{
    let mut m = String::from_str(h.status.as_str());
    crate::text::push_char(&mut m, ' ');
    m.append(location_text(file, h.line).as_str());
    crate::text::push_char(&mut m, ' ');
    match &h.slug {
        Some(s) => m.append(s.as_str()),
        None => m.append("-"),
    }
    if !h.context.as_str().is_empty() {
        m.append("  ");
        m.append(h.context.as_str());
    }
    proof {
        if h.context@.len() == 0 {
            assert(m@ =~= hit_line(file@, *h));
        }
    }
    m
}

/// The title of the inbox draft made for an untracked hit: its context, or
/// its location when the line has none.
pub open spec fn draft_title(file: Seq<char>, h: TodoHit) -> Seq<char> {
    if h.context@.len() == 0 {
        "TODO from "@ + location(file, h.line)
    } else {
        h.context@
    }
}

/// The description of that draft: the source location, then the line in a
/// fenced block.
pub open spec fn draft_description(file: Seq<char>, h: TodoHit) -> Seq<char> {
    "_Source: "@ + location(file, h.line) + "_\n\n```\n"@ + h.context@ + "\n```\n"@
}

/// The title and description of the inbox draft for a hit in `file`.
pub fn inbox_draft(file: &str, h: &TodoHit) -> (r: (String, String))
    ensures
        r.0@ == draft_title(file@, *h),
        r.1@ == draft_description(file@, *h),
{
    let title = if h.context.as_str().is_empty() {
        let mut t = String::from_str("TODO from ");
        t.append(location_text(file, h.line).as_str());
        t
    } else {
        h.context.clone()
    };
    let mut d = String::from_str("_Source: ");
    d.append(location_text(file, h.line).as_str());
    d.append("_\n\n```\n");
    d.append(h.context.as_str());
    d.append("\n```\n");
    (title, d)
}

/// What the tree walk does with one directory entry.
#[derive(Debug, PartialEq, Eq, Structural, Clone, Copy)]
pub enum WalkStep {
    Skip,
    Descend,
    Scan,
}

/// Files larger than this many bytes are not scanned.
pub const MAX_SCAN_BYTES: u64 = 1000000;

/// The walk's rule for an entry named `name`: symbolic links, hidden
/// entries and the `target`, `node_modules` and `issues` directories are
/// skipped; other directories are entered; regular files are scanned unless
/// they are larger than `MAX_SCAN_BYTES` (`size` is `None` when the size is
/// unknown); anything else is skipped.
pub open spec fn walk_rule(name: Seq<char>, is_symlink: bool, is_dir: bool, is_file: bool, size: Option<u64>) -> WalkStep {
    if is_symlink {
        WalkStep::Skip
    } else if name.len() > 0 && name[0] == '.' {
        WalkStep::Skip
    } else if is_dir {
        if name == "target"@ || name == "node_modules"@ || name == "issues"@ {
            WalkStep::Skip
        } else {
            WalkStep::Descend
        }
    } else if !is_file {
        WalkStep::Skip
    } else if size matches Some(n) && n > MAX_SCAN_BYTES {
        WalkStep::Skip
    } else {
        WalkStep::Scan
    }
}

pub fn walk_step(name: &str, is_symlink: bool, is_dir: bool, is_file: bool, size: Option<u64>) -> (r: WalkStep)
    ensures
        r == walk_rule(name@, is_symlink, is_dir, is_file, size),
{
    if is_symlink {
        return WalkStep::Skip;
    }
    let v = chars_of(name);
    if v.len() > 0 && v[0] == '.' {
        return WalkStep::Skip;
    }
    if is_dir {
        if crate::text::str_eq(name, "target") || crate::text::str_eq(name, "node_modules") || crate::text::str_eq(name, "issues") {
            return WalkStep::Skip;
        }
        return WalkStep::Descend;
    }
    if !is_file {
        return WalkStep::Skip;
    }
    match size {
        Some(n) => {
            if n > MAX_SCAN_BYTES {
                return WalkStep::Skip;
            }
        },
        None => {},
    }
    WalkStep::Scan
}

} // verus!
