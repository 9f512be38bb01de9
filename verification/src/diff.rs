//! Dry-run previews: a git-style unified diff of an issue file.
use vstd::prelude::*;
use crate::text::str_eq;

verus! {

/// The unified-diff hunks (three lines of context) between two texts,
/// compared line by line.
pub uninterp spec fn unified_diff_hunks(before: Seq<char>, after: Seq<char>) -> Seq<char>;

/// The hunks of a line diff of `before` against `after`.
///
/// Trusted: `similar::TextDiff::from_lines(..).unified_diff()` with a
/// context radius of 3, rendered through its `Display` impl. With the
/// default configuration (no deadline) the diff is a function of the two
/// texts alone; only that is stated here.
#[verifier::external_body]
fn line_diff_hunks(before: &str, after: &str) -> (r: String)
    ensures
        r@ == unified_diff_hunks(before@, after@),
{
    let diff = similar::TextDiff::from_lines(before, after);
    diff.unified_diff().context_radius(3).to_string()
}

/// The path shown in the diff header: `issues/<dir name>/item.md`, or the
/// full `item.md` path when the issue directory has no final component.
pub open spec fn diff_path(dir_name: Option<Seq<char>>, item_path: Seq<char>) -> Seq<char> {
    match dir_name {
        Some(n) => "issues/"@ + n + "/item.md"@,
        None => item_path,
    }
}

/// What `render_unified_diff` gives.
pub open spec fn render_unified_diff_spec(
    before: Seq<char>,
    after: Seq<char>,
    dir_name: Option<Seq<char>>,
    item_path: Seq<char>,
) -> Seq<char> {
    if before == after {
        Seq::empty()
    } else {
        "--- a/"@ + diff_path(dir_name, item_path) + "\n"@ + "+++ b/"@ + diff_path(dir_name, item_path)
            + "\n"@ + unified_diff_hunks(before, after)
    }
}

/// Render a git-style unified diff between `before` and `after`, headed by
/// the repo-relative `issues/<slug>/item.md` path (so the header reads like
/// `git diff` rather than `a//abs/path`). Equal texts give the empty
/// string. `dir_name` is the issue directory's last component and
/// `item_path` the displayed path of its `item.md`, used when there is no
/// such component.
pub fn render_unified_diff(before: &str, after: &str, dir_name: Option<String>, item_path: String) -> (r: String)
    ensures
        r@ == render_unified_diff_spec(
            before@,
            after@,
            match dir_name {
                Some(n) => Some(n@),
                None => None,
            },
            item_path@,
        ),
{
    if str_eq(before, after) {
        return String::new();
    }
    let rel = match dir_name {
        Some(n) => {
            let mut p = String::from_str("issues/");
            p.append(n.as_str());
            p.append("/item.md");
            p
        },
        None => item_path,
    };
    let mut out = String::from_str("--- a/");
    out.append(rel.as_str());
    out.append("\n");
    out.append("+++ b/");
    out.append(rel.as_str());
    out.append("\n");
    let body = line_diff_hunks(before, after);
    out.append(body.as_str());
    out
}

} // verus!
