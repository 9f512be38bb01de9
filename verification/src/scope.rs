//! Which issues a listing shows by default, and cycle-name resolution.
use vstd::prelude::*;
use crate::text::{chars_of, string_from_range, trim_bounds, trim_seq};

verus! {

/// The implicit folder scope shared by `list` and `export`: open issues
/// only, unless `--all` (no filter), `--closed`, or a positional query
/// (the caller scopes it themselves) is given. `--all` wins over
/// `--closed`.
pub fn folder_default_filter(all: bool, closed: bool, has_query: bool) -> (r: Option<&'static str>)
    ensures
        all ==> r is None,
        !all && closed ==> (r matches Some(f) && f@ == "closed"@),
        !all && !closed && has_query ==> r is None,
        !all && !closed && !has_query ==> (r matches Some(f) && f@ == "open"@),
{
    if all {
        None
    } else if closed {
        Some("closed")
    } else if has_query {
        None
    } else {
        Some("open")
    }
}

/// Folder scope for `list`: as `folder_default_filter`, where a positive
/// `status:` or `folder:` term in the query (`status_pinned`,
/// `folder_pinned`) also disables the implicit open-only default, so
/// `list --status done` is not ANDed with `folder:open`.
pub fn list_folder_filter(
    all: bool,
    closed: bool,
    has_query: bool,
    status_pinned: bool,
    folder_pinned: bool,
) -> (r: Option<&'static str>)
    ensures
        all ==> r is None,
        !all && closed ==> (r matches Some(f) && f@ == "closed"@),
        !all && !closed && (has_query || status_pinned || folder_pinned) ==> r is None,
        !all && !closed && !(has_query || status_pinned || folder_pinned) ==> (r matches Some(f)
            && f@ == "open"@),
{
    folder_default_filter(all, closed, has_query || status_pinned || folder_pinned)
}

/// The scalar value of `c` after ASCII lower-casing, as
/// `char::to_ascii_lowercase`.
pub open spec fn ascii_lower(c: char) -> u32 {
    if 'A' <= c && c <= 'Z' {
        (c as u32 + 32) as u32
    } else {
        c as u32
    }
}

/// `a` and `b` are equal ignoring ASCII case, as `str::eq_ignore_ascii_case`.
pub open spec fn eq_ignore_ascii_case(a: Seq<char>, b: Seq<char>) -> bool {
    a.len() == b.len() && forall|i: int| 0 <= i < a.len() ==> ascii_lower(#[trigger] a[i]) == ascii_lower(b[i])
}

fn lower(c: char) -> (r: u32)
    ensures
        r == ascii_lower(c),
{
    if 'A' <= c && c <= 'Z' {
        c as u32 + 32
    } else {
        c as u32
    }
}

/// What `resolve_cycle_name` gives: the current cycle label for the alias
/// `current` (any ASCII case, surrounding whitespace ignored), otherwise
/// the trimmed name.
pub open spec fn resolve_cycle_spec(name: Seq<char>, current: Seq<char>) -> Seq<char> {
    if eq_ignore_ascii_case(trim_seq(name), "current"@) {
        current
    } else {
        trim_seq(name)
    }
}

/// Resolve a user-supplied cycle name. `current` is an alias for the
/// current cycle label (computed from today's date by the caller and
/// passed in as `current_cycle`); every other name is returned trimmed, so
/// trailing whitespace from a shell pipeline does not miss matches.
pub fn resolve_cycle_name(name: &str, current_cycle: String) -> (r: String)
    ensures
        r@ == resolve_cycle_spec(name@, current_cycle@),
{
    let v = chars_of(name);
    let (lo, hi) = trim_bounds(&v);
    let target = chars_of("current");
    let mut same = hi - lo == target.len();
    let mut i: usize = 0;
    while same && i < target.len()
        invariant
            lo <= hi <= v.len(),
            same ==> hi - lo == target.len(),
            i <= target.len(),
            same ==> forall|j: int| 0 <= j < i ==> ascii_lower(v@[lo + j]) == ascii_lower(target@[j]),
            !same ==> !eq_ignore_ascii_case(v@.subrange(lo as int, hi as int), target@),
        decreases target.len() - i + if same {
            1int
        } else {
            0int
        },
    {
        if lower(v[lo + i]) != lower(target[i]) {
            same = false;
            assert(v@.subrange(lo as int, hi as int)[i as int] == v@[lo + i]);
        } else {
            i += 1;
        }
    }
    if same {
        assert(eq_ignore_ascii_case(v@.subrange(lo as int, hi as int), target@)) by {
            assert forall|j: int| 0 <= j < hi - lo implies ascii_lower(
                #[trigger] v@.subrange(lo as int, hi as int)[j],
            ) == ascii_lower(target@[j]) by {
                assert(v@.subrange(lo as int, hi as int)[j] == v@[lo + j]);
            }
        }
        current_cycle
    } else {
        string_from_range(&v, lo, hi)
    }
}

/// A field that a `list` flag filters on.
pub enum ListField {
    Assignee,
    Type,
    Priority,
    Status,
    Epic,
    Label,
}

/// The filters that `list`'s flags stand for.
pub struct ListFlags {
    pub assignee: Option<String>,
    pub issue_type: Option<String>,
    pub priority: Option<String>,
    pub status: Option<String>,
    pub epic: Option<String>,
    pub label: Option<String>,
}

pub open spec fn term_of(field: ListField, v: Option<String>) -> Seq<(ListField, Seq<char>)> {
    match v {
        Some(s) => seq![(field, s@)],
        None => seq![],
    }
}

/// One equality term per flag given, in a fixed order: assignee, type,
/// priority, status, epic, label.
pub open spec fn flag_terms_spec(f: ListFlags) -> Seq<(ListField, Seq<char>)> {
    term_of(ListField::Assignee, f.assignee) + term_of(ListField::Type, f.issue_type) + term_of(
        ListField::Priority,
        f.priority,
    ) + term_of(ListField::Status, f.status) + term_of(ListField::Epic, f.epic) + term_of(ListField::Label, f.label)
}

pub open spec fn terms_view(t: Seq<(ListField, String)>) -> Seq<(ListField, Seq<char>)> {
    Seq::new(t.len(), |i: int| (t[i].0, t[i].1@))
}

fn push_term(out: &mut Vec<(ListField, String)>, field: ListField, v: Option<String>)
    ensures
        terms_view(final(out)@) == terms_view(old(out)@) + term_of(field, v),
{
    match v {
        Some(s) => {
            let ghost sv = s@;
            out.push((field, s));
            assert(terms_view(out@) =~= terms_view(old(out)@) + seq![(field, sv)]);
        },
        None => {
            assert(terms_view(out@) =~= terms_view(old(out)@) + term_of(field, v));
        },
    }
}

/// The query terms that `list`'s filter flags add, each an equality on its
/// field (see `flag_terms_spec`).
pub fn list_flag_terms(f: ListFlags) -> (r: Vec<(ListField, String)>)
    ensures
        terms_view(r@) == flag_terms_spec(f),
{
    let ghost g = f;
    let mut r: Vec<(ListField, String)> = Vec::new();
    assert(terms_view(r@) =~= Seq::<(ListField, Seq<char>)>::empty());
    push_term(&mut r, ListField::Assignee, f.assignee);
    push_term(&mut r, ListField::Type, f.issue_type);
    push_term(&mut r, ListField::Priority, f.priority);
    push_term(&mut r, ListField::Status, f.status);
    push_term(&mut r, ListField::Epic, f.epic);
    push_term(&mut r, ListField::Label, f.label);
    assert(terms_view(r@) =~= flag_terms_spec(g));
    r
}

} // verus!
