//! The update request that `update`'s flags stand for: each typed field
//! set, cleared or kept, the list edits, the parsed commit references and
//! the custom-field patches, with every conflicting or malformed flag
//! refused before anything is written.
use vstd::prelude::*;
use crate::commits::{after_colon, before_colon, commit_spec_message, commit_spec_ok, parse_commit_spec};
use crate::keys::{key_patches_result, validate_key_patches, views};
use crate::request::{patch_view, Patch};
use crate::text::trim_seq;

verus! {

/// The flags of `update`.
pub struct UpdateArgs {
    pub slug: String,
    pub status: Option<String>,
    pub issue_type: Option<String>,
    pub assignee: Option<String>,
    pub no_reporter: bool,
    pub no_assignee: bool,
    pub owner: Option<String>,
    pub no_owner: bool,
    pub priority: Option<String>,
    pub epic: Option<String>,
    pub no_epic: bool,
    pub lane: Option<String>,
    pub no_lane: bool,
    pub lane_seq: Option<i64>,
    pub no_lane_seq: bool,
    pub add_collision: Vec<String>,
    pub remove_collision: Vec<String>,
    pub add_labels: Vec<String>,
    pub remove_labels: Vec<String>,
    pub add_related: Vec<String>,
    pub remove_related: Vec<String>,
    pub add_blocked_by: Vec<String>,
    pub remove_blocked_by: Vec<String>,
    /// `HASH:summary` references.
    pub add_commits: Vec<String>,
    /// `--field KEY=VALUE` pairs.
    pub custom_fields: Vec<(String, String)>,
    /// `--clear-field KEY` keys.
    pub clear_fields: Vec<String>,
    /// A replacement body.
    pub set_body: Option<String>,
    pub expected_version: Option<String>,
}

/// What a request does to a numeric field.
pub enum NumberPatch {
    Keep,
    Replace(i64),
    Clear,
}

/// The update applied to one issue.
pub struct UpdateRequest {
    pub expected_version: Option<String>,
    pub set_body: Option<String>,
    pub status: Patch,
    pub issue_type: Patch,
    pub assignee: Patch,
    pub reporter: Patch,
    pub owner: Patch,
    pub priority: Patch,
    pub epic: Patch,
    pub lane: Patch,
    pub lane_seq: NumberPatch,
    pub add_collision: Vec<String>,
    pub remove_collision: Vec<String>,
    pub add_labels: Vec<String>,
    pub remove_labels: Vec<String>,
    pub add_related: Vec<String>,
    pub remove_related: Vec<String>,
    pub add_blocked_by: Vec<String>,
    pub remove_blocked_by: Vec<String>,
    /// `(hash, summary)` pairs.
    pub add_commits: Vec<(String, String)>,
    /// One patch per custom field; no key occurs twice.
    pub custom_fields: Vec<(String, Patch)>,
}

/// A value flag that sets, beside a flag that clears: the value wins.
pub open spec fn set_or_clear(v: Option<String>, clear: bool) -> Option<Option<Seq<char>>> {
    match v {
        Some(s) => Some(Some(s@)),
        None => if clear {
            Some(None)
        } else {
            None
        },
    }
}

pub open spec fn number_patch_view(p: NumberPatch) -> Option<Option<i64>> {
    match p {
        NumberPatch::Keep => None,
        NumberPatch::Replace(n) => Some(Some(n)),
        NumberPatch::Clear => Some(None),
    }
}

pub open spec fn commit_pair(s: Seq<char>) -> (Seq<char>, Seq<char>) {
    (trim_seq(before_colon(s)), trim_seq(after_colon(s)))
}

/// `specs[k]` is the first malformed commit reference.
pub open spec fn first_bad_commit(specs: Seq<String>, k: int) -> bool {
    0 <= k < specs.len() && !commit_spec_ok(specs[k]@) && forall|j: int| 0 <= j < k ==> commit_spec_ok(#[trigger] specs[j]@)
}

pub open spec fn commits_ok(specs: Seq<String>) -> bool {
    forall|j: int| 0 <= j < specs.len() ==> commit_spec_ok(#[trigger] specs[j]@)
}

/// The custom-field patches: each `--field` sets its key, each
/// `--clear-field` clears its key.
pub open spec fn field_patches(sets: Seq<(String, String)>, clears: Seq<String>) -> Seq<(Seq<char>, Option<Option<Seq<char>>>)> {
    Seq::new(sets.len(), |i: int| (sets[i].0@, Some(Some(sets[i].1@)))) + Seq::new(
        clears.len(),
        |i: int| (clears[i]@, Some(None::<Seq<char>>)),
    )
}

pub open spec fn custom_view(fields: Seq<(String, Patch)>) -> Seq<(Seq<char>, Option<Option<Seq<char>>>)> {
    Seq::new(fields.len(), |i: int| (fields[i].0@, patch_view(fields[i].1)))
}

pub open spec fn set_keys(sets: Seq<(String, String)>) -> Seq<Seq<char>> {
    Seq::new(sets.len(), |i: int| sets[i].0@)
}

/// `req` is the request that `a` stands for.
pub open spec fn request_of(req: UpdateRequest, a: UpdateArgs) -> bool {
    &&& req.expected_version == a.expected_version
    &&& req.set_body == a.set_body
    &&& patch_view(req.status) == set_or_clear(a.status, false)
    &&& patch_view(req.issue_type) == set_or_clear(a.issue_type, false)
    &&& patch_view(req.assignee) == set_or_clear(a.assignee, a.no_assignee)
    &&& patch_view(req.reporter) == set_or_clear(None, a.no_reporter)
    &&& patch_view(req.owner) == set_or_clear(a.owner, a.no_owner)
    &&& patch_view(req.priority) == set_or_clear(a.priority, false)
    &&& patch_view(req.epic) == set_or_clear(a.epic, a.no_epic)
    &&& patch_view(req.lane) == set_or_clear(a.lane, a.no_lane)
    &&& number_patch_view(req.lane_seq) == match a.lane_seq {
        Some(n) => Some(Some(n)),
        None => if a.no_lane_seq {
            Some(None)
        } else {
            None
        },
    }
    &&& req.add_collision@ == a.add_collision@
    &&& req.remove_collision@ == a.remove_collision@
    &&& req.add_labels@ == a.add_labels@
    &&& req.remove_labels@ == a.remove_labels@
    &&& req.add_related@ == a.add_related@
    &&& req.remove_related@ == a.remove_related@
    &&& req.add_blocked_by@ == a.add_blocked_by@
    &&& req.remove_blocked_by@ == a.remove_blocked_by@
    &&& Seq::new(req.add_commits@.len(), |i: int| (req.add_commits@[i].0@, req.add_commits@[i].1@)) == Seq::new(
        a.add_commits@.len(),
        |i: int| commit_pair(a.add_commits@[i]@),
    )
    &&& custom_view(req.custom_fields@) == field_patches(a.custom_fields@, a.clear_fields@)
}

fn patch_from(v: Option<String>, clear: bool) -> (p: Patch)
    ensures
        patch_view(p) == set_or_clear(v, clear),
{
    match v {
        Some(s) => Patch::Replace(s),
        None => if clear {
            Patch::Clear
        } else {
            Patch::Keep
        },
    }
}

/// Each `HASH:summary` reference split and trimmed; the first malformed
/// one is refused.
pub fn parse_commit_specs(specs: &Vec<String>) -> (r: Result<Vec<(String, String)>, String>)
    ensures
        commits_ok(specs@) ==> (r matches Ok(v) && Seq::new(v@.len(), |i: int| (v@[i].0@, v@[i].1@)) == Seq::new(
            specs@.len(),
            |i: int| commit_pair(specs@[i]@),
        )),
        !commits_ok(specs@) ==> (r matches Err(e) && exists|k: int|
            first_bad_commit(specs@, k) && e@ == commit_spec_message(specs@[k]@)),
{
    let mut out: Vec<(String, String)> = Vec::new();
    let mut i: usize = 0;
    while i < specs.len()
        invariant
            i <= specs.len(),
            out@.len() == i,
            forall|j: int| 0 <= j < i ==> commit_spec_ok(#[trigger] specs@[j]@),
            forall|k: int| 0 <= k < i ==> (#[trigger] out@[k]).0@ == commit_pair(specs@[k]@).0 && out@[k].1@ == commit_pair(specs@[k]@).1,
        decreases specs.len() - i,
    {
        match parse_commit_spec(specs[i].as_str()) {
            Ok(p) => {
                out.push(p);
                i = i + 1;
            },
            Err(e) => {
                assert(first_bad_commit(specs@, i as int));
                return Err(e);
            },
        }
    }
    assert(Seq::new(out@.len(), |k: int| (out@[k].0@, out@[k].1@)) =~= Seq::new(
        specs@.len(),
        |k: int| commit_pair(specs@[k]@),
    ));
    Ok(out)
}

/// The request that `update`'s flags stand for. A malformed commit
/// reference is refused first (the first one in order); then a custom
/// field named twice in `--field`, twice in `--clear-field`, or in both.
pub fn update_request(args: UpdateArgs) -> (r: Result<UpdateRequest, String>)
    ensures
        !commits_ok(args.add_commits@) ==> (r matches Err(e) && exists|k: int|
            first_bad_commit(args.add_commits@, k) && e@ == commit_spec_message(args.add_commits@[k]@)),
        commits_ok(args.add_commits@) ==> match key_patches_result(
            set_keys(args.custom_fields@),
            views(args.clear_fields@),
            "--field"@,
            "--clear-field"@,
        ) {
            Ok(()) => r matches Ok(req) && request_of(req, args),
            Err(m) => r matches Err(e) && e@ == m,
        },
{
    let commits = match parse_commit_specs(&args.add_commits) {
        Ok(c) => c,
        Err(e) => return Err(e),
    };
    let mut set_names: Vec<String> = Vec::new();
    let mut i: usize = 0;
    while i < args.custom_fields.len()
        invariant
            i <= args.custom_fields.len(),
            views(set_names@) == set_keys(args.custom_fields@).take(i as int),
        decreases args.custom_fields.len() - i,
    {
        let k = args.custom_fields[i].0.clone();
        let ghost before = views(set_names@);
        set_names.push(k);
        assert(views(set_names@) =~= before.push(k@));
        i = i + 1;
        assert(set_keys(args.custom_fields@).take(i as int) =~= before.push(k@));
    }
    assert(set_keys(args.custom_fields@).take(i as int) =~= set_keys(args.custom_fields@));
    match validate_key_patches(&set_names, &args.clear_fields, "--field", "--clear-field") {
        Ok(()) => {},
        Err(e) => return Err(e),
    }
    let mut fields: Vec<(String, Patch)> = Vec::new();
    let mut j: usize = 0;
    while j < args.custom_fields.len()
        invariant
            j <= args.custom_fields.len(),
            custom_view(fields@) == Seq::new(
                j as nat,
                |m: int| (args.custom_fields@[m].0@, Some(Some(args.custom_fields@[m].1@))),
            ),
        decreases args.custom_fields.len() - j,
    {
        let k = args.custom_fields[j].0.clone();
        let v = args.custom_fields[j].1.clone();
        let ghost before = custom_view(fields@);
        fields.push((k, Patch::Replace(v)));
        assert(custom_view(fields@) =~= before.push((k@, Some(Some(v@)))));
        j = j + 1;
        assert(custom_view(fields@) =~= Seq::new(
            j as nat,
            |m: int| (args.custom_fields@[m].0@, Some(Some(args.custom_fields@[m].1@))),
        ));
    }
    let ghost sets_part = custom_view(fields@);
    let mut c: usize = 0;
    while c < args.clear_fields.len()
        invariant
            c <= args.clear_fields.len(),
            custom_view(fields@) == sets_part + Seq::new(
                c as nat,
                |m: int| (args.clear_fields@[m]@, Some(None::<Seq<char>>)),
            ),
        decreases args.clear_fields.len() - c,
    {
        let k = args.clear_fields[c].clone();
        let ghost before = custom_view(fields@);
        fields.push((k, Patch::Clear));
        assert(custom_view(fields@) =~= before.push((k@, Some(None::<Seq<char>>))));
        c = c + 1;
        assert(custom_view(fields@) =~= sets_part + Seq::new(
            c as nat,
            |m: int| (args.clear_fields@[m]@, Some(None::<Seq<char>>)),
        ));
    }
    assert(custom_view(fields@) =~= field_patches(args.custom_fields@, args.clear_fields@));
    let lane_seq = match args.lane_seq {
        Some(n) => NumberPatch::Replace(n),
        None => if args.no_lane_seq {
            NumberPatch::Clear
        } else {
            NumberPatch::Keep
        },
    };
    let ghost a = args;
    let req = UpdateRequest {
        expected_version: args.expected_version,
        set_body: args.set_body,
        status: patch_from(args.status, false),
        issue_type: patch_from(args.issue_type, false),
        assignee: patch_from(args.assignee, args.no_assignee),
        reporter: patch_from(None, args.no_reporter),
        owner: patch_from(args.owner, args.no_owner),
        priority: patch_from(args.priority, false),
        epic: patch_from(args.epic, args.no_epic),
        lane: patch_from(args.lane, args.no_lane),
        lane_seq,
        add_collision: args.add_collision,
        remove_collision: args.remove_collision,
        add_labels: args.add_labels,
        remove_labels: args.remove_labels,
        add_related: args.add_related,
        remove_related: args.remove_related,
        add_blocked_by: args.add_blocked_by,
        remove_blocked_by: args.remove_blocked_by,
        add_commits: commits,
        custom_fields: fields,
    };
    assert(request_of(req, a));
    Ok(req)
}

pub open spec fn update_outcome_text(slug: Seq<char>, moved_to_closed: bool, moved_to_open: bool, dir: Seq<char>) -> Seq<char> {
    if moved_to_closed {
        "Updated "@ + slug + ": closing status set ("@ + dir + ")"@
    } else if moved_to_open {
        "Updated "@ + slug + ": re-opened ("@ + dir + ")"@
    } else {
        "Updated "@ + slug
    }
}

/// The confirmation of an update: whether it closed or re-opened the issue,
/// and where the issue now lives.
pub fn update_outcome_line(slug: &str, moved_to_closed: bool, moved_to_open: bool, dir: &str) -> (r: String)
    ensures
        r@ == update_outcome_text(slug@, moved_to_closed, moved_to_open, dir@),
{
    let mut m = String::from_str("Updated ");
    m.append(slug);
    if moved_to_closed {
        m.append(": closing status set (");
        m.append(dir);
        m.append(")");
    } else if moved_to_open {
        m.append(": re-opened (");
        m.append(dir);
        m.append(")");
    }
    m
}

pub open spec fn close_outcome_text(slug: Seq<char>, moved_to_closed: bool, closed_by: Option<String>, dir: Seq<char>) -> Seq<char> {
    if moved_to_closed {
        match closed_by {
            Some(by) => "Closed "@ + slug + " (by "@ + by@ + ") ("@ + dir + ")"@,
            None => "Closed "@ + slug + " ("@ + dir + ")"@,
        }
    } else {
        "Updated "@ + slug
    }
}

/// The confirmation of a close: who closed it, where it lives now; or a
/// plain update where the issue did not move.
pub fn close_outcome_line(slug: &str, moved_to_closed: bool, closed_by: &Option<String>, dir: &str) -> (r: String)
    ensures
        r@ == close_outcome_text(slug@, moved_to_closed, *closed_by, dir@),
{
    if !moved_to_closed {
        let mut m = String::from_str("Updated ");
        m.append(slug);
        return m;
    }
    let mut m = String::from_str("Closed ");
    m.append(slug);
    match closed_by {
        Some(by) => {
            m.append(" (by ");
            m.append(by.as_str());
            m.append(") (");
        },
        None => {
            m.append(" (");
        },
    }
    m.append(dir);
    m.append(")");
    assert(m@ =~= close_outcome_text(slug@, moved_to_closed, *closed_by, dir@));
    m
}

} // verus!
