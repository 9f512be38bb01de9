//! The update request a `bulk` spec stands for: each `--set` / `--clear`
//! routed to its typed field or to the custom-field map.
use vstd::prelude::*;
use crate::bulk::{bulk_field_slot, bulk_slot_spec, BulkSpec, FieldSlot};
use crate::keys::views;
use crate::order::{chars_lt, lemma_seq_lt_irreflexive, lemma_seq_lt_total, lemma_seq_lt_transitive, seq_lt};
use crate::text::{chars_of, str_eq};

verus! {

/// What a request does to one field.
pub enum Patch {
    /// Leave it as it is.
    Keep,
    /// Set it to this value.
    Replace(String),
    /// Remove it.
    Clear,
}

/// A routed patch as plain values: `Some(v)` sets `v`, `None` clears.
pub type Route = (Seq<char>, Option<Seq<char>>);

/// A patch as plain values: `None` keeps the field.
pub open spec fn patch_view(p: Patch) -> Option<Option<Seq<char>>> {
    match p {
        Patch::Keep => None,
        Patch::Replace(v) => Some(Some(v@)),
        Patch::Clear => Some(None),
    }
}

/// The update request applied to every issue a `bulk` query matches.
pub struct BulkRequest {
    pub dry_run: bool,
    pub status: Patch,
    pub issue_type: Patch,
    pub priority: Patch,
    pub assignee: Patch,
    pub owner: Patch,
    pub epic: Patch,
    /// Custom fields by key, keys in ascending order.
    pub custom_fields: Vec<(String, Patch)>,
    pub add_labels: Vec<String>,
    pub remove_labels: Vec<String>,
    pub add_related: Vec<String>,
    pub remove_related: Vec<String>,
}

/// The patches a spec routes, in order: every `--set`, then every
/// `--clear`.
pub open spec fn routes(spec: BulkSpec) -> Seq<Route> {
    Seq::new(spec.set@.len(), |i: int| (spec.set@[i].0@, Some(spec.set@[i].1@))) + Seq::new(
        spec.clear@.len(),
        |i: int| (spec.clear@[i]@, None::<Seq<char>>),
    )
}

/// What the last route naming a key of slot `slot` (and, for a custom
/// field, the key `key`) asks for: `None` when no route names it.
pub open spec fn last_for(rs: Seq<Route>, slot: FieldSlot, key: Seq<char>) -> Option<Option<Seq<char>>>
    decreases rs.len(),
{
    if rs.len() == 0 {
        None
    } else if bulk_slot_spec(rs.last().0) == slot && (slot != FieldSlot::Custom || rs.last().0 == key) {
        Some(rs.last().1)
    } else {
        last_for(rs.drop_last(), slot, key)
    }
}

/// The custom-field map holds exactly the custom keys routed, in ascending
/// order, each with the last patch routed to it: every key in the map was
/// routed, and every routed custom key is in the map.
pub open spec fn custom_map(fields: Seq<(String, Patch)>, rs: Seq<Route>) -> bool {
    &&& forall|a: int, b: int| 0 <= a < b < fields.len() ==> seq_lt(#[trigger] fields[a].0@, #[trigger] fields[b].0@)
    &&& forall|a: int| 0 <= a < fields.len() ==> bulk_slot_spec((#[trigger] fields[a]).0@) == FieldSlot::Custom
        && patch_view(fields[a].1) == last_for(rs, FieldSlot::Custom, fields[a].0@)
        && last_for(rs, FieldSlot::Custom, fields[a].0@) is Some
    &&& forall|j: int| 0 <= j < rs.len() && bulk_slot_spec((#[trigger] rs[j]).0) == FieldSlot::Custom ==> exists|a: int|
        0 <= a < fields.len() && (#[trigger] fields[a]).0@ == rs[j].0
}

/// `req` is the request that routing `rs` builds (with the list operations
/// and the dry-run mode given).
pub open spec fn routed_request(req: BulkRequest, rs: Seq<Route>) -> bool {
    &&& patch_view(req.status) == last_for(rs, FieldSlot::Status, seq![])
    &&& patch_view(req.issue_type) == last_for(rs, FieldSlot::Type, seq![])
    &&& patch_view(req.priority) == last_for(rs, FieldSlot::Priority, seq![])
    &&& patch_view(req.assignee) == last_for(rs, FieldSlot::Assignee, seq![])
    &&& patch_view(req.owner) == last_for(rs, FieldSlot::Owner, seq![])
    &&& patch_view(req.epic) == last_for(rs, FieldSlot::Epic, seq![])
    &&& custom_map(req.custom_fields@, rs)
}

proof fn lemma_last_for_push(rs: Seq<Route>, r: Route, slot: FieldSlot, key: Seq<char>)
    ensures
        last_for(rs.push(r), slot, key) == if bulk_slot_spec(r.0) == slot && (slot != FieldSlot::Custom || r.0 == key) {
            Some(r.1)
        } else {
            last_for(rs, slot, key)
        },
{
    assert(rs.push(r).drop_last() =~= rs);
}

/// Put `patch` for the custom field `key` into the ordered map `fields`,
/// replacing an earlier patch for the same key.
fn put_custom(fields: &mut Vec<(String, Patch)>, key: &str, patch: Patch, Ghost(rs): Ghost<Seq<Route>>, Ghost(r): Ghost<Route>)
    requires
        custom_map(old(fields)@, rs),
        r.0 == key@,
        bulk_slot_spec(key@) == FieldSlot::Custom,
        Some(r.1) == patch_view(patch),
    ensures
        custom_map(final(fields)@, rs.push(r)),
{
    let kv = chars_of(key);
    let mut p: usize = 0;
    let mut done = false;
    while !done && p < fields.len()
        invariant
            p <= fields.len(),
            kv@ == key@,
            forall|a: int| 0 <= a < p ==> seq_lt(#[trigger] fields@[a].0@, key@),
            done ==> p < fields.len() && !seq_lt(fields@[p as int].0@, key@),
        decreases fields.len() - p, if done { 0int } else { 1int },
    {
        let fk = chars_of(fields[p].0.as_str());
        if chars_lt(&fk, &kv) {
            p = p + 1;
        } else {
            done = true;
        }
    }
    let ghost old_f = fields@;
    let ghost rs2 = rs.push(r);
    assert forall|k: Seq<char>| #[trigger] last_for(rs2, FieldSlot::Custom, k) == if k == key@ {
        Some(r.1)
    } else {
        last_for(rs, FieldSlot::Custom, k)
    } by {
        lemma_last_for_push(rs, r, FieldSlot::Custom, k);
    }
    let same = done && str_eq(fields[p].0.as_str(), key);
    if same {
        fields.set(p, (String::from_str(key), patch));
        proof {
            assert forall|a: int, b: int| 0 <= a < b < fields@.len() implies seq_lt(#[trigger] fields@[a].0@, #[trigger] fields@[b].0@) by {
                assert(fields@[a].0@ == old_f[a].0@ && fields@[b].0@ == old_f[b].0@);
            }
            assert forall|a: int| 0 <= a < fields@.len() implies bulk_slot_spec((#[trigger] fields@[a]).0@) == FieldSlot::Custom
                && patch_view(fields@[a].1) == last_for(rs2, FieldSlot::Custom, fields@[a].0@) by {
                if a != p {
                    assert(fields@[a] == old_f[a]);
                    if old_f[a].0@ == key@ {
                        if a < p {
                            lemma_seq_lt_irreflexive(key@);
                        } else {
                            assert(seq_lt(old_f[p as int].0@, old_f[a].0@));
                            lemma_seq_lt_irreflexive(key@);
                        }
                    }
                }
            }
            assert forall|j: int| 0 <= j < rs2.len() && bulk_slot_spec((#[trigger] rs2[j]).0) == FieldSlot::Custom implies exists|a: int|
                0 <= a < fields@.len() && (#[trigger] fields@[a]).0@ == rs2[j].0 by {
                if j < rs.len() {
                    assert(rs2[j] == rs[j]);
                    let a = choose|a: int| 0 <= a < old_f.len() && (#[trigger] old_f[a]).0@ == rs[j].0;
                    assert(fields@[a].0@ == old_f[a].0@);
                } else {
                    assert(fields@[p as int].0@ == key@);
                }
            }
        }
    } else {
        fields.insert(p, (String::from_str(key), patch));
        proof {
            if done {
                lemma_seq_lt_total(old_f[p as int].0@, key@);
            }
            assert forall|a: int, b: int| 0 <= a < b < fields@.len() implies seq_lt(#[trigger] fields@[a].0@, #[trigger] fields@[b].0@) by {
                if b < p {
                    assert(fields@[a] == old_f[a] && fields@[b] == old_f[b]);
                } else if b == p {
                    assert(fields@[a] == old_f[a]);
                } else if a == p {
                    assert(fields@[b] == old_f[b - 1]);
                    if b - 1 > p {
                        assert(seq_lt(old_f[p as int].0@, old_f[b - 1].0@));
                        lemma_seq_lt_transitive(key@, old_f[p as int].0@, old_f[b - 1].0@);
                    }
                } else if a < p {
                    assert(fields@[a] == old_f[a] && fields@[b] == old_f[b - 1]);
                } else {
                    assert(fields@[a] == old_f[a - 1] && fields@[b] == old_f[b - 1]);
                }
            }
            assert forall|a: int| 0 <= a < fields@.len() implies bulk_slot_spec((#[trigger] fields@[a]).0@) == FieldSlot::Custom
                && patch_view(fields@[a].1) == last_for(rs2, FieldSlot::Custom, fields@[a].0@) by {
                if a < p {
                    assert(fields@[a] == old_f[a]);
                    if old_f[a].0@ == key@ {
                        lemma_seq_lt_irreflexive(key@);
                    }
                } else if a > p {
                    assert(fields@[a] == old_f[a - 1]);
                    if old_f[a - 1].0@ == key@ {
                        if a - 1 > p {
                            assert(seq_lt(old_f[p as int].0@, old_f[a - 1].0@));
                            crate::order::lemma_seq_lt_asymmetric(old_f[p as int].0@, key@);
                        }
                    }
                }
            }
            assert forall|j: int| 0 <= j < rs2.len() && bulk_slot_spec((#[trigger] rs2[j]).0) == FieldSlot::Custom implies exists|a: int|
                0 <= a < fields@.len() && (#[trigger] fields@[a]).0@ == rs2[j].0 by {
                if j < rs.len() {
                    assert(rs2[j] == rs[j]);
                    let a = choose|a: int| 0 <= a < old_f.len() && (#[trigger] old_f[a]).0@ == rs[j].0;
                    if a < p {
                        assert(fields@[a].0@ == old_f[a].0@);
                    } else {
                        assert(fields@[a + 1].0@ == old_f[a].0@);
                    }
                } else {
                    assert(fields@[p as int].0@ == key@);
                }
            }
        }
    }
}

fn copy_list(v: &Vec<String>) -> (r: Vec<String>)
    ensures
        views(r@) == views(v@),
{
    let mut out: Vec<String> = Vec::new();
    let mut i: usize = 0;
    while i < v.len()
        invariant
            i <= v.len(),
            out@.len() == i,
            forall|j: int| 0 <= j < i ==> (#[trigger] out@[j])@ == v@[j]@,
        decreases v.len() - i,
    {
        out.push(v[i].clone());
        i = i + 1;
    }
    assert(views(out@) =~= views(v@));
    out
}

/// Route one patch for `key` onto `req`: the six built-in single-value
/// fields go to their typed slots, every other key to the custom-field map.
fn route_bulk_field(req: &mut BulkRequest, key: &str, patch: Patch, Ghost(rs): Ghost<Seq<Route>>, Ghost(r): Ghost<Route>)
    requires
        routed_request(*old(req), rs),
        r.0 == key@,
        Some(r.1) == patch_view(patch),
    ensures
        routed_request(*final(req), rs.push(r)),
        final(req).dry_run == old(req).dry_run,
        views(final(req).add_labels@) == views(old(req).add_labels@),
        views(final(req).remove_labels@) == views(old(req).remove_labels@),
        views(final(req).add_related@) == views(old(req).add_related@),
        views(final(req).remove_related@) == views(old(req).remove_related@),
{
    proof {
        lemma_last_for_push(rs, r, FieldSlot::Status, seq![]);
        lemma_last_for_push(rs, r, FieldSlot::Type, seq![]);
        lemma_last_for_push(rs, r, FieldSlot::Priority, seq![]);
        lemma_last_for_push(rs, r, FieldSlot::Assignee, seq![]);
        lemma_last_for_push(rs, r, FieldSlot::Owner, seq![]);
        lemma_last_for_push(rs, r, FieldSlot::Epic, seq![]);
    }
    match bulk_field_slot(key) {
        FieldSlot::Status => req.status = patch,
        FieldSlot::Type => req.issue_type = patch,
        FieldSlot::Priority => req.priority = patch,
        FieldSlot::Assignee => req.assignee = patch,
        FieldSlot::Owner => req.owner = patch,
        FieldSlot::Epic => req.epic = patch,
        FieldSlot::Custom => {
            put_custom(&mut req.custom_fields, key, patch, Ghost(rs), Ghost(r));
        },
    }
    proof {
        let rs2 = rs.push(r);
        if bulk_slot_spec(key@) != FieldSlot::Custom {
            assert forall|k: Seq<char>| #[trigger] last_for(rs2, FieldSlot::Custom, k) == last_for(rs, FieldSlot::Custom, k) by {
                lemma_last_for_push(rs, r, FieldSlot::Custom, k);
            }
            let f = req.custom_fields@;
            assert forall|j: int| 0 <= j < rs2.len() && bulk_slot_spec((#[trigger] rs2[j]).0) == FieldSlot::Custom implies exists|a: int|
                0 <= a < f.len() && (#[trigger] f[a]).0@ == rs2[j].0 by {
                assert(rs2[j] == rs[j]);
            }
        }
    }
}

/// The request a `bulk` spec stands for: every `--set` and then every
/// `--clear` routed in turn (a later patch for a field replaces an earlier
/// one), the label and related-reference lists copied, in `dry_run` mode
/// or not.
pub fn build_bulk_request(spec: &BulkSpec, dry_run: bool) -> (r: BulkRequest)
    ensures
        routed_request(r, routes(*spec)),
        r.dry_run == dry_run,
        views(r.add_labels@) == views(spec.add_labels@),
        views(r.remove_labels@) == views(spec.remove_labels@),
        views(r.add_related@) == views(spec.add_related@),
        views(r.remove_related@) == views(spec.remove_related@),
{
    let mut req = BulkRequest {
        dry_run,
        status: Patch::Keep,
        issue_type: Patch::Keep,
        priority: Patch::Keep,
        assignee: Patch::Keep,
        owner: Patch::Keep,
        epic: Patch::Keep,
        custom_fields: Vec::new(),
        add_labels: copy_list(&spec.add_labels),
        remove_labels: copy_list(&spec.remove_labels),
        add_related: copy_list(&spec.add_related),
        remove_related: copy_list(&spec.remove_related),
    };
    let ghost all = routes(*spec);
    let ghost ns = spec.set@.len();
    assert(routed_request(req, all.take(0)));
    let mut i: usize = 0;
    while i < spec.set.len()
        invariant
            i <= spec.set.len(),
            all == routes(*spec),
            ns == spec.set@.len(),
            routed_request(req, all.take(i as int)),
            req.dry_run == dry_run,
            views(req.add_labels@) == views(spec.add_labels@),
            views(req.remove_labels@) == views(spec.remove_labels@),
            views(req.add_related@) == views(spec.add_related@),
            views(req.remove_related@) == views(spec.remove_related@),
        decreases spec.set.len() - i,
    {
        let ghost r = all[i as int];
        assert(all.take(i as int + 1) =~= all.take(i as int).push(r));
        let v = spec.set[i].1.clone();
        route_bulk_field(&mut req, spec.set[i].0.as_str(), Patch::Replace(v), Ghost(all.take(i as int)), Ghost(r));
        i = i + 1;
    }
    let mut k: usize = 0;
    while k < spec.clear.len()
        invariant
            k <= spec.clear.len(),
            all == routes(*spec),
            ns == spec.set@.len(),
            routed_request(req, all.take(ns + k)),
            req.dry_run == dry_run,
            views(req.add_labels@) == views(spec.add_labels@),
            views(req.remove_labels@) == views(spec.remove_labels@),
            views(req.add_related@) == views(spec.add_related@),
            views(req.remove_related@) == views(spec.remove_related@),
        decreases spec.clear.len() - k,
    {
        let ghost r = all[ns + k];
        assert(all.take(ns + k + 1) =~= all.take(ns + k).push(r));
        route_bulk_field(&mut req, spec.clear[k].as_str(), Patch::Clear, Ghost(all.take(ns + k)), Ghost(r));
        k = k + 1;
    }
    assert(all.take(ns + k) =~= all);
    req
}

} // verus!
