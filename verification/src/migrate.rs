//! The report of `intake migrate`: what converting legacy reception forms
//! did, or would do, item by item.
use vstd::prelude::*;
use crate::keys::views;
use crate::number::{decimal_digits, decimal_string};
use crate::report::{join, join_strings, push_line};
use crate::tree::row_views;

verus! {

/// What the migration does with one legacy item.
pub struct MigrationAction {
    pub slug: String,
    /// Why the item is left alone, if it is.
    pub conflict: Option<String>,
    /// Why migrating the item failed, if it did.
    pub error: Option<String>,
    /// The status change, from and to.
    pub status_change: Option<(String, String)>,
    pub dropped_labels: Vec<String>,
    /// The provenance recorded for the item.
    pub set_provenance: Option<String>,
    pub warnings: Vec<String>,
    /// Whether the change was written.
    pub applied: bool,
}

/// How an action is classified in the JSON report.
pub open spec fn action_kind_text(a: MigrationAction) -> Seq<char> {
    if a.conflict is Some {
        "skip"@
    } else if a.error is Some {
        "error"@
    } else {
        "migrate"@
    }
}

pub fn action_kind(a: &MigrationAction) -> (r: &'static str)
    ensures
        r@ == action_kind_text(*a),
{
    if a.conflict.is_some() {
        "skip"
    } else if a.error.is_some() {
        "error"
    } else {
        "migrate"
    }
}

/// The changes a migrated item gets, in order.
pub open spec fn change_parts(a: MigrationAction) -> Seq<Seq<char>> {
    (match a.status_change {
        Some((from, to)) => seq!["status "@ + from@ + " → "@ + to@],
        None => seq![],
    }) + (if a.dropped_labels@.len() > 0 {
        seq!["drop label(s) "@ + join(views(a.dropped_labels@), ", "@)]
    } else {
        seq![]
    }) + (match a.set_provenance {
        Some(p) => seq!["provenance → "@ + p@],
        None => seq![],
    })
}

/// The lines for one action.
pub open spec fn action_text(a: MigrationAction) -> Seq<Seq<char>> {
    match a.conflict {
        Some(reason) => seq!["  SKIP  "@ + a.slug@ + "  — "@ + reason@],
        None => match a.error {
            Some(err) => seq!["  FAIL  "@ + a.slug@ + "  — "@ + err@],
            None => seq![
                "  "@ + (if a.applied {
                    "DONE"@
                } else {
                    "PLAN"@
                }) + "  "@ + a.slug@ + "  "@ + join(change_parts(a), "; "@),
            ] + Seq::new(a.warnings@.len(), |i: int| "        warn: "@ + a.warnings@[i]@),
        },
    }
}

/// The lines for the actions, in order.
pub open spec fn actions_text(actions: Seq<MigrationAction>) -> Seq<Seq<char>>
    decreases actions.len(),
{
    if actions.len() == 0 {
        seq![]
    } else {
        actions_text(actions.drop_last()) + action_text(actions.last())
    }
}

/// The text report: the mode and the counts, then each action; how to
/// apply a dry run; a single line when there was nothing to migrate.
pub open spec fn migrate_text(applied: bool, migrated: usize, skipped: usize, failed: usize, actions: Seq<MigrationAction>) -> Seq<Seq<char>> {
    let mode = if applied {
        "applied"@
    } else {
        "dry-run (nothing written)"@
    };
    if actions.len() == 0 {
        seq!["Intake migration — "@ + mode + ": no legacy items to migrate."@]
    } else {
        seq![
            "Intake migration — "@ + mode + ": "@ + decimal_digits(migrated as nat) + seq![' '] + (if applied {
                "migrated"@
            } else {
                "to migrate"@
            }) + ", "@ + decimal_digits(skipped as nat) + " skipped (conflict), "@ + decimal_digits(failed as nat)
                + " failed:"@,
        ] + actions_text(actions) + if applied {
            seq![]
        } else {
            seq![seq![], "Re-run with `issuectl intake migrate --apply` to write these changes."@]
        }
    }
}

fn parts_of(a: &MigrationAction) -> (r: Vec<String>)
    ensures
        views(r@) == change_parts(*a),
{
    let mut out: Vec<String> = Vec::new();
    match &a.status_change {
        Some((from, to)) => {
            let mut m = String::from_str("status ");
            m.append(from.as_str());
            m.append(" → ");
            m.append(to.as_str());
            out.push(m);
        },
        None => {},
    }
    if a.dropped_labels.len() > 0 {
        let mut m = String::from_str("drop label(s) ");
        m.append(join_strings(&a.dropped_labels, ", ").as_str());
        out.push(m);
    }
    match &a.set_provenance {
        Some(p) => {
            let mut m = String::from_str("provenance → ");
            m.append(p.as_str());
            out.push(m);
        },
        None => {},
    }
    assert(views(out@) =~= change_parts(*a));
    out
}

fn push_action(out: &mut Vec<String>, a: &MigrationAction)
    ensures
        row_views(final(out)@) == row_views(old(out)@) + action_text(*a),
{
    let ghost start = row_views(out@);
    if let Some(reason) = &a.conflict {
        let mut m = String::from_str("  SKIP  ");
        m.append(a.slug.as_str());
        m.append("  — ");
        m.append(reason.as_str());
        push_line(out, m);
        assert(row_views(out@) =~= start + action_text(*a));
        return;
    }
    if let Some(err) = &a.error {
        let mut m = String::from_str("  FAIL  ");
        m.append(a.slug.as_str());
        m.append("  — ");
        m.append(err.as_str());
        push_line(out, m);
        assert(row_views(out@) =~= start + action_text(*a));
        return;
    }
    let mut m = String::from_str("  ");
    if a.applied {
        m.append("DONE");
    } else {
        m.append("PLAN");
    }
    m.append("  ");
    m.append(a.slug.as_str());
    m.append("  ");
    m.append(join_strings(&parts_of(a), "; ").as_str());
    push_line(out, m);
    let ghost mid = row_views(out@);
    let mut i: usize = 0;
    while i < a.warnings.len()
        invariant
            i <= a.warnings.len(),
            row_views(out@) == mid + Seq::new(i as nat, |k: int| "        warn: "@ + a.warnings@[k]@),
        decreases a.warnings.len() - i,
    {
        let mut w = String::from_str("        warn: ");
        w.append(a.warnings[i].as_str());
        push_line(out, w);
        i = i + 1;
        assert(row_views(out@) =~= mid + Seq::new(i as nat, |k: int| "        warn: "@ + a.warnings@[k]@));
    }
    assert(row_views(out@) =~= start + action_text(*a));
}

/// The text report of a migration run (see `migrate_text`): `applied`
/// says whether changes were written, and the counts are the run's own.
pub fn migrate_lines(applied: bool, migrated: usize, skipped: usize, failed: usize, actions: &Vec<MigrationAction>) -> (r: Vec<String>)
    ensures
        row_views(r@) == migrate_text(applied, migrated, skipped, failed, actions@),
{
    let mut out: Vec<String> = Vec::new();
    assert(row_views(out@) =~= Seq::<Seq<char>>::empty());
    let mode = if applied {
        "applied"
    } else {
        "dry-run (nothing written)"
    };
    if actions.len() == 0 {
        let mut m = String::from_str("Intake migration — ");
        m.append(mode);
        m.append(": no legacy items to migrate.");
        push_line(&mut out, m);
        return out;
    }
    let mut h = String::from_str("Intake migration — ");
    h.append(mode);
    h.append(": ");
    h.append(decimal_string(migrated).as_str());
    crate::text::push_char(&mut h, ' ');
    if applied {
        h.append("migrated");
    } else {
        h.append("to migrate");
    }
    h.append(", ");
    h.append(decimal_string(skipped).as_str());
    h.append(" skipped (conflict), ");
    h.append(decimal_string(failed).as_str());
    h.append(" failed:");
    assert(h@ =~= "Intake migration — "@ + mode@ + ": "@ + decimal_digits(migrated as nat) + seq![' '] + (if applied {
        "migrated"@
    } else {
        "to migrate"@
    }) + ", "@ + decimal_digits(skipped as nat) + " skipped (conflict), "@ + decimal_digits(failed as nat) + " failed:"@);
    push_line(&mut out, h);
    let ghost head = row_views(out@);
    let mut i: usize = 0;
    while i < actions.len()
        invariant
            i <= actions.len(),
            row_views(out@) == head + actions_text(actions@.take(i as int)),
        decreases actions.len() - i,
    {
        assert(actions@.take(i as int + 1).drop_last() =~= actions@.take(i as int));
        assert(actions@.take(i as int + 1).last() == actions@[i as int]);
        push_action(&mut out, &actions[i]);
        i = i + 1;
        assert(row_views(out@) =~= head + actions_text(actions@.take(i as int)));
    }
    assert(actions@.take(actions@.len() as int) =~= actions@);
    if !applied {
        push_line(&mut out, String::new());
        push_line(&mut out, String::from_str("Re-run with `issuectl intake migrate --apply` to write these changes."));
    }
    assert(row_views(out@) =~= migrate_text(applied, migrated, skipped, failed, actions@));
    out
}

} // verus!
