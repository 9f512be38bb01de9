//! The two spellings of `label <slug> ...`.
use vstd::prelude::*;

verus! {

/// Whether `label` adds or removes.
#[derive(PartialEq, Eq, Structural, Debug, Clone, Copy)]
pub enum LabelOp {
    Add,
    Remove,
}

pub open spec fn label_form_message() -> Seq<char> {
    "internal error: label arguments were not constrained to exactly one form by clap (this is a bug in the `label_target` arg group)"@
}

/// Collapse the positional form `label <slug> add|remove <label>` and the
/// flag form `label <slug> --add|--remove <label>` into one `(op, label)`
/// pair. Exactly one complete form must be present; anything else is an
/// internal error (the argument parser's group rules exclude it).
pub fn resolve_label_target(
    op: Option<LabelOp>,
    label: Option<String>,
    add: Option<String>,
    remove: Option<String>,
) -> (r: Result<(LabelOp, String), String>)
    ensures
        (op is Some && label is Some && add is None && remove is None) ==> r == Ok::<
            (LabelOp, String),
            String,
        >((op->0, label->0)),
        (op is None && label is None && add is Some && remove is None) ==> r == Ok::<
            (LabelOp, String),
            String,
        >((LabelOp::Add, add->0)),
        (op is None && label is None && add is None && remove is Some) ==> r == Ok::<
            (LabelOp, String),
            String,
        >((LabelOp::Remove, remove->0)),
        !((op is Some && label is Some && add is None && remove is None) || (op is None && label is None
            && add is Some && remove is None) || (op is None && label is None && add is None
            && remove is Some)) ==> (r matches Err(e) && e@ == label_form_message()),
{
    match (op, label, add, remove) {
        (Some(op), Some(label), None, None) => Ok((op, label)),
        (None, None, Some(label), None) => Ok((LabelOp::Add, label)),
        (None, None, None, Some(label)) => Ok((LabelOp::Remove, label)),
        _ => Err(
            String::from_str(
                "internal error: label arguments were not constrained to exactly one form by clap (this is a bug in the `label_target` arg group)",
            ),
        ),
    }
}

} // verus!
