//! `bulk` / `update` field-patch specifications and their CLI-side checks.
use vstd::prelude::*;
use crate::keys::{key_patches_result, validate_key_patches, views};
use crate::text::{chars_of, chars_eq};

verus! {

/// Mutation applied to every issue a `bulk` query matches: per-field
/// set/clear plus the label and related-reference list operations.
pub struct BulkSpec {
    pub set: Vec<(String, String)>,
    pub clear: Vec<String>,
    pub add_labels: Vec<String>,
    pub remove_labels: Vec<String>,
    pub add_related: Vec<String>,
    pub remove_related: Vec<String>,
}

impl BulkSpec {
    /// The spec requests no mutation at all.
    pub open spec fn spec_is_empty(&self) -> bool {
        &&& self.set.len() == 0
        &&& self.clear.len() == 0
        &&& self.add_labels.len() == 0
        &&& self.remove_labels.len() == 0
        &&& self.add_related.len() == 0
        &&& self.remove_related.len() == 0
    }

    /// Whether the spec requests no mutation at all.
    pub fn is_empty(&self) -> (r: bool)
        ensures
            r == self.spec_is_empty(),
    {
        self.set.len() == 0 && self.clear.len() == 0 && self.add_labels.len() == 0
            && self.remove_labels.len() == 0 && self.add_related.len() == 0
            && self.remove_related.len() == 0
    }
}

impl Default for BulkSpec {
    fn default() -> (r: Self)
        ensures
            r.spec_is_empty(),
    {
        BulkSpec {
            set: Vec::new(),
            clear: Vec::new(),
            add_labels: Vec::new(),
            remove_labels: Vec::new(),
            add_related: Vec::new(),
            remove_related: Vec::new(),
        }
    }
}

/// The keys of a list of `key=value` pairs.
pub open spec fn pair_keys(s: Seq<(String, String)>) -> Seq<Seq<char>> {
    Seq::new(s.len(), |i: int| s[i].0@)
}

/// The keys of `pairs`, in order.
pub fn keys_of(pairs: &Vec<(String, String)>) -> (r: Vec<String>)
    ensures
        views(r@) == pair_keys(pairs@),
{
    let mut r: Vec<String> = Vec::new();
    let mut i: usize = 0;
    while i < pairs.len()
        invariant
            i <= pairs.len(),
            r.len() == i,
            forall|j: int| 0 <= j < i ==> (#[trigger] r@[j])@ == pairs@[j].0@,
        decreases pairs.len() - i,
    {
        let k = pairs[i].0.clone();
        r.push(k);
        i += 1;
    }
    assert(views(r@) =~= pair_keys(pairs@));
    r
}

pub open spec fn empty_bulk_message() -> Seq<char> {
    "bulk requires at least one mutation (--set/--clear/--add-label/--remove-label/--add-related/--remove-related)"@
}

/// What `validate_bulk_spec` reports for `spec`.
pub open spec fn bulk_spec_result(spec: BulkSpec) -> Result<(), Seq<char>> {
    if spec.spec_is_empty() {
        Err(empty_bulk_message())
    } else {
        key_patches_result(pair_keys(spec.set@), views(spec.clear@), "--set"@, "--clear"@)
    }
}

/// CLI-side checks of a `bulk` spec that need no disk access: at least one
/// mutation, and no key named twice or in both `--set` and `--clear`.
pub fn validate_bulk_spec(spec: &BulkSpec) -> (r: Result<(), String>)
    ensures
        match bulk_spec_result(*spec) {
            Ok(()) => r is Ok,
            Err(m) => r matches Err(e) && e@ == m,
        },
{
    if spec.is_empty() {
        return Err(
            String::from_str(
                "bulk requires at least one mutation (--set/--clear/--add-label/--remove-label/--add-related/--remove-related)",
            ),
        );
    }
    let set_keys = keys_of(&spec.set);
    validate_key_patches(&set_keys, &spec.clear, "--set", "--clear")
}

/// What `validate_field_patches` reports for `update --field` pairs and
/// `--clear-field` keys.
pub open spec fn field_patches_result(
    fields: Seq<(String, String)>,
    clears: Seq<String>,
) -> Result<(), Seq<char>> {
    key_patches_result(pair_keys(fields), views(clears), "--field"@, "--clear-field"@)
}

/// `update`'s custom-field checks: no key given twice to `--field`, twice
/// to `--clear-field`, or to both.
pub fn validate_field_patches(fields: &Vec<(String, String)>, clears: &Vec<String>) -> (r: Result<
    (),
    String,
>)
    ensures
        match field_patches_result(fields@, clears@) {
            Ok(()) => r is Ok,
            Err(m) => r matches Err(e) && e@ == m,
        },
{
    let keys = keys_of(fields);
    validate_key_patches(&keys, clears, "--field", "--clear-field")
}

/// Where a field patch lands on an update request.
#[derive(PartialEq, Eq, Structural, Debug, Clone, Copy)]
pub enum FieldSlot {
    Status,
    Type,
    Priority,
    Assignee,
    Owner,
    Epic,
    /// Any other key: the schema-validated custom-field map.
    Custom,
}

/// The typed slot `bulk` routes `key` to.
pub open spec fn bulk_slot_spec(key: Seq<char>) -> FieldSlot {
    if key == "status"@ {
        FieldSlot::Status
    } else if key == "type"@ {
        FieldSlot::Type
    } else if key == "priority"@ {
        FieldSlot::Priority
    } else if key == "assignee"@ {
        FieldSlot::Assignee
    } else if key == "owner"@ {
        FieldSlot::Owner
    } else if key == "epic"@ {
        FieldSlot::Epic
    } else {
        FieldSlot::Custom
    }
}

/// The slot `set <slug> <field>` routes `field` to: as `bulk`, except that
/// `type` is an ordinary custom key there.
pub open spec fn set_slot_spec(key: Seq<char>) -> FieldSlot {
    if key == "type"@ {
        FieldSlot::Custom
    } else {
        bulk_slot_spec(key)
    }
}

fn key_is(k: &Vec<char>, lit: &str) -> (r: bool)
    ensures
        r == (k@ == lit@),
{
    chars_eq(k, &chars_of(lit))
}

/// Built-in single-value fields go to their typed slots (so a `status` set
/// gets the closed-date handling); every other key is a custom field.
pub fn bulk_field_slot(key: &str) -> (r: FieldSlot)
    ensures
        r == bulk_slot_spec(key@),
{
    let k = chars_of(key);
    if key_is(&k, "status") {
        FieldSlot::Status
    } else if key_is(&k, "type") {
        FieldSlot::Type
    } else if key_is(&k, "priority") {
        FieldSlot::Priority
    } else if key_is(&k, "assignee") {
        FieldSlot::Assignee
    } else if key_is(&k, "owner") {
        FieldSlot::Owner
    } else if key_is(&k, "epic") {
        FieldSlot::Epic
    } else {
        FieldSlot::Custom
    }
}

/// The slot `set` routes `field` to.
pub fn set_field_slot(field: &str) -> (r: FieldSlot)
    ensures
        r == set_slot_spec(field@),
{
    let k = chars_of(field);
    if key_is(&k, "type") {
        FieldSlot::Custom
    } else {
        bulk_field_slot(field)
    }
}

/// Built-in single-value fields that `bulk` routes through their typed
/// slots: `status`, `type`, `priority`, `assignee`, `owner`, `epic`.
pub fn is_bulk_routable_builtin(key: &str) -> (r: bool)
    ensures
        r == (bulk_slot_spec(key@) != FieldSlot::Custom),
{
    bulk_field_slot(key) != FieldSlot::Custom
}

} // verus!
