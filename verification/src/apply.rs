//! The rules a patch file for `apply` must meet besides its field shapes:
//! a mapping that names a well-formed slug, no `dry_run` key, and, in
//! machine mode, a usable `expected_version`.
use vstd::prelude::*;
use crate::args::answered;
use crate::text::{debug_quote, debug_str, str_eq, trim, trim_seq};

verus! {

/// What a patch mapping holds under `slug:`.
pub enum PatchSlug {
    Missing,
    /// A value that is not a string.
    NotText,
    Text(String),
}

pub open spec fn not_mapping_message() -> Seq<char> {
    "patch file must be a YAML mapping at the top level"@
}

pub open spec fn missing_slug_message() -> Seq<char> {
    "patch file must declare `slug:`"@
}

pub open spec fn slug_not_text_message() -> Seq<char> {
    "`slug:` must be a string"@
}

pub open spec fn bad_slug_message(s: Seq<char>) -> Seq<char> {
    "invalid slug shape: "@ + debug_str(s)
}

pub open spec fn dry_run_key_message() -> Seq<char> {
    "`dry_run` is a CLI flag; use `issuectl apply --dry-run`, not a patch field"@
}

/// The checks made before a patch's fields are read, in order: the top
/// level is a mapping, it names a slug, the slug is a string of the slug
/// shape (`is_valid_slug`, the issue store's rule), and it holds no
/// `dry_run` key. Gives the slug.
pub fn check_patch_head<F: Fn(&str) -> bool>(
    is_mapping: bool,
    slug: PatchSlug,
    has_dry_run: bool,
    is_valid_slug: F,
) -> (r: Result<String, String>)
    requires
        forall|x: &str| #[trigger] is_valid_slug.requires((x,)),
    ensures
        !is_mapping ==> (r matches Err(e) && e@ == not_mapping_message()),
        is_mapping ==> match slug {
            PatchSlug::Missing => r matches Err(e) && e@ == missing_slug_message(),
            PatchSlug::NotText => r matches Err(e) && e@ == slug_not_text_message(),
            PatchSlug::Text(s) => (answered(is_valid_slug, s@, false) && (r matches Err(e) && e@ == bad_slug_message(
                s@,
            ))) || (answered(is_valid_slug, s@, true) && if has_dry_run {
                (r matches Err(e) && e@ == dry_run_key_message())
            } else {
                (r matches Ok(v) && v@ == s@)
            }),
        },
{
    if !is_mapping {
        return Err(String::from_str("patch file must be a YAML mapping at the top level"));
    }
    let s = match slug {
        PatchSlug::Missing => return Err(String::from_str("patch file must declare `slug:`")),
        PatchSlug::NotText => return Err(String::from_str("`slug:` must be a string")),
        PatchSlug::Text(s) => s,
    };
    if !is_valid_slug(s.as_str()) {
        let mut m = String::from_str("invalid slug shape: ");
        m.append(debug_quote(s.as_str()).as_str());
        return Err(m);
    }
    if has_dry_run {
        return Err(String::from_str("`dry_run` is a CLI flag; use `issuectl apply --dry-run`, not a patch field"));
    }
    Ok(s)
}

pub open spec fn expected_version_message() -> Seq<char> {
    "patch must include a non-empty `expected_version:` when invoked with --json (per design D4=B); fetch with `issuectl show <slug> --json`"@
}

/// A version token that can guard a write: non-empty once trimmed, and
/// with no whitespace around it.
pub open spec fn usable_version(v: Option<String>) -> bool {
    match v {
        Some(s) => trim_seq(s@).len() > 0 && trim_seq(s@) == s@,
        None => false,
    }
}

/// In machine mode a patch must carry a usable `expected_version`, so that
/// no scripted write goes through without a concurrency guard.
pub fn check_expected_version(json: bool, expected_version: &Option<String>) -> (r: Result<(), String>)
    ensures
        (!json || usable_version(*expected_version)) ==> r is Ok,
        (json && !usable_version(*expected_version)) ==> (r matches Err(e) && e@ == expected_version_message()),
{
    if !json {
        return Ok(());
    }
    let ok = match expected_version {
        Some(v) => {
            let t = trim(v.as_str());
            t.as_str().unicode_len() > 0 && str_eq(t.as_str(), v.as_str())
        },
        None => false,
    };
    if ok {
        Ok(())
    } else {
        Err(
            String::from_str(
                "patch must include a non-empty `expected_version:` when invoked with --json (per design D4=B); fetch with `issuectl show <slug> --json`",
            ),
        )
    }
}

} // verus!
