//! Value parsers for command-line arguments.
use vstd::prelude::*;
use crate::number::{parse_i64_range, parse_i64_spec};
use crate::bulk::{bulk_slot_spec, is_bulk_routable_builtin, FieldSlot};
use crate::text::{chars_eq, chars_of, debug_quote, debug_str, find_char, index_of_char, is_trimmed, string_from_range, trim, trim_bounds, trim_seq, with_quoted};

verus! {

/// `s` without one trailing `d` (the `<N>d` day-count form).
pub open spec fn strip_day_suffix(s: Seq<char>) -> Seq<char> {
    if s.len() > 0 && s.last() == 'd' {
        s.drop_last()
    } else {
        s
    }
}

pub open spec fn day_count_shape_message(s: Seq<char>) -> Seq<char> {
    "expected a day count like `90` or `90d`, got "@ + debug_str(s)
}

pub open spec fn day_count_negative_message(s: Seq<char>) -> Seq<char> {
    "day count cannot be negative: "@ + debug_str(s)
}

/// Parse a day count for `--older-than` / `--days`: a bare integer (`90`)
/// or a `<N>d` suffix form (`90d`). Must be non-negative.
pub fn parse_days(s: &str) -> (r: Result<i64, String>)
    ensures
        match parse_i64_spec(strip_day_suffix(s@)) {
            None => r matches Err(e) && e@ == day_count_shape_message(s@),
            Some(n) => if n < 0 {
                r matches Err(e) && e@ == day_count_negative_message(s@)
            } else {
                r == Ok::<i64, String>(n)
            },
        },
{
    let v = chars_of(s);
    let hi = if v.len() > 0 && v[v.len() - 1] == 'd' {
        v.len() - 1
    } else {
        v.len()
    };
    assert(v@.subrange(0, hi as int) =~= strip_day_suffix(s@));
    match parse_i64_range(&v, 0, hi) {
        None => Err(with_quoted("expected a day count like `90` or `90d`, got ", s)),
        Some(n) => {
            if n < 0 {
                Err(with_quoted("day count cannot be negative: ", s))
            } else {
                Ok(n)
            }
        },
    }
}

pub open spec fn empty_value_message() -> Seq<char> {
    "value cannot be empty or whitespace"@
}

pub open spec fn padded_value_message(s: Seq<char>) -> Seq<char> {
    "value has leading or trailing whitespace: "@ + debug_str(s) + " (use "@ + debug_str(
        trim_seq(s),
    ) + ")"@
}

/// Accept `s` unchanged when it is non-empty after trimming and carries no
/// leading or trailing whitespace; reject it otherwise.
pub fn parse_non_empty(s: &str) -> (r: Result<String, String>)
    ensures
        trim_seq(s@).len() == 0 ==> (r matches Err(e) && e@ == empty_value_message()),
        trim_seq(s@).len() != 0 && trim_seq(s@) != s@ ==> (r matches Err(e) && e@
            == padded_value_message(s@)),
        trim_seq(s@).len() != 0 && trim_seq(s@) == s@ ==> (r matches Ok(v) && v@ == s@),
{
    let v = chars_of(s);
    let (lo, hi) = trim_bounds(&v);
    if lo == hi {
        return Err(String::from_str("value cannot be empty or whitespace"));
    }
    if hi - lo != v.len() {
        let trimmed = string_from_range(&v, lo, hi);
        let mut m = with_quoted("value has leading or trailing whitespace: ", s);
        m.append(" (use ");
        let q = debug_quote(trimmed.as_str());
        m.append(q.as_str());
        m.append(")");
        return Err(m);
    }
    assert(v@.subrange(lo as int, hi as int) =~= v@);
    Ok(String::from_str(s))
}

pub open spec fn slug_shape_message(s: Seq<char>) -> Seq<char> {
    debug_str(s)
        + " is not a valid slug or slug prefix (lowercase ASCII letters/digits, kebab-case, no path separators)"@
}

/// Value parser for slug-shaped arguments: `parse_non_empty`, then the
/// slug-or-prefix shape check `is_valid_prefix` (the issue store's rule).
/// Rejecting malformed slugs here closes the path-traversal door for
/// `show/update/close <slug>`.
pub fn parse_slug_arg<F: Fn(&str) -> bool>(s: &str, is_valid_prefix: F) -> (r: Result<String, String>)
    requires
        forall|x: &str| #[trigger] is_valid_prefix.requires((x,)),
    ensures
        trim_seq(s@).len() == 0 ==> (r matches Err(e) && e@ == empty_value_message()),
        trim_seq(s@).len() != 0 && trim_seq(s@) != s@ ==> (r matches Err(e) && e@
            == padded_value_message(s@)),
        trim_seq(s@).len() != 0 && trim_seq(s@) == s@ ==> (r matches Ok(v) && v@ == s@
            && is_valid_prefix.ensures((s,), true)) || (r matches Err(e) && e@
            == slug_shape_message(s@) && is_valid_prefix.ensures((s,), false)),
{
    let v = parse_non_empty(s)?;
    let ok = is_valid_prefix(s);
    if !ok {
        let mut m = debug_quote(v.as_str());
        m.append(
            " is not a valid slug or slug prefix (lowercase ASCII letters/digits, kebab-case, no path separators)",
        );
        return Err(m);
    }
    Ok(v)
}

/// `pred` answered `b` for an argument whose characters are `s`.
pub open spec fn answered<F: Fn(&str) -> bool>(pred: F, s: Seq<char>, b: bool) -> bool {
    exists|x: &str| x@ == s && #[trigger] pred.ensures((x,), b)
}

/// `f` answered `out` for an argument whose characters are `s`.
pub open spec fn returned<T, F: Fn(&str) -> T>(f: F, s: Seq<char>, out: T) -> bool {
    exists|x: &str| x@ == s && #[trigger] f.ensures((x,), out)
}

/// The part of `s` before its first `=`.
pub open spec fn key_part(s: Seq<char>) -> Seq<char> {
    s.take(index_of_char(s, '='))
}

/// The part of `s` after its first `=`.
pub open spec fn value_part(s: Seq<char>) -> Seq<char> {
    s.skip(index_of_char(s, '=') + 1)
}

pub open spec fn has_equals(s: Seq<char>) -> bool {
    index_of_char(s, '=') < s.len()
}

/// Shape checks of `--field key=value`: the pair, or the message for the
/// first rule it breaks.
pub open spec fn custom_field_shape(s: Seq<char>) -> Result<(Seq<char>, Seq<char>), Seq<char>> {
    if !has_equals(s) {
        Err("expected key=value, got "@ + debug_str(s))
    } else if key_part(s).len() == 0 || value_part(s).len() == 0 {
        Err("expected non-empty key=value, got "@ + debug_str(s))
    } else if !is_trimmed(key_part(s)) || !is_trimmed(value_part(s)) {
        Err("field "@ + debug_str(s) + " has leading or trailing whitespace; remove it"@)
    } else {
        Ok((key_part(s), value_part(s)))
    }
}

/// Splits `v` at its first `=`: `None` when it has none.
fn split_at_equals(s: &str, v: &Vec<char>) -> (r: Option<(String, String)>)
    requires
        v@ == s@,
    ensures
        has_equals(s@) ==> (r matches Some(p) && p.0@ == key_part(s@) && p.1@ == value_part(s@)),
        !has_equals(s@) ==> r is None,
{
    let i = find_char(v, '=');
    if i == v.len() {
        return None;
    }
    let k = string_from_range(v, 0, i);
    let val = string_from_range(v, i + 1, v.len());
    assert(v@.subrange(0, i as int) =~= key_part(s@));
    assert(v@.subrange(i + 1, v.len() as int) =~= value_part(s@));
    Some((k, val))
}

/// Whether `s` carries no leading or trailing whitespace.
pub fn str_is_trimmed(s: &str) -> (r: bool)
    ensures
        r == is_trimmed(s@),
{
    let v = chars_of(s);
    let (lo, hi) = trim_bounds(&v);
    if lo == 0 && hi == v.len() {
        assert(v@.subrange(0, v.len() as int) =~= v@);
        true
    } else {
        false
    }
}

/// Value parser for `--field key=value`. After the shape checks, the key is
/// handed to `validate_key` (the issue store's custom-key rule, which
/// rejects built-in keys with a hint naming the right flag); its error is
/// passed through.
pub fn parse_custom_field<F: Fn(&str) -> Result<(), String>>(s: &str, validate_key: F) -> (r: Result<(String, String), String>)
    requires
        forall|x: &str| #[trigger] validate_key.requires((x,)),
    ensures
        match custom_field_shape(s@) {
            Err(m) => r matches Err(e) && e@ == m,
            Ok((k, v)) => (r matches Ok(p) && p.0@ == k && p.1@ == v && returned(validate_key, k, Ok(())))
                || (r matches Err(e) && returned(validate_key, k, Err::<(), String>(e))),
        },
{
    let sv = chars_of(s);
    let (k, v) = match split_at_equals(s, &sv) {
        None => return Err(with_quoted("expected key=value, got ", s)),
        Some(p) => p,
    };
    if k.as_str().is_empty() || v.as_str().is_empty() {
        return Err(with_quoted("expected non-empty key=value, got ", s));
    }
    if !str_is_trimmed(k.as_str()) || !str_is_trimmed(v.as_str()) {
        let mut m = with_quoted("field ", s);
        m.append(" has leading or trailing whitespace; remove it");
        return Err(m);
    }
    let ks = k.as_str();
    let res = validate_key(ks);
    assert(validate_key.ensures((ks,), res));
    if let Err(e) = res {
        assert(returned(validate_key, k@, Err::<(), String>(e)));
        return Err(e);
    }
    proof {
        let x = res->Ok_0;
        assert(x == ());
        assert(res == Ok::<(), String>(()));
    }
    assert(returned(validate_key, k@, Ok::<(), String>(())));
    Ok((k, v))
}

/// Shape checks of `--clear-field key`: the key, or the message for the
/// first rule it breaks.
pub open spec fn custom_field_key_shape(s: Seq<char>) -> Result<Seq<char>, Seq<char>> {
    if s.len() == 0 {
        Err("expected a non-empty field key, got "@ + debug_str(s))
    } else if !is_trimmed(s) {
        Err("field key "@ + debug_str(s) + " has leading or trailing whitespace; remove it"@)
    } else {
        Ok(s)
    }
}

/// Value parser for `--clear-field <key>`: the bare-key counterpart of
/// `parse_custom_field`, with the same shape and reserved-key rules.
pub fn parse_custom_field_key<F: Fn(&str) -> Result<(), String>>(s: &str, validate_key: F) -> (r: Result<String, String>)
    requires
        forall|x: &str| #[trigger] validate_key.requires((x,)),
    ensures
        match custom_field_key_shape(s@) {
            Err(m) => r matches Err(e) && e@ == m,
            Ok(k) => (r matches Ok(v) && v@ == k && returned(validate_key, k, Ok(())))
                || (r matches Err(e) && returned(validate_key, k, Err::<(), String>(e))),
        },
{
    if s.is_empty() {
        return Err(with_quoted("expected a non-empty field key, got ", s));
    }
    if !str_is_trimmed(s) {
        let mut m = with_quoted("field key ", s);
        m.append(" has leading or trailing whitespace; remove it");
        return Err(m);
    }
    let res = validate_key(s);
    assert(validate_key.ensures((s,), res));
    if let Err(e) = res {
        assert(returned(validate_key, s@, Err::<(), String>(e)));
        return Err(e);
    }
    proof {
        let x = res->Ok_0;
        assert(x == ());
        assert(res == Ok::<(), String>(()));
    }
    assert(returned(validate_key, s@, Ok::<(), String>(())));
    Ok(String::from_str(s))
}

pub open spec fn built_in_message(flag: Seq<char>, key: Seq<char>, advice: Seq<char>) -> Seq<char> {
    flag + " "@ + debug_str(key) + " is built-in: "@ + advice
}

/// `r` carries the same text as `o`, on the same side.
pub open spec fn same_text(r: Result<String, String>, o: Result<Seq<char>, Seq<char>>) -> bool {
    match (r, o) {
        (Ok(a), Ok(b)) => a@ == b,
        (Err(a), Err(b)) => a@ == b,
        _ => false,
    }
}

/// The view of an optional string.
pub open spec fn opt_view(h: Option<String>) -> Option<Seq<char>> {
    match h {
        Some(x) => Some(x@),
        None => None,
    }
}

/// Whether routing `key` consults the reserved-key hint table: it is not a
/// routable built-in, nor `labels` / `related`.
pub open spec fn needs_hint(key: Seq<char>) -> bool {
    bulk_slot_spec(key) == FieldSlot::Custom && key != "labels"@ && key != "related"@
}

/// The outcome of routing `key` for `flag`, given the hint-table answer.
pub open spec fn route_outcome(flag: Seq<char>, key: Seq<char>, hint: Option<Seq<char>>) -> Result<
    Seq<char>,
    Seq<char>,
> {
    if bulk_slot_spec(key) != FieldSlot::Custom {
        Ok(key)
    } else if key == "labels"@ {
        Err(built_in_message(flag, key, "use bulk --add-label / --remove-label"@))
    } else if key == "related"@ {
        Err(built_in_message(flag, key, "use bulk --add-related / --remove-related"@))
    } else {
        match hint {
            Some(h) => Err(built_in_message(flag, key, h)),
            None => Ok(key),
        }
    }
}

/// `r` is the routing outcome for `key`, with the hint table consulted
/// exactly when `needs_hint(key)`.
pub open spec fn routed<H: Fn(&str) -> Option<String>>(
    r: Result<String, String>,
    flag: Seq<char>,
    key: Seq<char>,
    reserved_hint: H,
) -> bool {
    if needs_hint(key) {
        exists|h: Option<String>| #[trigger] returned(reserved_hint, key, h) && same_text(
            r,
            route_outcome(flag, key, opt_view(h)),
        )
    } else {
        same_text(r, route_outcome(flag, key, None))
    }
}

/// Reject reserved keys that `bulk --set` / `--clear` cannot route, with a
/// hint naming the right flag. Routable built-ins pass; `labels` and
/// `related` point at the list flags; any other key is rejected exactly
/// when `reserved_hint` (the issue store's table of auto-managed keys)
/// has a hint for it.
pub fn reject_unroutable_reserved_key<H: Fn(&str) -> Option<String>>(flag: &str, key: &str, reserved_hint: H) -> (r: Result<String, String>)
    requires
        forall|x: &str| #[trigger] reserved_hint.requires((x,)),
    ensures
        routed(r, flag@, key@, reserved_hint),
{
    if is_bulk_routable_builtin(key) {
        return Ok(String::from_str(key));
    }
    let kv = chars_of(key);
    let is_labels = chars_eq(&kv, &chars_of("labels"));
    let is_related = chars_eq(&kv, &chars_of("related"));
    proof {
        reveal_strlit("labels");
        reveal_strlit("related");
        assert("labels"@.len() != "related"@.len());
    }
    if is_labels || is_related {
        let mut m = String::from_str(flag);
        m.append(" ");
        let q = debug_quote(key);
        m.append(q.as_str());
        m.append(" is built-in: ");
        if is_labels {
            m.append("use bulk --add-label / --remove-label");
        } else {
            m.append("use bulk --add-related / --remove-related");
        }
        return Err(m);
    }
    let hint = reserved_hint(key);
    assert(returned(reserved_hint, key@, hint));
    match hint {
        Some(h) => {
            let mut m = String::from_str(flag);
            m.append(" ");
            let q = debug_quote(key);
            m.append(q.as_str());
            m.append(" is built-in: ");
            m.append(h.as_str());
            Err(m)
        },
        None => Ok(String::from_str(key)),
    }
}

/// Shape checks of `bulk --set key=value`: the pair, or the message for the
/// first rule it breaks.
pub open spec fn bulk_set_shape(s: Seq<char>) -> Result<(Seq<char>, Seq<char>), Seq<char>> {
    if !has_equals(s) {
        Err("--set expects key=value, got "@ + debug_str(s))
    } else if key_part(s).len() == 0 {
        Err("--set key cannot be empty: "@ + debug_str(s))
    } else if value_part(s).len() == 0 {
        Err("--set "@ + debug_str(key_part(s))
            + ": value cannot be empty (use --clear to remove the field)"@)
    } else if !is_trimmed(key_part(s)) || !is_trimmed(value_part(s)) {
        Err("--set "@ + debug_str(s) + " has leading or trailing whitespace; remove it"@)
    } else {
        Ok((key_part(s), value_part(s)))
    }
}

pub open spec fn invalid_key_message(flag: Seq<char>, key: Seq<char>) -> Seq<char> {
    flag + " key "@ + debug_str(key) + " must be alphanumeric / underscore / hyphen"@
}

/// After the shape checks: `r` is the outcome of the key check
/// `is_valid_key` and then of routing, for key `k`.
pub open spec fn key_checked<P: Fn(&str) -> bool, H: Fn(&str) -> Option<String>>(
    r: Result<String, String>,
    flag: Seq<char>,
    k: Seq<char>,
    is_valid_key: P,
    reserved_hint: H,
) -> bool {
    exists|valid: bool| #[trigger] answered(is_valid_key, k, valid) && if valid {
        routed(r, flag, k, reserved_hint)
    } else {
        same_text(r, Err(invalid_key_message(flag, k)))
    }
}

/// Value parser for `bulk --set key=value`. Unlike `parse_custom_field` it
/// accepts the routable built-in keys (`status`, `type`, ...); the key must
/// pass `is_valid_key` (alphanumeric / underscore / hyphen) and the
/// reserved-key routing check.
pub fn parse_bulk_set<P: Fn(&str) -> bool, H: Fn(&str) -> Option<String>>(
    s: &str,
    is_valid_key: P,
    reserved_hint: H,
) -> (r: Result<(String, String), String>)
    requires
        forall|x: &str| #[trigger] is_valid_key.requires((x,)),
        forall|x: &str| #[trigger] reserved_hint.requires((x,)),
    ensures
        match bulk_set_shape(s@) {
            Err(m) => r matches Err(e) && e@ == m,
            Ok((k, v)) => key_checked(
                match r {
                    Ok(p) => Ok(p.0),
                    Err(e) => Err(e),
                },
                "--set"@,
                k,
                is_valid_key,
                reserved_hint,
            ) && (r is Ok ==> r->Ok_0.1@ == v),
        },
{
    let sv = chars_of(s);
    let (k, v) = match split_at_equals(s, &sv) {
        None => return Err(with_quoted("--set expects key=value, got ", s)),
        Some(p) => p,
    };
    if k.as_str().is_empty() {
        return Err(with_quoted("--set key cannot be empty: ", s));
    }
    if v.as_str().is_empty() {
        let mut m = with_quoted("--set ", k.as_str());
        m.append(": value cannot be empty (use --clear to remove the field)");
        return Err(m);
    }
    if !str_is_trimmed(k.as_str()) || !str_is_trimmed(v.as_str()) {
        let mut m = with_quoted("--set ", s);
        m.append(" has leading or trailing whitespace; remove it");
        return Err(m);
    }
    let ks = k.as_str();
    let valid = is_valid_key(ks);
    assert(answered(is_valid_key, k@, valid));
    if !valid {
        let mut m = String::from_str("--set");
        m.append(" key ");
        let q = debug_quote(ks);
        m.append(q.as_str());
        m.append(" must be alphanumeric / underscore / hyphen");
        return Err(m);
    }
    let routed_key = reject_unroutable_reserved_key("--set", ks, reserved_hint);
    match routed_key {
        Ok(rk) => Ok((rk, v)),
        Err(e) => Err(e),
    }
}

/// Shape checks of `bulk --clear key`: the key, or the message for the
/// first rule it breaks.
pub open spec fn bulk_clear_shape(s: Seq<char>) -> Result<Seq<char>, Seq<char>> {
    if s.len() == 0 {
        Err("--clear key cannot be empty"@)
    } else if !is_trimmed(s) {
        Err("--clear key "@ + debug_str(s) + " has leading or trailing whitespace; remove it"@)
    } else {
        Ok(s)
    }
}

/// Value parser for `bulk --clear <key>`: the bare-key counterpart of
/// `parse_bulk_set`.
pub fn parse_bulk_clear_key<P: Fn(&str) -> bool, H: Fn(&str) -> Option<String>>(
    s: &str,
    is_valid_key: P,
    reserved_hint: H,
) -> (r: Result<String, String>)
    requires
        forall|x: &str| #[trigger] is_valid_key.requires((x,)),
        forall|x: &str| #[trigger] reserved_hint.requires((x,)),
    ensures
        match bulk_clear_shape(s@) {
            Err(m) => r matches Err(e) && e@ == m,
            Ok(k) => key_checked(r, "--clear"@, k, is_valid_key, reserved_hint),
        },
{
    if s.is_empty() {
        return Err(String::from_str("--clear key cannot be empty"));
    }
    if !str_is_trimmed(s) {
        let mut m = with_quoted("--clear key ", s);
        m.append(" has leading or trailing whitespace; remove it");
        return Err(m);
    }
    let valid = is_valid_key(s);
    assert(answered(is_valid_key, s@, valid));
    if !valid {
        let mut m = String::from_str("--clear");
        m.append(" key ");
        let q = debug_quote(s);
        m.append(q.as_str());
        m.append(" must be alphanumeric / underscore / hyphen");
        return Err(m);
    }
    reject_unroutable_reserved_key("--clear", s, reserved_hint)
}

/// The first of `values` that is set and not blank, trimmed; `None` when
/// there is none.
pub open spec fn first_non_blank(values: Seq<Option<String>>) -> Option<Seq<char>>
    decreases values.len(),
{
    if values.len() == 0 {
        None
    } else if values[0] matches Some(v) && trim_seq(v@).len() > 0 {
        Some(trim_seq(values[0]->0@))
    } else {
        first_non_blank(values.drop_first())
    }
}

/// Who is acting, from candidate values in order of preference (the
/// `ISSUECTL_USER`, `GIT_AUTHOR_NAME` and `GIT_COMMITTER_NAME` variables;
/// failing those, git's `user.name`): the first that is set and not blank,
/// trimmed.
pub fn pick_user(values: &Vec<Option<String>>) -> (r: Option<String>)
    ensures
        opt_view(r) == first_non_blank(values@),
{
    let mut i: usize = 0;
    assert(values@.skip(0) =~= values@);
    while i < values.len()
        invariant
            i <= values.len(),
            first_non_blank(values@) == first_non_blank(values@.skip(i as int)),
        decreases values.len() - i,
    {
        let ghost rest = values@.skip(i as int);
        assert(rest[0] == values@[i as int]);
        assert(rest.drop_first() =~= values@.skip(i + 1));
        if let Some(v) = &values[i] {
            let t = trim(v.as_str());
            if !t.as_str().is_empty() {
                return Some(t);
            }
        }
        i = i + 1;
    }
    assert(values@.skip(i as int) =~= Seq::<Option<String>>::empty());
    None
}

} // verus!
