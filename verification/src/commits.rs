//! Commit references recorded on issues (`HASH:summary`).
use vstd::prelude::*;
use crate::text::{chars_of, debug_str, index_of_char, find_char, string_from_range, trim_bounds, trim_seq, with_quoted};

verus! {

/// The part of `s` before its first `:` (all of `s` when it has none).
pub open spec fn before_colon(s: Seq<char>) -> Seq<char> {
    s.take(index_of_char(s, ':'))
}

/// The part of `s` after its first `:`.
pub open spec fn after_colon(s: Seq<char>) -> Seq<char> {
    s.skip(index_of_char(s, ':') + 1)
}

pub open spec fn has_colon(s: Seq<char>) -> bool {
    index_of_char(s, ':') < s.len()
}

pub open spec fn commit_spec_message(s: Seq<char>) -> Seq<char> {
    "commit spec must be HASH:summary, got "@ + debug_str(s)
}

/// Whether `spec` is a well-formed `HASH:summary` reference: it has a `:`,
/// and both sides are non-empty once trimmed.
pub open spec fn commit_spec_ok(s: Seq<char>) -> bool {
    has_colon(s) && trim_seq(before_colon(s)).len() > 0 && trim_seq(after_colon(s)).len() > 0
}

/// Split a `HASH:summary` commit reference at its first `:`, trimming both
/// halves. Both halves must be non-empty.
pub fn parse_commit_spec(spec: &str) -> (r: Result<(String, String), String>)
    ensures
        commit_spec_ok(spec@) ==> (r matches Ok(p) && p.0@ == trim_seq(before_colon(spec@))
            && p.1@ == trim_seq(after_colon(spec@))),
        !commit_spec_ok(spec@) ==> (r matches Err(e) && e@ == commit_spec_message(spec@)),
{
    let v = chars_of(spec);
    let i = find_char(&v, ':');
    if i == v.len() {
        return Err(with_quoted("commit spec must be HASH:summary, got ", spec));
    }
    let head = string_from_range(&v, 0, i);
    let tail = string_from_range(&v, i + 1, v.len());
    assert(v@.subrange(0, i as int) =~= before_colon(spec@));
    assert(v@.subrange(i + 1, v.len() as int) =~= after_colon(spec@));
    let hv = chars_of(head.as_str());
    let tv = chars_of(tail.as_str());
    let (hlo, hhi) = trim_bounds(&hv);
    let (tlo, thi) = trim_bounds(&tv);
    if hlo == hhi || tlo == thi {
        return Err(with_quoted("commit spec must be HASH:summary, got ", spec));
    }
    Ok((string_from_range(&hv, hlo, hhi), string_from_range(&tv, tlo, thi)))
}

} // verus!
