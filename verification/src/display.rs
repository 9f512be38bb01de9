//! Shortening text for table cells.
use vstd::prelude::*;
use crate::text::{chars_of, push_char, string_from_range};

verus! {

/// What `truncate` gives: `text` when it has at most `max_len` characters,
/// otherwise its first `max_len - 1` characters and `…`; nothing at all for
/// a zero width.
pub open spec fn truncate_spec(text: Seq<char>, max_len: nat) -> Seq<char> {
    if max_len == 0 {
        Seq::empty()
    } else if text.len() <= max_len {
        text
    } else {
        text.take(max_len - 1).push('…')
    }
}

/// What `truncate_key` gives: `s` when it has at most `max` characters,
/// otherwise its first `max - 1` characters (none when `max` is zero)
/// and `…`.
pub open spec fn truncate_key_spec(s: Seq<char>, max: nat) -> Seq<char> {
    if s.len() <= max {
        s
    } else if max == 0 {
        seq!['…']
    } else {
        s.take(max - 1).push('…')
    }
}

/// Truncate `text` to `max_len` Unicode scalar values, ending with `…` when
/// truncated. Counting scalar values keeps every cut on a character
/// boundary.
pub fn truncate(text: &str, max_len: usize) -> (r: String)
    ensures
        r@ == truncate_spec(text@, max_len as nat),
{
    if max_len == 0 {
        return String::new();
    }
    let v = chars_of(text);
    if v.len() <= max_len {
        assert(v@.subrange(0, v.len() as int) =~= v@);
        return string_from_range(&v, 0, v.len());
    }
    let mut out = string_from_range(&v, 0, max_len - 1);
    assert(v@.subrange(0, max_len - 1) =~= v@.take(max_len - 1));
    push_char(&mut out, '…');
    out
}

/// Shorten a workload-table key to `max` characters, marking the cut with
/// `…`.
pub fn truncate_key(s: &str, max: usize) -> (r: String)
    ensures
        r@ == truncate_key_spec(s@, max as nat),
{
    let v = chars_of(s);
    if v.len() <= max {
        assert(v@.subrange(0, v.len() as int) =~= v@);
        return string_from_range(&v, 0, v.len());
    }
    let keep = if max == 0 {
        0
    } else {
        max - 1
    };
    let mut out = string_from_range(&v, 0, keep);
    assert(v@.subrange(0, keep as int) =~= v@.take(keep as int));
    push_char(&mut out, '…');
    proof {
        if max == 0 {
            assert(out@ =~= seq!['…']);
        }
    }
    out
}

} // verus!
