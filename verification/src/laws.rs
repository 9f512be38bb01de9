//! Properties the command line relies on across its parsers and renderers,
//! stated over the same models as the functions' contracts.
use vstd::prelude::*;
use crate::args::strip_day_suffix;
use crate::cli::json_flag_in;
use crate::commits::{after_colon, before_colon};
use crate::display::{truncate_key_spec, truncate_spec};
use crate::number::{decimal_digits, lemma_decimal_digits, parse_i64_spec, parse_usize_spec};
use crate::counts::{occurrences, tallies, tally_keys};
use crate::help::{listed_flags, select, shown, ArgGroup, CommandSpec};
use crate::intake::{provenance_of, IntakeItem};
use crate::notes::finished_note;
use crate::complete::strictly_sorted;
use crate::order::{lemma_seq_lt_asymmetric, lemma_seq_lt_irreflexive, seq_lt};
use crate::refs::{blocked_slugs, blocks, IssueDeps};
use crate::report::{dag_row_text, join, pad_right, DagRow};
use crate::keys::views;
use crate::table::{byte_len, cells, col_width, headers, table_line, table_lines, IssueRow};
use crate::stats::{folder_count, open_key_seq, stat_key, StatField, StatIssue};
use crate::pick::{lowercase, matches_query, PickItem};
use crate::todo::{find_sub, lemma_find_sub, occurs_at};
use crate::sync::{planned_row, PlannedCommit};
use crate::ready::{checked_count, unchecked_lines, Checkbox};
use crate::update::{request_of, UpdateArgs, UpdateRequest};
use crate::request::patch_view;
use crate::rename::{touched_files, RenameChange};
use crate::formatting::{any_changed, entries_text, format_text, FormatEntry, FormatMode};
use crate::scan::{lines_of, marked, strip_cr};
use crate::tree::{descendants, forest_rows, TreeNode};
use crate::args::opt_view;
use crate::text::{index_of_char, is_trimmed, is_white_space, lemma_index_of_char, lemma_trim_end_take, lemma_trim_start_skip, trim_end_seq, trim_seq, trim_start_seq};

verus! {

/// A truncated cell never exceeds its width, and text that already fits is
/// left alone.
pub proof fn law_truncate_fits(text: Seq<char>, max_len: nat)
    ensures
        truncate_spec(text, max_len).len() <= max_len,
        text.len() <= max_len && max_len > 0 ==> truncate_spec(text, max_len) == text,
{
}

/// Truncating twice to the same width changes nothing more.
pub proof fn law_truncate_idempotent(text: Seq<char>, max_len: nat)
    ensures
        truncate_spec(truncate_spec(text, max_len), max_len) == truncate_spec(text, max_len),
{
}

/// A shortened key fits its column whenever the column has room for at
/// least one character.
pub proof fn law_truncate_key_fits(s: Seq<char>, max: nat)
    requires
        max >= 1,
    ensures
        truncate_key_spec(s, max).len() <= max,
{
}

proof fn lemma_trim_end_shape(s: Seq<char>)
    ensures
        trim_end_seq(s).len() <= s.len(),
        trim_end_seq(s) == s.take(trim_end_seq(s).len() as int),
        trim_end_seq(s).len() == 0 || !is_white_space(trim_end_seq(s).last()),
    decreases s.len(),
{
    if s.len() > 0 && is_white_space(s.last()) {
        lemma_trim_end_shape(s.drop_last());
        assert(s.drop_last().take(trim_end_seq(s).len() as int) =~= s.take(trim_end_seq(s).len() as int));
    } else {
        assert(s.take(s.len() as int) =~= s);
    }
}

/// Trimmed text is trimmed: trimming it again changes nothing. (Note text
/// and `--body-file` bodies are stored as trimmed once.)
pub proof fn law_trim_idempotent(s: Seq<char>)
    ensures
        is_trimmed(trim_seq(s)),
{
    let a = trim_start_seq(s);
    let t = trim_end_seq(a);
    crate::usage::lemma_trim_start_shorter(s);
    lemma_trim_end_shape(a);
    if t.len() > 0 {
        assert(t[0] == a[0]);
    }
    lemma_trim_start_skip(t, 0);
    assert(t.skip(0) =~= t);
    assert forall|j: int| t.len() <= j < t.len() implies is_white_space(#[trigger] t[j]) by {}
    lemma_trim_end_take(t, t.len() as int);
    assert(t.take(t.len() as int) =~= t);
}

proof fn lemma_digits_parse(n: nat)
    requires
        n <= i64::MAX,
    ensures
        parse_i64_spec(decimal_digits(n)) == Some(n as i64),
{
    lemma_decimal_digits(n);
    let d = decimal_digits(n);
    assert(crate::number::is_digit(d[0]));
}

/// Any non-negative day count that fits an `i64`, written in decimal with
/// or without the `d` suffix, reads back as itself.
pub proof fn law_days_round_trip(n: nat)
    requires
        n <= i64::MAX,
    ensures
        parse_i64_spec(strip_day_suffix(decimal_digits(n))) == Some(n as i64),
        parse_i64_spec(strip_day_suffix(decimal_digits(n).push('d'))) == Some(n as i64),
{
    lemma_decimal_digits(n);
    let d = decimal_digits(n);
    assert(crate::number::is_digit(d.last()));
    lemma_digits_parse(n);
    assert(d.push('d').drop_last() =~= d);
}

/// A commit reference written as `HASH:summary`, from a trimmed hash with
/// no `:` and a trimmed summary, splits back into the same two parts.
pub proof fn law_commit_spec_round_trip(hash: Seq<char>, summary: Seq<char>)
    requires
        hash.len() > 0,
        summary.len() > 0,
        !hash.contains(':'),
        is_trimmed(hash),
        is_trimmed(summary),
    ensures
        ({
            let s = hash + seq![':'] + summary;
            trim_seq(before_colon(s)) == hash && trim_seq(after_colon(s)) == summary
        }),
{
    let s = hash + seq![':'] + summary;
    assert forall|j: int| 0 <= j < hash.len() implies #[trigger] s[j] != ':' by {
        assert(s[j] == hash[j]);
        if s[j] == ':' {
            assert(hash.contains(':'));
        }
    }
    lemma_index_of_char(s, ':', hash.len() as int);
    assert(s.take(hash.len() as int) =~= hash);
    assert(s.skip(hash.len() as int + 1) =~= summary);
}

/// Everything after the `--` separator is a positional value: whatever
/// follows it, `--json` counts only when it comes before.
pub proof fn law_json_flag_stops_at_separator(before: Seq<Seq<char>>, after: Seq<Seq<char>>)
    ensures
        json_flag_in(before + seq!["--"@] + after) == json_flag_in(before),
    decreases before.len(),
{
    if before.len() == 0 {
        assert((before + seq!["--"@] + after)[0] == "--"@);
    } else {
        assert((before + seq!["--"@] + after).drop_first() =~= before.drop_first() + seq!["--"@] + after);
        assert((before + seq!["--"@] + after)[0] == before[0]);
        law_json_flag_stops_at_separator(before.drop_first(), after);
    }
}

/// A menu choice written in decimal, as the menu numbers its entries,
/// parses back as itself.
pub proof fn law_selection_round_trip(n: usize)
    ensures
        parse_usize_spec(decimal_digits(n as nat)) == Some(n),
        is_trimmed(decimal_digits(n as nat)),
{
    lemma_decimal_digits(n as nat);
    let d = decimal_digits(n as nat);
    assert(crate::number::is_digit(d[0]));
    assert(crate::number::is_digit(d.last()));
    lemma_trim_start_skip(d, 0);
    assert(d.skip(0) =~= d);
    lemma_trim_end_take(d, d.len() as int);
    assert(d.take(d.len() as int) =~= d);
}

/// Accepted note text is stored trimmed.
pub proof fn law_note_text_is_trimmed(text: Seq<char>, r: Result<String, String>)
    requires
        finished_note(text, r),
        r is Ok,
    ensures
        is_trimmed(r->Ok_0@),
{
    law_trim_idempotent(text);
}

/// An issue never appears in its own derived `blocks` view, even when its
/// `blocked_by` list names itself.
pub proof fn law_blocks_excludes_self(issues: Seq<IssueDeps>, slug: Seq<char>)
    ensures
        !blocked_slugs(issues, slug).contains(slug),
    decreases issues.len(),
{
    if issues.len() > 0 {
        law_blocks_excludes_self(issues.drop_last(), slug);
        let rest = blocked_slugs(issues.drop_last(), slug);
        if blocks(issues.last(), slug) {
            assert forall|j: int| 0 <= j < rest.len() + 1 implies rest.push(issues.last().slug@)[j] != slug by {
                if j < rest.len() {
                    assert(rest.push(issues.last().slug@)[j] == rest[j]);
                }
            }
        }
    }
}

/// The `blocks` view names exactly the issues whose `blocked_by` lists name
/// the subject (the subject itself excepted).
pub proof fn law_blocks_lists_blockers(issues: Seq<IssueDeps>, slug: Seq<char>, i: int)
    requires
        0 <= i < issues.len(),
        blocks(issues[i], slug),
    ensures
        blocked_slugs(issues, slug).contains(issues[i].slug@),
    decreases issues.len(),
{
    let rest = blocked_slugs(issues.drop_last(), slug);
    if i == issues.len() - 1 {
        assert(blocked_slugs(issues, slug)[rest.len() as int] == issues[i].slug@);
    } else {
        assert(issues.drop_last()[i] == issues[i]);
        law_blocks_lists_blockers(issues.drop_last(), slug, i);
        let k = choose|k: int| 0 <= k < rest.len() && rest[k] == issues[i].slug@;
        if blocks(issues.last(), slug) {
            assert(rest.push(issues.last().slug@)[k] == rest[k]);
        }
    }
}

/// How many of the keys `ks` equal `x`.
pub open spec fn matches_in(ks: Seq<Seq<char>>, x: Seq<char>) -> nat
    decreases ks.len(),
{
    if ks.len() == 0 {
        0
    } else {
        matches_in(ks.drop_last(), x) + if ks.last() == x {
            1nat
        } else {
            0nat
        }
    }
}

/// The sum of the occurrences in `s` of each key of `ks`.
pub open spec fn total_of(ks: Seq<Seq<char>>, s: Seq<Seq<char>>) -> int
    decreases ks.len(),
{
    if ks.len() == 0 {
        0
    } else {
        total_of(ks.drop_last(), s) + occurrences(s, ks.last())
    }
}

/// The sum of the counts of a tally.
pub open spec fn count_sum(t: Seq<(String, usize)>) -> int
    decreases t.len(),
{
    if t.len() == 0 {
        0
    } else {
        count_sum(t.drop_last()) + t.last().1
    }
}

proof fn lemma_total_step(ks: Seq<Seq<char>>, s: Seq<Seq<char>>)
    requires
        s.len() > 0,
    ensures
        total_of(ks, s) == total_of(ks, s.drop_last()) + matches_in(ks, s.last()),
    decreases ks.len(),
{
    if ks.len() > 0 {
        lemma_total_step(ks.drop_last(), s);
    }
}

proof fn lemma_matches_once(ks: Seq<Seq<char>>, x: Seq<char>)
    requires
        ks.contains(x),
        forall|a: int, b: int| 0 <= a < b < ks.len() ==> ks[a] != ks[b],
    ensures
        matches_in(ks, x) == 1,
    decreases ks.len(),
{
    let init = ks.drop_last();
    assert forall|a: int, b: int| 0 <= a < b < init.len() implies init[a] != init[b] by {
        assert(init[a] == ks[a] && init[b] == ks[b]);
    }
    if ks.last() == x {
        if init.contains(x) {
            let a = choose|a: int| 0 <= a < init.len() && init[a] == x;
            assert(ks[a] == ks[ks.len() - 1]);
        }
        lemma_matches_none(init, x);
    } else {
        let a = choose|a: int| 0 <= a < ks.len() && ks[a] == x;
        assert(init[a] == x);
        lemma_matches_once(init, x);
    }
}

proof fn lemma_matches_none(ks: Seq<Seq<char>>, x: Seq<char>)
    requires
        !ks.contains(x),
    ensures
        matches_in(ks, x) == 0,
    decreases ks.len(),
{
    if ks.len() > 0 {
        assert(ks[ks.len() - 1] == ks.last());
        assert(!ks.drop_last().contains(x)) by {
            if ks.drop_last().contains(x) {
                let a = choose|a: int| 0 <= a < ks.drop_last().len() && ks.drop_last()[a] == x;
                assert(ks[a] == x);
            }
        }
        lemma_matches_none(ks.drop_last(), x);
    }
}

proof fn lemma_total_covers(ks: Seq<Seq<char>>, s: Seq<Seq<char>>)
    requires
        forall|a: int, b: int| 0 <= a < b < ks.len() ==> ks[a] != ks[b],
        forall|j: int| 0 <= j < s.len() ==> ks.contains(#[trigger] s[j]),
    ensures
        total_of(ks, s) == s.len(),
    decreases s.len(),
{
    if s.len() == 0 {
        lemma_total_empty(ks, s);
    } else {
        assert forall|j: int| 0 <= j < s.drop_last().len() implies ks.contains(#[trigger] s.drop_last()[j]) by {
            assert(s.drop_last()[j] == s[j]);
        }
        lemma_total_covers(ks, s.drop_last());
        lemma_total_step(ks, s);
        assert(ks.contains(s[s.len() - 1]));
        lemma_matches_once(ks, s.last());
    }
}

proof fn lemma_total_empty(ks: Seq<Seq<char>>, s: Seq<Seq<char>>)
    requires
        s.len() == 0,
    ensures
        total_of(ks, s) == 0,
    decreases ks.len(),
{
    if ks.len() > 0 {
        lemma_total_empty(ks.drop_last(), s);
    }
}

proof fn lemma_count_sum(t: Seq<(String, usize)>, s: Seq<Seq<char>>)
    requires
        forall|a: int| 0 <= a < t.len() ==> (#[trigger] t[a]).1 == occurrences(s, t[a].0@),
    ensures
        count_sum(t) == total_of(tally_keys(t), s),
    decreases t.len(),
{
    if t.len() > 0 {
        let init = t.drop_last();
        assert forall|a: int| 0 <= a < init.len() implies (#[trigger] init[a]).1 == occurrences(s, init[a].0@) by {
            assert(init[a] == t[a]);
        }
        lemma_count_sum(init, s);
        assert(tally_keys(t).drop_last() =~= tally_keys(init));
        assert(tally_keys(t).last() == t.last().0@);
    }
}

/// A tally lists only keys that were tallied: each of its keys occurs among
/// the keys counted, so no key shows up with a count of zero.
pub proof fn law_tally_keys_occur(t: Seq<(String, usize)>, s: Seq<Seq<char>>)
    requires
        tallies(t, s),
    ensures
        forall|a: int| 0 <= a < t.len() ==> s.contains(#[trigger] t[a].0@),
{
    assert forall|a: int| 0 <= a < t.len() implies s.contains(#[trigger] t[a].0@) by {
        assert(t[a].1 > 0);
        crate::counts::lemma_occurrences_witness(s, t[a].0@);
    }
}

/// A tally accounts for every key exactly once: its counts add up to the
/// number of keys tallied.
pub proof fn law_tally_total(t: Seq<(String, usize)>, s: Seq<Seq<char>>)
    requires
        tallies(t, s),
    ensures
        count_sum(t) == s.len(),
{
    let ks = tally_keys(t);
    assert forall|a: int, b: int| 0 <= a < b < ks.len() implies ks[a] != ks[b] by {
        assert(crate::order::seq_lt(t[a].0@, t[b].0@));
        if ks[a] == ks[b] {
            lemma_seq_lt_irreflexive(ks[a]);
        }
    }
    lemma_count_sum(t, s);
    lemma_total_covers(ks, s);
}

/// No line that `str::lines` yields holds a line feed.
pub proof fn law_lines_hold_no_newline(s: Seq<char>)
    ensures
        forall|i: int| 0 <= i < lines_of(s).len() ==> !(#[trigger] lines_of(s)[i]).contains('\n'),
    decreases s.len(),
{
    let k = index_of_char(s, '\n');
    crate::text::lemma_index_of_char_props(s, '\n');
    if s.len() > 0 && k < s.len() {
        law_lines_hold_no_newline(s.skip(k + 1));
        let first = strip_cr(s.take(k));
        assert(!first.contains('\n')) by {
            if first.contains('\n') {
                let j = choose|j: int| 0 <= j < first.len() && first[j] == '\n';
                assert(s[j] == '\n');
            }
        }
        assert forall|i: int| 0 <= i < lines_of(s).len() implies !(#[trigger] lines_of(s)[i]).contains('\n') by {
            if i > 0 {
                assert(lines_of(s)[i] == lines_of(s.skip(k + 1))[i - 1]);
            }
        }
    } else if s.len() > 0 {
        assert forall|i: int| 0 <= i < lines_of(s).len() implies !(#[trigger] lines_of(s)[i]).contains('\n') by {
            if s.contains('\n') {
                let j = choose|j: int| 0 <= j < s.len() && s[j] == '\n';
                assert(s[j] != '\n');
            }
        }
    }
}

/// Marker hits come in line order, each on a line of the text.
pub proof fn law_hits_in_line_order(ls: Seq<Seq<char>>)
    ensures
        forall|a: int, b: int| 0 <= a < b < marked(ls).len() ==> #[trigger] marked(ls)[a] < #[trigger] marked(ls)[b],
        forall|a: int| 0 <= a < marked(ls).len() ==> 0 <= #[trigger] marked(ls)[a] < ls.len(),
    decreases ls.len(),
{
    if ls.len() > 0 {
        let m = marked(ls.drop_last());
        law_hits_in_line_order(ls.drop_last());
        if crate::todo::marker_inner(ls.last()) is Some {
            let r = m.push(ls.len() - 1);
            assert(marked(ls) == r);
            assert forall|a: int, b: int| 0 <= a < b < r.len() implies #[trigger] r[a] < #[trigger] r[b] by {
                if b < m.len() {
                    assert(r[a] == m[a] && r[b] == m[b]);
                } else {
                    assert(r[a] == m[a]);
                }
            }
            assert forall|a: int| 0 <= a < r.len() implies 0 <= #[trigger] r[a] < ls.len() by {
                if a < m.len() {
                    assert(r[a] == m[a]);
                }
            }
        }
    }
}

/// The epic tree prints one row per descendant of the root.
pub proof fn law_tree_rows_count(prefix: Seq<char>, kids: Seq<TreeNode>, i: int)
    ensures
        forest_rows(prefix, kids, i).len() == descendants(kids, i),
    decreases kids, kids.len() - i,
{
    if 0 <= i < kids.len() {
        assert(decreases_to!(kids => kids[i]));
        let last = i == kids.len() - 1;
        law_tree_rows_count(prefix + crate::tree::continuation(last), kids[i].children@, 0);
        law_tree_rows_count(prefix, kids, i + 1);
    }
}

/// A padded column is exactly as wide as asked, or as wide as its text when
/// that is wider, and begins with the text.
pub proof fn law_pad_right_width(s: Seq<char>, width: nat)
    ensures
        pad_right(s, width).len() == if s.len() < width {
            width as int
        } else {
            s.len() as int
        },
        pad_right(s, width).take(s.len() as int) == s,
{
    assert(pad_right(s, width).take(s.len() as int) =~= s);
}

/// An explicit `provenance:` value always names where an item came from,
/// whatever its `via:` labels say.
pub proof fn law_explicit_provenance_wins(item: IntakeItem)
    requires
        item.provenance is Some,
    ensures
        provenance_of(item) == opt_view(item.provenance),
{
}

/// An empty command path selects the root itself.
pub proof fn law_empty_path_selects_root(root: CommandSpec)
    ensures
        select(root, seq![]) == root,
{
}

/// Global flags are listed again only below the root: the root's own help
/// lists its flags once.
pub proof fn law_root_flags_listed_once(root: CommandSpec)
    ensures
        listed_flags(root, root) == shown(root.args@, ArgGroup::Flags),
{
    assert(listed_flags(root, root) =~= shown(root.args@, ArgGroup::Flags));
}

/// The reception queue lists each item at most once.
pub proof fn law_queue_lists_once(items: Seq<crate::intake::QueueItem>, r: Seq<usize>)
    requires
        crate::intake::queue_ordered(items, r),
    ensures
        forall|a: int, b: int| 0 <= a < b < r.len() ==> r[a] != r[b],
{
    assert forall|a: int, b: int| 0 <= a < b < r.len() implies r[a] != r[b] by {
        let x = crate::intake::queue_key(items[r[a] as int]);
        let y = crate::intake::queue_key(items[r[b] as int]);
        assert(crate::intake::key_lt(x, y) || (x == y && r[a] < r[b]));
        if r[a] == r[b] {
            lemma_seq_lt_irreflexive(x.1);
            lemma_seq_lt_irreflexive(x.2);
            assert(!crate::intake::key_lt(x, x));
        }
    }
}

/// Only the first `TODO(issue:` on a line counts: the marker is read at the
/// first place the text occurs.
pub proof fn law_first_marker_occurrence(s: Seq<char>, n: Seq<char>)
    ensures
        crate::todo::find_sub(s, n) >= 0 ==> crate::todo::occurs_at(s, n, crate::todo::find_sub(s, n))
            && forall|j: int| 0 <= j < crate::todo::find_sub(s, n) ==> !crate::todo::occurs_at(s, n, j),
        crate::todo::find_sub(s, n) < 0 ==> forall|j: int| !crate::todo::occurs_at(s, n, j),
    decreases s.len(),
{
    let k = crate::todo::find_sub(s, n);
    if n.len() > s.len() {
    } else if s.take(n.len() as int) == n {
        assert(s.subrange(0, n.len() as int) =~= s.take(n.len() as int));
    } else if s.len() == 0 {
        assert(n.len() == 0);
        assert(s.take(0) =~= n);
    } else {
        let t = s.drop_first();
        law_first_marker_occurrence(t, n);
        assert(!crate::todo::occurs_at(s, n, 0)) by {
            assert(s.subrange(0, n.len() as int) =~= s.take(n.len() as int));
        }
        assert forall|j: int| 1 <= j && j + n.len() <= s.len() implies (crate::todo::occurs_at(s, n, j)
            <==> crate::todo::occurs_at(t, n, j - 1)) by {
            assert(t.subrange(j - 1, j - 1 + n.len()) =~= s.subrange(j, j + n.len()));
        }
        if crate::todo::find_sub(t, n) >= 0 {
            assert forall|j: int| 0 <= j < k implies !crate::todo::occurs_at(s, n, j) by {
                if j > 0 {
                    assert(!crate::todo::occurs_at(t, n, j - 1));
                }
            }
        } else {
            assert forall|j: int| !crate::todo::occurs_at(s, n, j) by {
                if j > 0 && crate::todo::occurs_at(s, n, j) {
                    assert(crate::todo::occurs_at(t, n, j - 1));
                }
            }
        }
    }
}

proof fn lemma_last_unique(rs: Seq<crate::request::Route>, key: Seq<char>, m: int)
    requires
        0 <= m < rs.len(),
        rs[m].0 == key,
        forall|j: int| 0 <= j < rs.len() && j != m ==> (#[trigger] rs[j]).0 != key,
    ensures
        crate::request::last_for(rs, crate::bulk::bulk_slot_spec(key), key) == Some(rs[m].1),
    decreases rs.len(),
{
    let slot = crate::bulk::bulk_slot_spec(key);
    if m < rs.len() - 1 {
        let init = rs.drop_last();
        assert(rs.last() == rs[rs.len() - 1]);
        assert(rs.last().0 != key);
        assert forall|j: int| 0 <= j < init.len() && j != m implies (#[trigger] init[j]).0 != key by {
            assert(init[j] == rs[j]);
        }
        assert(init[m] == rs[m]);
        lemma_last_unique(init, key, m);
    } else {
        assert(rs.last() == rs[m]);
    }
}

/// A `bulk` spec that passes its checks patches every field it names
/// exactly as asked: each `--set key=value` sets `key` to `value`, each
/// `--clear key` clears `key`.
pub proof fn law_checked_spec_applies_each_patch(spec: crate::bulk::BulkSpec)
    requires
        crate::bulk::bulk_spec_result(spec) is Ok,
    ensures
        forall|i: int| 0 <= i < spec.set@.len() ==> crate::request::last_for(
            crate::request::routes(spec),
            crate::bulk::bulk_slot_spec((#[trigger] spec.set@[i]).0@),
            spec.set@[i].0@,
        ) == Some(Some(spec.set@[i].1@)),
        forall|i: int| 0 <= i < spec.clear@.len() ==> crate::request::last_for(
            crate::request::routes(spec),
            crate::bulk::bulk_slot_spec((#[trigger] spec.clear@[i])@),
            spec.clear@[i]@,
        ) == Some(None::<Seq<char>>),
{
    let rs = crate::request::routes(spec);
    let a = crate::bulk::pair_keys(spec.set@);
    let b = crate::keys::views(spec.clear@);
    let ns = spec.set@.len() as int;
    assert(!crate::keys::has_repeat(a));
    assert(!crate::keys::has_repeat(b));
    assert(!crate::keys::overlaps(a, b));
    assert forall|x: int, y: int| 0 <= x < y < rs.len() implies (#[trigger] rs[x]).0 != (#[trigger] rs[y]).0 by {
        if y < ns {
            assert(rs[x].0 == a[x] && rs[y].0 == a[y]);
            if a[x] == a[y] {
                assert(crate::keys::repeats_at(a, y));
            }
        } else if x >= ns {
            assert(rs[x].0 == b[x - ns] && rs[y].0 == b[y - ns]);
            if b[x - ns] == b[y - ns] {
                assert(crate::keys::repeats_at(b, y - ns));
            }
        } else {
            assert(rs[x].0 == a[x] && rs[y].0 == b[y - ns]);
            if a[x] == b[y - ns] {
                assert(a.contains(a[x]) && b.contains(b[y - ns]));
                assert(crate::keys::in_both(a, b, a[x]));
            }
        }
    }
    assert forall|i: int| 0 <= i < spec.set@.len() implies crate::request::last_for(
        rs,
        crate::bulk::bulk_slot_spec((#[trigger] spec.set@[i]).0@),
        spec.set@[i].0@,
    ) == Some(Some(spec.set@[i].1@)) by {
        assert(rs[i] == (spec.set@[i].0@, Some(spec.set@[i].1@)));
        assert forall|j: int| 0 <= j < rs.len() && j != i implies (#[trigger] rs[j]).0 != spec.set@[i].0@ by {
            if j < i {
                assert(rs[j].0 != rs[i].0);
            } else {
                assert(rs[i].0 != rs[j].0);
            }
        }
        lemma_last_unique(rs, spec.set@[i].0@, i);
    }
    assert forall|i: int| 0 <= i < spec.clear@.len() implies crate::request::last_for(
        rs,
        crate::bulk::bulk_slot_spec((#[trigger] spec.clear@[i])@),
        spec.clear@[i]@,
    ) == Some(None::<Seq<char>>) by {
        let m = ns + i;
        assert(rs[m] == (spec.clear@[i]@, None::<Seq<char>>));
        assert forall|j: int| 0 <= j < rs.len() && j != m implies (#[trigger] rs[j]).0 != spec.clear@[i]@ by {
            if j < m {
                assert(rs[j].0 != rs[m].0);
            } else {
                assert(rs[m].0 != rs[j].0);
            }
        }
        lemma_last_unique(rs, spec.clear@[i]@, m);
    }
}

/// A list of values in strictly ascending order is fixed by which values it
/// holds: two completion lists over the same values are the same list,
/// whatever order or repeats the values were gathered in.
pub proof fn law_sorted_values_determined_by_set(a: Seq<Seq<char>>, b: Seq<Seq<char>>)
    requires
        strictly_sorted(a),
        strictly_sorted(b),
        a.to_set() == b.to_set(),
    ensures
        a == b,
    decreases a.len(),
{
    if a.len() == 0 || b.len() == 0 {
        if b.len() > 0 {
            assert(b.to_set().contains(b[0]));
        }
        if a.len() > 0 {
            assert(a.to_set().contains(a[0]));
        }
        assert(a =~= b);
        return;
    }
    assert(b.to_set().contains(a[0]));
    let j = choose|j: int| 0 <= j < b.len() && b[j] == a[0];
    assert(a.to_set().contains(b[0]));
    let k = choose|k: int| 0 <= k < a.len() && a[k] == b[0];
    if j > 0 {
        assert(seq_lt(b[0], b[j]));
        if k > 0 {
            assert(seq_lt(a[0], a[k]));
            lemma_seq_lt_asymmetric(a[0], a[k]);
        } else {
            lemma_seq_lt_irreflexive(a[0]);
        }
    }
    assert(a[0] == b[0]);
    let ta = a.drop_first();
    let tb = b.drop_first();
    assert forall|x: Seq<char>| ta.to_set().contains(x) <==> tb.to_set().contains(x) by {
        if ta.contains(x) {
            let p = choose|p: int| 0 <= p < ta.len() && ta[p] == x;
            assert(seq_lt(a[0], a[p + 1]));
            if x == a[0] {
                lemma_seq_lt_irreflexive(a[0]);
            }
            assert(a.to_set().contains(x));
            let q = choose|q: int| 0 <= q < b.len() && b[q] == x;
            assert(q != 0);
            assert(tb[q - 1] == x);
        }
        if tb.contains(x) {
            let p = choose|p: int| 0 <= p < tb.len() && tb[p] == x;
            assert(seq_lt(b[0], b[p + 1]));
            if x == b[0] {
                lemma_seq_lt_irreflexive(b[0]);
            }
            assert(b.to_set().contains(x));
            let q = choose|q: int| 0 <= q < a.len() && a[q] == x;
            assert(q != 0);
            assert(ta[q - 1] == x);
        }
    }
    assert(ta.to_set() =~= tb.to_set());
    law_sorted_values_determined_by_set(ta, tb);
    assert(a =~= seq![a[0]] + ta);
    assert(b =~= seq![b[0]] + tb);
}

/// Every column of the issue table is as wide, in bytes, as its widest
/// entry: at least its header and the cell of every row, and equal to one
/// of them.
pub proof fn law_table_columns_fit(rows: Seq<IssueRow>, j: int)
    requires
        0 <= j < 6,
    ensures
        col_width(rows, j) >= byte_len(headers()[j]),
        forall|i: int| 0 <= i < rows.len() ==> col_width(rows, j) >= byte_len(cells(#[trigger] rows[i])[j]),
        col_width(rows, j) == byte_len(headers()[j]) || exists|i: int|
            0 <= i < rows.len() && col_width(rows, j) == byte_len(cells(#[trigger] rows[i])[j]),
    decreases rows.len(),
{
    if rows.len() > 0 {
        let d = rows.drop_last();
        let n = rows.len() - 1;
        law_table_columns_fit(d, j);
        assert forall|i: int| 0 <= i < rows.len() implies col_width(rows, j) >= byte_len(cells(#[trigger] rows[i])[j]) by {
            if i < n {
                assert(rows[i] == d[i]);
            }
        }
        if col_width(rows, j) != byte_len(headers()[j]) {
            if col_width(rows, j) != byte_len(cells(rows[n])[j]) {
                assert(col_width(rows, j) == col_width(d, j));
                let i = choose|i: int| 0 <= i < d.len() && col_width(d, j) == byte_len(cells(#[trigger] d[i])[j]);
                assert(rows[i] == d[i]);
            }
        }
    }
}

/// The key under which an open issue is tallied, for each field.
proof fn lemma_open_keys(issues: Seq<StatIssue>, f: StatField)
    ensures
        open_key_seq(issues, f).len() == folder_count(issues, "open"@),
        forall|x: Seq<char>| #[trigger] open_key_seq(issues, f).contains(x) <==> exists|i: int|
            0 <= i < issues.len() && issues[i].folder@ == "open"@ && stat_key(#[trigger] issues[i], f) == x,
    decreases issues.len(),
{
    if issues.len() > 0 {
        let d = issues.drop_last();
        let n = issues.len() - 1;
        lemma_open_keys(d, f);
        let ks = open_key_seq(issues, f);
        let kd = open_key_seq(d, f);
        assert forall|x: Seq<char>| #[trigger] ks.contains(x) <==> exists|i: int|
            0 <= i < issues.len() && issues[i].folder@ == "open"@ && stat_key(#[trigger] issues[i], f) == x by {
            if ks.contains(x) {
                let p = choose|p: int| 0 <= p < ks.len() && ks[p] == x;
                if p < kd.len() && (issues.last().folder@ != "open"@ || p < ks.len() - 1) {
                    assert(ks[p] == kd[p]);
                    assert(kd.contains(x));
                    let i = choose|i: int| 0 <= i < d.len() && d[i].folder@ == "open"@ && stat_key(#[trigger] d[i], f) == x;
                    assert(issues[i] == d[i]);
                } else {
                    assert(issues[n] == issues.last());
                }
            }
            if exists|i: int| 0 <= i < issues.len() && issues[i].folder@ == "open"@ && stat_key(#[trigger] issues[i], f) == x {
                let i = choose|i: int| 0 <= i < issues.len() && issues[i].folder@ == "open"@ && stat_key(#[trigger] issues[i], f) == x;
                if i < n {
                    assert(d[i] == issues[i]);
                    assert(kd.contains(x));
                    let p = choose|p: int| 0 <= p < kd.len() && kd[p] == x;
                    assert(ks[p] == x);
                } else {
                    assert(ks[ks.len() - 1] == x);
                }
            }
        }
    }
}

/// `stats` tallies the open issues and nothing else, each under its own
/// field: one key per open issue, and the keys of the status, type and
/// priority tallies are exactly the statuses, types and priorities of the
/// open issues; the assignee tally uses the assignee, `(none)` for an issue
/// without one.
pub proof fn law_stats_tally_open_fields(issues: Seq<StatIssue>)
    ensures
        open_key_seq(issues, StatField::Status).len() == folder_count(issues, "open"@),
        open_key_seq(issues, StatField::Type).len() == folder_count(issues, "open"@),
        open_key_seq(issues, StatField::Priority).len() == folder_count(issues, "open"@),
        open_key_seq(issues, StatField::Assignee).len() == folder_count(issues, "open"@),
        forall|x: Seq<char>| #[trigger] open_key_seq(issues, StatField::Status).contains(x) <==> exists|i: int|
            0 <= i < issues.len() && (#[trigger] issues[i]).folder@ == "open"@ && issues[i].status@ == x,
        forall|x: Seq<char>| #[trigger] open_key_seq(issues, StatField::Type).contains(x) <==> exists|i: int|
            0 <= i < issues.len() && (#[trigger] issues[i]).folder@ == "open"@ && issues[i].issue_type@ == x,
        forall|x: Seq<char>| #[trigger] open_key_seq(issues, StatField::Priority).contains(x) <==> exists|i: int|
            0 <= i < issues.len() && (#[trigger] issues[i]).folder@ == "open"@ && issues[i].priority@ == x,
        forall|x: Seq<char>| #[trigger] open_key_seq(issues, StatField::Assignee).contains(x) <==> exists|i: int|
            0 <= i < issues.len() && (#[trigger] issues[i]).folder@ == "open"@ && (if issues[i].assignee@.len() == 0 {
                x == "(none)"@
            } else {
                x == issues[i].assignee@
            }),
{
    lemma_open_keys(issues, StatField::Status);
    lemma_open_keys(issues, StatField::Type);
    lemma_open_keys(issues, StatField::Priority);
    lemma_open_keys(issues, StatField::Assignee);
}

/// A match found by `find_sub` is an occurrence, and any occurrence is
/// found.
proof fn lemma_find_sub_occurs(s: Seq<char>, n: Seq<char>)
    ensures
        find_sub(s, n) >= 0 ==> occurs_at(s, n, find_sub(s, n)),
        (exists|k: int| occurs_at(s, n, k)) ==> find_sub(s, n) >= 0,
    decreases s.len(),
{
    if n.len() > s.len() {
    } else if s.take(n.len() as int) == n {
        assert(s.subrange(0, n.len() as int) =~= s.take(n.len() as int));
    } else if s.len() == 0 {
        if exists|k: int| occurs_at(s, n, k) {
            let k = choose|k: int| occurs_at(s, n, k);
            assert(s.subrange(0, n.len() as int) =~= s.take(n.len() as int));
        }
    } else {
        let t = s.drop_first();
        lemma_find_sub_occurs(t, n);
        let r = find_sub(t, n);
        if r >= 0 {
            assert(t.subrange(r, r + n.len()) =~= s.subrange(r + 1, r + 1 + n.len()));
        }
        if exists|k: int| occurs_at(s, n, k) {
            let k = choose|k: int| occurs_at(s, n, k);
            assert(k != 0) by {
                if k == 0 {
                    assert(s.subrange(0, n.len() as int) =~= s.take(n.len() as int));
                }
            }
            assert(t.subrange(k - 1, k - 1 + n.len()) =~= s.subrange(k, k + n.len()));
            assert(occurs_at(t, n, k - 1));
        }
    }
}

/// The picker matches a query exactly where the lower-cased query occurs in
/// the lower-cased slug, title or one of the labels.
pub proof fn law_pick_matches_where_query_occurs(it: PickItem, q: Seq<char>)
    ensures
        matches_query(it, q) <==> ((exists|k: int| occurs_at(lowercase(it.slug@), lowercase(q), k)) || (exists|k: int|
            occurs_at(lowercase(it.title@), lowercase(q), k)) || (exists|j: int, k: int|
            it.labels is Some && 0 <= j < it.labels->0@.len() && #[trigger] occurs_at(
                lowercase(it.labels->0@[j]@),
                lowercase(q),
                k,
            ))),
{
    let n = lowercase(q);
    lemma_find_sub_occurs(lowercase(it.slug@), n);
    lemma_find_sub_occurs(lowercase(it.title@), n);
    let labels_hit = exists|j: int, k: int|
        it.labels is Some && 0 <= j < it.labels->0@.len() && #[trigger] occurs_at(lowercase(it.labels->0@[j]@), n, k);
    let labels_match = exists|j: int|
        0 <= j < crate::pick::item_labels(it).len() && crate::pick::contains_text(
            lowercase(#[trigger] crate::pick::item_labels(it)[j]),
            n,
        );
    if labels_hit {
        let (j, k) = choose|j: int, k: int|
            it.labels is Some && 0 <= j < it.labels->0@.len() && #[trigger] occurs_at(lowercase(it.labels->0@[j]@), n, k);
        lemma_find_sub_occurs(lowercase(it.labels->0@[j]@), n);
        assert(crate::pick::item_labels(it)[j] == it.labels->0@[j]@);
        assert(labels_match);
    }
    if labels_match {
        let j = choose|j: int|
            0 <= j < crate::pick::item_labels(it).len() && crate::pick::contains_text(
                lowercase(#[trigger] crate::pick::item_labels(it)[j]),
                n,
            );
        assert(it.labels is Some);
        assert(crate::pick::item_labels(it)[j] == it.labels->0@[j]@);
        lemma_find_sub_occurs(lowercase(it.labels->0@[j]@), n);
        let k = find_sub(lowercase(it.labels->0@[j]@), n);
        assert(occurs_at(lowercase(it.labels->0@[j]@), n, k));
        assert(labels_hit);
    }
}

/// A DAG row that collides with other issues ends by naming them:
/// ` collision:` and the colliding slugs joined by commas.
pub proof fn law_dag_row_names_collisions(r: DagRow)
    requires
        r.collision@.len() > 0,
    ensures
        exists|p: Seq<char>| dag_row_text(r) == p + " collision:"@ + join(views(r.collision@), seq![',']),
{
    let tail = " collision:"@ + join(views(r.collision@), seq![',']);
    let p = "  "@ + crate::report::dag_mark_text(r.spawnable, r.is_head_of_line) + seq![' '] + pad_right(r.slug@, 28)
        + seq![' '] + pad_right(r.status@, 12) + seq![' '] + r.title@ + crate::report::list_note(
        " blocked-by:"@,
        views(r.blockers_open@),
    ) + crate::report::list_note(" missing-dep:"@, views(r.blockers_missing@)) + if r.reserved {
        " [reserved]"@
    } else {
        seq![]
    };
    assert(views(r.collision@).len() == r.collision@.len());
    assert(crate::report::list_note(" collision:"@, views(r.collision@)) == tail);
    assert(dag_row_text(r) =~= p + " collision:"@ + join(views(r.collision@), seq![',']));
}

/// What a planned commit's row says of it: already present whatever the
/// run, else "would add" on a dry run; the row of a commit added for real
/// ends with its kind.
pub proof fn law_planned_row_outcome(p: PlannedCommit, dry_run: bool)
    ensures
        p.already_present ==> exists|pre: Seq<char>| planned_row(p, dry_run) == pre + " (already present)"@,
        !p.already_present && dry_run ==> exists|pre: Seq<char>| planned_row(p, dry_run) == pre + " (would add)"@,
        !p.already_present && !dry_run ==> exists|pre: Seq<char>| planned_row(p, dry_run) == pre + "]"@,
{
    let t = planned_row(p, dry_run);
    if p.already_present {
        let tail = " (already present)"@;
        assert(t =~= t.subrange(0, t.len() - tail.len()) + tail);
    } else if dry_run {
        let tail = " (would add)"@;
        assert(t =~= t.subrange(0, t.len() - tail.len()) + tail);
    } else {
        let tail = "]"@;
        assert(t =~= t.subrange(0, t.len() - tail.len()) + tail);
    }
}

/// A DAG row names the open issues it waits for, the dependencies that name
/// no issue, and a reservation, each where there is one.
pub proof fn law_dag_row_names_blockers(r: DagRow)
    ensures
        r.blockers_open@.len() > 0 ==> exists|p: Seq<char>, q: Seq<char>|
            dag_row_text(r) == p + " blocked-by:"@ + join(views(r.blockers_open@), seq![',']) + q,
        r.blockers_missing@.len() > 0 ==> exists|p: Seq<char>, q: Seq<char>|
            dag_row_text(r) == p + " missing-dep:"@ + join(views(r.blockers_missing@), seq![',']) + q,
        r.reserved ==> exists|p: Seq<char>, q: Seq<char>| dag_row_text(r) == p + " [reserved]"@ + q,
{
    let head = "  "@ + crate::report::dag_mark_text(r.spawnable, r.is_head_of_line) + seq![' '] + pad_right(r.slug@, 28)
        + seq![' '] + pad_right(r.status@, 12) + seq![' '] + r.title@;
    let a = crate::report::list_note(" blocked-by:"@, views(r.blockers_open@));
    let b = crate::report::list_note(" missing-dep:"@, views(r.blockers_missing@));
    let c: Seq<char> = if r.reserved {
        " [reserved]"@
    } else {
        seq![]
    };
    let d = crate::report::list_note(" collision:"@, views(r.collision@));
    assert(dag_row_text(r) =~= head + a + b + c + d);
    assert(views(r.blockers_open@).len() == r.blockers_open@.len());
    assert(views(r.blockers_missing@).len() == r.blockers_missing@.len());
    if r.blockers_open@.len() > 0 {
        assert(dag_row_text(r) =~= head + " blocked-by:"@ + join(views(r.blockers_open@), seq![',']) + (b + c + d));
    }
    if r.blockers_missing@.len() > 0 {
        assert(dag_row_text(r) =~= (head + a) + " missing-dep:"@ + join(views(r.blockers_missing@), seq![',']) + (c + d));
    }
    if r.reserved {
        assert(dag_row_text(r) =~= (head + a + b) + " [reserved]"@ + d);
    }
}

/// A planned commit's row names its issue first, then the commit's hash
/// and summary, then how the commit was attributed, in brackets.
pub proof fn law_planned_row_names_commit(p: PlannedCommit, dry_run: bool)
    ensures
        exists|q: Seq<char>| planned_row(p, dry_run) == "  @"@ + pad_right(p.slug@, 32) + " "@ + p.hash@ + " "@ + p.summary@ + q,
        p.kind is Refs ==> exists|pre: Seq<char>, q: Seq<char>| planned_row(p, dry_run) == pre + " ["@ + "refs"@ + "]"@ + q,
        p.kind is Fixes ==> exists|pre: Seq<char>, q: Seq<char>| planned_row(p, dry_run) == pre + " ["@ + "fixes"@ + "]"@ + q,
        p.kind is Branch ==> exists|pre: Seq<char>, q: Seq<char>| planned_row(p, dry_run) == pre + " ["@ + "branch"@ + "]"@ + q,
{
    let tag = crate::sync::kind_tag(p.kind);
    let suffix = crate::sync::planned_suffix(p, dry_run);
    assert(planned_row(p, dry_run) =~= "  @"@ + pad_right(p.slug@, 32) + " "@ + p.hash@ + " "@ + p.summary@ + (" ["@ + tag + "]"@ + suffix));
    assert(planned_row(p, dry_run) =~= ("  @"@ + pad_right(p.slug@, 32) + " "@ + p.hash@ + " "@ + p.summary@) + " ["@ + tag + "]"@ + suffix);
}

/// A non-empty issue table is the header, the rule, one line per issue in
/// order, a blank line and the count of issues.
pub proof fn law_table_has_a_line_per_issue(rows: Seq<IssueRow>)
    requires
        rows.len() > 0,
    ensures
        table_lines(rows).len() == rows.len() + 4,
        table_lines(rows)[0] == table_line(headers(), rows),
        forall|i: int| 0 <= i < rows.len() ==> table_lines(rows)[i + 2] == table_line(cells(#[trigger] rows[i]), rows),
        table_lines(rows)[rows.len() as int + 2].len() == 0,
        table_lines(rows)[rows.len() as int + 3] == decimal_digits(rows.len()) + " issue(s)"@,
{
}

/// Every checklist item is either counted as ticked or listed as an open
/// box: the ticked count and the open-box lines together cover the items,
/// and each open-box line shows the text of an unticked item, in order.
pub proof fn law_ready_counts_every_item(items: Seq<Checkbox>)
    ensures
        checked_count(items) + unchecked_lines(items).len() == items.len(),
        forall|k: int|
            #![trigger unchecked_lines(items)[k]]
            0 <= k < unchecked_lines(items).len() ==> exists|i: int|
                0 <= i < items.len() && !(#[trigger] items[i]).checked && unchecked_lines(items)[k] == "    [ ] "@
                    + items[i].text@,
        forall|i: int| 0 <= i < items.len() && !(#[trigger] items[i]).checked ==> unchecked_lines(items).contains(
            "    [ ] "@ + items[i].text@,
        ),
    decreases items.len(),
{
    if items.len() > 0 {
        let d = items.drop_last();
        let n = items.len() - 1;
        law_ready_counts_every_item(d);
        let u = unchecked_lines(items);
        let ud = unchecked_lines(d);
        assert forall|k: int| #![trigger u[k]] 0 <= k < u.len() implies exists|i: int|
            0 <= i < items.len() && !(#[trigger] items[i]).checked && u[k] == "    [ ] "@ + items[i].text@ by {
            if k < ud.len() {
                assert(u[k] == ud[k]);
                let i = choose|i: int| 0 <= i < d.len() && !(#[trigger] d[i]).checked && ud[k] == "    [ ] "@ + d[i].text@;
                assert(items[i] == d[i]);
            } else {
                assert(items[n] == items.last());
            }
        }
        assert forall|i: int| 0 <= i < items.len() && !(#[trigger] items[i]).checked implies u.contains(
            "    [ ] "@ + items[i].text@,
        ) by {
            if i < n {
                assert(items[i] == d[i]);
                assert(ud.contains("    [ ] "@ + d[i].text@));
                let k = choose|k: int| 0 <= k < ud.len() && ud[k] == "    [ ] "@ + d[i].text@;
                assert(u[k] == ud[k]);
            } else {
                assert(u[u.len() - 1] == "    [ ] "@ + items[i].text@);
            }
        }
    }
}

/// What `update` does to each typed field: a value flag sets the field
/// (winning over the matching clear flag), a clear flag alone clears it, and
/// a field named by no flag is kept.
pub proof fn law_update_flags_set_clear_keep(req: UpdateRequest, a: UpdateArgs)
    requires
        request_of(req, a),
    ensures
        a.status matches Some(v) ==> patch_view(req.status) == Some(Some(v@)),
        a.status is None ==> patch_view(req.status) is None,
        a.issue_type matches Some(v) ==> patch_view(req.issue_type) == Some(Some(v@)),
        a.issue_type is None ==> patch_view(req.issue_type) is None,
        a.priority matches Some(v) ==> patch_view(req.priority) == Some(Some(v@)),
        a.priority is None ==> patch_view(req.priority) is None,
        a.assignee matches Some(v) ==> patch_view(req.assignee) == Some(Some(v@)),
        a.assignee is None && a.no_assignee ==> patch_view(req.assignee) == Some(None::<Seq<char>>),
        a.assignee is None && !a.no_assignee ==> patch_view(req.assignee) is None,
        a.owner matches Some(v) ==> patch_view(req.owner) == Some(Some(v@)),
        a.owner is None && a.no_owner ==> patch_view(req.owner) == Some(None::<Seq<char>>),
        a.owner is None && !a.no_owner ==> patch_view(req.owner) is None,
        a.epic matches Some(v) ==> patch_view(req.epic) == Some(Some(v@)),
        a.epic is None && a.no_epic ==> patch_view(req.epic) == Some(None::<Seq<char>>),
        a.epic is None && !a.no_epic ==> patch_view(req.epic) is None,
        a.lane matches Some(v) ==> patch_view(req.lane) == Some(Some(v@)),
        a.lane is None && a.no_lane ==> patch_view(req.lane) == Some(None::<Seq<char>>),
        a.lane is None && !a.no_lane ==> patch_view(req.lane) is None,
        a.no_reporter ==> patch_view(req.reporter) == Some(None::<Seq<char>>),
        !a.no_reporter ==> patch_view(req.reporter) is None,
        a.lane_seq matches Some(n) ==> req.lane_seq == crate::update::NumberPatch::Replace(n),
        a.lane_seq is None && a.no_lane_seq ==> req.lane_seq is Clear,
        a.lane_seq is None && !a.no_lane_seq ==> req.lane_seq is Keep,
{
}

/// A rename touches at least one file when it changes anything, and never
/// more files than it made changes.
pub proof fn law_rename_file_count(cs: Seq<RenameChange>)
    ensures
        touched_files(cs) <= cs.len(),
        cs.len() > 0 ==> touched_files(cs) >= 1,
{
    let slugs = Seq::new(cs.len(), |i: int| cs[i].slug@);
    slugs.lemma_cardinality_of_set();
    slugs.lemma_cardinality_of_empty_set_is_0();
}

/// `fmt` prints nothing for a file already in form; when some file
/// changed, it prints only the changed files, and a rewrite run names each
/// changed file it rewrote.
pub proof fn law_format_reports_changed_files(es: Seq<FormatEntry>, mode: FormatMode)
    ensures
        !any_changed(es) ==> entries_text(es, mode).len() == 0,
        any_changed(es) ==> format_text(es, mode) == entries_text(es, mode),
        forall|i: int| 0 <= i < es.len() && (#[trigger] es[i]).changed && mode is Write ==> exists|p: Seq<char>, q: Seq<char>|
            format_text(es, mode) == p + "formatted: "@ + es[i].path@ + "\n"@ + q,
    decreases es.len(),
{
    if es.len() > 0 {
        let d = es.drop_last();
        let n = es.len() - 1;
        law_format_reports_changed_files(d, mode);
        if !any_changed(es) {
            assert(!es[n].changed);
            assert(!any_changed(d)) by {
                if any_changed(d) {
                    let k = choose|k: int| 0 <= k < d.len() && (#[trigger] d[k]).changed;
                    assert(es[k] == d[k]);
                }
            }
        }
        if any_changed(es) {
            assert(format_text(es, mode) =~= entries_text(es, mode));
        }
        assert forall|i: int| 0 <= i < es.len() && (#[trigger] es[i]).changed && mode is Write implies exists|
            p: Seq<char>,
            q: Seq<char>,
        | format_text(es, mode) == p + "formatted: "@ + es[i].path@ + "\n"@ + q by {
            assert(any_changed(es));
            let last = crate::formatting::entry_text(es[n], mode);
            assert(entries_text(es, mode) == entries_text(d, mode) + last);
            if i < n {
                assert(es[i] == d[i]);
                assert(any_changed(d));
                let (p, q) = choose|p: Seq<char>, q: Seq<char>|
                    format_text(d, mode) == p + "formatted: "@ + d[i].path@ + "\n"@ + q;
                assert(format_text(d, mode) == entries_text(d, mode));
                assert(format_text(es, mode) =~= p + "formatted: "@ + es[i].path@ + "\n"@ + (q + last));
            } else {
                assert(format_text(es, mode) =~= entries_text(d, mode) + "formatted: "@ + es[i].path@ + "\n"@ + seq![]);
            }
        }
    } else {
        assert(!any_changed(es));
    }
}

} // verus!
