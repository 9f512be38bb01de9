//! Reading the subcommand path out of the usage line of a parser error.
use vstd::prelude::*;
use crate::text::{
    char_is_white_space, chars_of, index_of_char, is_white_space, lemma_index_of_char,
    lemma_index_of_char_props, lemma_trim_start_skip, string_from_range, trim_bounds, trim_seq,
    trim_start_seq,
};

verus! {

/// `s` begins with `p`.
pub open spec fn starts_with(s: Seq<char>, p: Seq<char>) -> bool {
    p.len() <= s.len() && s.take(p.len() as int) == p
}

/// The line holds the usage text: it starts with `Usage:` once leading
/// whitespace is skipped.
pub open spec fn is_usage_line(line: Seq<char>) -> bool {
    starts_with(trim_start_seq(line), "Usage:"@)
}

/// The first line of `s` (lines end at `\n`) that `is_usage_line`, or the
/// empty text when none does.
pub open spec fn first_usage_line(s: Seq<char>) -> Seq<char>
    decreases s.len(),
{
    let i = index_of_char(s, '\n');
    if i >= s.len() {
        if is_usage_line(s) {
            s
        } else {
            Seq::empty()
        }
    } else if is_usage_line(s.take(i)) {
        s.take(i)
    } else {
        proof {
            lemma_index_of_char_props(s, '\n');
        }
        first_usage_line(s.skip(i + 1))
    }
}

/// `s` with every leading copy of `Usage:` removed, as
/// `str::trim_start_matches("Usage:")`.
pub open spec fn strip_usage_prefix(s: Seq<char>) -> Seq<char>
    decreases s.len(),
{
    if starts_with(s, "Usage:"@) && "Usage:"@.len() > 0 {
        strip_usage_prefix(s.skip("Usage:"@.len() as int))
    } else {
        s
    }
}

/// Index of the first whitespace character of `s`, or `s.len()`.
pub open spec fn white_space_index(s: Seq<char>) -> int
    decreases s.len(),
{
    if s.len() == 0 {
        0
    } else if is_white_space(s[0]) {
        0
    } else {
        1 + white_space_index(s.drop_first())
    }
}

proof fn lemma_white_space_index(s: Seq<char>, i: int)
    requires
        0 <= i <= s.len(),
        forall|j: int| 0 <= j < i ==> !is_white_space(#[trigger] s[j]),
        i == s.len() || is_white_space(s[i]),
    ensures
        white_space_index(s) == i,
    decreases i,
{
    if i > 0 {
        let t = s.drop_first();
        assert forall|j: int| 0 <= j < i - 1 implies !is_white_space(#[trigger] t[j]) by {
            assert(t[j] == s[j + 1]);
        }
        if i < s.len() {
            assert(t[i - 1] == s[i]);
        }
        lemma_white_space_index(t, i - 1);
    }
}

pub proof fn lemma_white_space_index_bounds(s: Seq<char>)
    ensures
        0 <= white_space_index(s) <= s.len(),
        s.len() > 0 && !is_white_space(s[0]) ==> white_space_index(s) >= 1,
    decreases s.len(),
{
    if s.len() > 0 && !is_white_space(s[0]) {
        lemma_white_space_index_bounds(s.drop_first());
    }
}

pub proof fn lemma_trim_start_shorter(s: Seq<char>)
    ensures
        trim_start_seq(s).len() <= s.len(),
        trim_start_seq(s).len() > 0 ==> !is_white_space(trim_start_seq(s)[0]),
    decreases s.len(),
{
    if s.len() > 0 && is_white_space(s[0]) {
        lemma_trim_start_shorter(s.drop_first());
    }
}

/// The whitespace-separated words of `s`, as `str::split_whitespace`.
pub open spec fn words(s: Seq<char>) -> Seq<Seq<char>>
    decreases s.len(),
{
    let t = trim_start_seq(s);
    if t.len() == 0 {
        Seq::empty()
    } else {
        proof {
            lemma_trim_start_shorter(s);
            lemma_white_space_index_bounds(t);
        }
        seq![t.take(white_space_index(t))] + words(t.skip(white_space_index(t)))
    }
}

/// The leading words that are subcommand names: they stop at the first
/// placeholder (`[OPTIONS]`, `<COMMAND>`, ...).
pub open spec fn leading_names(ws: Seq<Seq<char>>) -> Seq<Seq<char>>
    decreases ws.len(),
{
    if ws.len() == 0 || ws[0].len() == 0 || ws[0][0] == '[' || ws[0][0] == '<' {
        Seq::empty()
    } else {
        seq![ws[0]] + leading_names(ws.drop_first())
    }
}

/// The subcommand path named by the usage line in `text`: the words after
/// `Usage:` and the program name, up to the first placeholder.
pub open spec fn usage_path(text: Seq<char>) -> Seq<Seq<char>> {
    let ws = words(trim_seq(strip_usage_prefix(trim_seq(first_usage_line(text)))));
    if ws.len() == 0 {
        Seq::empty()
    } else {
        leading_names(ws.drop_first())
    }
}

/// `words` of a text starting with `w` whitespace characters followed by
/// a word of `k` characters.
proof fn lemma_words_step(s: Seq<char>, w: int, k: int)
    requires
        0 <= w <= s.len(),
        forall|j: int| 0 <= j < w ==> is_white_space(#[trigger] s[j]),
        w == s.len() || !is_white_space(s[w]),
        w < s.len() ==> 0 < k && w + k <= s.len() && (forall|j: int|
            w <= j < w + k ==> !is_white_space(#[trigger] s[j])) && (w + k == s.len()
            || is_white_space(s[w + k])),
    ensures
        w == s.len() ==> words(s) == Seq::<Seq<char>>::empty(),
        w < s.len() ==> words(s) == seq![s.subrange(w, w + k)] + words(s.skip(w + k)),
{
    lemma_trim_start_skip(s, w);
    let t = s.skip(w);
    if w < s.len() {
        assert forall|j: int| 0 <= j < k implies !is_white_space(#[trigger] t[j]) by {
            assert(t[j] == s[w + j]);
        }
        if w + k < s.len() {
            assert(t[k] == s[w + k]);
        }
        lemma_white_space_index(t, k);
        assert(t.take(k) =~= s.subrange(w, w + k));
        assert(t.skip(k) =~= s.skip(w + k));
    }
}

/// `leading_names` keeps names up to the first placeholder.
proof fn lemma_leading_names_prefix(ws: Seq<Seq<char>>, n: int)
    requires
        0 <= n <= ws.len(),
        forall|j: int|
            0 <= j < n ==> (#[trigger] ws[j]).len() > 0 && ws[j][0] != '[' && ws[j][0] != '<',
        n == ws.len() || ws[n].len() == 0 || ws[n][0] == '[' || ws[n][0] == '<',
    ensures
        leading_names(ws) == ws.take(n),
    decreases n,
{
    if n == 0 {
        assert(ws.take(0) =~= Seq::<Seq<char>>::empty());
    } else {
        let t = ws.drop_first();
        assert(ws[0].len() > 0 && ws[0][0] != '[' && ws[0][0] != '<');
        assert forall|j: int|
            0 <= j < n - 1 implies (#[trigger] t[j]).len() > 0 && t[j][0] != '[' && t[j][0] != '<' by {
            assert(t[j] == ws[j + 1]);
        }
        if n < ws.len() {
            assert(t[n - 1] == ws[n]);
        }
        lemma_leading_names_prefix(t, n - 1);
        assert(seq![ws[0]] + t.take(n - 1) =~= ws.take(n));
    }
}

/// Whether `v[pos..]` begins with `p`.
pub fn starts_with_at(v: &Vec<char>, pos: usize, p: &Vec<char>) -> (r: bool)
    requires
        pos <= v.len(),
    ensures
        r == starts_with(v@.skip(pos as int), p@),
{
    if v.len() - pos < p.len() {
        return false;
    }
    let mut i: usize = 0;
    while i < p.len()
        invariant
            pos <= v.len(),
            p.len() <= v.len() - pos,
            i <= p.len(),
            forall|j: int| 0 <= j < i ==> v@[pos + j] == p@[j],
        decreases p.len() - i,
    {
        if v[pos + i] != p[i] {
            assert(v@.skip(pos as int).take(p.len() as int)[i as int] == v@[pos + i]);
            return false;
        }
        i += 1;
    }
    assert(v@.skip(pos as int).take(p.len() as int) =~= p@);
    true
}

/// Whether `v[a..b]` is a usage line.
fn line_is_usage(v: &Vec<char>, a: usize, b: usize, prefix: &Vec<char>) -> (r: bool)
    requires
        a <= b <= v.len(),
        prefix@ == "Usage:"@,
    ensures
        r == is_usage_line(v@.subrange(a as int, b as int)),
{
    let ghost line = v@.subrange(a as int, b as int);
    let mut w = a;
    while w < b && char_is_white_space(v[w])
        invariant
            a <= w <= b <= v.len(),
            line == v@.subrange(a as int, b as int),
            forall|j: int| 0 <= j < w - a ==> is_white_space(#[trigger] line[j]),
        decreases b - w,
    {
        assert(line[w - a] == v@[w as int]);
        w += 1;
    }
    if w < b {
        assert(line[w - a] == v@[w as int]);
    }
    proof {
        lemma_trim_start_skip(line, w - a);
    }
    let rest = string_from_range(v, w, b);
    let rv = chars_of(rest.as_str());
    assert(rv@ =~= line.skip(w - a));
    assert(rv@.skip(0) =~= rv@);
    starts_with_at(&rv, 0, prefix)
}

/// Bounds of the first usage line of `v` (an empty range when none).
fn find_usage_line(v: &Vec<char>) -> (r: (usize, usize))
    ensures
        r.0 <= r.1 <= v.len(),
        v@.subrange(r.0 as int, r.1 as int) == first_usage_line(v@),
{
    let prefix = chars_of("Usage:");
    let mut start: usize = 0;
    assert(v@.skip(0) =~= v@);
    while start <= v.len()
        invariant
            start <= v.len(),
            prefix@ == "Usage:"@,
            first_usage_line(v@) == first_usage_line(v@.skip(start as int)),
        decreases v.len() + 1 - start,
    {
        let ghost s = v@.skip(start as int);
        let mut i = start;
        while i < v.len() && v[i] != '\n'
            invariant
                start <= i <= v.len(),
                s == v@.skip(start as int),
                forall|j: int| 0 <= j < i - start ==> #[trigger] s[j] != '\n',
            decreases v.len() - i,
        {
            assert(s[i - start] == v@[i as int]);
            i += 1;
        }
        if i < v.len() {
            assert(s[i - start] == v@[i as int]);
        }
        proof {
            lemma_index_of_char(s, '\n', i - start);
            assert(s.take(i - start) =~= v@.subrange(start as int, i as int));
        }
        if line_is_usage(v, start, i, &prefix) {
            if i == v.len() {
                assert(s =~= v@.subrange(start as int, i as int));
            }
            return (start, i);
        }
        if i == v.len() {
            assert(s =~= v@.subrange(start as int, i as int));
            assert(first_usage_line(v@) == Seq::<char>::empty());
            return (0, 0);
        }
        assert(s.skip(i - start + 1) =~= v@.skip(i + 1));
        start = i + 1;
    }
    (0, 0)
}

/// Index in `v` just past every leading copy of `Usage:`.
fn skip_usage_prefixes(v: &Vec<char>) -> (k: usize)
    ensures
        k <= v.len(),
        v@.skip(k as int) == strip_usage_prefix(v@),
{
    let prefix = chars_of("Usage:");
    proof {
        reveal_strlit("Usage:");
    }
    let mut pos: usize = 0;
    assert(v@.skip(0) =~= v@);
    while pos < v.len() && starts_with_at(v, pos, &prefix)
        invariant
            pos <= v.len(),
            prefix@ == "Usage:"@,
            "Usage:"@.len() == 6,
            strip_usage_prefix(v@) == strip_usage_prefix(v@.skip(pos as int)),
        decreases v.len() - pos,
    {
        assert(v@.skip(pos as int).skip(6) =~= v@.skip(pos + 6));
        pos = pos + 6;
    }
    if pos == v.len() {
        assert(!starts_with(v@.skip(pos as int), "Usage:"@));
    }
    pos
}

/// What `collect_names` gives for the words of a text.
pub open spec fn names_after_program(ws: Seq<Seq<char>>) -> Seq<Seq<char>> {
    if ws.len() == 0 {
        Seq::empty()
    } else {
        leading_names(ws.drop_first())
    }
}

/// The words of `v` after the first, up to the first placeholder.
fn collect_names(v: &Vec<char>) -> (r: Vec<String>)
    ensures
        crate::keys::views(r@) == names_after_program(words(v@)),
{
    let ghost all = words(v@);
    let mut out: Vec<String> = Vec::new();
    let mut pos: usize = 0;
    let ghost mut count: int = 0;
    let mut seen_program = false;
    assert(v@.skip(0) =~= v@);
    loop
        invariant
            seen_program <==> count >= 1,
            pos <= v.len(),
            all == words(v@),
            0 <= count <= all.len(),
            all.skip(count) == words(v@.skip(pos as int)),
            count >= 1 ==> crate::keys::views(out@) == all.subrange(1, count),
            count == 0 ==> out@.len() == 0,
            forall|j: int|
                1 <= j < count ==> (#[trigger] all[j]).len() > 0 && all[j][0] != '[' && all[j][0]
                    != '<',
        decreases v.len() - pos,
    {
        let ghost s = v@.skip(pos as int);
        let mut w = pos;
        while w < v.len() && char_is_white_space(v[w])
            invariant
                pos <= w <= v.len(),
                s == v@.skip(pos as int),
                forall|j: int| 0 <= j < w - pos ==> is_white_space(#[trigger] s[j]),
            decreases v.len() - w,
        {
            assert(s[w - pos] == v@[w as int]);
            w += 1;
        }
        if w < v.len() {
            assert(s[w - pos] == v@[w as int]);
        }
        if w == v.len() {
            proof {
                lemma_words_step(s, w - pos, 0);
                assert(all.skip(count).len() == 0);
                if count >= 1 {
                    let rest = all.drop_first();
                    assert forall|j: int|
                        0 <= j < count - 1 implies (#[trigger] rest[j]).len() > 0 && rest[j][0]
                            != '[' && rest[j][0] != '<' by {
                        assert(rest[j] == all[j + 1]);
                    }
                    lemma_leading_names_prefix(rest, count - 1);
                    assert(rest.take(count - 1) =~= all.subrange(1, count));
                } else {
                    assert(crate::keys::views(out@) =~= Seq::<Seq<char>>::empty());
                }
            }
            return out;
        }
        let mut e = w;
        while e < v.len() && !char_is_white_space(v[e])
            invariant
                pos <= w <= e <= v.len(),
                w < v.len(),
                s == v@.skip(pos as int),
                forall|j: int| w - pos <= j < e - pos ==> !is_white_space(#[trigger] s[j]),
            decreases v.len() - e,
        {
            assert(s[e - pos] == v@[e as int]);
            e += 1;
        }
        if e < v.len() {
            assert(s[e - pos] == v@[e as int]);
        }
        proof {
            lemma_words_step(s, w - pos, e - w);
            assert(s.skip(e - pos) =~= v@.skip(e as int));
            assert(s.subrange(w - pos, e - pos) =~= v@.subrange(w as int, e as int));
            assert(words(s).len() >= 1);
            assert(all.skip(count).len() >= 1);
            assert(count < all.len());
            assert(all[count] == all.skip(count)[0]);
            assert(all.skip(count + 1) =~= all.skip(count).drop_first());
        }
        let word = string_from_range(v, w, e);
        if seen_program {
            let first = v[w];
            if first == '[' || first == '<' {
                proof {
                    let rest = all.drop_first();
                    assert forall|j: int|
                        0 <= j < count - 1 implies (#[trigger] rest[j]).len() > 0 && rest[j][0]
                            != '[' && rest[j][0] != '<' by {
                        assert(rest[j] == all[j + 1]);
                    }
                    assert(rest[count - 1] == all[count]);
                    assert(all[count][0] == v@[w as int]);
                    lemma_leading_names_prefix(rest, count - 1);
                    assert(rest.take(count - 1) =~= all.subrange(1, count));
                }
                return out;
            }
            assert(all[count][0] == v@[w as int]);
            out.push(word);
            proof {
                assert(crate::keys::views(out@) =~= all.subrange(1, count + 1));
            }
        } else {
            proof {
                assert(crate::keys::views(out@) =~= all.subrange(1, 1));
            }
        }
        proof {
            count = count + 1;
        }
        seen_program = true;
        pos = e;
    }
}

/// The subcommand path in the `Usage:` line of a parser error's text:
/// empty at the top level, `["body"]` inside the `body` group. Taken from
/// the usage line rather than argv, so option values (`--root=body`) and a
/// renamed binary do not disturb it.
pub fn usage_command_path(text: &str) -> (r: Vec<String>)
    ensures
        crate::keys::views(r@) == usage_path(text@),
{
    let v = chars_of(text);
    let (a, b) = find_usage_line(&v);
    let line = string_from_range(&v, a, b);
    let lv = chars_of(line.as_str());
    let (lo, hi) = trim_bounds(&lv);
    let trimmed = string_from_range(&lv, lo, hi);
    let tv = chars_of(trimmed.as_str());
    let k = skip_usage_prefixes(&tv);
    let after = string_from_range(&tv, k, tv.len());
    assert(tv@.subrange(k as int, tv.len() as int) =~= tv@.skip(k as int));
    let av = chars_of(after.as_str());
    let (lo2, hi2) = trim_bounds(&av);
    let body = string_from_range(&av, lo2, hi2);
    let bv = chars_of(body.as_str());
    collect_names(&bv)
}

} // verus!
