//! The text of `config show`: where the configuration file is, and each
//! resolved setting with where its value came from.
use vstd::prelude::*;
use crate::text::{chars_of, push_char};
use crate::tree::row_views;

verus! {

/// One resolved setting.
pub struct ResolvedSetting {
    pub key: String,
    /// Where the value came from (the file, or the built-in default).
    pub source: String,
    /// The value, already written as pretty JSON.
    pub value: String,
}

/// `s` with two spaces after each line break, so a multi-line value stays
/// indented under its key.
pub open spec fn indent_breaks(s: Seq<char>) -> Seq<char>
    decreases s.len(),
{
    if s.len() == 0 {
        seq![]
    } else if s.last() == '\n' {
        indent_breaks(s.drop_last()) + seq!['\n', ' ', ' ']
    } else {
        indent_breaks(s.drop_last()).push(s.last())
    }
}

/// A setting on one line, or, when its value spans lines, the value
/// indented on the lines after the key.
pub open spec fn setting_text(r: ResolvedSetting) -> Seq<char> {
    if r.value@.contains('\n') {
        r.key@ + " ["@ + r.source@ + "]:"@ + seq!['\n', ' ', ' '] + indent_breaks(r.value@)
    } else {
        r.key@ + " ["@ + r.source@ + "]: "@ + r.value@
    }
}

pub open spec fn config_text(path: Seq<char>, exists: bool, values: Seq<ResolvedSetting>) -> Seq<Seq<char>> {
    seq![
        path + if exists {
            seq![]
        } else {
            " (missing; built-in defaults apply)"@
        },
    ] + Seq::new(values.len(), |i: int| setting_text(values[i]))
}

fn setting_line(r: &ResolvedSetting) -> (s: String)
    ensures
        s@ == setting_text(*r),
{
    let v = chars_of(r.value.as_str());
    let mut has_break = false;
    let mut body = String::new();
    let mut i: usize = 0;
    while i < v.len()
        invariant
            i <= v.len(),
            v@ == r.value@,
            body@ == indent_breaks(v@.take(i as int)),
            has_break == v@.take(i as int).contains('\n'),
        decreases v.len() - i,
    {
        proof {
            assert(v@.take(i + 1).drop_last() =~= v@.take(i as int));
            assert(v@.take(i + 1).last() == v@[i as int]);
            if v@.take(i as int).contains('\n') {
                let k = choose|k: int| 0 <= k < i && #[trigger] v@.take(i as int)[k] == '\n';
                assert(v@.take(i + 1)[k] == '\n');
            }
            if v@.take(i + 1).contains('\n') && v@[i as int] != '\n' {
                let k = choose|k: int| 0 <= k < i + 1 && #[trigger] v@.take(i + 1)[k] == '\n';
                assert(v@.take(i as int)[k] == '\n');
            }
            if v@[i as int] == '\n' {
                assert(v@.take(i + 1)[i as int] == '\n');
            }
        }
        let c = v[i];
        if c == '\n' {
            has_break = true;
            push_char(&mut body, '\n');
            push_char(&mut body, ' ');
            push_char(&mut body, ' ');
        } else {
            push_char(&mut body, c);
        }
        i = i + 1;
        assert(body@ =~= indent_breaks(v@.take(i as int)));
    }
    assert(v@.take(i as int) =~= r.value@);
    let mut m = r.key.clone();
    m.append(" [");
    m.append(r.source.as_str());
    if has_break {
        m.append("]:");
        push_char(&mut m, '\n');
        push_char(&mut m, ' ');
        push_char(&mut m, ' ');
        m.append(body.as_str());
    } else {
        m.append("]: ");
        m.append(r.value.as_str());
    }
    assert(m@ =~= setting_text(*r));
    m
}

/// The lines of `config show` (a multi-line value makes one entry that
/// holds line breaks).
pub fn config_lines(path: &str, exists: bool, values: &Vec<ResolvedSetting>) -> (l: Vec<String>)
    ensures
        row_views(l@) == config_text(path@, exists, values@),
{
    let mut l: Vec<String> = Vec::new();
    let mut head = String::from_str(path);
    if !exists {
        head.append(" (missing; built-in defaults apply)");
    }
    l.push(head);
    let ghost top = row_views(l@);
    let mut i: usize = 0;
    while i < values.len()
        invariant
            i <= values.len(),
            row_views(l@) == top + Seq::new(i as nat, |k: int| setting_text(values@[k])),
        decreases values.len() - i,
    {
        let s = setting_line(&values[i]);
        let ghost before = row_views(l@);
        l.push(s);
        assert(row_views(l@) =~= before.push(s@));
        i = i + 1;
        assert(row_views(l@) =~= top + Seq::new(i as nat, |k: int| setting_text(values@[k])));
    }
    assert(row_views(l@) =~= config_text(path@, exists, values@));
    l
}

} // verus!
