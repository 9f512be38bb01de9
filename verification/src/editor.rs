//! Which editor `open` launches, and the shell line that launches it.
use vstd::prelude::*;
use crate::text::{trim, trim_seq};

verus! {

pub open spec fn usable(v: Option<String>) -> bool {
    match v {
        Some(s) => trim_seq(s@).len() > 0,
        None => false,
    }
}

pub open spec fn no_editor_message() -> Seq<char> {
    "no editor configured; pass --editor <cmd> or set $VISUAL / $EDITOR"@
}

fn is_usable(v: &Option<String>) -> (b: bool)
    ensures
        b == usable(*v),
{
    match v {
        Some(s) => trim(s.as_str()).as_str().unicode_len() > 0,
        None => false,
    }
}

/// The editor to launch: `--editor` as given, else `$VISUAL`, else
/// `$EDITOR`, each of the two variables only where it is not blank.
pub fn choose_editor(flag: Option<String>, visual: Option<String>, editor: Option<String>) -> (r: Result<String, String>)
    ensures
        flag matches Some(f) ==> (r matches Ok(e) && e@ == f@),
        flag is None && usable(visual) ==> (r matches Ok(e) && Some(e) == visual),
        flag is None && !usable(visual) && usable(editor) ==> (r matches Ok(e) && Some(e) == editor),
        flag is None && !usable(visual) && !usable(editor) ==> (r matches Err(m) && m@ == no_editor_message()),
{
    match flag {
        Some(f) => return Ok(f),
        None => {},
    }
    if is_usable(&visual) {
        match visual {
            Some(v) => return Ok(v),
            None => {},
        }
    }
    if is_usable(&editor) {
        match editor {
            Some(v) => return Ok(v),
            None => {},
        }
    }
    Err(String::from_str("no editor configured; pass --editor <cmd> or set $VISUAL / $EDITOR"))
}

/// The `sh -c` script that runs `editor` on the positional arguments, so
/// the editor string keeps its shell quoting and the path is never
/// re-parsed.
pub fn editor_script(editor: &str) -> (r: String)
    ensures
        r@ == editor@ + " \"$@\""@,
{
    let mut m = String::from_str(editor);
    m.append(" \"$@\"");
    m
}

} // verus!
