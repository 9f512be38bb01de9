//! `fmt`: which mode a run takes, what it prints for each file, and whether
//! a check run fails.
use vstd::prelude::*;
use crate::number::{decimal_digits, decimal_string};

verus! {

/// What `fmt` does with a file whose canonical form differs.
pub enum FormatMode {
    /// Rewrite the file.
    Write,
    /// Only report it, and fail.
    Check,
    /// Print the difference.
    Diff,
}

/// `--check` wins over `--diff`; with neither, files are rewritten.
pub fn format_mode(check: bool, diff: bool) -> (m: FormatMode)
    ensures
        m == (if check {
            FormatMode::Check
        } else if diff {
            FormatMode::Diff
        } else {
            FormatMode::Write
        }),
{
    if check {
        FormatMode::Check
    } else if diff {
        FormatMode::Diff
    } else {
        FormatMode::Write
    }
}

/// The outcome for one file.
pub struct FormatEntry {
    pub path: String,
    /// The file was not in canonical form.
    pub changed: bool,
    /// The difference, where one was asked for.
    pub diff: Option<String>,
}

pub open spec fn entry_text(e: FormatEntry, mode: FormatMode) -> Seq<char> {
    if !e.changed {
        seq![]
    } else {
        match mode {
            FormatMode::Write => "formatted: "@ + e.path@ + "\n"@,
            FormatMode::Check => "would format: "@ + e.path@ + "\n"@,
            FormatMode::Diff => match e.diff {
                Some(d) => d@,
                None => seq![],
            },
        }
    }
}

pub open spec fn entries_text(es: Seq<FormatEntry>, mode: FormatMode) -> Seq<char>
    decreases es.len(),
{
    if es.len() == 0 {
        seq![]
    } else {
        entries_text(es.drop_last(), mode) + entry_text(es.last(), mode)
    }
}

pub open spec fn any_changed(es: Seq<FormatEntry>) -> bool {
    exists|i: int| 0 <= i < es.len() && (#[trigger] es[i]).changed
}

/// What a run prints: each changed file as the mode has it, then, when no
/// file changed and no difference was asked for, how many files were
/// already in form.
pub open spec fn format_text(es: Seq<FormatEntry>, mode: FormatMode) -> Seq<char> {
    entries_text(es, mode) + if !any_changed(es) && mode != FormatMode::Diff {
        "All "@ + decimal_digits(es.len()) + " file(s) already formatted.\n"@
    } else {
        seq![]
    }
}

/// The report of a `fmt` run.
pub struct FormatReport {
    /// What goes to stdout.
    pub text: String,
    /// Some file was not in canonical form.
    pub any_changed: bool,
}

/// The text and verdict of a `fmt` run. A check run fails exactly when
/// `any_changed` holds.
pub fn format_report(es: &Vec<FormatEntry>, mode: &FormatMode) -> (r: FormatReport)
    ensures
        r.text@ == format_text(es@, *mode),
        r.any_changed == any_changed(es@),
{
    let mut text = String::new();
    let mut changed = false;
    let mut i: usize = 0;
    while i < es.len()
        invariant
            i <= es.len(),
            text@ == entries_text(es@.take(i as int), *mode),
            changed == any_changed(es@.take(i as int)),
        decreases es.len() - i,
    {
        proof {
            assert(es@.take(i + 1).drop_last() =~= es@.take(i as int));
            assert(es@.take(i + 1)[i as int] == es@[i as int]);
            if any_changed(es@.take(i as int)) {
                let k = choose|k: int| 0 <= k < i && (#[trigger] es@.take(i as int)[k]).changed;
                assert(es@.take(i + 1)[k] == es@.take(i as int)[k]);
            }
            if any_changed(es@.take(i + 1)) && !es@[i as int].changed {
                let k = choose|k: int| 0 <= k < i + 1 && (#[trigger] es@.take(i + 1)[k]).changed;
                assert(es@.take(i as int)[k] == es@.take(i + 1)[k]);
            }
        }
        let e = &es[i];
        if e.changed {
            changed = true;
            match mode {
                FormatMode::Write => {
                    text.append("formatted: ");
                    text.append(e.path.as_str());
                    text.append("\n");
                },
                FormatMode::Check => {
                    text.append("would format: ");
                    text.append(e.path.as_str());
                    text.append("\n");
                },
                FormatMode::Diff => {
                    match &e.diff {
                        Some(d) => text.append(d.as_str()),
                        None => {},
                    }
                },
            }
        }
        assert(text@ =~= entries_text(es@.take(i + 1), *mode));
        i = i + 1;
    }
    assert(es@.take(i as int) =~= es@);
    let is_diff = match mode {
        FormatMode::Diff => true,
        _ => false,
    };
    if !changed && !is_diff {
        text.append("All ");
        text.append(decimal_string(es.len()).as_str());
        text.append(" file(s) already formatted.\n");
        assert(text@ =~= format_text(es@, *mode));
    } else {
        assert(text@ =~= format_text(es@, *mode));
    }
    FormatReport { text, any_changed: changed }
}

} // verus!
