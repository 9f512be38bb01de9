//! Decisions the command line makes about its own invocation: routing tips
//! for mistyped subcommands, spotting `--json` before parsing, and the
//! error codes reported under `--json`.
use vstd::prelude::*;
use crate::keys::views;
use crate::text::{chars_eq, chars_of, trim_end, trim_end_seq};
use crate::usage::{usage_command_path, usage_path};

verus! {

/// The canonical subcommand a convenience alias stands for.
pub open spec fn alias_target(c: Seq<char>) -> Option<Seq<char>> {
    if c == "new"@ {
        Some("create"@)
    } else if c == "ls"@ {
        Some("list"@)
    } else if c == "dups"@ {
        Some("duplicates"@)
    } else {
        None
    }
}

/// The first candidate that is an alias, with its canonical subcommand.
pub open spec fn first_alias(cands: Seq<Seq<char>>) -> Option<(Seq<char>, Seq<char>)>
    decreases cands.len(),
{
    if cands.len() == 0 {
        None
    } else {
        match alias_target(cands[0]) {
            Some(t) => Some((cands[0], t)),
            None => first_alias(cands.drop_first()),
        }
    }
}

pub open spec fn body_group_hint(invalid: Seq<char>) -> Seq<char> {
    "`body` is a subcommand group — did you mean `issuectl body set "@ + invalid + "`?"@
}

pub open spec fn alias_hint(alias: Seq<char>, canonical: Seq<char>) -> Seq<char> {
    "`"@ + alias + "` is an alias for `"@ + canonical + "` — run `issuectl "@ + canonical + " …`."@
}

/// What `subcommand_error_hint` gives for an error of the given kind.
pub open spec fn hint_spec(
    is_invalid_subcommand: bool,
    invalid: Option<Seq<char>>,
    path: Seq<Seq<char>>,
    suggestions: Seq<Seq<char>>,
) -> Option<Seq<char>> {
    if !is_invalid_subcommand {
        None
    } else if path == seq!["body"@] && invalid is Some {
        Some(body_group_hint(invalid->0))
    } else if path.len() == 0 {
        let cands = match invalid {
            Some(i) => suggestions.push(i),
            None => suggestions,
        };
        match first_alias(cands) {
            Some((a, t)) => Some(alias_hint(a, t)),
            None => None,
        }
    } else {
        None
    }
}

fn alias_of(c: &String) -> (r: Option<&'static str>)
    ensures
        match alias_target(c@) {
            Some(t) => r matches Some(x) && x@ == t,
            None => r is None,
        },
{
    let v = chars_of(c.as_str());
    if chars_eq(&v, &chars_of("new")) {
        Some("create")
    } else if chars_eq(&v, &chars_of("ls")) {
        Some("list")
    } else if chars_eq(&v, &chars_of("dups")) {
        Some("duplicates")
    } else {
        None
    }
}

/// A routing tip for an "unrecognized subcommand" error, or `None`.
///
/// `usage_text` is the error's usage line (or its rendering), from which
/// the subcommand path is read; `invalid` is the unrecognized token and
/// `suggestions` the parser's near-miss suggestions. Inside the `body`
/// group a bare slug gets `body set <slug>`; at the top level the first
/// suggestion (or the token itself) that is a convenience alias gets the
/// canonical verb it stands for. Nothing else gets a tip.
#[verifier::loop_isolation(false)]
pub fn subcommand_error_hint(
    is_invalid_subcommand: bool,
    invalid: Option<String>,
    usage_text: &str,
    suggestions: Vec<String>,
) -> (r: Option<String>)
    ensures
        match hint_spec(
            is_invalid_subcommand,
            match invalid {
                Some(i) => Some(i@),
                None => None,
            },
            usage_path(usage_text@),
            views(suggestions@),
        ) {
            Some(h) => r matches Some(x) && x@ == h,
            None => r is None,
        },
{
    if !is_invalid_subcommand {
        return None;
    }
    let path = usage_command_path(usage_text);
    let ghost p = usage_path(usage_text@);
    let is_body = path.len() == 1 && chars_eq(&chars_of(path[0].as_str()), &chars_of("body"));
    proof {
        if is_body {
            assert(views(path@)[0] == path@[0]@);
            assert(p =~= seq!["body"@]);
        }
        if p == seq!["body"@] {
            assert(views(path@).len() == 1);
            assert(views(path@)[0] == path@[0]@);
            assert(seq!["body"@][0] == "body"@);
        }
    }
    if is_body {
        if let Some(inv) = &invalid {
            let mut m = String::from_str("`body` is a subcommand group — did you mean `issuectl body set ");
            m.append(inv.as_str());
            m.append("`?");
            return Some(m);
        }
    }
    if path.len() == 0 {
        let mut cands = suggestions;
        let ghost base = views(cands@);
        if let Some(inv) = invalid {
            cands.push(inv);
        }
        let ghost all = views(cands@);
        assert(all =~= match invalid {
            Some(i) => base.push(i@),
            None => base,
        });
        let mut i: usize = 0;
        assert(all.skip(0) =~= all);
        while i < cands.len()
            invariant
                i <= cands.len(),
                all == views(cands@),
                first_alias(all) == first_alias(all.skip(i as int)),
            decreases cands.len() - i,
        {
            let ghost rest = all.skip(i as int);
            assert(rest[0] == cands@[i as int]@);
            match alias_of(&cands[i]) {
                Some(canonical) => {
                    proof {
                        assert(alias_target(rest[0]) == Some(canonical@));
                        assert(first_alias(rest) == Some((rest[0], canonical@)));
                        assert(p.len() == 0);
                        assert(p != seq!["body"@]);
                    }
                    let mut m = String::from_str("`");
                    m.append(cands[i].as_str());
                    m.append("` is an alias for `");
                    m.append(canonical);
                    m.append("` — run `issuectl ");
                    m.append(canonical);
                    m.append(" …`.");
                    return Some(m);
                },
                None => {},
            }
            assert(rest.drop_first() =~= all.skip(i + 1));
            i += 1;
        }
        return None;
    }
    None
}

/// Whether `args` (an argument vector, program name first) holds `--json`
/// as an option: after the program name and before a `--` separator.
pub open spec fn json_flag_in(args: Seq<Seq<char>>) -> bool
    decreases args.len(),
{
    if args.len() == 0 {
        false
    } else if args[0] == "--"@ {
        false
    } else if args[0] == "--json"@ {
        true
    } else {
        json_flag_in(args.drop_first())
    }
}

/// Whether `--json` was given as an option rather than as a positional
/// value after `--`. Decided before full parsing so that parser errors can
/// honour the `--json` output contract too.
pub fn argv_has_json_flag(args: &Vec<String>) -> (r: bool)
    ensures
        r == (args.len() > 0 && json_flag_in(views(args@).drop_first())),
{
    if args.len() == 0 {
        return false;
    }
    let ghost all = views(args@).drop_first();
    let sep = chars_of("--");
    let flag = chars_of("--json");
    let mut i: usize = 1;
    assert(all.skip(0) =~= all);
    while i < args.len()
        invariant
            1 <= i <= args.len(),
            all == views(args@).drop_first(),
            sep@ == "--"@,
            flag@ == "--json"@,
            json_flag_in(all) == json_flag_in(all.skip(i - 1)),
        decreases args.len() - i,
    {
        let ghost rest = all.skip(i - 1);
        assert(rest[0] == args@[i as int]@);
        let a = chars_of(args[i].as_str());
        if chars_eq(&a, &sep) {
            return false;
        }
        if chars_eq(&a, &flag) {
            return true;
        }
        assert(rest.drop_first() =~= all.skip(i as int));
        i += 1;
    }
    false
}

/// What kind of failure reached the top of the command line.
#[derive(PartialEq, Eq, Structural, Debug, Clone, Copy)]
pub enum FailureKind {
    /// A mutation's target issue does not exist.
    NotFound,
    /// A status change broke an intake or transition rule.
    TransitionViolation,
    /// Anything else.
    Other,
}

/// The stable `--json` error code for a failure: `not-found`,
/// `transition-illegal`, or the generic `command-failed`.
pub fn bubbled_error_code(kind: FailureKind) -> (r: &'static str)
    ensures
        kind == FailureKind::NotFound ==> r@ == "not-found"@,
        kind == FailureKind::TransitionViolation ==> r@ == "transition-illegal"@,
        kind == FailureKind::Other ==> r@ == "command-failed"@,
{
    match kind {
        FailureKind::NotFound => "not-found",
        FailureKind::TransitionViolation => "transition-illegal",
        FailureKind::Other => "command-failed",
    }
}

/// The process exit code for a failure under `--json`: a transition
/// violation is refused-but-actionable (`2`); everything else is `1`.
pub fn bubbled_exit_code(kind: FailureKind) -> (r: i32)
    ensures
        r == if kind == FailureKind::TransitionViolation {
            2i32
        } else {
            1i32
        },
{
    match kind {
        FailureKind::TransitionViolation => 2,
        _ => 1,
    }
}

/// The kind of a command-line parse failure, as far as the reaction to it
/// depends on the kind.
#[derive(PartialEq, Eq, Structural, Debug, Clone, Copy)]
pub enum ParseFailure {
    /// `--help` was asked for.
    DisplayHelp,
    /// `--version` was asked for.
    DisplayVersion,
    /// Help shown because a required argument or subcommand is missing.
    DisplayHelpOnMissing,
    /// A genuine usage error.
    Other,
}

/// What the program does about a parse failure.
pub enum UsageAction {
    /// Print the machine-readable help document and succeed.
    JsonHelp,
    /// Emit this message in the JSON error object and exit with 1.
    JsonError(String),
    /// Print the parser's own error, then this routing tip, and exit with
    /// the parser's exit code.
    PrintWithTip(String),
    /// Let the parser report and exit as it does by default.
    Default,
}

pub open spec fn usage_action_spec(wants_json: bool, kind: ParseFailure, hint: Option<Seq<char>>, rendered: Seq<char>) -> (Seq<char>, int) {
    if wants_json && kind == ParseFailure::DisplayHelp {
        (seq![], 0)
    } else if wants_json && kind == ParseFailure::Other {
        (trim_end_seq(rendered) + match hint {
            Some(h) => "\n\ntip: "@ + h,
            None => seq![],
        }, 1)
    } else if hint is Some {
        (hint->0, 2)
    } else {
        (seq![], 3)
    }
}

/// `a` is the action whose description is `d`: its message or tip and
/// which of the four it is.
pub open spec fn describes_action(a: UsageAction, d: (Seq<char>, int)) -> bool {
    match a {
        UsageAction::JsonHelp => d.1 == 0,
        UsageAction::JsonError(m) => d.1 == 1 && m@ == d.0,
        UsageAction::PrintWithTip(t) => d.1 == 2 && t@ == d.0,
        UsageAction::Default => d.1 == 3,
    }
}

/// The reaction to a parse failure under the `--json` contract: with
/// `--json`, a help request prints the JSON help document and a usage
/// error becomes the JSON error object (the parser's rendered error,
/// trailing blanks removed, plus the routing tip), while the parser keeps
/// its own handling of version requests and of help for a missing
/// argument. Without `--json`, a routing tip is printed after the parser's
/// error; otherwise the parser reports as usual.
pub fn usage_error_action(wants_json: bool, kind: ParseFailure, hint: Option<String>, rendered: &str) -> (r: UsageAction)
    ensures
        describes_action(r, usage_action_spec(wants_json, kind, match hint {
            Some(h) => Some(h@),
            None => None,
        }, rendered@)),
{
    if wants_json && kind == ParseFailure::DisplayHelp {
        return UsageAction::JsonHelp;
    }
    if wants_json && kind == ParseFailure::Other {
        let mut m = trim_end(rendered);
        let ghost t = m@;
        match hint {
            Some(h) => {
                m.append("\n\ntip: ");
                m.append(h.as_str());
                assert(m@ =~= t + ("\n\ntip: "@ + h@));
            },
            None => {
                assert(m@ =~= t + Seq::<char>::empty());
            },
        }
        return UsageAction::JsonError(m);
    }
    match hint {
        Some(h) => UsageAction::PrintWithTip(h),
        None => UsageAction::Default,
    }
}

} // verus!
