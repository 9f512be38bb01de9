//! The `close --stamp` guard: refuse to record a commit that the stamp is
//! about to rewrite.
use vstd::prelude::*;
use crate::args::returned;
use crate::commits::before_colon;
use crate::text::{chars_of, find_char, string_from_range, trim_bounds, trim_seq};
use vstd::string::StringSliceAdditionalSpecFns;
use vstd::utf8::{encode_utf8, is_char_boundary};

verus! {

/// The hash part of a `HASH:summary` commit reference: the text before the
/// first `:`, trimmed.
pub open spec fn commit_hash(spec: Seq<char>) -> Seq<char> {
    trim_seq(before_colon(spec))
}

/// The revision `git rev-parse` is asked for to resolve `hash` to a commit.
pub open spec fn commit_rev(hash: Seq<char>) -> Seq<char> {
    hash + "^{commit}"@
}

/// `h` is the (non-empty) hash of one of `commits`, and `rev_parse`
/// resolved both `HEAD` and `h` to the same commit.
pub open spec fn orphans<R: Fn(&str) -> Option<String>>(commits: Seq<String>, rev_parse: R, h: Seq<char>) -> bool {
    exists|head: String, i: int, got: String|
        #![trigger returned(rev_parse, "HEAD"@, Some(head)), returned(rev_parse, commit_rev(h), Some(got)), commits[i]]
        0 <= i < commits.len() && h == commit_hash(commits[i]@) && h.len() > 0 && returned(
            rev_parse,
            "HEAD"@,
            Some(head),
        ) && returned(rev_parse, commit_rev(h), Some(got)) && got@ == head@
}

/// No reference before position `i` with a hash resolved, by `rev_parse`,
/// to the commit `head`.
pub open spec fn none_before<R: Fn(&str) -> Option<String>>(commits: Seq<String>, rev_parse: R, head: String, i: int) -> bool {
    forall|j: int|
        0 <= j < i && commit_hash(#[trigger] commits[j]@).len() > 0 ==> exists|got: Option<String>|
            #[trigger] returned(rev_parse, commit_rev(commit_hash(commits[j]@)), got) && !(got matches Some(g)
                && g@ == head@)
}

/// `h` is the hash of the first reference found to resolve to `HEAD`: it
/// is the hash of reference `i`, and no earlier reference resolved to the
/// commit `rev_parse` gave for `HEAD`.
pub open spec fn first_orphan<R: Fn(&str) -> Option<String>>(commits: Seq<String>, rev_parse: R, h: Seq<char>) -> bool {
    exists|head: String, i: int|
        #![trigger returned(rev_parse, "HEAD"@, Some(head)), commits[i]]
        0 <= i < commits.len() && h == commit_hash(commits[i]@) && returned(rev_parse, "HEAD"@, Some(head))
            && none_before(commits, rev_parse, head, i)
}

/// `rev_parse` could not resolve `HEAD`, or resolved it and then resolved
/// no non-empty hash of `commits` to the same commit.
pub open spec fn no_orphan<R: Fn(&str) -> Option<String>>(commits: Seq<String>, rev_parse: R) -> bool {
    returned(rev_parse, "HEAD"@, None::<String>) || exists|head: String|
        #[trigger] returned(rev_parse, "HEAD"@, Some(head)) && forall|i: int|
            0 <= i < commits.len() && commit_hash(#[trigger] commits[i]@).len() > 0 ==> exists|got: Option<String>|
                #[trigger] returned(rev_parse, commit_rev(commit_hash(commits[i]@)), got) && !(got matches Some(g)
                    && g@ == head@)
}

/// The hash part of one commit reference.
pub fn commit_hash_of(spec: &str) -> (h: String)
    ensures
        h@ == commit_hash(spec@),
{
    let v = chars_of(spec);
    let i = find_char(&v, ':');
    let head = string_from_range(&v, 0, i);
    assert(v@.subrange(0, i as int) =~= before_colon(spec@));
    let hv = chars_of(head.as_str());
    let (lo, hi) = trim_bounds(&hv);
    string_from_range(&hv, lo, hi)
}

/// The hash of the first commit reference that resolves to the current
/// `HEAD` (which `--stamp` rewrites, orphaning the recorded reference), or
/// `None`. `rev_parse` resolves a revision (`git rev-parse --verify`),
/// `None` when it cannot. With no references `rev_parse` is not called;
/// empty hashes are skipped.
pub fn stamp_would_orphan_commit<R: Fn(&str) -> Option<String>>(commits: &Vec<String>, rev_parse: R) -> (r: Option<String>)
    requires
        forall|x: &str| #[trigger] rev_parse.requires((x,)),
    ensures
        commits.len() == 0 ==> r is None,
        r matches Some(h) ==> orphans(commits@, rev_parse, h@) && first_orphan(commits@, rev_parse, h@),
        r is None && commits.len() > 0 ==> no_orphan(commits@, rev_parse),
{
    if commits.len() == 0 {
        return None;
    }
    let head = rev_parse("HEAD");
    assert(returned(rev_parse, "HEAD"@, head));
    let head = match head {
        None => return None,
        Some(h) => h,
    };
    let mut i: usize = 0;
    while i < commits.len()
        invariant
            i <= commits.len(),
            forall|x: &str| #[trigger] rev_parse.requires((x,)),
            returned(rev_parse, "HEAD"@, Some(head)),
            forall|j: int|
                0 <= j < i && commit_hash(#[trigger] commits@[j]@).len() > 0 ==> exists|
                    got: Option<String>,
                | #[trigger] returned(rev_parse, commit_rev(commit_hash(commits@[j]@)), got) && !(
                got matches Some(g) && g@ == head@),
        decreases commits.len() - i,
    {
        let hash = commit_hash_of(commits[i].as_str());
        if !hash.as_str().is_empty() {
            let mut rev = hash.clone();
            rev.append("^{commit}");
            let got = rev_parse(rev.as_str());
            assert(returned(rev_parse, commit_rev(hash@), got));
            match got {
                Some(g) => {
                    if g == head {
                        assert(returned(rev_parse, commit_rev(hash@), Some(g)));
                        let ghost c = commits@[i as int];
                        assert(hash@ == commit_hash(c@));
                        assert(orphans(commits@, rev_parse, hash@));
                        assert(none_before(commits@, rev_parse, head, i as int));
                        assert(first_orphan(commits@, rev_parse, hash@));
                        return Some(hash);
                    }
                },
                None => {},
            }
        }
        i += 1;
    }
    None
}

/// What `close --stamp` did about the `Fixes-Issue` trailer on HEAD.
pub enum StampOutcome {
    /// The trailer was added; HEAD moved from `old` to `sha`.
    Stamped { old: String, sha: String },
    /// HEAD already carried the trailer.
    AlreadyPresent { sha: String },
    /// Nothing was stamped, for `reason`.
    Skipped { reason: String },
}

/// How many bytes of a commit hash the short form keeps.
pub open spec fn short_len(sha: Seq<char>) -> int {
    if encode_utf8(sha).len() < 12 {
        encode_utf8(sha).len() as int
    } else {
        12
    }
}

/// The short form of a commit hash: its first 12 bytes (all of it when it
/// is shorter). The cut must fall on a character boundary, as it does for
/// a hexadecimal hash.
pub fn short_sha(sha: &str) -> (r: String)
    requires
        encode_utf8(sha@).len() <= usize::MAX,
        is_char_boundary(encode_utf8(sha@), short_len(sha@)),
    ensures
        encode_utf8(r@) == encode_utf8(sha@).subrange(0, short_len(sha@)),
{
    let n = if sha.len() < 12 {
        sha.len()
    } else {
        12
    };
    assert(sha.spec_bytes() == encode_utf8(sha@));
    let (head, _) = sha.split_at(n);
    let r = head.to_owned();
    assert(head.spec_bytes() == encode_utf8(head@));
    r
}

/// The one-line report of a stamp outcome, written to stderr so it stays
/// out of parsed stdout.
pub open spec fn stamp_report(outcome: StampOutcome, short: Seq<char>) -> Seq<char> {
    match outcome {
        StampOutcome::Stamped { .. } => "Stamped Fixes-Issue trailer into "@ + short
            + " (HEAD rewritten)."@,
        StampOutcome::AlreadyPresent { .. } => "Fixes-Issue trailer already present on HEAD; nothing to stamp."@,
        StampOutcome::Skipped { reason } => "Trailer not stamped: "@ + reason@,
    }
}

/// The human-readable one-liner for a stamp outcome; a stamped commit is
/// named by its short hash (`short_sha`).
pub fn stamp_report_human(outcome: &StampOutcome) -> (r: String)
    requires
        outcome matches StampOutcome::Stamped { sha, .. } ==> encode_utf8(sha@).len() <= usize::MAX
            && is_char_boundary(encode_utf8(sha@), short_len(sha@)),
    ensures
        outcome matches StampOutcome::Stamped { sha, .. } ==> exists|short: Seq<char>|
            encode_utf8(short) == encode_utf8(sha@).subrange(0, short_len(sha@)) && r@
                == stamp_report(*outcome, short),
        !(outcome is Stamped) ==> r@ == stamp_report(*outcome, seq![]),
{
    match outcome {
        StampOutcome::Stamped { sha, .. } => {
            let short = short_sha(sha.as_str());
            let mut m = String::from_str("Stamped Fixes-Issue trailer into ");
            m.append(short.as_str());
            m.append(" (HEAD rewritten).");
            assert(encode_utf8(short@) == encode_utf8(sha@).subrange(0, short_len(sha@)) && m@
                == stamp_report(*outcome, short@));
            m
        },
        StampOutcome::AlreadyPresent { .. } => String::from_str(
            "Fixes-Issue trailer already present on HEAD; nothing to stamp.",
        ),
        StampOutcome::Skipped { reason } => {
            let mut m = String::from_str("Trailer not stamped: ");
            m.append(reason.as_str());
            m
        },
    }
}

/// Why `close --stamp` refuses to record the commit `h`.
pub open spec fn stamp_refusal_message(h: Seq<char>) -> Seq<char> {
    "--commit "@ + h
        + " resolves to the current HEAD, which --stamp rewrites; drop --commit and record the stamped sha afterwards with `update --add-commit`"@
}

/// The refusal for an orphaned commit found by `stamp_would_orphan_commit`:
/// none when no recorded commit is `HEAD`.
pub fn stamp_refusal(orphan: Option<String>) -> (r: Result<(), String>)
    ensures
        orphan is None ==> r is Ok,
        orphan matches Some(h) ==> (r matches Err(e) && e@ == stamp_refusal_message(h@)),
{
    match orphan {
        None => Ok(()),
        Some(h) => {
            let mut m = String::from_str("--commit ");
            m.append(h.as_str());
            m.append(
                " resolves to the current HEAD, which --stamp rewrites; drop --commit and record the stamped sha afterwards with `update --add-commit`",
            );
            Err(m)
        },
    }
}

/// The guard `close` runs before any write: with `--stamp`, refuse when a
/// recorded commit resolves to the current `HEAD`, naming the first such
/// hash; without `--stamp`, nothing is resolved and the close goes ahead.
pub fn close_stamp_guard<R: Fn(&str) -> Option<String>>(stamp: bool, commits: &Vec<String>, rev_parse: R) -> (r: Result<(), String>)
    requires
        forall|x: &str| #[trigger] rev_parse.requires((x,)),
    ensures
        !stamp || commits.len() == 0 ==> r is Ok,
        r matches Err(e) ==> exists|h: Seq<char>|
            orphans(commits@, rev_parse, h) && first_orphan(commits@, rev_parse, h) && e@ == stamp_refusal_message(h),
        r is Ok && stamp && commits.len() > 0 ==> no_orphan(commits@, rev_parse),
{
    if !stamp {
        return Ok(());
    }
    let found = stamp_would_orphan_commit(commits, rev_parse);
    let ghost fv = found;
    let r = stamp_refusal(found);
    proof {
        if let Some(h) = fv {
            assert(orphans(commits@, rev_parse, h@) && first_orphan(commits@, rev_parse, h@));
        }
    }
    r
}

} // verus!
