//! Reading note and body text from a file or stdin: the size cap, the
//! UTF-8 check and the messages each failure gets. The reading itself is
//! done by the caller's `read` / `fetch` functions.
use vstd::prelude::*;
use crate::notes::{empty_body_file_message, finish_body_file};
use crate::number::{decimal_digits, decimal_string, decimal_string_u64};
use crate::text::{str_eq, trim_end_seq};
use vstd::utf8::{decode_utf8, valid_utf8};

verus! {

/// Upper bound, in bytes, on text read from stdin or a file: far above any
/// realistic note or body, small enough that an unbounded source fails
/// with a clear error instead of exhausting memory.
pub const MAX_INPUT_BYTES: u64 = 10485760;

/// `String::from_utf8`: the text the bytes encode, or, for bytes that are
/// not valid UTF-8, the length of their longest valid prefix.
///
/// Trusted: std's UTF-8 validation. The contract restates its documented
/// behaviour: success exactly on valid UTF-8 (the string is what the bytes
/// decode to), and on failure `Utf8Error::valid_up_to`, "the maximum index
/// such that `from_utf8(&input[..index])` would return `Ok(_)`".
#[verifier::external_body]
fn utf8_string(bytes: Vec<u8>) -> (r: Result<String, usize>)
    ensures
        r is Ok <==> valid_utf8(bytes@),
        r matches Ok(s) ==> s@ == decode_utf8(bytes@),
        r matches Err(off) ==> off <= bytes@.len() && valid_utf8(bytes@.take(off as int)) && forall|j: int|
            off < j <= bytes@.len() ==> !valid_utf8(#[trigger] bytes@.take(j)),
{
    String::from_utf8(bytes).map_err(|e| e.utf8_error().valid_up_to())
}

pub open spec fn read_failed_message(what: Seq<char>, source: Seq<char>, cause: Seq<char>) -> Seq<char> {
    "cannot read "@ + what + " from "@ + source + ": "@ + cause
}

pub open spec fn over_limit_message(what: Seq<char>, source: Seq<char>, limit: u64) -> Seq<char> {
    what + " from "@ + source + " exceeds the "@ + decimal_digits(limit as nat) + "-byte limit"@
}

pub open spec fn not_utf8_message(what: Seq<char>, source: Seq<char>, offset: nat) -> Seq<char> {
    what + " from "@ + source + " is not valid UTF-8 (first invalid byte at offset "@ + decimal_digits(offset)
        + ")"@
}

/// `off` is where the valid UTF-8 in `b` ends: its longest valid prefix.
pub open spec fn valid_prefix_len(b: Seq<u8>, off: int) -> bool {
    0 <= off <= b.len() && valid_utf8(b.take(off)) && forall|j: int| off < j <= b.len() ==> !valid_utf8(#[trigger] b.take(j))
}

/// `r` is what the capped read of `what` from `source` gives when reading
/// produced `got`.
pub open spec fn capped_outcome(got: Result<Vec<u8>, String>, limit: u64, what: Seq<char>, source: Seq<char>, r: Result<String, String>) -> bool {
    match got {
        Err(cause) => r matches Err(e) && e@ == read_failed_message(what, source, cause@),
        Ok(b) => if b@.len() > limit {
            r matches Err(e) && e@ == over_limit_message(what, source, limit)
        } else if valid_utf8(b@) {
            r matches Ok(s) && s@ == decode_utf8(b@)
        } else {
            r matches Err(e) && exists|off: nat| valid_prefix_len(b@, off as int) && e@ == not_utf8_message(what, source, off)
        },
    }
}

fn capped_text(got: Result<Vec<u8>, String>, limit: u64, what: &str, source: &str) -> (r: Result<String, String>)
    ensures
        capped_outcome(got, limit, what@, source@, r),
{
    match got {
        Err(cause) => {
            let mut m = String::from_str("cannot read ");
            m.append(what);
            m.append(" from ");
            m.append(source);
            m.append(": ");
            m.append(cause.as_str());
            Err(m)
        },
        Ok(b) => {
            let n = b.len();
            if n as u64 > limit {
                let mut m = String::from_str(what);
                m.append(" from ");
                m.append(source);
                m.append(" exceeds the ");
                m.append(decimal_string_u64(limit).as_str());
                m.append("-byte limit");
                return Err(m);
            }
            let ghost bytes = b@;
            match utf8_string(b) {
                Ok(s) => Ok(s),
                Err(off) => {
                    let mut m = String::from_str(what);
                    m.append(" from ");
                    m.append(source);
                    m.append(" is not valid UTF-8 (first invalid byte at offset ");
                    m.append(decimal_string(off).as_str());
                    m.append(")");
                    assert(valid_prefix_len(bytes, off as int));
                    Err(m)
                },
            }
        },
    }
}

/// Read `what` text through `read`, which is asked for at most `limit + 1`
/// bytes: an exactly-at-limit input passes, anything longer is refused, and
/// so is text that is not valid UTF-8 (with the offset of the first bad
/// byte). `source` names the input in messages.
pub fn read_capped<R: FnOnce(u64) -> Result<Vec<u8>, String>>(read: R, limit: u64, what: &str, source: &str) -> (r: Result<String, String>)
    requires
        limit < u64::MAX,
        read.requires(((limit + 1) as u64,)),
    ensures
        exists|got: Result<Vec<u8>, String>| #[trigger] read.ensures(((limit + 1) as u64,), got) && capped_outcome(got, limit, what@, source@, r),
{
    let got = read(limit + 1);
    capped_text(got, limit, what, source)
}

/// Where text given by path comes from: `-` means stdin.
pub enum InputSource {
    Stdin,
    File,
}

/// What fetching an input gave.
pub enum Fetched {
    /// The bytes read (the reader stops after the number asked for).
    Bytes(Vec<u8>),
    /// Stdin is an interactive terminal; nothing was read.
    Terminal,
    /// The input could not be opened or read, for this reason.
    Failed(String),
}

pub open spec fn terminal_message(what: Seq<char>) -> Seq<char> {
    "stdin is a terminal; pipe the "@ + what + " text in, or pass a real file path to --from-file"@
}

/// The source a path names.
pub open spec fn source_of(path: Seq<char>) -> InputSource {
    if path == "-"@ {
        InputSource::Stdin
    } else {
        InputSource::File
    }
}

/// How messages name the source a path names.
pub open spec fn source_name(path: Seq<char>) -> Seq<char> {
    if path == "-"@ {
        "stdin"@
    } else {
        path
    }
}

/// `r` is what reading `what` from `path` gives when fetching produced `f`.
pub open spec fn file_outcome(f: Fetched, path: Seq<char>, what: Seq<char>, r: Result<String, String>) -> bool {
    match f {
        Fetched::Terminal => r matches Err(e) && e@ == terminal_message(what),
        Fetched::Failed(c) => capped_outcome(Err(c), MAX_INPUT_BYTES, what, source_name(path), r),
        Fetched::Bytes(b) => capped_outcome(Ok(b), MAX_INPUT_BYTES, what, source_name(path), r),
    }
}

/// Read `what` text from the path given on the command line (`path` as
/// displayed; `-` meaning stdin), capped at `MAX_INPUT_BYTES`. `fetch`
/// opens and reads the source it is handed, reading no more than the
/// number of bytes it is asked for, and reports an interactive stdin
/// instead of blocking on it.
pub fn read_capped_file<F: FnOnce(InputSource, u64) -> Fetched>(path: &str, what: &str, fetch: F) -> (r: Result<String, String>)
    requires
        forall|s: InputSource, n: u64| #[trigger] fetch.requires((s, n)),
    ensures
        exists|f: Fetched| #[trigger] fetch.ensures((source_of(path@), (MAX_INPUT_BYTES + 1) as u64), f) && file_outcome(f, path@, what@, r),
{
    let stdin = str_eq(path, "-");
    let (src, name) = if stdin {
        (InputSource::Stdin, "stdin")
    } else {
        (InputSource::File, path)
    };
    let f = fetch(src, MAX_INPUT_BYTES + 1);
    match f {
        Fetched::Terminal => {
            let mut m = String::from_str("stdin is a terminal; pipe the ");
            m.append(what);
            m.append(" text in, or pass a real file path to --from-file");
            Err(m)
        },
        Fetched::Failed(c) => capped_text(Err(c), MAX_INPUT_BYTES, what, name),
        Fetched::Bytes(b) => capped_text(Ok(b), MAX_INPUT_BYTES, what, name),
    }
}

/// `r` is what `--body-file path` gives once the text `t` (or the failure)
/// came back from reading it.
pub open spec fn body_outcome(read: Result<String, String>, path: Seq<char>, r: Result<String, String>) -> bool {
    match read {
        Err(e) => r == Err::<String, String>(e),
        Ok(t) => if trim_end_seq(t@).len() == 0 {
            r matches Err(e) && e@ == empty_body_file_message(path)
        } else {
            r matches Ok(b) && b@ == trim_end_seq(t@)
        },
    }
}

/// The initial issue body for `create --body-file PATH`: read as
/// `read_capped_file` reads it (`-` is stdin), then only trailing
/// whitespace stripped; an empty body is refused.
pub fn read_body_file_arg<F: FnOnce(InputSource, u64) -> Fetched>(path: &str, fetch: F) -> (r: Result<String, String>)
    requires
        forall|s: InputSource, n: u64| #[trigger] fetch.requires((s, n)),
    ensures
        exists|f: Fetched, t: Result<String, String>|
            #![trigger fetch.ensures((source_of(path@), (MAX_INPUT_BYTES + 1) as u64), f), file_outcome(f, path@, "body"@, t)]
            fetch.ensures((source_of(path@), (MAX_INPUT_BYTES + 1) as u64), f) && file_outcome(f, path@, "body"@, t)
                && body_outcome(t, path@, r),
{
    let t = read_capped_file(path, "body", fetch);
    match t {
        Err(e) => Err(e),
        Ok(body) => finish_body_file(path, body.as_str()),
    }
}

} // verus!
