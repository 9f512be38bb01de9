//! Where `note` text and `--body-file` bodies come from, and how the text
//! read from them is normalised.
use vstd::prelude::*;
use crate::text::{trim, trim_end, trim_end_seq, trim_seq};

verus! {

/// The single source a note's text comes from.
pub enum NoteSource<P> {
    /// Given on the command line (positional or `--message`).
    Inline(String),
    /// `--from-file` / `--body-file PATH` (`-` meaning stdin).
    File(P),
    /// `--stdin`.
    Stdin,
}

pub open spec fn two_sources_message() -> Seq<char> {
    "internal error: clap `note_body` did not enforce a single note text source"@
}

pub open spec fn no_source_message() -> Seq<char> {
    "provide the note text as an argument, or use --message/--body/--comment, --body-file PATH (- for stdin), --stdin, or --from-file PATH"@
}

/// Pick the note's text source. The positional text and `--message` are
/// two spellings of one source (both present is an internal error: the
/// argument parser's group forbids it); without either, a file wins over
/// `--stdin`; with no source at all the caller is told how to give one.
pub fn note_text_source<P>(
    message: Option<String>,
    message_flag: Option<String>,
    stdin: bool,
    from_file: Option<P>,
) -> (r: Result<NoteSource<P>, String>)
    ensures
        message is Some && message_flag is Some ==> (r matches Err(e) && e@ == two_sources_message()),
        message is Some && message_flag is None ==> (r matches Ok(NoteSource::Inline(t)) && t
            == message->0),
        message is None && message_flag is Some ==> (r matches Ok(NoteSource::Inline(t)) && t
            == message_flag->0),
        message is None && message_flag is None && from_file is Some ==> (r matches Ok(
            NoteSource::File(p),
        ) && p == from_file->0),
        message is None && message_flag is None && from_file is None && stdin ==> (r matches Ok(
            NoteSource::Stdin,
        )),
        message is None && message_flag is None && from_file is None && !stdin ==> (r matches Err(e)
            && e@ == no_source_message()),
{
    match (message, message_flag) {
        (Some(_), Some(_)) => Err(
            String::from_str(
                "internal error: clap `note_body` did not enforce a single note text source",
            ),
        ),
        (Some(m), None) => Ok(NoteSource::Inline(m)),
        (None, Some(m)) => Ok(NoteSource::Inline(m)),
        (None, None) => {
            if let Some(p) = from_file {
                Ok(NoteSource::File(p))
            } else if stdin {
                Ok(NoteSource::Stdin)
            } else {
                Err(
                    String::from_str(
                        "provide the note text as an argument, or use --message/--body/--comment, --body-file PATH (- for stdin), --stdin, or --from-file PATH",
                    ),
                )
            }
        },
    }
}

pub open spec fn empty_note_message() -> Seq<char> {
    "note text is empty"@
}

/// A note's text with surrounding whitespace trimmed (a stray newline
/// from `echo … |` must not bloat the body); blank text is refused.
pub fn finish_note_text(text: &str) -> (r: Result<String, String>)
    ensures
        trim_seq(text@).len() == 0 ==> (r matches Err(e) && e@ == empty_note_message()),
        trim_seq(text@).len() != 0 ==> (r matches Ok(t) && t@ == trim_seq(text@)),
{
    let t = trim(text);
    if t.as_str().is_empty() {
        return Err(String::from_str("note text is empty"));
    }
    Ok(t)
}

pub open spec fn empty_body_file_message(path: Seq<char>) -> Seq<char> {
    "--body-file "@ + path + " is empty"@
}

/// An issue body read from `--body-file PATH`: only trailing whitespace is
/// stripped (a body may open with an indented code block), and an empty
/// body is refused as the inline `--description` is. `path` is the path as
/// displayed in messages.
pub fn finish_body_file(path: &str, body: &str) -> (r: Result<String, String>)
    ensures
        trim_end_seq(body@).len() == 0 ==> (r matches Err(e) && e@ == empty_body_file_message(path@)),
        trim_end_seq(body@).len() != 0 ==> (r matches Ok(t) && t@ == trim_end_seq(body@)),
{
    let t = trim_end(body);
    if t.as_str().is_empty() {
        let mut m = String::from_str("--body-file ");
        m.append(path);
        m.append(" is empty");
        return Err(m);
    }
    Ok(t)
}

/// `r` is what a note whose raw text is `text` comes to: the trimmed text,
/// or the empty-note error.
pub open spec fn finished_note(text: Seq<char>, r: Result<String, String>) -> bool {
    if trim_seq(text).len() == 0 {
        r matches Err(e) && e@ == empty_note_message()
    } else {
        r matches Ok(t) && t@ == trim_seq(text)
    }
}

/// `r` follows from what reading a note source gave back: a read error is
/// passed on unchanged, read text is finished as inline text is.
pub open spec fn finished_read(read: Result<String, String>, r: Result<String, String>) -> bool {
    match read {
        Err(e) => r == Err::<String, String>(e),
        Ok(text) => finished_note(text@, r),
    }
}

/// The note text for `note`: pick the source (`note_text_source`), read it
/// with `read` when it is a file or stdin, then trim it and refuse blank
/// text (`finish_note_text`). `read` performs the actual I/O and reports its
/// failure as a message.
pub fn read_message_arg<P, F: FnOnce(NoteSource<P>) -> Result<String, String>>(
    message: Option<String>,
    message_flag: Option<String>,
    stdin: bool,
    from_file: Option<P>,
    read: F,
) -> (r: Result<String, String>)
    requires
        forall|src: NoteSource<P>| #[trigger] read.requires((src,)),
    ensures
        message is Some && message_flag is Some ==> (r matches Err(e) && e@
            == two_sources_message()),
        message is Some && message_flag is None ==> finished_note(message->0@, r),
        message is None && message_flag is Some ==> finished_note(message_flag->0@, r),
        message is None && message_flag is None && from_file is Some ==> exists|got: Result<
            String,
            String,
        >| #[trigger] read.ensures((NoteSource::File(from_file->0),), got) && finished_read(got, r),
        message is None && message_flag is None && from_file is None && stdin ==> exists|got: Result<
            String,
            String,
        >| #[trigger] read.ensures((NoteSource::<P>::Stdin,), got) && finished_read(got, r),
        message is None && message_flag is None && from_file is None && !stdin ==> (r matches Err(e)
            && e@ == no_source_message()),
{
    let src = note_text_source(message, message_flag, stdin, from_file);
    match src {
        Err(e) => Err(e),
        Ok(NoteSource::Inline(t)) => finish_note_text(t.as_str()),
        Ok(other) => {
            let got = read(other);
            match got {
                Err(e) => Err(e),
                Ok(text) => finish_note_text(text.as_str()),
            }
        },
    }
}

} // verus!
