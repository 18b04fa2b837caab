//! The interactive session: what to ask of the caller next, given how the
//! last request went.
//!
//! The caller owns the terminal and the files. It starts with
//! [`Session::open`], performs each [`Request`] and hands the [`Report`] on
//! it to [`Session::step`], until the request is [`Request::Exit`].

use crate::append::{has_written, is_written, AppendError};
use crate::text::same_text;
use vstd::prelude::*;
use vstd::string::*;

verus! {

/// The number of lines of the file that the session shows.
pub const TAIL_WINDOW: usize = 10;

/// What a line typed at the prompt asks for.
#[derive(Debug, PartialEq, Eq)]
pub enum Input {
    /// One of the words that end the session.
    Quit,
    /// A line to append to the file.
    Entry(String),
}

/// What the caller is asked to do.
#[derive(Debug, PartialEq, Eq)]
pub enum Request {
    /// Find out whether the note file exists.
    Probe,
    /// Make the header text for a new file.
    ComposeHeader,
    /// Append `text` to the file as one line, after clearing the screen
    /// where `clear_screen` says so.
    Append { text: String, clear_screen: bool },
    /// Show the last `count` lines of the file; `updated` tells a view that
    /// follows an append from the first one.
    ShowTail { count: usize, updated: bool },
    /// Show the prompt and read one line.
    Prompt,
    /// End the session; `clean` tells an end that the user asked for from
    /// one that a failure forced.
    Exit { clean: bool },
}

/// How a request went.
#[derive(Debug, PartialEq, Eq)]
pub enum Report {
    /// The note file exists.
    Present,
    /// The note file does not exist.
    Absent,
    /// The header text that was made.
    Header(String),
    /// The line that was read, as typed.
    Line(String),
    /// How the append ended.
    Appended(Result<(), AppendError>),
    /// The request was carried out.
    Done,
    /// The request failed.
    Failed,
}

/// Where the session stands: the request that is out.
#[derive(Clone, Copy, Debug, PartialEq, Eq)]
pub enum Session {
    /// Asked whether the note file exists.
    Opening,
    /// Asked for the header of a new file.
    Heading,
    /// Asked to write the header.
    WritingHeader,
    /// Asked to write the blank line that follows the header.
    WritingBlank,
    /// Asked to show the tail of the file.
    Showing,
    /// Asked to read a line.
    Prompting,
    /// Asked to append a line that was typed.
    Writing,
    /// Over.
    Ended { clean: bool },
}

/// What `str::trim` makes of a text: the text without the white space at
/// its two ends.
pub uninterp spec fn trimmed(text: Seq<char>) -> Seq<char>;

/// `str::trim`, which returns the slice of a string that is left when
/// leading and trailing white space is taken off. The slice is named
/// [`trimmed`]; nothing more is claimed of it.
pub assume_specification[ str::trim ](text: &str) -> (inner: &str)
    ensures
        inner@ == trimmed(text@),
;

/// The words that end the session: `q`, `quit` and `exit`, in lower case.
pub open spec fn is_exit_word(text: Seq<char>) -> bool {
    text == "q"@ || text == "quit"@ || text == "exit"@
}

/// What a trimmed line is sorted into: an exit word ends the session, and
/// any other line, the empty one too, is an entry that holds the line.
pub open spec fn sorts_to(line: Seq<char>, input: Input) -> bool {
    if is_exit_word(line) {
        input == Input::Quit
    } else {
        input matches Input::Entry(text) && text@ == line
    }
}

/// The request to show the tail of the file.
pub open spec fn is_view(request: Request, after_append: bool) -> bool {
    request == (Request::ShowTail { count: TAIL_WINDOW, updated: after_append })
}

/// The request to append `text`.
pub open spec fn is_append(request: Request, wanted: Seq<char>, clearing: bool) -> bool {
    request matches Request::Append { text, clear_screen } && text@ == wanted && clear_screen
        == clearing
}

/// Whether `report` is an answer to the request that is out in `stage`.
pub open spec fn answers(stage: Session, report: Report) -> bool {
    match stage {
        Session::Opening => report is Present || report is Absent,
        Session::Heading => report is Header || report is Failed,
        Session::WritingHeader | Session::WritingBlank | Session::Writing => report is Appended,
        Session::Showing => report is Done || report is Failed,
        Session::Prompting => report is Line || report is Failed,
        Session::Ended { .. } => true,
    }
}

/// The session's rule: whether `next` and `request` follow when `report`
/// answers the request that is out in `stage`.
///
/// A new file gets its header and a blank line before anything is shown,
/// and a failure on the way ends the session. Once the prompt is up, a
/// failed read, append or view costs only that one turn. An append whose
/// line is in the file counts as done, though its backup may be left. A
/// report that does not answer the request that is out ends the session as
/// failed.
pub open spec fn follows(stage: Session, report: Report, next: Session, request: Request) -> bool {
    let failed = next == (Session::Ended { clean: false }) && request == (Request::Exit {
        clean: false,
    });
    match stage {
        Session::Opening => match report {
            Report::Present => next == Session::Showing && is_view(request, false),
            Report::Absent => next == Session::Heading && request == Request::ComposeHeader,
            _ => failed,
        },
        Session::Heading => match report {
            Report::Header(header) => next == Session::WritingHeader && is_append(
                request,
                header@,
                false,
            ),
            _ => failed,
        },
        Session::WritingHeader => match report {
            Report::Appended(outcome) => if has_written(outcome) {
                next == Session::WritingBlank && is_append(request, Seq::empty(), false)
            } else {
                failed
            },
            _ => failed,
        },
        Session::WritingBlank => match report {
            Report::Appended(outcome) => if has_written(outcome) {
                next == Session::Showing && is_view(request, false)
            } else {
                failed
            },
            _ => failed,
        },
        Session::Showing => match report {
            Report::Done | Report::Failed => next == Session::Prompting && request
                == Request::Prompt,
            _ => failed,
        },
        Session::Prompting => match report {
            Report::Line(line) => if is_exit_word(trimmed(line@)) {
                next == (Session::Ended { clean: true }) && request == (Request::Exit {
                    clean: true,
                })
            } else {
                next == Session::Writing && is_append(request, trimmed(line@), true)
            },
            Report::Failed => next == Session::Prompting && request == Request::Prompt,
            _ => failed,
        },
        Session::Writing => match report {
            Report::Appended(outcome) => if has_written(outcome) {
                next == Session::Showing && is_view(request, true)
            } else {
                next == Session::Prompting && request == Request::Prompt
            },
            _ => failed,
        },
        Session::Ended { clean } => next == stage && request == (Request::Exit { clean }),
    }
}

/// Sorts a line, already trimmed, into a word that ends the session or an
/// entry for the file.
pub fn classify(line: &str) -> (input: Input)
    ensures
        sorts_to(line@, input),
{
    if same_text(line, "q") || same_text(line, "quit") || same_text(line, "exit") {
        Input::Quit
    } else {
        Input::Entry(line.to_owned())
    }
}

/// Sorts a line as it was typed: the white space at its ends is dropped,
/// and what is left is a word that ends the session or an entry.
pub fn read_input(line: &str) -> (input: Input)
    ensures
        sorts_to(trimmed(line@), input),
{
    classify(line.trim())
}

impl Session {
    /// Begins a session: the first request asks whether the note file
    /// exists.
    pub fn open() -> (begun: (Session, Request))
        ensures
            begun.0 == Session::Opening,
            begun.1 == Request::Probe,
    {
        (Session::Opening, Request::Probe)
    }

    /// Takes the report on the request that is out, and gives the stage
    /// that follows with the request to perform next.
    pub fn step(self, report: Report) -> (turn: (Session, Request))
        ensures
            follows(self, report, turn.0, turn.1),
    {
        let failed = (Session::Ended { clean: false }, Request::Exit { clean: false });
        match self {
            Session::Opening => match report {
                Report::Present => (Session::Showing, view_request(false)),
                Report::Absent => (Session::Heading, Request::ComposeHeader),
                _ => failed,
            },
            Session::Heading => match report {
                Report::Header(header) => (
                    Session::WritingHeader,
                    Request::Append { text: header, clear_screen: false },
                ),
                _ => failed,
            },
            Session::WritingHeader => match report {
                Report::Appended(outcome) => if is_written(outcome) {
                    (
                        Session::WritingBlank,
                        Request::Append { text: String::new(), clear_screen: false },
                    )
                } else {
                    failed
                },
                _ => failed,
            },
            Session::WritingBlank => match report {
                Report::Appended(outcome) => if is_written(outcome) {
                    (Session::Showing, view_request(false))
                } else {
                    failed
                },
                _ => failed,
            },
            Session::Showing => match report {
                Report::Done | Report::Failed => (Session::Prompting, Request::Prompt),
                _ => failed,
            },
            Session::Prompting => match report {
                Report::Line(line) => match read_input(line.as_str()) {
                    Input::Quit => (Session::Ended { clean: true }, Request::Exit { clean: true }),
                    Input::Entry(text) => (
                        Session::Writing,
                        Request::Append { text, clear_screen: true },
                    ),
                },
                Report::Failed => (Session::Prompting, Request::Prompt),
                _ => failed,
            },
            Session::Writing => match report {
                Report::Appended(outcome) => if is_written(outcome) {
                    (Session::Showing, view_request(true))
                } else {
                    (Session::Prompting, Request::Prompt)
                },
                _ => failed,
            },
            Session::Ended { clean } => (self, Request::Exit { clean }),
        }
    }
}

/// The request to show the tail of the file.
fn view_request(updated: bool) -> (request: Request)
    ensures
        is_view(request, updated),
{
    Request::ShowTail { count: TAIL_WINDOW, updated }
}

/// Once the file has been shown, only the user ends the session: whatever
/// fails from then on, the session goes on, and it ends, cleanly, on an
/// exit word alone.
pub proof fn lemma_session_outlives_failures(
    stage: Session,
    report: Report,
    next: Session,
    request: Request,
)
    requires
        stage == Session::Showing || stage == Session::Prompting || stage == Session::Writing,
        answers(stage, report),
        follows(stage, report, next, request),
    ensures
        next is Ended ==> {
            &&& next == (Session::Ended { clean: true })
            &&& stage == Session::Prompting
            &&& report matches Report::Line(line) && is_exit_word(trimmed(line@))
        },
{
}

/// A new file that cannot be given its header and blank line is not worked
/// on: a failure before the first view ends the session as failed.
pub proof fn lemma_failed_start_ends_session(
    stage: Session,
    report: Report,
    next: Session,
    request: Request,
)
    requires
        stage == Session::Heading || stage == Session::WritingHeader || stage
            == Session::WritingBlank,
        report is Failed || (report matches Report::Appended(outcome) && !has_written(outcome)),
        follows(stage, report, next, request),
    ensures
        next == (Session::Ended { clean: false }),
        request == (Request::Exit { clean: false }),
{
}

/// A report that is no answer to the request that is out ends the session
/// as failed.
pub proof fn lemma_stray_report_ends_session(
    stage: Session,
    report: Report,
    next: Session,
    request: Request,
)
    requires
        !answers(stage, report),
        follows(stage, report, next, request),
    ensures
        next == (Session::Ended { clean: false }),
        request == (Request::Exit { clean: false }),
{
}

} // verus!
