//! The file as its reader sees it: what a protected append does to the
//! lines that the tail shows.

use crate::append::{
    lemma_append_is_atomic, record_of, run, settled, AppendError, Disk, Phase, Turn,
};
use crate::tail::{
    all_text, decoded, is_one_line_text, last_of, lemma_append_shows_as_last_line, lines_of,
};
use vstd::prelude::*;

verus! {

/// Whether `content` is what this tool leaves in a file: lines of text,
/// the last one ended like the others.
pub open spec fn is_journal(content: Seq<u8>) -> bool {
    (content.len() == 0 || content.last() == 10u8) && all_text(lines_of(content))
}

/// Whether `text` makes one line as it stands: it holds no line feed and
/// does not end in a carriage return.
pub open spec fn is_entry(text: Seq<char>) -> bool {
    is_one_line_text(text) && (text.len() > 0 ==> text.last() != '\r')
}

/// What an append does to the lines of a file, whatever happens on the
/// way. Where it succeeds, the file reads as it did, with the entry as one
/// more line at its end. Where it ends in `AppendFailed`, the file is as it
/// was, byte for byte. In both cases no backup is left.
pub proof fn lemma_append_adds_the_entry(
    before: Disk,
    text: Seq<char>,
    turns: Seq<Turn>,
    outcome: Result<(), AppendError>,
    after: Disk,
)
    requires
        before.target.is_some(),
        is_journal(before.target.unwrap()),
        is_entry(text),
        run(Phase::Probing, before, record_of(text), turns) == Some(
            (Phase::Finished(outcome), after),
        ),
    ensures
        outcome.is_ok() ==> {
            &&& after.backup.is_none()
            &&& after.target.is_some()
            &&& is_journal(after.target.unwrap())
            &&& decoded(lines_of(after.target.unwrap())) == decoded(
                lines_of(before.target.unwrap()),
            ).push(text)
            &&& last_of(decoded(lines_of(after.target.unwrap())), 1) == seq![text]
        },
        outcome == Err::<(), AppendError>(AppendError::AppendFailed) ==> {
            &&& after.backup.is_none()
            &&& after.target == before.target
        },
{
    let content = before.target.unwrap();
    lemma_append_is_atomic(before, record_of(text), turns, outcome, after);
    lemma_append_shows_as_last_line(content, text);
}

} // verus!
