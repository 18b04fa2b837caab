//! What the command line asks for: a session on a note file, or the notes
//! directory in the file manager.

use crate::text::same_text;
use vstd::prelude::*;
use vstd::string::*;

verus! {

/// What the program was started for.
#[derive(Debug, PartialEq, Eq)]
pub enum Invocation {
    /// Open a directory in the file manager: the one given, or the notes
    /// directory.
    ShowFiles { directory: Option<String> },
    /// Work on a note file: the one that the token names, or the day's own.
    Edit { token: Option<String> },
}

/// The words that ask for the file manager.
pub open spec fn is_files_word(word: Seq<char>) -> bool {
    word == "files"@ || word == "--files"@
}

/// Whether `found` is the argument at `index`, or nothing where the
/// arguments end before it.
pub open spec fn is_argument(args: Seq<String>, index: int, found: Option<String>) -> bool {
    if index < args.len() {
        found matches Some(text) && text@ == args[index]@
    } else {
        found is None
    }
}

/// Whether `invocation` is what `args` ask for, the program's own name
/// being the first of them: the file manager where the first argument is
/// `files` or `--files`, with the argument after it as the directory, and
/// else a session, with the first argument as the token.
pub open spec fn reads_as(args: Seq<String>, invocation: Invocation) -> bool {
    if args.len() > 1 && is_files_word(args[1]@) {
        invocation matches Invocation::ShowFiles { directory } && is_argument(args, 2, directory)
    } else {
        invocation matches Invocation::Edit { token } && is_argument(args, 1, token)
    }
}

/// The argument at `index`, if there is one.
fn argument(args: &Vec<String>, index: usize) -> (found: Option<String>)
    ensures
        is_argument(args@, index as int, found),
{
    if index < args.len() {
        Some(args[index].clone())
    } else {
        None
    }
}

/// Reads the command line, the program's own name included.
pub fn parse_invocation(args: &Vec<String>) -> (invocation: Invocation)
    ensures
        reads_as(args@, invocation),
{
    if args.len() > 1 && (same_text(args[1].as_str(), "files") || same_text(
        args[1].as_str(),
        "--files",
    )) {
        Invocation::ShowFiles { directory: argument(args, 2) }
    } else {
        Invocation::Edit { token: argument(args, 1) }
    }
}

} // verus!
