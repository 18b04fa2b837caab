//! An append-only note taker, as a library of verified decisions.
//!
//! A user runs the tool on a file, types lines at a prompt, and each line
//! is appended to the file under the protection of a backup copy, after
//! which the end of the file is shown. Files, terminal and environment are
//! the caller's: the library reads the clock and nothing else. It computes
//! dates and date stamps, the path of the note file, the header of a new
//! file, the steps of a protected append, the tail of a file's content and
//! the turns of the session, and states what each of them yields.

pub mod calendar;
pub mod text;
pub mod timestamp;
pub mod append;
pub mod session;
pub mod launcher;
pub mod paths;
pub mod header;
pub mod tail;
pub mod invocation;
pub mod journal;
