//! The header that opens a new note file.

use crate::text::text_of;
use vstd::prelude::*;
use vstd::string::*;

verus! {

/// The name of the file whose content is added to the header of new notes.
pub const HEADER_FILE: &'static str = "header.txt";

/// The header source that counts: the one beside the program where there
/// is one, else the one in the working directory.
pub open spec fn preferred_source(
    beside_program: Option<Seq<char>>,
    in_working_dir: Option<Seq<char>>,
) -> Option<Seq<char>> {
    if beside_program.is_some() {
        beside_program
    } else {
        in_working_dir
    }
}

/// The header of a file begun on the day stamped `stamp`: `# ` and the
/// stamp, and then, where there is a header source, two spaces and all
/// that the source holds.
pub open spec fn header_of(stamp: Seq<char>, source: Option<Seq<char>>) -> Seq<char> {
    match source {
        Some(content) => "# "@ + stamp + "  "@ + content,
        None => "# "@ + stamp,
    }
}

/// Composes the header of a new file from the day's stamp and the content
/// of the header sources that exist: the one beside the program and the
/// one in the working directory.
pub fn get_header_text(
    timestamp: &str,
    beside_program: Option<&str>,
    in_working_dir: Option<&str>,
) -> (header: String)
    ensures
        header@ == header_of(
            timestamp@,
            preferred_source(text_of(beside_program), text_of(in_working_dir)),
        ),
{
    let mut header = String::new();
    header.append("# ");
    header.append(timestamp);
    let source = match beside_program {
        Some(content) => Some(content),
        None => in_working_dir,
    };
    match source {
        Some(content) => {
            header.append("  ");
            header.append(content);
        },
        None => {},
    }
    assert(header@ =~= header_of(
        timestamp@,
        preferred_source(text_of(beside_program), text_of(in_working_dir)),
    ));
    header
}

} // verus!
