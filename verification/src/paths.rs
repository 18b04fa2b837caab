//! Where a session's note file lies: an existing file as named, or a dated
//! file in the notes directory.

use crate::text::text_of;
use crate::timestamp::timestamp_at;
use vstd::prelude::*;
use vstd::string::*;

verus! {

/// Why the notes directory could not be placed.
#[derive(Clone, Copy, Debug, PartialEq, Eq, Structural)]
pub enum ConfigurationError {
    /// The environment names no home directory.
    HomeNotFound,
}

/// The notes directory of the user whose home directory is `home`.
pub open spec fn notes_dir_of(home: Seq<char>) -> Seq<char> {
    home + "/Documents/lines_editor"@
}

/// The name of the note file of the day stamped `stamp`: the stamp with
/// `.txt` behind it, and with `name` and an underscore before it where a
/// name is given.
pub open spec fn file_name_of(name: Option<Seq<char>>, stamp: Seq<char>) -> Seq<char> {
    match name {
        Some(name) => name + "_"@ + stamp + ".txt"@,
        None => stamp + ".txt"@,
    }
}

/// The dated note file in the directory `dir`.
pub open spec fn default_path_of(dir: Seq<char>, name: Option<Seq<char>>, stamp: Seq<char>) -> Seq<
    char,
> {
    dir + "/"@ + file_name_of(name, stamp)
}

/// The file that a session works on. A token that names an existing file
/// is that file's path, as given. Any other token is the name of a dated
/// note, and without a token the note is the day's own.
pub open spec fn resolved_path_of(
    token: Option<Seq<char>>,
    token_is_file: bool,
    dir: Seq<char>,
    stamp: Seq<char>,
) -> Seq<char> {
    match token {
        Some(path) => if token_is_file {
            path
        } else {
            default_path_of(dir, token, stamp)
        },
        None => default_path_of(dir, None, stamp),
    }
}

/// The user's home directory, from what the environment holds under `HOME`
/// and under `USERPROFILE`: the first where it is set, else the second.
pub fn home_directory(home: Option<&str>, user_profile: Option<&str>) -> (found: Result<
    String,
    ConfigurationError,
>)
    ensures
        match (home, user_profile) {
            (Some(dir), _) => found matches Ok(path) && path@ == dir@,
            (None, Some(dir)) => found matches Ok(path) && path@ == dir@,
            (None, None) => found == Err::<String, ConfigurationError>(
                ConfigurationError::HomeNotFound,
            ),
        },
{
    match home {
        Some(dir) => Ok(dir.to_owned()),
        None => match user_profile {
            Some(dir) => Ok(dir.to_owned()),
            None => Err(ConfigurationError::HomeNotFound),
        },
    }
}

/// The notes directory under the home directory `home`.
pub fn notes_dir(home: &str) -> (dir: String)
    ensures
        dir@ == notes_dir_of(home@),
{
    let mut dir = home.to_owned();
    dir.append("/Documents/lines_editor");
    dir
}

/// The name of the note file of the day stamped `timestamp`.
pub fn note_file_name(custom_name: Option<&str>, timestamp: &str) -> (name: String)
    ensures
        name@ == file_name_of(text_of(custom_name), timestamp@),
{
    let mut name = String::new();
    match custom_name {
        Some(prefix) => {
            name.append(prefix);
            name.append("_");
        },
        None => {},
    }
    name.append(timestamp);
    name.append(".txt");
    name
}

/// The path of the dated note file in the notes directory `notes_dir`.
pub fn get_default_filepath(notes_dir: &str, custom_name: Option<&str>, timestamp: &str) -> (path:
    String)
    ensures
        path@ == default_path_of(notes_dir@, text_of(custom_name), timestamp@),
{
    let mut path = notes_dir.to_owned();
    path.append("/");
    let name = note_file_name(custom_name, timestamp);
    path.append(name.as_str());
    path
}

/// The path of the file to work on, given the token of the command line,
/// if there was one, and whether it names an existing file.
pub fn resolve_path(token: Option<&str>, token_is_file: bool, notes_dir: &str, timestamp: &str) -> (
    path: String
)
    ensures
        path@ == resolved_path_of(text_of(token), token_is_file, notes_dir@, timestamp@),
{
    match token {
        Some(given) => if token_is_file {
            given.to_owned()
        } else {
            get_default_filepath(notes_dir, token, timestamp)
        },
        None => get_default_filepath(notes_dir, None, timestamp),
    }
}

/// Resolution does not depend on the time of day: two instants of one day
/// resolve the same inputs to the same path.
pub proof fn lemma_resolution_is_stable(
    token: Option<Seq<char>>,
    token_is_file: bool,
    dir: Seq<char>,
    first: nat,
    second: nat,
)
    requires
        first / 86_400 == second / 86_400,
    ensures
        resolved_path_of(token, token_is_file, dir, timestamp_at(first)) == resolved_path_of(
            token,
            token_is_file,
            dir,
            timestamp_at(second),
        ),
{
}

} // verus!
