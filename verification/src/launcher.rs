//! Opening the notes directory in the host's file manager: which program
//! to start, and with what.

use crate::text::{same_text, text_of};
use vstd::prelude::*;
use vstd::string::*;

verus! {

/// The file managers that can be started.
#[derive(Clone, Copy, Debug, PartialEq, Eq, Structural)]
pub enum FileManager {
    Nautilus,
    Dolphin,
    Thunar,
    Explorer,
    Finder,
}

/// Why no file manager was started.
#[derive(Clone, Copy, Debug, PartialEq, Eq, Structural)]
pub enum LaunchError {
    /// The directory to show does not exist.
    DirectoryMissing,
    /// No file manager is known for the operating system.
    UnsupportedPlatform,
}

/// A program to start, with the one argument to hand it.
#[derive(Debug, PartialEq, Eq)]
pub struct Launch {
    pub manager: FileManager,
    pub program: String,
    pub argument: String,
}

/// What `str::to_uppercase` makes of a text: its upper-case equivalent.
pub uninterp spec fn uppercased(text: Seq<char>) -> Seq<char>;

/// `str::to_uppercase`, which returns the upper-case equivalent of a
/// string as a new `String`. The result is named [`uppercased`]; nothing
/// more is claimed of it.
pub assume_specification[ str::to_uppercase ](text: &str) -> (upper: String)
    ensures
        upper@ == uppercased(text@),
;

impl FileManager {
    /// The name of the program that starts this file manager.
    pub open spec fn command_text(self) -> Seq<char> {
        match self {
            FileManager::Nautilus => "nautilus"@,
            FileManager::Dolphin => "dolphin"@,
            FileManager::Thunar => "thunar"@,
            FileManager::Explorer => "explorer"@,
            FileManager::Finder => "open"@,
        }
    }

    /// The name of the program that starts this file manager.
    pub fn get_command(&self) -> (command: &'static str)
        ensures
            command@ == self.command_text(),
    {
        match self {
            FileManager::Nautilus => "nautilus",
            FileManager::Dolphin => "dolphin",
            FileManager::Thunar => "thunar",
            FileManager::Explorer => "explorer",
            FileManager::Finder => "open",
        }
    }
}

/// The file manager of a Linux desktop, by the desktop's name in upper
/// case: Dolphin on KDE, Thunar on XFCE, Nautilus on GNOME and wherever
/// the desktop is another or unknown.
pub open spec fn linux_choice(desktop: Option<Seq<char>>) -> FileManager {
    match desktop {
        Some(name) => if name == "KDE"@ {
            FileManager::Dolphin
        } else if name == "XFCE"@ {
            FileManager::Thunar
        } else {
            FileManager::Nautilus
        },
        None => FileManager::Nautilus,
    }
}

/// The file manager of an operating system, by the system's name in lower
/// case and, on Linux, the desktop's name in upper case. Systems other
/// than `linux`, `windows` and `macos` have none.
pub open spec fn platform_choice(os: Seq<char>, desktop: Option<Seq<char>>) -> Result<
    FileManager,
    LaunchError,
> {
    if os == "linux"@ {
        Ok(linux_choice(desktop))
    } else if os == "windows"@ {
        Ok(FileManager::Explorer)
    } else if os == "macos"@ {
        Ok(FileManager::Finder)
    } else {
        Err(LaunchError::UnsupportedPlatform)
    }
}

/// What an optional string holds, in upper case.
pub open spec fn upper_text_of(text: Option<&str>) -> Option<Seq<char>> {
    match text {
        Some(inner) => Some(uppercased(inner@)),
        None => None,
    }
}

/// Picks the file manager for the operating system `os`, given the name of
/// the desktop already in upper case.
pub fn select_file_manager(os: &str, desktop: Option<&str>) -> (choice: Result<
    FileManager,
    LaunchError,
>)
    ensures
        choice == platform_choice(os@, text_of(desktop)),
{
    if same_text(os, "linux") {
        match desktop {
            Some(name) => if same_text(name, "KDE") {
                Ok(FileManager::Dolphin)
            } else if same_text(name, "XFCE") {
                Ok(FileManager::Thunar)
            } else {
                Ok(FileManager::Nautilus)
            },
            None => Ok(FileManager::Nautilus),
        }
    } else if same_text(os, "windows") {
        Ok(FileManager::Explorer)
    } else if same_text(os, "macos") {
        Ok(FileManager::Finder)
    } else {
        Err(LaunchError::UnsupportedPlatform)
    }
}

/// Picks the file manager for the operating system `os`, given the name of
/// the desktop as the environment has it, in any case.
pub fn get_default_file_manager(os: &str, desktop: Option<&str>) -> (choice: Result<
    FileManager,
    LaunchError,
>)
    ensures
        choice == platform_choice(os@, upper_text_of(desktop)),
{
    match desktop {
        Some(name) => {
            let upper = name.to_uppercase();
            select_file_manager(os, Some(upper.as_str()))
        },
        None => select_file_manager(os, None),
    }
}

/// What opening `directory` comes to, given whether the directory exists,
/// the file manager asked for, if any, and the one that the platform
/// offers.
pub open spec fn launch_plan(
    directory: Seq<char>,
    directory_exists: bool,
    requested: Option<FileManager>,
    offered: Result<FileManager, LaunchError>,
) -> Result<(FileManager, Seq<char>, Seq<char>), LaunchError> {
    if !directory_exists {
        Err(LaunchError::DirectoryMissing)
    } else {
        match requested {
            Some(manager) => Ok((manager, manager.command_text(), directory)),
            None => match offered {
                Ok(manager) => Ok((manager, manager.command_text(), directory)),
                Err(error) => Err(error),
            },
        }
    }
}

/// The view of a launch, or of the failure to make one.
pub open spec fn launch_view(launch: Result<Launch, LaunchError>) -> Result<
    (FileManager, Seq<char>, Seq<char>),
    LaunchError,
> {
    match launch {
        Ok(launch) => Ok((launch.manager, launch.program@, launch.argument@)),
        Err(error) => Err(error),
    }
}

/// Prepares the opening of `directory` in a file manager: the one asked
/// for, or else the platform's own. A directory that does not exist is
/// refused before the platform is looked at.
pub fn open_in_file_manager(
    directory: &str,
    directory_exists: bool,
    requested: Option<FileManager>,
    os: &str,
    desktop: Option<&str>,
) -> (launch: Result<Launch, LaunchError>)
    ensures
        launch_view(launch) == launch_plan(
            directory@,
            directory_exists,
            requested,
            platform_choice(os@, upper_text_of(desktop)),
        ),
{
    if !directory_exists {
        return Err(LaunchError::DirectoryMissing);
    }
    let manager = match requested {
        Some(manager) => manager,
        None => match get_default_file_manager(os, desktop) {
            Ok(manager) => manager,
            Err(error) => {
                return Err(error);
            },
        },
    };
    Ok(
        Launch {
            manager,
            program: manager.get_command().to_owned(),
            argument: directory.to_owned(),
        },
    )
}

} // verus!
