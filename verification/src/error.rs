//! The failures that the library and the programs built on it report.

use vstd::prelude::*;

verus! {

/// Why an operation failed. Each kind carries the words to show the user.
#[derive(PartialEq, Eq, Debug)]
pub enum AppError {
    /// Something was looked for and is not there: a file, a command, an
    /// extension, an argument.
    NotFound(String),
    /// A file could not be read, written or created.
    Io(String),
    /// The persisted registry could not be decoded.
    TomlDe(String),
    /// The registry could not be encoded.
    TomlSer(String),
    /// The command could not be started.
    Launch(String),
    /// The arguments of the program could not be understood.
    Usage(String),
}

/// The words of the failure to find an entry for `command`.
pub open spec fn command_not_registered(command: Seq<char>) -> Seq<char> {
    command + " command is not registered"@
}

/// The words of the failure to find an entry for `extension`.
pub open spec fn extension_not_registered(extension: Seq<char>) -> Seq<char> {
    "."@ + extension + " extension is not registered"@
}

impl AppError {
    /// The failure to find an entry for `command`.
    pub fn missing_command(command: &str) -> (e: AppError)
        ensures
            e matches AppError::NotFound(words) && words@ == command_not_registered(command@),
    {
        let mut words = command.to_owned();
        words.append(" command is not registered");
        AppError::NotFound(words)
    }

    /// The failure to find an entry for `extension`.
    pub fn missing_extension(extension: &str) -> (e: AppError)
        ensures
            e matches AppError::NotFound(words) && words@ == extension_not_registered(extension@),
    {
        let mut words = ".".to_owned();
        words.append(extension);
        words.append(" extension is not registered");
        AppError::NotFound(words)
    }
}

} // verus!
