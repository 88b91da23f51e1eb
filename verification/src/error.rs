//! The ways in which loading a configuration can fail.

use vstd::prelude::*;
use vstd::string::*;

verus! {

/// Why a configuration could not be loaded.
#[derive(Debug, PartialEq, Eq)]
pub enum ConfigError {
    /// Nothing at the path is a regular file. Callers treat this as "no
    /// configuration present"; the payload is the path that was asked for.
    FileNotFound(String),
    /// The root to search is not a directory; the payload is that root.
    FolderNotFound(String),
    /// The file is there but could not be read; the payload describes why.
    FileReadFailed(String),
    /// The file is not valid TOML, or a key holds a value of the wrong type;
    /// the payload describes the fault.
    FileTomlParseFailed(String),
}

/// The mathematical value of a [`ConfigError`].
pub ghost enum Failure {
    FileNotFound(Seq<char>),
    FolderNotFound(Seq<char>),
    FileReadFailed(Seq<char>),
    FileTomlParseFailed(Seq<char>),
}

impl View for ConfigError {
    type V = Failure;

    open spec fn view(&self) -> Failure {
        match self {
            ConfigError::FileNotFound(path) => Failure::FileNotFound(path@),
            ConfigError::FolderNotFound(path) => Failure::FolderNotFound(path@),
            ConfigError::FileReadFailed(cause) => Failure::FileReadFailed(cause@),
            ConfigError::FileTomlParseFailed(cause) => Failure::FileTomlParseFailed(cause@),
        }
    }
}

/// What the standard library writes for a string that is formatted with
/// `{:?}`: the string in double quotes, with quotes, backslashes and what
/// cannot be printed written as escapes.
pub uninterp spec fn debug_form(text: Seq<char>) -> Seq<char>;

/// Formats `text` with `{:?}`, the `Debug` form of a string. The contract
/// gives the result its name and restates none of the escaping rules.
#[verifier::external_body]
fn debug(text: &str) -> (out: String)
    ensures
        out@ == debug_form(text@),
{
    format!("{:?}", text)
}

/// What a failure says of itself. A path is shown in its `Debug` form; the
/// cause of a failed read or parse is not shown.
pub open spec fn message_of(failure: Failure) -> Seq<char> {
    match failure {
        Failure::FileNotFound(path) => "Could not find configuration "@ + debug_form(path),
        Failure::FolderNotFound(path) => "Could not find configurations in folder "@ + debug_form(
            path,
        ),
        Failure::FileReadFailed(_) => "Could not read configuration file"@,
        Failure::FileTomlParseFailed(_) => "Failed to parse file as a toml file"@,
    }
}

impl ConfigError {
    /// What the error says of itself: see [`message_of`].
    pub fn message(&self) -> (text: String)
        ensures
            text@ == message_of(self@),
    {
        match self {
            ConfigError::FileNotFound(path) => {
                let mut text = "Could not find configuration ".to_owned();
                text.append(debug(path.as_str()).as_str());
                text
            },
            ConfigError::FolderNotFound(path) => {
                let mut text = "Could not find configurations in folder ".to_owned();
                text.append(debug(path.as_str()).as_str());
                text
            },
            ConfigError::FileReadFailed(_) => "Could not read configuration file".to_owned(),
            ConfigError::FileTomlParseFailed(_) => "Failed to parse file as a toml file".to_owned(),
        }
    }
}

} // verus!
