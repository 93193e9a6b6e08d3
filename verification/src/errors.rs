//! The error taxonomy shared by every operation of the library.
use vstd::prelude::*;
use vstd::string::StringExecFns;

verus! {

/// Everything that can go wrong, each kind with a short description of the
/// target (`what`) and of the underlying cause (`how`).
#[derive(Debug, Clone, PartialEq, Eq)]
pub enum Error {
    /// Data could not be read.
    ReadError { what: String, how: String },
    /// The caller supplied an unusable argument.
    InvalidArgument(String),
    /// Data could not be parsed.
    ParseError { what: String, how: String },
    /// The target exists and overwriting was not asked for.
    FileExists(String),
    /// A file or directory could not be created.
    CreateFailed { what: String, how: String },
    /// Data could not be written.
    WriteFailed { what: String, how: String },
    /// A file could not be deleted.
    DeleteFailed { what: String, how: String },
    /// A synchronisation did not complete.
    SyncFailed { what: String, how: String },
    /// A path is not acceptable.
    InvalidPath { what: String },
}

/// The mathematical content of an [`Error`]: the same variants over
/// character sequences.
pub enum ErrorView {
    ReadError { what: Seq<char>, how: Seq<char> },
    InvalidArgument(Seq<char>),
    ParseError { what: Seq<char>, how: Seq<char> },
    FileExists(Seq<char>),
    CreateFailed { what: Seq<char>, how: Seq<char> },
    WriteFailed { what: Seq<char>, how: Seq<char> },
    DeleteFailed { what: Seq<char>, how: Seq<char> },
    SyncFailed { what: Seq<char>, how: Seq<char> },
    InvalidPath { what: Seq<char> },
}

impl View for Error {
    type V = ErrorView;

    open spec fn view(&self) -> ErrorView {
        match *self {
            Error::ReadError { what, how } => ErrorView::ReadError { what: what@, how: how@ },
            Error::InvalidArgument(s) => ErrorView::InvalidArgument(s@),
            Error::ParseError { what, how } => ErrorView::ParseError { what: what@, how: how@ },
            Error::FileExists(s) => ErrorView::FileExists(s@),
            Error::CreateFailed { what, how } => ErrorView::CreateFailed { what: what@, how: how@ },
            Error::WriteFailed { what, how } => ErrorView::WriteFailed { what: what@, how: how@ },
            Error::DeleteFailed { what, how } => ErrorView::DeleteFailed { what: what@, how: how@ },
            Error::SyncFailed { what, how } => ErrorView::SyncFailed { what: what@, how: how@ },
            Error::InvalidPath { what } => ErrorView::InvalidPath { what: what@ },
        }
    }
}

impl ErrorView {
    /// The human-readable message of an error.
    pub open spec fn message(self) -> Seq<char> {
        match self {
            ErrorView::ReadError { what, how } => "Failed to read "@ + what + ": "@ + how,
            ErrorView::InvalidArgument(s) => "Invalid argument: "@ + s,
            ErrorView::ParseError { what, how } => "Failed to parse "@ + what + ": "@ + how,
            ErrorView::FileExists(s) => "File already exists: "@ + s,
            ErrorView::CreateFailed { what, how } => "Failed to create "@ + what + ": "@ + how,
            ErrorView::WriteFailed { what, how } => "Failed to write "@ + what + ": "@ + how,
            ErrorView::DeleteFailed { what, how } => "Failed to delete "@ + what + ": "@ + how,
            ErrorView::SyncFailed { what, how } => "Sync failed "@ + what + ": "@ + how,
            ErrorView::InvalidPath { what } => "Invalid path: "@ + what,
        }
    }
}

/// `prefix`, `what`, a colon and a space, then `how`.
fn describe(prefix: &str, what: &String, how: &String) -> (text: String)
    ensures
        text@ == prefix@ + what@ + ": "@ + how@,
{
    let mut text = String::from_str(prefix);
    text.append(what.as_str());
    text.append(": ");
    text.append(how.as_str());
    text
}

/// `prefix` followed by `detail`.
fn prefixed(prefix: &str, detail: &String) -> (text: String)
    ensures
        text@ == prefix@ + detail@,
{
    let mut text = String::from_str(prefix);
    text.append(detail.as_str());
    text
}

impl Error {
    /// Renders the error as a message for people.
    pub fn to_string(&self) -> (text: String)
        ensures
            text@ == self@.message(),
    {
        match self {
            Error::ReadError { what, how } => describe("Failed to read ", what, how),
            Error::InvalidArgument(s) => prefixed("Invalid argument: ", s),
            Error::ParseError { what, how } => describe("Failed to parse ", what, how),
            Error::FileExists(s) => prefixed("File already exists: ", s),
            Error::CreateFailed { what, how } => describe("Failed to create ", what, how),
            Error::WriteFailed { what, how } => describe("Failed to write ", what, how),
            Error::DeleteFailed { what, how } => describe("Failed to delete ", what, how),
            Error::SyncFailed { what, how } => describe("Sync failed ", what, how),
            Error::InvalidPath { what } => prefixed("Invalid path: ", what),
        }
    }
}

} // verus!
