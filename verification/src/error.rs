//! The failure categories of a run.

use vstd::prelude::*;

verus! {

/// The category of a failure.
#[derive(Clone, Copy, Debug, PartialEq, Eq, Structural)]
pub enum ErrorKind {
    /// A required input (home directory, terminal) is missing.
    Configuration,
    /// The operator declined a confirmation that the run depends on.
    ConfirmationDeclined,
    /// A directory could not be created or removed.
    Filesystem,
    /// A remote artifact could not be fetched.
    Network,
    /// An archive is corrupt, unreadable or unsafe.
    Archive,
    /// A process could not be started.
    Spawn,
    /// A tracked process could not be killed.
    Termination,
}

impl ErrorKind {
    /// Whether a failure of this kind aborts the run. Only a failed kill
    /// is collected instead: the remaining cleanup still runs.
    pub fn is_fatal(self) -> (fatal: bool)
        ensures
            fatal == (self != ErrorKind::Termination),
    {
        self != ErrorKind::Termination
    }

    /// A short label for messages.
    pub fn label(self) -> (text: &'static str)
        ensures
            text@ == spec_label(self),
    {
        match self {
            ErrorKind::Configuration => "configuration error",
            ErrorKind::ConfirmationDeclined => "confirmation declined",
            ErrorKind::Filesystem => "filesystem error",
            ErrorKind::Network => "network error",
            ErrorKind::Archive => "archive error",
            ErrorKind::Spawn => "spawn error",
            ErrorKind::Termination => "termination error",
        }
    }
}

/// The label of each category.
pub open spec fn spec_label(kind: ErrorKind) -> Seq<char> {
    match kind {
        ErrorKind::Configuration => "configuration error"@,
        ErrorKind::ConfirmationDeclined => "confirmation declined"@,
        ErrorKind::Filesystem => "filesystem error"@,
        ErrorKind::Network => "network error"@,
        ErrorKind::Archive => "archive error"@,
        ErrorKind::Spawn => "spawn error"@,
        ErrorKind::Termination => "termination error"@,
    }
}

/// A failure: its category, the resource it concerns (a path, a URL, a
/// process name) and the underlying cause as reported by the caller.
#[derive(Clone, Debug)]
pub struct Error {
    pub kind: ErrorKind,
    pub resource: String,
    pub cause: String,
}

/// The mathematical content of an [`Error`].
pub struct ErrorView {
    pub kind: ErrorKind,
    pub resource: Seq<char>,
    pub cause: Seq<char>,
}

impl View for Error {
    type V = ErrorView;

    open spec fn view(&self) -> ErrorView {
        ErrorView { kind: self.kind, resource: self.resource@, cause: self.cause@ }
    }
}

/// The message of a failure: label, resource and cause, separated by `": "`.
pub open spec fn spec_message(e: ErrorView) -> Seq<char> {
    spec_label(e.kind) + ": "@ + e.resource + ": "@ + e.cause
}

impl Error {
    /// A failure of `kind` on `resource`, caused by `cause`.
    pub fn new(kind: ErrorKind, resource: &str, cause: &str) -> (e: Error)
        ensures
            e@ == (ErrorView { kind, resource: resource@, cause: cause@ }),
    {
        Error { kind, resource: String::from_str(resource), cause: String::from_str(cause) }
    }

    /// The text shown to the operator.
    pub fn message(&self) -> (text: String)
        ensures
            text@ == spec_message(self@),
    {
        let mut text = String::from_str(self.kind.label());
        text.append(": ");
        text.append(self.resource.as_str());
        text.append(": ");
        text.append(self.cause.as_str());
        text
    }
}

} // verus!
