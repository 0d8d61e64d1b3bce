use vstd::prelude::*;
use vstd::string::*;
use crate::utils::{get_name, spec_name};

verus! {

/// Why a run stopped before its end.
#[derive(Debug, PartialEq)]
pub enum AppError {
    /// The credentials are not of the form `username:token`.
    UnsupportedAuth,
    /// A path names no file.
    InvalidPath { path: String },
    /// A file could not be read.
    Io { path: String, message: String },
    /// The request did not get through, or its answer could not be understood.
    Network { message: String },
    /// An answer reads neither as the awaited value nor as an error message.
    UnreadableAnswer,
    /// GitHub refused to create the Gist.
    CreationFailed { message: String },
    /// GitHub refused to delete the Gist, which may still exist.
    DeletionFailed { message: String },
    /// An event came that the run did not wait for.
    UnexpectedEvent,
}

/// The text that describes an error.
pub open spec fn error_text(e: AppError) -> Seq<char> {
    match e {
        AppError::UnsupportedAuth => "unsupported authentication method, expected username:token"@,
        AppError::InvalidPath { path } => "not a file path: "@ + path@,
        AppError::Io { path, message } => path@ + ": "@ + message@,
        AppError::Network { message } => "network error: "@ + message@,
        AppError::UnreadableAnswer => "unreadable answer from GitHub"@,
        AppError::CreationFailed { message } => message@,
        AppError::DeletionFailed { message } => "Gist could not be deleted and may still exist: "@
            + message@,
        AppError::UnexpectedEvent => "unexpected event"@,
    }
}

/// The line written to the error stream: the program's name, then the error.
pub open spec fn error_report(e: AppError) -> Seq<char> {
    spec_name() + ": "@ + error_text(e) + "\n"@
}

impl AppError {
    /// The text that describes this error.
    pub fn text(&self) -> (r: String)
        ensures
            r@ == error_text(*self),
    {
        match self {
            AppError::UnsupportedAuth => String::from_str(
                "unsupported authentication method, expected username:token",
            ),
            AppError::InvalidPath { path } => {
                let mut r = String::from_str("not a file path: ");
                r.append(path.as_str());
                r
            },
            AppError::Io { path, message } => {
                let mut r = String::from_str(path.as_str());
                r.append(": ");
                r.append(message.as_str());
                r
            },
            AppError::Network { message } => {
                let mut r = String::from_str("network error: ");
                r.append(message.as_str());
                r
            },
            AppError::UnreadableAnswer => String::from_str("unreadable answer from GitHub"),
            AppError::CreationFailed { message } => String::from_str(message.as_str()),
            AppError::DeletionFailed { message } => {
                let mut r = String::from_str("Gist could not be deleted and may still exist: ");
                r.append(message.as_str());
                r
            },
            AppError::UnexpectedEvent => String::from_str("unexpected event"),
        }
    }

    /// The line to write to the error stream for this error.
    pub fn report(&self) -> (r: String)
        ensures
            r@ == error_report(*self),
    {
        let mut r = String::from_str(get_name());
        r.append(": ");
        let t = self.text();
        r.append(t.as_str());
        r.append("\n");
        r
    }
}

} // verus!

verus! {

/// A refused deletion, a refused creation and a failed transport never write the same
/// line, whatever the message: an operator can tell that a Gist may still exist. A
/// refused creation writes GitHub's message alone.
pub proof fn lemma_failures_reported_distinctly(message: String)
    ensures
        error_report(AppError::DeletionFailed { message }) != error_report(
            AppError::CreationFailed { message },
        ),
        error_report(AppError::Network { message }) != error_report(
            AppError::CreationFailed { message },
        ),
        error_report(AppError::Network { message }) != error_report(
            AppError::DeletionFailed { message },
        ),
{
    reveal_strlit(": ");
    reveal_strlit("Gist could not be deleted and may still exist: ");
    reveal_strlit("network error: ");
    let d = error_report(AppError::DeletionFailed { message });
    let c = error_report(AppError::CreationFailed { message });
    let n = error_report(AppError::Network { message });
    assert(d.len() != c.len());
    assert(n.len() != c.len());
    assert(n[7] == 'n');
    assert(d[7] == 'G');
}

} // verus!
