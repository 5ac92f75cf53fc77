//! Errors shared by the whole library.

use vstd::prelude::*;
use vstd::string::StringExecFns;

pub mod database;

verus! {

/// The sending half of a fan-out channel, shared by its holders.
pub type ArcBroadcastSender<T> = std::sync::Arc<tokio::sync::broadcast::Sender<T>>;

/// The classes of failure the server distinguishes.
#[derive(Debug, Clone, Copy, PartialEq, Eq, Structural)]
pub enum ErrorKind {
    /// A malformed device type or message.
    InvalidInput,
    /// An unknown user or device.
    NotFound,
    /// The registry or another collaborator could not do its part.
    UpstreamFailure,
    /// A failed handshake or a transport error on one connection.
    SessionFault,
}

/// The mathematical value of an error: its class and its text.
pub struct ErrorView {
    pub kind: ErrorKind,
    pub err: Seq<char>,
}

/// An error with a human-readable text.
#[derive(Debug)]
pub struct AiError {
    pub err: String,
    pub kind: ErrorKind,
}

impl View for AiError {
    type V = ErrorView;

    open spec fn view(&self) -> ErrorView {
        ErrorView { kind: self.kind, err: self.err@ }
    }
}

impl AiError {
    /// An error of unnamed origin with the text `err`; it counts as an
    /// upstream failure.
    pub fn new(err: &str) -> (e: AiError)
        ensures
            e@ == (ErrorView { kind: ErrorKind::UpstreamFailure, err: err@ }),
    {
        AiError { err: String::from_str(err), kind: ErrorKind::UpstreamFailure }
    }

    /// An error of class `kind` with the text `err`.
    pub fn with_kind(kind: ErrorKind, err: &str) -> (e: AiError)
        ensures
            e@ == (ErrorView { kind, err: err@ }),
    {
        AiError { err: String::from_str(err), kind }
    }

    /// The text of the error, as it is shown to a caller.
    pub fn to_string(&self) -> (text: String)
        ensures
            text@ == self@.err,
    {
        self.err.clone()
    }
}

impl Clone for AiError {
    fn clone(&self) -> (copy: AiError)
        ensures
            copy@ == self@,
    {
        AiError { err: self.err.clone(), kind: self.kind }
    }
}

/// Shorthand for [`AiError::new`].
pub fn ba_error(error: &str) -> (e: AiError)
    ensures
        e@ == (ErrorView { kind: ErrorKind::UpstreamFailure, err: error@ }),
{
    AiError::new(error)
}

/// The text of the log line for a failed step.
pub open spec fn error_line(prompt: Seq<char>, err: Seq<char>) -> Seq<char> {
    prompt + " error: "@ + err
}

/// The line to log for the outcome `res` of the step named `prompt`:
/// none for a success, the prompt and the error's text for a failure.
pub fn log_error(prompt: &str, res: Result<(), AiError>) -> (line: Option<String>)
    ensures
        match res {
            Ok(_) => line is None,
            Err(e) => line matches Some(text) && text@ == error_line(prompt@, e@.err),
        },
{
    match res {
        Ok(_) => None,
        Err(e) => {
            let mut text = String::from_str(prompt);
            text.append(" error: ");
            text.append(e.err.as_str());
            Some(text)
        },
    }
}

/// Whether two strings hold the same characters.
pub fn same_text(a: &str, b: &str) -> (same: bool)
    ensures
        same == (a@ == b@),
{
    let left = a.to_owned();
    let right = b.to_owned();
    left == right
}

} // verus!
