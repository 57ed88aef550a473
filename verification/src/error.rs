//! The failures that end a run.

use vstd::prelude::*;
use vstd::string::StringExecFns;

verus! {

/// Why the engine could not start or go on. Each kind carries the text of
/// its cause. None is recovered from: the failure goes up to the entry
/// point, which reports it and ends the process.
#[derive(Debug, PartialEq, Eq)]
pub enum EngineError {
    /// The configuration is missing or malformed.
    Init(String),
    /// The underlying transport or file access failed.
    Io(String),
    /// The window or the event source could not be set up.
    Platform(String),
}

/// What an [`EngineError`] holds, as mathematics.
pub enum ErrorView {
    Init(Seq<char>),
    Io(Seq<char>),
    Platform(Seq<char>),
}

impl ErrorView {
    /// The fixed message of the kind.
    pub open spec fn message(self) -> Seq<char> {
        match self {
            ErrorView::Init(_) => "initialization error"@,
            ErrorView::Io(_) => "i/o error"@,
            ErrorView::Platform(_) => "platform error"@,
        }
    }

    /// The text of the cause.
    pub open spec fn cause(self) -> Seq<char> {
        match self {
            ErrorView::Init(cause) => cause,
            ErrorView::Io(cause) => cause,
            ErrorView::Platform(cause) => cause,
        }
    }

    /// The report of the failure: the message, a colon and a space, the
    /// cause.
    pub open spec fn report(self) -> Seq<char> {
        self.message() + seq![':', ' '] + self.cause()
    }
}

impl View for EngineError {
    type V = ErrorView;

    open spec fn view(&self) -> ErrorView {
        match self {
            EngineError::Init(cause) => ErrorView::Init(cause@),
            EngineError::Io(cause) => ErrorView::Io(cause@),
            EngineError::Platform(cause) => ErrorView::Platform(cause@),
        }
    }
}

impl EngineError {
    /// An initialization error with the given cause.
    pub fn init(cause: String) -> (error: EngineError)
        ensures
            error == EngineError::Init(cause),
    {
        EngineError::Init(cause)
    }

    /// An i/o error with the given cause.
    pub fn io(cause: String) -> (error: EngineError)
        ensures
            error == EngineError::Io(cause),
    {
        EngineError::Io(cause)
    }

    /// A platform error with the given cause.
    pub fn platform(cause: String) -> (error: EngineError)
        ensures
            error == EngineError::Platform(cause),
    {
        EngineError::Platform(cause)
    }

    /// The fixed message of the kind.
    pub fn message(&self) -> (text: &'static str)
        ensures
            text@ == self@.message(),
    {
        match self {
            EngineError::Init(_) => "initialization error",
            EngineError::Io(_) => "i/o error",
            EngineError::Platform(_) => "platform error",
        }
    }

    /// The text of the cause.
    pub fn cause(&self) -> (text: &str)
        ensures
            text@ == self@.cause(),
    {
        match self {
            EngineError::Init(cause) => cause.as_str(),
            EngineError::Io(cause) => cause.as_str(),
            EngineError::Platform(cause) => cause.as_str(),
        }
    }

    /// The report of the failure, message and cause, for the entry point to
    /// print.
    pub fn report(&self) -> (text: String)
        ensures
            text@ == self@.report(),
    {
        let mut text = String::new();
        text.append(self.message());
        text.append(": ");
        text.append(self.cause());
        proof {
            reveal_strlit(": ");
            assert(": "@ =~= seq![':', ' ']);
            assert(text@ =~= self@.report());
        }
        text
    }
}

} // verus!
