//! What the engine reports when it refuses or fails.
use vstd::prelude::*;

verus! {

/// The kind of an engine error.
#[derive(Debug, Clone, Copy, PartialEq, Eq, Structural)]
pub enum ErrorEnum {
    /// Any failure without a kind of its own.
    Error,
    /// The thing to be made is there already.
    AlreadyExists,
    /// The thing is in use.
    Busy,
    /// The thing asked for is not there.
    NotFound,
}

/// An error with its message.
#[derive(Debug, PartialEq, Eq)]
pub enum StratisError {
    /// A failure outside the engine's own rules.
    Error(String),
    /// A failure that the engine itself diagnosed.
    Engine(ErrorEnum, String),
}

/// The result of an engine operation.
pub type StratisResult<T> = Result<T, StratisError>;

/// What a [`StratisError`] says: its kind, and its message as characters.
pub enum ErrorView {
    Error(Seq<char>),
    Engine(ErrorEnum, Seq<char>),
}

impl View for StratisError {
    type V = ErrorView;

    open spec fn view(&self) -> ErrorView {
        match self {
            StratisError::Error(message) => ErrorView::Error(message@),
            StratisError::Engine(kind, message) => ErrorView::Engine(*kind, message@),
        }
    }
}

/// `result` is the error that says `error`.
pub open spec fn fails_with<T>(result: StratisResult<T>, error: ErrorView) -> bool {
    result matches Err(e) && e@ == error
}

} // verus!
