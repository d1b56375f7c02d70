//! What can go wrong when a scene is asked for something.
use vstd::prelude::*;

verus! {

/// Why a query of a scene has no answer.
#[derive(Debug, PartialEq, Eq)]
pub enum Error {
    /// A text is no path.
    InvalidPath { text: String },
    /// The scene could not be composed where the query asked.
    Unavailable { message: String },
}

/// The model of an [`Error`].
pub enum ErrorView {
    InvalidPath { text: Seq<char> },
    Unavailable { message: Seq<char> },
}

impl View for Error {
    type V = ErrorView;

    open spec fn view(&self) -> ErrorView {
        match self {
            Error::InvalidPath { text } => ErrorView::InvalidPath { text: text@ },
            Error::Unavailable { message } => ErrorView::Unavailable { message: message@ },
        }
    }
}

impl Clone for Error {
    fn clone(&self) -> (r: Self)
        ensures
            r@ == self@,
    {
        match self {
            Error::InvalidPath { text } => Error::InvalidPath { text: text.clone() },
            Error::Unavailable { message } => Error::Unavailable { message: message.clone() },
        }
    }
}

} // verus!
