//! What can go wrong, and the exit code that stands for it.

use crate::small::exit_code;
use vstd::prelude::*;
use vstd::string::*;

verus! {

/// An error of the tool.
#[derive(Debug, PartialEq, Eq)]
pub enum CiError {
    /// A failure described by a message.
    Message(String),
    /// The tool was used in a way that it does not accept.
    Usage(String),
    /// Something that had to be there is not.
    NotFound(String),
    /// A workflow file that cannot be executed.
    NotExecutable(String),
}

/// An error as the text that describes it.
pub enum ErrorView {
    Message(Seq<char>),
    Usage(Seq<char>),
    NotFound(Seq<char>),
    NotExecutable(Seq<char>),
}

impl View for CiError {
    type V = ErrorView;

    open spec fn view(&self) -> ErrorView {
        match self {
            CiError::Message(s) => ErrorView::Message(s@),
            CiError::Usage(s) => ErrorView::Usage(s@),
            CiError::NotFound(s) => ErrorView::NotFound(s@),
            CiError::NotExecutable(s) => ErrorView::NotExecutable(s@),
        }
    }
}

impl ErrorView {
    /// The text of an error.
    pub open spec fn text(self) -> Seq<char> {
        match self {
            ErrorView::Message(s) => s,
            ErrorView::Usage(s) => s,
            ErrorView::NotFound(s) => s,
            ErrorView::NotExecutable(s) => s,
        }
    }

    /// The exit code of an error: 2 for wrong usage, 127 for something missing, 126
    /// for something that cannot be executed, 3 for everything else.
    pub open spec fn code(self) -> i32 {
        match self {
            ErrorView::Message(_) => 3,
            ErrorView::Usage(_) => 2,
            ErrorView::NotFound(_) => 127,
            ErrorView::NotExecutable(_) => 126,
        }
    }
}

impl CiError {
    /// The text of the error.
    pub fn to_text(&self) -> (r: String)
        ensures
            r@ == self@.text(),
    {
        match self {
            CiError::Message(s) => s.clone(),
            CiError::Usage(s) => s.clone(),
            CiError::NotFound(s) => s.clone(),
            CiError::NotExecutable(s) => s.clone(),
        }
    }

    /// The exit code of the process that ends with this error.
    pub fn exit_code(&self) -> (r: i32)
        ensures
            r == self@.code(),
    {
        match self {
            CiError::Message(_) => 3,
            CiError::Usage(_) => 2,
            CiError::NotFound(_) => 127,
            CiError::NotExecutable(_) => 126,
        }
    }
}

/// A result by what it stands for.
pub open spec fn outcome<T: View>(r: Result<T, CiError>) -> Result<T::V, ErrorView> {
    match r {
        Ok(v) => Ok(v@),
        Err(e) => Err(e@),
    }
}

/// Whether a step is done without an error, and the error where it is not.
pub open spec fn unit_outcome(r: Result<(), CiError>) -> Result<(), ErrorView> {
    match r {
        Ok(_) => Ok(()),
        Err(e) => Err(e@),
    }
}

/// An error that a message describes.
pub fn message(text: String) -> (r: CiError)
    ensures
        r@ == ErrorView::Message(text@),
{
    CiError::Message(text)
}

/// An error of wrong usage.
pub fn usage(text: String) -> (r: CiError)
    ensures
        r@ == ErrorView::Usage(text@),
{
    CiError::Usage(text)
}

/// Every kind of failure ends the tool with its own status: wrong use with 2, what failed
/// inside with 3, what cannot be executed with 126 and what is not found with 127.
pub proof fn law_failures_end_with_their_status(e: ErrorView)
    ensures
        (e is Usage) == (e.code() == 2),
        (e is Message) == (e.code() == 3),
        (e is NotExecutable) == (e.code() == 126),
        (e is NotFound) == (e.code() == 127),
        e.code() != 0,
{
}

} // verus!
