//! What can go wrong.

use vstd::prelude::*;

verus! {

/// The content of an [`Error`].
pub enum ErrorView {
    /// The page could not be navigated.
    Navigation(Seq<char>),
    /// Something did not happen in time.
    Timeout(Seq<char>),
    /// An element is missing, or is not what the operation needs.
    ElementNotFound(Seq<char>),
}

/// Why an operation on a page or an element failed.
#[derive(Debug)]
pub enum Error {
    /// The page could not be navigated.
    Navigation(String),
    /// Something did not happen in time.
    Timeout(String),
    /// An element is missing, or is not what the operation needs.
    ElementNotFound(String),
}

impl View for Error {
    type V = ErrorView;

    open spec fn view(&self) -> ErrorView {
        match self {
            Error::Navigation(m) => ErrorView::Navigation(m@),
            Error::Timeout(m) => ErrorView::Timeout(m@),
            Error::ElementNotFound(m) => ErrorView::ElementNotFound(m@),
        }
    }
}

/// An error's content has the kind of the error and holds its text.
pub proof fn errors_keep_their_text(error: Error)
    ensures
        error is Navigation ==> error@ == ErrorView::Navigation(error->Navigation_0@),
        error is Timeout ==> error@ == ErrorView::Timeout(error->Timeout_0@),
        error is ElementNotFound ==> error@ == ErrorView::ElementNotFound(
            error->ElementNotFound_0@,
        ),
{
}

} // verus!
