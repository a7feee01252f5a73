//! What can go wrong while a server name is resolved.

use vstd::prelude::*;

verus! {

/// The one failure that ends the resolution of a server name.
#[derive(Debug, Clone, PartialEq, Eq)]
pub enum Error {
    /// No connection could be made for an HTTP request; the text is the
    /// transport's account of it.
    Http(String),
}

/// An `Error` as contracts see it.
pub enum ErrorView {
    /// See `Error::Http`.
    Http(Seq<char>),
}

impl View for Error {
    type V = ErrorView;

    open spec fn view(&self) -> ErrorView {
        match *self {
            Error::Http(message) => ErrorView::Http(message@),
        }
    }
}

impl Error {
    /// The text that describes the failure.
    pub fn message(&self) -> (r: String)
        ensures
            self@ == ErrorView::Http(r@),
    {
        match self {
            Error::Http(message) => message.clone(),
        }
    }
}

/// A host name for which the address lookup gave no address.
#[derive(Debug, Clone, Copy, PartialEq, Eq, Structural)]
pub struct NoRecords;

impl NoRecords {
    /// The text that describes the failure.
    pub fn message(&self) -> (r: String)
        ensures
            r@ == "No records"@,
    {
        "No records".to_owned()
    }
}

} // verus!
