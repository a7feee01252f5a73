//! Errors that can occur during client-server lookup

use vstd::prelude::*;
use vstd::string::*;

verus! {

/// The error of the URL parser, carried through as it came.
#[verifier::external_type_specification]
#[verifier::external_body]
pub struct ExParseError(url::ParseError);

/// Errors that can occur during lookup. The two variants ask for different
/// handling: after the first the user may be asked again, after the second
/// the configuration found is broken.
#[derive(Debug, PartialEq, Eq)]
pub enum Error {
    /// The well-known document could not be had or read; the text is the
    /// account of the failure.
    Prompt(String),
    /// The well-known document was read, and what it points to is broken.
    Fail(FailError),
}

/// How what a well-known document points to is broken.
#[derive(Debug, PartialEq, Eq)]
pub enum FailError {
    /// URL parsing error
    Url(url::ParseError),
    /// HTTP error; the text is the account of the failure.
    Http(String),
}

/// A `FailError` as contracts see it. Which error the URL parser gave is
/// carried in the value and not stated here.
pub enum FailErrorView {
    /// See `FailError::Url`.
    Url,
    /// See `FailError::Http`.
    Http(Seq<char>),
}

/// An `Error` as contracts see it.
pub enum ErrorView {
    /// See `Error::Prompt`.
    Prompt(Seq<char>),
    /// See `Error::Fail`.
    Fail(FailErrorView),
}

impl View for FailError {
    type V = FailErrorView;

    open spec fn view(&self) -> FailErrorView {
        match *self {
            FailError::Url(_) => FailErrorView::Url,
            FailError::Http(message) => FailErrorView::Http(message@),
        }
    }
}

impl View for Error {
    type V = ErrorView;

    open spec fn view(&self) -> ErrorView {
        match *self {
            Error::Prompt(message) => ErrorView::Prompt(message@),
            Error::Fail(fail) => ErrorView::Fail(fail@),
        }
    }
}

/// `to_string` on the url crate's `ParseError`: the text by which the error
/// describes itself. Nothing is claimed of that text.
#[verifier::external_body]
fn describe(e: &url::ParseError) -> String {
    e.to_string()
}

impl FailError {
    /// The text that describes the failure: for an HTTP error the account
    /// that it holds, for a URL the parser's own words.
    pub fn message(&self) -> (r: String)
        ensures
            self@ matches FailErrorView::Http(text) ==> r@ == text,
    {
        match self {
            FailError::Url(e) => describe(e),
            FailError::Http(message) => message.clone(),
        }
    }
}

impl Error {
    /// The text that describes the failure.
    pub fn message(&self) -> (r: String)
        ensures
            self@ matches ErrorView::Prompt(text) ==> r@ == text,
            self@ matches ErrorView::Fail(FailErrorView::Http(text)) ==> r@ == text,
    {
        match self {
            Error::Prompt(message) => message.clone(),
            Error::Fail(fail) => fail.message(),
        }
    }

    /// The error for a URL that could not be parsed.
    pub fn from_url(e: url::ParseError) -> (r: Error)
        ensures
            r == Error::Fail(FailError::Url(e)),
            r@ == ErrorView::Fail(FailErrorView::Url),
    {
        Error::Fail(FailError::Url(e))
    }

    /// The error for a failed check of what the document points to.
    pub fn from_fail(e: FailError) -> (r: Error)
        ensures
            r == Error::Fail(e),
            r@ == ErrorView::Fail(e@),
    {
        Error::Fail(e)
    }

    /// Is this the error after which the user may be asked again?
    pub fn is_prompt(&self) -> (r: bool)
        ensures
            r == (self@ is Prompt),
    {
        match self {
            Error::Prompt(_) => true,
            Error::Fail(_) => false,
        }
    }
}

} // verus!
