//! The ways in which a request can fail.

use vstd::prelude::*;

verus! {

/// Why a provider operation failed. Each variant carries the message that the
/// caller is shown.
#[derive(Clone, Debug, PartialEq, Eq)]
pub enum ProviderError {
    /// The provider is not installed, or the resource that was asked for does
    /// not exist.
    NotFound(String),
    /// An identifier taken from a virtual path did not pass validation.
    InvalidIdentifier(String),
    /// A record that the request names directly could not be decoded.
    Decode(String),
    /// The store could not be opened, or a query on it failed.
    Store(String),
    /// The provider tag names no known provider.
    UnknownProvider(String),
}

/// The view of a `ProviderError`.
pub enum ErrorModel {
    NotFound(Seq<char>),
    InvalidIdentifier(Seq<char>),
    Decode(Seq<char>),
    Store(Seq<char>),
    UnknownProvider(Seq<char>),
}

impl View for ProviderError {
    type V = ErrorModel;

    open spec fn view(&self) -> ErrorModel {
        match *self {
            ProviderError::NotFound(m) => ErrorModel::NotFound(m@),
            ProviderError::InvalidIdentifier(m) => ErrorModel::InvalidIdentifier(m@),
            ProviderError::Decode(m) => ErrorModel::Decode(m@),
            ProviderError::Store(m) => ErrorModel::Store(m@),
            ProviderError::UnknownProvider(m) => ErrorModel::UnknownProvider(m@),
        }
    }
}

impl ErrorModel {
    /// The text of the message.
    pub open spec fn text(self) -> Seq<char> {
        match self {
            ErrorModel::NotFound(m) => m,
            ErrorModel::InvalidIdentifier(m) => m,
            ErrorModel::Decode(m) => m,
            ErrorModel::Store(m) => m,
            ErrorModel::UnknownProvider(m) => m,
        }
    }
}

impl ProviderError {
    /// The message, as the textual error that callers of the application get.
    pub fn message(&self) -> (r: &str)
        ensures
            r@ == self@.text(),
    {
        match self {
            ProviderError::NotFound(m) => m.as_str(),
            ProviderError::InvalidIdentifier(m) => m.as_str(),
            ProviderError::Decode(m) => m.as_str(),
            ProviderError::Store(m) => m.as_str(),
            ProviderError::UnknownProvider(m) => m.as_str(),
        }
    }
}

} // verus!
