//! The library's error type.
use vstd::prelude::*;

verus! {

#[verifier::external_type_specification]
#[verifier::external_body]
pub struct ExSerdeJsonError(serde_json::Error);

#[verifier::external_type_specification]
#[verifier::external_body]
pub struct ExIoError(std::io::Error);

/// Errors of metadata extraction and metadata record conversion.
#[derive(Debug)]
pub enum FicDataError {
    /// A CSS selector could not be parsed.
    SelectorError(String),
    /// A regular expression could not be compiled.
    RegexError(String),
    /// A JSON value could not be written.
    SerdeError(serde_json::Error),
    /// Compressed data could not be written.
    IoError(std::io::Error),
    /// Any other failure, described by its message.
    GenericError(String),
}

/// The abstract content of a [`FicDataError`].
pub enum FicDataErrorView {
    SelectorError(Seq<char>),
    RegexError(Seq<char>),
    SerdeError,
    IoError,
    GenericError(Seq<char>),
}

impl View for FicDataError {
    type V = FicDataErrorView;

    open spec fn view(&self) -> FicDataErrorView {
        match self {
            FicDataError::SelectorError(m) => FicDataErrorView::SelectorError(m@),
            FicDataError::RegexError(m) => FicDataErrorView::RegexError(m@),
            FicDataError::SerdeError(_) => FicDataErrorView::SerdeError,
            FicDataError::IoError(_) => FicDataErrorView::IoError,
            FicDataError::GenericError(m) => FicDataErrorView::GenericError(m@),
        }
    }
}

} // verus!
