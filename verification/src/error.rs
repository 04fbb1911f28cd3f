use vstd::prelude::*;

verus! {

/// Why a numeric code of the reflection layer could not be translated.
#[derive(Debug, Clone, Copy, PartialEq, Eq)]
pub enum ConvertError {
    /// A format code that the format table has no entry for.
    UnknownFormat,
    /// A resource-type or image-dimension code that the descriptor table has no entry for.
    UnknownType,
}

/// Why reflecting a module failed.
#[derive(Debug, Clone, PartialEq, Eq)]
pub enum Error {
    /// The parser could not read the module, or could not list what it declares; holds
    /// the diagnostic message of the parser.
    LoadingData(String),
    /// A code found in the module has no translation.
    Layout(ConvertError),
}

/// An [`Error`] with its message as a sequence of characters.
pub enum ErrorView {
    LoadingData(Seq<char>),
    Layout(ConvertError),
}

impl View for Error {
    type V = ErrorView;

    open spec fn view(&self) -> ErrorView {
        match *self {
            Error::LoadingData(message) => ErrorView::LoadingData(message@),
            Error::Layout(e) => ErrorView::Layout(e),
        }
    }
}

} // verus!
