//! The errors of the library.

use crate::path::Path;
use crate::value::{Value, ValueView};
use vstd::prelude::*;

verus! {

/// What was wrong with a file's text, or with a value that a format cannot
/// express.
#[derive(Debug, Clone, Copy, PartialEq, Eq, Structural)]
pub enum Fault {
    /// The text is not a document of the format.
    Syntax,
    /// A mapping has a key that is not a string.
    NonStringKey,
    /// The format has no "not a number".
    Nan,
    /// The format has no infinity.
    Infinite,
    /// The format has no null.
    Null,
    /// The format's encoder gave up on the value.
    Encoding,
    /// A whole number is too great for the crate that reads and writes the
    /// format.
    NumberTooGreat,
    /// A comment is opened and never closed.
    CommentNotClosed,
    /// A string in three quotes starts a line.
    QuotesLeadLine,
}

/// Why a file's text could not be had.
#[derive(Debug, PartialEq)]
pub enum ReadFailure {
    /// There is no such file.
    NotFound,
    /// Any other failure, with what the system said of it.
    Other(String),
}

/// A [`ReadFailure`] with its text as a sequence of characters.
pub enum ReadFailureView {
    NotFound,
    Other(Seq<char>),
}

impl View for ReadFailure {
    type V = ReadFailureView;

    open spec fn view(&self) -> ReadFailureView {
        match self {
            ReadFailure::NotFound => ReadFailureView::NotFound,
            ReadFailure::Other(said) => ReadFailureView::Other(said@),
        }
    }
}

/// Every way in which an operation of this library fails.
#[derive(Debug, PartialEq)]
pub enum Error {
    /// The schema has no node at the path.
    SchemaNotFound { path: Path },
    /// The value read from a file has nothing at the rest of the path.
    ValueNotFound { path: Path },
    /// A directory of the schema was given a value that is not an object.
    ExpectedObjectForDirectory { path: Path },
    /// The value does not describe a schema.
    InvalidSchema { value: Value },
    /// The file at `path` could not be read.
    ReadSource { path: String, cause: ReadFailure },
    /// The text of the file at `path` could not be turned into a value.
    /// `detail` holds what the format's parser said, if it said anything.
    Deserialize { path: String, fault: Fault, detail: String },
    /// The value meant for the file at `path` could not be turned into text.
    /// `detail` holds what the format's encoder said, if it said anything.
    Serialize { path: String, fault: Fault, detail: String },
}

/// An [`Error`] without the wording of an outside parser or encoder.
pub enum ErrorView {
    SchemaNotFound { path: Seq<Seq<char>> },
    ValueNotFound { path: Seq<Seq<char>> },
    ExpectedObjectForDirectory { path: Seq<Seq<char>> },
    InvalidSchema { value: ValueView },
    ReadSource { path: Seq<char>, cause: ReadFailureView },
    Deserialize { path: Seq<char>, fault: Fault },
    Serialize { path: Seq<char>, fault: Fault },
}

impl View for Error {
    type V = ErrorView;

    open spec fn view(&self) -> ErrorView {
        match self {
            Error::SchemaNotFound { path } => ErrorView::SchemaNotFound { path: path@ },
            Error::ValueNotFound { path } => ErrorView::ValueNotFound { path: path@ },
            Error::ExpectedObjectForDirectory { path } => ErrorView::ExpectedObjectForDirectory {
                path: path@,
            },
            Error::InvalidSchema { value } => ErrorView::InvalidSchema { value: value@ },
            Error::ReadSource { path, cause } => ErrorView::ReadSource {
                path: path@,
                cause: cause@,
            },
            Error::Deserialize { path, fault, detail } => ErrorView::Deserialize {
                path: path@,
                fault: *fault,
            },
            Error::Serialize { path, fault, detail } => ErrorView::Serialize {
                path: path@,
                fault: *fault,
            },
        }
    }
}

impl Error {
    /// The error carries wording only where an outside parser or encoder
    /// reported it: where the library found the fault itself, `detail` is
    /// empty.
    pub open spec fn worded_by_outside(self) -> bool {
        match self {
            Error::Deserialize { path, fault, detail } => fault != Fault::Syntax ==> detail@.len()
                == 0,
            Error::Serialize { path, fault, detail } => fault != Fault::Encoding ==> detail@.len()
                == 0,
            _ => true,
        }
    }
}

/// A result as contracts speak of it: both sides by their views.
pub open spec fn outcome<T: View, E: View>(result: Result<T, E>) -> Result<T::V, E::V> {
    match result {
        Ok(value) => Ok(value@),
        Err(error) => Err(error@),
    }
}

} // verus!
