//! The failures that analysis and the kernels report.

use vstd::prelude::*;

verus! {

/// What went wrong, by kind, with a message for the caller.
#[derive(Clone, Debug, PartialEq)]
pub enum Error {
    /// The `geo` entry of a table is malformed, or a spatial call names no
    /// column of a table that has one.
    ParquetMetadata(String),
    /// The operation is known and not provided: a geometry variant, a layout
    /// or a producer call that the kernels do not cover.
    NotImplemented(String),
    /// The input cannot be used as given: a data type that does not fit the
    /// declared encoding, a tag that is no constant text, bytes that are no
    /// well-known binary.
    Internal(String),
}

/// The kind of an [`Error`], without its message.
#[derive(PartialEq, Eq, Structural, Clone, Copy, Debug)]
pub enum ErrorKind {
    ParquetMetadata,
    NotImplemented,
    Internal,
}

impl Error {
    /// The kind of the error.
    pub open spec fn kind(&self) -> ErrorKind {
        match self {
            Error::ParquetMetadata(_) => ErrorKind::ParquetMetadata,
            Error::NotImplemented(_) => ErrorKind::NotImplemented,
            Error::Internal(_) => ErrorKind::Internal,
        }
    }

    /// The message of the error.
    pub open spec fn message(&self) -> Seq<char> {
        match self {
            Error::ParquetMetadata(m) => m@,
            Error::NotImplemented(m) => m@,
            Error::Internal(m) => m@,
        }
    }

    /// The kind of the error.
    pub fn error_kind(&self) -> (k: ErrorKind)
        ensures
            k == self.kind(),
    {
        match self {
            Error::ParquetMetadata(_) => ErrorKind::ParquetMetadata,
            Error::NotImplemented(_) => ErrorKind::NotImplemented,
            Error::Internal(_) => ErrorKind::Internal,
        }
    }

    /// The message of the error.
    pub fn to_text(&self) -> (m: String)
        ensures
            m@ == self.message(),
    {
        match self {
            Error::ParquetMetadata(m) => m.clone(),
            Error::NotImplemented(m) => m.clone(),
            Error::Internal(m) => m.clone(),
        }
    }
}

} // verus!
