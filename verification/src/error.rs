//! The error type shared by the header parser and the grid decoder.
use vstd::prelude::*;
use vstd::string::StringExecFns;

use crate::datetime::CivilDateTime;

verus! {

/// Why a file could not be read.
#[derive(Debug, Clone, PartialEq, Eq)]
pub enum RapReaderError {
    /// The bytes do not follow the layout; the text says where and why.
    Unexpected(String),
    /// The file could not be opened.
    Open(String),
    /// The data index announces a number of observations other than 24 or 48.
    ObservationIntervalUnsupported(u32),
    /// The grid definition names a map type other than the latitude/longitude grid.
    MapTypeUnsupported(u16),
    /// The compression table names a method other than run-length coding.
    CompressionMethodUnsupported(u16),
    /// The data index holds no observation for the requested date and time.
    DataDoesNotRecorded(CivilDateTime),
}

/// The result of an operation that may fail with a [`RapReaderError`].
pub type RapReaderResult<T> = Result<T, RapReaderError>;

/// A [`RapReaderError`] with its texts as sequences of characters.
pub enum RapReaderErrorView {
    Unexpected(Seq<char>),
    Open(Seq<char>),
    ObservationIntervalUnsupported(u32),
    MapTypeUnsupported(u16),
    CompressionMethodUnsupported(u16),
    DataDoesNotRecorded(CivilDateTime),
}

impl View for RapReaderError {
    type V = RapReaderErrorView;

    open spec fn view(&self) -> RapReaderErrorView {
        match self {
            RapReaderError::Unexpected(text) => RapReaderErrorView::Unexpected(text@),
            RapReaderError::Open(text) => RapReaderErrorView::Open(text@),
            RapReaderError::ObservationIntervalUnsupported(count) =>
                RapReaderErrorView::ObservationIntervalUnsupported(*count),
            RapReaderError::MapTypeUnsupported(code) => RapReaderErrorView::MapTypeUnsupported(
                *code,
            ),
            RapReaderError::CompressionMethodUnsupported(code) =>
                RapReaderErrorView::CompressionMethodUnsupported(*code),
            RapReaderError::DataDoesNotRecorded(date_time) =>
                RapReaderErrorView::DataDoesNotRecorded(*date_time),
        }
    }
}

/// The layout violation described by `text`.
pub open spec fn unexpected(text: &str) -> RapReaderErrorView {
    RapReaderErrorView::Unexpected(text@)
}

/// The layout violation `cause` as it is met while `context` goes on: the
/// text of the violation follows that of the context. Another error stays
/// as it is.
pub open spec fn within(context: &str, cause: RapReaderErrorView) -> RapReaderErrorView {
    match cause {
        RapReaderErrorView::Unexpected(text) => RapReaderErrorView::Unexpected(context@ + text),
        other => other,
    }
}

impl RapReaderError {
    /// Builds the error for a layout violation described by `text`.
    pub fn unexpected(text: &str) -> (error: RapReaderError)
        ensures
            error@ == unexpected(text),
    {
        RapReaderError::Unexpected(String::from_str(text))
    }

    /// Puts the text of `context` in front of that of a layout violation.
    pub fn within(context: &str, cause: RapReaderError) -> (error: RapReaderError)
        ensures
            error@ == within(context, cause@),
    {
        match cause {
            RapReaderError::Unexpected(text) => RapReaderError::Unexpected(
                String::from_str(context).concat(text.as_str()),
            ),
            other => other,
        }
    }
}

} // verus!
