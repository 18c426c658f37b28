//! The error type shared by every readout, and its mathematical model.

use vstd::prelude::*;

verus! {

/// Why a fact could not be read out.
#[derive(Debug, PartialEq, Eq)]
pub enum ReadoutError {
    /// The file or stream that carries the fact could not be read.
    IoFailure,
    /// The text was read but is not a value of the expected type.
    ParseFailure { raw: String, source: String, target: String },
    /// The text was read but is none of the recognised values.
    UnexpectedValue { raw: String, source: String },
    /// The native call that provides the fact failed.
    SyscallFailure,
    /// Anything else, with a message.
    Other(String),
}

/// A `ReadoutError` with every string replaced by its characters.
pub enum ErrorModel {
    IoFailure,
    ParseFailure { raw: Seq<char>, source: Seq<char>, target: Seq<char> },
    UnexpectedValue { raw: Seq<char>, source: Seq<char> },
    SyscallFailure,
    Other(Seq<char>),
}

impl View for ReadoutError {
    type V = ErrorModel;

    open spec fn view(&self) -> ErrorModel {
        match *self {
            ReadoutError::IoFailure => ErrorModel::IoFailure,
            ReadoutError::ParseFailure { raw, source, target } => ErrorModel::ParseFailure {
                raw: raw@,
                source: source@,
                target: target@,
            },
            ReadoutError::UnexpectedValue { raw, source } => ErrorModel::UnexpectedValue {
                raw: raw@,
                source: source@,
            },
            ReadoutError::SyscallFailure => ErrorModel::SyscallFailure,
            ReadoutError::Other(message) => ErrorModel::Other(message@),
        }
    }
}

/// The model of a result that carries a plain value.
pub open spec fn value_result<T>(r: Result<T, ReadoutError>) -> Result<T, ErrorModel> {
    match r {
        Ok(v) => Ok(v),
        Err(e) => Err(e@),
    }
}

/// The model of a result that carries a string.
pub open spec fn text_result(r: Result<String, ReadoutError>) -> Result<Seq<char>, ErrorModel> {
    match r {
        Ok(s) => Ok(s@),
        Err(e) => Err(e@),
    }
}

impl ReadoutError {
    /// A parse failure for the text `raw` read from `source`, which was
    /// expected to be a value of type `target`.
    pub fn parse_failure(raw: &Vec<char>, source: &str, target: &str) -> (e: ReadoutError)
        ensures
            e@ == (ErrorModel::ParseFailure { raw: raw@, source: source@, target: target@ }),
    {
        ReadoutError::ParseFailure {
            raw: crate::text::string_of(raw),
            source: source.to_owned(),
            target: target.to_owned(),
        }
    }

    /// An unexpected-value failure for the text `raw` read from `source`.
    pub fn unexpected_value(raw: &Vec<char>, source: &str) -> (e: ReadoutError)
        ensures
            e@ == (ErrorModel::UnexpectedValue { raw: raw@, source: source@ }),
    {
        ReadoutError::UnexpectedValue { raw: crate::text::string_of(raw), source: source.to_owned() }
    }

    /// A failure of any other kind, with its message.
    pub fn other(message: &str) -> (e: ReadoutError)
        ensures
            e@ == ErrorModel::Other(message@),
    {
        ReadoutError::Other(message.to_owned())
    }
}

} // verus!
