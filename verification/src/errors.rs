//! The failures of a channel, and the text each one prints.

use vstd::prelude::*;
use vstd::string::StringExecFns;
use crate::text::{decimal, decimal_string};

verus! {

/// Why a channel operation failed.
///
/// The two sizes of each variant are the size that was expected and the size
/// that was met.
#[derive(Debug, Clone, PartialEq, Eq)]
pub enum DbShmError {
    /// An encoded payload did not have the fixed segment size.
    InvalidSize(usize, usize),
    /// The codec could not encode an array; the text is the codec's own.
    SerializationError(String, usize, usize),
    /// The codec could not decode a segment; the text is the codec's own.
    DeserializationError(String, usize, usize),
}

/// What a [`DbShmError`] holds, as mathematical values.
pub enum ErrorModel {
    InvalidSize(nat, nat),
    SerializationError(Seq<char>, nat, nat),
    DeserializationError(Seq<char>, nat, nat),
}

impl ErrorModel {
    /// The text that the error prints.
    pub open spec fn message(self) -> Seq<char> {
        match self {
            ErrorModel::InvalidSize(expected, actual) => "Invalid size provided. Expected: "@
                + decimal(expected) + ", Actual: "@ + decimal(actual),
            ErrorModel::SerializationError(msg, expected, actual) => "Serialization error: "@ + msg
                + ". Expected size: "@ + decimal(expected) + ", Actual size: "@ + decimal(actual),
            ErrorModel::DeserializationError(msg, expected, actual) => "Deserialization error: "@
                + msg + ". Expected size: "@ + decimal(expected) + ", Actual size: "@ + decimal(
                actual,
            ),
        }
    }
}

impl View for DbShmError {
    type V = ErrorModel;

    open spec fn view(&self) -> ErrorModel {
        match self {
            DbShmError::InvalidSize(expected, actual) => ErrorModel::InvalidSize(
                *expected as nat,
                *actual as nat,
            ),
            DbShmError::SerializationError(msg, expected, actual) => ErrorModel::SerializationError(
                msg@,
                *expected as nat,
                *actual as nat,
            ),
            DbShmError::DeserializationError(msg, expected, actual) => {
                ErrorModel::DeserializationError(msg@, *expected as nat, *actual as nat)
            },
        }
    }
}

/// `head`, then `expected` in decimal, then `middle`, then `actual` in decimal.
fn with_sizes(head: String, middle: &str, expected: usize, actual: usize) -> (s: String)
    ensures
        s@ == head@ + decimal(expected as nat) + middle@ + decimal(actual as nat),
{
    let mut s = head;
    let e = decimal_string(expected);
    s.append(e.as_str());
    s.append(middle);
    let a = decimal_string(actual);
    s.append(a.as_str());
    s
}

impl DbShmError {
    /// The text of the error, for a reader.
    pub fn to_string(&self) -> (s: String)
        ensures
            s@ == self@.message(),
    {
        match self {
            DbShmError::InvalidSize(expected, actual) => {
                let head = String::from_str("Invalid size provided. Expected: ");
                with_sizes(head, ", Actual: ", *expected, *actual)
            },
            DbShmError::SerializationError(msg, expected, actual) => {
                let mut head = String::from_str("Serialization error: ");
                head.append(msg.as_str());
                head.append(". Expected size: ");
                with_sizes(head, ", Actual size: ", *expected, *actual)
            },
            DbShmError::DeserializationError(msg, expected, actual) => {
                let mut head = String::from_str("Deserialization error: ");
                head.append(msg.as_str());
                head.append(". Expected size: ");
                with_sizes(head, ", Actual size: ", *expected, *actual)
            },
        }
    }
}

} // verus!
