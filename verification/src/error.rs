//! Error taxonomy for the invocation and transcoding core.
//!
//! Every condition is local and recoverable by the caller; nothing here is
//! retried automatically.

use vstd::prelude::*;

verus! {

/// Spec-level model of [`Error`]: strings are modelled as character sequences.
pub enum ErrorModel {
    /// The requested method name is not declared by the interface descriptor.
    UnknownMethod { name: Seq<char> },
    /// The number of supplied arguments differs from the declared parameter count.
    ArityMismatch { expected: nat, actual: nat },
    /// One textual argument could not be parsed as its declared type.
    ArgumentDecodeError { index: nat, expected_type: Seq<char>, raw_value: Seq<char> },
    /// Returned bytes did not decode against the declared return type.
    DecodeError,
    /// Returned bytes decoded but left unconsumed trailing bytes.
    TrailingDataError,
    /// The secret URI for the signing key could not be parsed.
    SecretParseError,
    /// A textual account identifier was malformed.
    IdentifierParseError,
    /// A transferred value does not fit the narrower simulated-call wire width.
    ValueRangeError,
    /// The RPC transport failed.
    RpcError { detail: Seq<char> },
    /// The extrinsic was rejected or its dispatch failed.
    SubmissionError { detail: Seq<char> },
    /// An interface descriptor broke its own invariants at load time.
    InvalidDescriptor,
}

/// An error raised while constructing, sending or interpreting one invocation.
#[derive(Debug, PartialEq, Eq)]
pub enum Error {
    /// The requested method name is not declared by the interface descriptor.
    UnknownMethod { name: String },
    /// The number of supplied arguments differs from the declared parameter count.
    ArityMismatch { expected: usize, actual: usize },
    /// One textual argument could not be parsed as its declared type.
    ArgumentDecodeError { index: usize, expected_type: String, raw_value: String },
    /// Returned bytes did not decode against the declared return type.
    DecodeError,
    /// Returned bytes decoded but left unconsumed trailing bytes.
    TrailingDataError,
    /// The secret URI for the signing key could not be parsed.
    SecretParseError,
    /// A textual account identifier was malformed.
    IdentifierParseError,
    /// A transferred value does not fit the narrower simulated-call wire width.
    ValueRangeError,
    /// The RPC transport failed.
    RpcError { detail: String },
    /// The extrinsic was rejected or its dispatch failed.
    SubmissionError { detail: String },
    /// An interface descriptor broke its own invariants at load time.
    InvalidDescriptor,
}

impl DeepView for Error {
    type V = ErrorModel;

    open spec fn deep_view(&self) -> ErrorModel {
        match self {
            Error::UnknownMethod { name } => ErrorModel::UnknownMethod { name: name@ },
            Error::ArityMismatch { expected, actual } => ErrorModel::ArityMismatch {
                expected: *expected as nat,
                actual: *actual as nat,
            },
            Error::ArgumentDecodeError { index, expected_type, raw_value } => {
                ErrorModel::ArgumentDecodeError {
                    index: *index as nat,
                    expected_type: expected_type@,
                    raw_value: raw_value@,
                }
            },
            Error::DecodeError => ErrorModel::DecodeError,
            Error::TrailingDataError => ErrorModel::TrailingDataError,
            Error::SecretParseError => ErrorModel::SecretParseError,
            Error::IdentifierParseError => ErrorModel::IdentifierParseError,
            Error::ValueRangeError => ErrorModel::ValueRangeError,
            Error::RpcError { detail } => ErrorModel::RpcError { detail: detail@ },
            Error::SubmissionError { detail } => ErrorModel::SubmissionError { detail: detail@ },
            Error::InvalidDescriptor => ErrorModel::InvalidDescriptor,
        }
    }
}

} // verus!
