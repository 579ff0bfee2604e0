//! The reasons for which a document is refused as a message.
use vstd::prelude::*;

verus! {

/// Why a document could not be read as the message that was asked for.
///
/// Each variant names one defect; none carries a payload.
#[derive(Debug, Clone, Copy, PartialEq, Eq, Structural)]
pub enum Error {
    /// An identifier that is neither a string nor a number.
    UnexpectedIdVariant,
    /// Parameters that are neither an array, an object nor null.
    UnexpectedParamsVariant,
    /// A request or notification that is not an object.
    UnexpectedRequestVariant,
    /// A numeric identifier that is not a whole number of 64 signed bits.
    InvalidNumberCast,
    /// No `jsonrpc` member.
    JsonRpcVersionNotFound,
    /// A `jsonrpc` member other than the string `2.0`.
    InvalidJsonRpcVersion,
    /// No `id` member.
    ExpectedId,
    /// No `method` member.
    ExpectedMethod,
    /// A `method` member that is not a string.
    InvalidMethodVariant,
    /// Kept for callers that match on it; no decoder returns it.
    UnexpectedNotificationVariant,
    /// An error object that is not an object.
    UnexpectedErrorVariant,
    /// No `code` member.
    ExpectedErrorCode,
    /// A `code` member that is not a whole number of 64 signed bits.
    ExpectedErrorCodeAsInteger,
    /// No `message` member.
    ExpectedErrorMessage,
    /// A `message` member that is not a string. Despite its name, the member
    /// that this is about is `message`, not `code`.
    ExpectedErrorCodeAsString,
    /// A response that is not an object.
    UnexpectedResponseVariant,
    /// A response with both `result` and `error`, or with neither.
    ResponseExpectsResultOrError,
}

impl Error {
    /// The name of the defect: that of its variant.
    pub open spec fn name(self) -> Seq<char> {
        match self {
            Error::UnexpectedIdVariant => "UnexpectedIdVariant"@,
            Error::UnexpectedParamsVariant => "UnexpectedParamsVariant"@,
            Error::UnexpectedRequestVariant => "UnexpectedRequestVariant"@,
            Error::InvalidNumberCast => "InvalidNumberCast"@,
            Error::JsonRpcVersionNotFound => "JsonRpcVersionNotFound"@,
            Error::InvalidJsonRpcVersion => "InvalidJsonRpcVersion"@,
            Error::ExpectedId => "ExpectedId"@,
            Error::ExpectedMethod => "ExpectedMethod"@,
            Error::InvalidMethodVariant => "InvalidMethodVariant"@,
            Error::UnexpectedNotificationVariant => "UnexpectedNotificationVariant"@,
            Error::UnexpectedErrorVariant => "UnexpectedErrorVariant"@,
            Error::ExpectedErrorCode => "ExpectedErrorCode"@,
            Error::ExpectedErrorCodeAsInteger => "ExpectedErrorCodeAsInteger"@,
            Error::ExpectedErrorMessage => "ExpectedErrorMessage"@,
            Error::ExpectedErrorCodeAsString => "ExpectedErrorCodeAsString"@,
            Error::UnexpectedResponseVariant => "UnexpectedResponseVariant"@,
            Error::ResponseExpectsResultOrError => "ResponseExpectsResultOrError"@,
        }
    }

    /// The text that describes the defect: its name.
    pub fn describe(&self) -> (r: String)
        ensures
            r@ == self.name(),
    {
        let name = match self {
            Error::UnexpectedIdVariant => "UnexpectedIdVariant",
            Error::UnexpectedParamsVariant => "UnexpectedParamsVariant",
            Error::UnexpectedRequestVariant => "UnexpectedRequestVariant",
            Error::InvalidNumberCast => "InvalidNumberCast",
            Error::JsonRpcVersionNotFound => "JsonRpcVersionNotFound",
            Error::InvalidJsonRpcVersion => "InvalidJsonRpcVersion",
            Error::ExpectedId => "ExpectedId",
            Error::ExpectedMethod => "ExpectedMethod",
            Error::InvalidMethodVariant => "InvalidMethodVariant",
            Error::UnexpectedNotificationVariant => "UnexpectedNotificationVariant",
            Error::UnexpectedErrorVariant => "UnexpectedErrorVariant",
            Error::ExpectedErrorCode => "ExpectedErrorCode",
            Error::ExpectedErrorCodeAsInteger => "ExpectedErrorCodeAsInteger",
            Error::ExpectedErrorMessage => "ExpectedErrorMessage",
            Error::ExpectedErrorCodeAsString => "ExpectedErrorCodeAsString",
            Error::UnexpectedResponseVariant => "UnexpectedResponseVariant",
            Error::ResponseExpectsResultOrError => "ResponseExpectsResultOrError",
        };
        name.to_owned()
    }
}

/// What a decoder returned, with the decoded message taken by its view.
pub open spec fn outcome<T: View>(r: Result<T, Error>) -> Result<T::V, Error> {
    match r {
        Ok(message) => Ok(message@),
        Err(e) => Err(e),
    }
}

} // verus!
