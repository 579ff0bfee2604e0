//! The structured failure that a response carries in place of a result.
use vstd::prelude::*;

use crate::envelope::{lemma_names_differ, member_or_null};
use crate::error::{outcome, Error};
use crate::json::{
    json_as_i64, json_integer, json_of, members_of, no_members, object_get, object_insert,
    object_new, value_as_i64, value_as_object, value_as_str, value_from_i64, value_from_object,
    value_from_string, value_null, Json,
};
use serde_json::Value;

verus! {

/// A failure reported for a request.
#[derive(Debug, PartialEq, Eq)]
pub struct RpcError {
    pub code: i64,
    pub message: String,
    pub data: Value,
}

/// The content of an [`RpcError`].
pub ghost struct RpcErrorView {
    pub code: i64,
    pub message: Seq<char>,
    pub data: Json,
}

impl View for RpcError {
    type V = RpcErrorView;

    open spec fn view(&self) -> RpcErrorView {
        RpcErrorView { code: self.code, message: self.message@, data: json_of(self.data) }
    }
}

impl Clone for RpcError {
    fn clone(&self) -> (r: RpcError)
        ensures
            r@ == self@,
    {
        RpcError { code: self.code, message: self.message.clone(), data: self.data.clone() }
    }
}

/// The number under `code`, which must be there and be a whole number of 64
/// signed bits.
pub open spec fn code_of(members: Map<Seq<char>, Json>) -> Result<i64, Error> {
    if !members.contains_key("code"@) {
        Err(Error::ExpectedErrorCode)
    } else {
        match json_as_i64(members["code"@]) {
            Some(code) => Ok(code),
            None => Err(Error::ExpectedErrorCodeAsInteger),
        }
    }
}

/// The text under `message`, which must be there and be a string.
pub open spec fn message_of(members: Map<Seq<char>, Json>) -> Result<Seq<char>, Error> {
    if !members.contains_key("message"@) {
        Err(Error::ExpectedErrorMessage)
    } else {
        match members["message"@] {
            Json::String(text) => Ok(text),
            _ => Err(Error::ExpectedErrorCodeAsString),
        }
    }
}

impl RpcErrorView {
    /// The members of the encoded failure: `code`, `message` and `data`, all
    /// three always.
    pub open spec fn members(self) -> Map<Seq<char>, Json> {
        no_members().insert("code"@, json_integer(self.code as int)).insert(
            "message"@,
            Json::String(self.message),
        ).insert("data"@, self.data)
    }

    /// The document that carries this failure.
    pub open spec fn encode(self) -> Json {
        Json::Object(self.members())
    }

    /// The failure that a document carries. The checks are made in this
    /// order and the first that fails decides the error: the document is an
    /// object; `code`; `message`. A missing `data` counts as null.
    pub open spec fn decode(j: Json) -> Result<RpcErrorView, Error> {
        match j {
            Json::Object(members) => match (code_of(members), message_of(members)) {
                (Err(e), _) => Err(e),
                (_, Err(e)) => Err(e),
                (Ok(code), Ok(message)) => Ok(
                    RpcErrorView { code, message, data: member_or_null(members, "data"@) },
                ),
            },
            _ => Err(Error::UnexpectedErrorVariant),
        }
    }

    /// Decoding what was encoded gives the failure back.
    pub proof fn lemma_round_trip(self)
        ensures
            RpcErrorView::decode(self.encode()) == Ok::<RpcErrorView, Error>(self),
    {
        lemma_names_differ();
    }

    /// The encoded failure has `code`, `message` and `data`, whatever the
    /// failure holds.
    pub proof fn lemma_all_members_emitted(self)
        ensures
            self.members().contains_key("code"@),
            self.members().contains_key("message"@),
            self.members().contains_key("data"@),
            self.members()["data"@] == self.data,
    {
        lemma_names_differ();
    }

    /// The failure with which an expired request is answered.
    pub open spec fn timeout() -> RpcErrorView {
        RpcErrorView { code: -1i64, message: "response timeout"@, data: Json::Null }
    }
}

impl RpcError {
    /// The failure with which an expired request is answered: code `-1`,
    /// message `response timeout`, no data.
    pub fn timeout() -> (r: RpcError)
        ensures
            r@ == RpcErrorView::timeout(),
    {
        RpcError { code: -1, message: "response timeout".to_owned(), data: value_null() }
    }

    /// The text that describes the failure: its message.
    pub fn describe(&self) -> (r: String)
        ensures
            r@ == self.message@,
    {
        self.message.clone()
    }

    /// Encodes the failure as a document.
    pub fn to_value(&self) -> (r: Value)
        ensures
            json_of(r) == self@.encode(),
    {
        let mut members = object_new();
        object_insert(&mut members, "code".to_owned(), value_from_i64(self.code));
        object_insert(&mut members, "message".to_owned(), value_from_string(self.message.clone()));
        object_insert(&mut members, "data".to_owned(), self.data.clone());
        value_from_object(members)
    }

    /// Reads the failure that a document carries.
    pub fn try_from(value: &Value) -> (r: Result<RpcError, Error>)
        ensures
            outcome(r) == RpcErrorView::decode(json_of(*value)),
    {
        let members = match value_as_object(value) {
            Some(members) => members,
            None => { return Err(Error::UnexpectedErrorVariant); },
        };
        let code = match object_get(members, "code") {
            None => { return Err(Error::ExpectedErrorCode); },
            Some(code) => match value_as_i64(code) {
                Some(code) => code,
                None => { return Err(Error::ExpectedErrorCodeAsInteger); },
            },
        };
        let message = match object_get(members, "message") {
            None => { return Err(Error::ExpectedErrorMessage); },
            Some(message) => match value_as_str(message) {
                Some(text) => text.to_owned(),
                None => { return Err(Error::ExpectedErrorCodeAsString); },
            },
        };
        let data = match object_get(members, "data") {
            Some(data) => data.clone(),
            None => value_null(),
        };
        Ok(RpcError { code, message, data })
    }
}

} // verus!
