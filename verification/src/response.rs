//! The reply to a request.
use vstd::prelude::*;

use crate::envelope::{check_version, id_of, lemma_names_differ, read_id, version, version_check};
use crate::error::{outcome, Error};
use crate::id::{Id, IdView};
use crate::json::{
    json_of, members_of, no_members, object_get, object_insert, object_new, value_as_object,
    value_from_object, value_from_string, Json,
};
use crate::rpc_error::{RpcError, RpcErrorView};
use serde_json::Value;

verus! {

/// The reply to the request with the same `id`: a result or a failure.
#[derive(Debug, PartialEq, Eq)]
pub struct Response {
    pub id: Id,
    pub result: Result<Value, RpcError>,
}

/// The content of a [`Response`].
pub ghost struct ResponseView {
    pub id: IdView,
    pub result: Result<Json, RpcErrorView>,
}

/// The content of what a request was answered with.
pub open spec fn reply_of(result: Result<Value, RpcError>) -> Result<Json, RpcErrorView> {
    match result {
        Ok(value) => Ok(json_of(value)),
        Err(failure) => Err(failure@),
    }
}

impl View for Response {
    type V = ResponseView;

    open spec fn view(&self) -> ResponseView {
        ResponseView { id: self.id@, result: reply_of(self.result) }
    }
}

impl Clone for Response {
    fn clone(&self) -> (r: Response)
        ensures
            r@ == self@,
    {
        let result = match &self.result {
            Ok(value) => Ok(value.clone()),
            Err(failure) => Err(failure.clone()),
        };
        Response { id: self.id.clone(), result }
    }
}

/// The failure under `error`, where the object has that member.
pub open spec fn failure_of(members: Map<Seq<char>, Json>) -> Result<Option<RpcErrorView>, Error> {
    if !members.contains_key("error"@) {
        Ok(None)
    } else {
        match RpcErrorView::decode(members["error"@]) {
            Ok(failure) => Ok(Some(failure)),
            Err(e) => Err(e),
        }
    }
}

/// What a response was answered with: `result` or `error`, exactly one of
/// which must be there. An `error` member that is no failure is reported
/// before the count of the two is.
pub open spec fn reply_in(members: Map<Seq<char>, Json>) -> Result<
    Result<Json, RpcErrorView>,
    Error,
> {
    match failure_of(members) {
        Err(e) => Err(e),
        Ok(Some(failure)) => if members.contains_key("result"@) {
            Err(Error::ResponseExpectsResultOrError)
        } else {
            Ok(Err(failure))
        },
        Ok(None) => if members.contains_key("result"@) {
            Ok(Ok(members["result"@]))
        } else {
            Err(Error::ResponseExpectsResultOrError)
        },
    }
}

impl ResponseView {
    /// The members of the encoded response: `jsonrpc` and `id` always, and
    /// either `result` or `error`.
    pub open spec fn members(self) -> Map<Seq<char>, Json> {
        let fixed = no_members().insert("jsonrpc"@, Json::String(version())).insert(
            "id"@,
            self.id.encode(),
        );
        match self.result {
            Ok(value) => fixed.insert("result"@, value),
            Err(failure) => fixed.insert("error"@, failure.encode()),
        }
    }

    /// The document that carries this response.
    pub open spec fn encode(self) -> Json {
        Json::Object(self.members())
    }

    /// The response that a document carries. The checks are made in this
    /// order and the first that fails decides the error: the document is an
    /// object; the version marker; `result` and `error`; `id`.
    pub open spec fn decode(j: Json) -> Result<ResponseView, Error> {
        match j {
            Json::Object(members) => match (
                version_check(members),
                reply_in(members),
                id_of(members),
            ) {
                (Err(e), _, _) => Err(e),
                (_, Err(e), _) => Err(e),
                (_, _, Err(e)) => Err(e),
                (Ok(_), Ok(result), Ok(id)) => Ok(ResponseView { id, result }),
            },
            _ => Err(Error::UnexpectedResponseVariant),
        }
    }

    /// Decoding what was encoded gives the response back.
    pub proof fn lemma_round_trip(self)
        ensures
            ResponseView::decode(self.encode()) == Ok::<ResponseView, Error>(self),
    {
        lemma_names_differ();
        self.id.lemma_round_trip();
        match self.result {
            Ok(_) => {},
            Err(failure) => {
                failure.lemma_round_trip();
            },
        }
    }

    /// The encoded response has exactly one of `result` and `error`.
    pub proof fn lemma_one_outcome(self)
        ensures
            self.members().contains_key("result"@) <==> self.result is Ok,
            self.members().contains_key("error"@) <==> self.result is Err,
            self.members().contains_key("jsonrpc"@),
            self.members().contains_key("id"@),
    {
        lemma_names_differ();
    }
}

impl Response {
    /// Encodes the response as a document.
    pub fn to_value(&self) -> (r: Value)
        ensures
            json_of(r) == self@.encode(),
    {
        let mut members = object_new();
        object_insert(&mut members, "jsonrpc".to_owned(), value_from_string("2.0".to_owned()));
        object_insert(&mut members, "id".to_owned(), self.id.to_value());
        match &self.result {
            Ok(value) => {
                object_insert(&mut members, "result".to_owned(), value.clone());
            },
            Err(failure) => {
                object_insert(&mut members, "error".to_owned(), failure.to_value());
            },
        }
        value_from_object(members)
    }

    /// Reads the response that a document carries.
    pub fn try_from(value: &Value) -> (r: Result<Response, Error>)
        ensures
            outcome(r) == ResponseView::decode(json_of(*value)),
    {
        let members = match value_as_object(value) {
            Some(members) => members,
            None => { return Err(Error::UnexpectedResponseVariant); },
        };
        match check_version(members) {
            Err(e) => { return Err(e); },
            Ok(_) => {},
        }
        let failure = match object_get(members, "error") {
            None => None,
            Some(failure) => match RpcError::try_from(failure) {
                Err(e) => { return Err(e); },
                Ok(failure) => Some(failure),
            },
        };
        let result = match (object_get(members, "result"), failure) {
            (Some(value), None) => Ok(value.clone()),
            (None, Some(failure)) => Err(failure),
            _ => { return Err(Error::ResponseExpectsResultOrError); },
        };
        let id = match read_id(members) {
            Err(e) => { return Err(e); },
            Ok(id) => id,
        };
        Ok(Response { id, result })
    }
}

} // verus!
