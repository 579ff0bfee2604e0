//! A call that expects a reply.
use vstd::prelude::*;

use crate::envelope::{
    check_version, id_of, lemma_names_differ, method_of, params_of, read_id, read_method,
    read_params, version, version_check,
};
use crate::error::{outcome, Error};
use crate::id::{Id, IdView};
use crate::json::{
    json_of, members_of, no_members, object_insert, object_new, value_as_object,
    value_from_object, value_from_string, value_is_null, Json,
};
use crate::params::{Params, ParamsView};
use serde_json::Value;

verus! {

/// A call that expects a reply under its `id`.
#[derive(Debug, PartialEq, Eq)]
pub struct Request {
    pub id: Id,
    pub method: String,
    pub params: Params,
}

/// The content of a [`Request`].
pub ghost struct RequestView {
    pub id: IdView,
    pub method: Seq<char>,
    pub params: ParamsView,
}

impl View for Request {
    type V = RequestView;

    open spec fn view(&self) -> RequestView {
        RequestView { id: self.id@, method: self.method@, params: self.params@ }
    }
}

impl Clone for Request {
    fn clone(&self) -> (r: Request)
        ensures
            r@ == self@,
    {
        Request { id: self.id.clone(), method: self.method.clone(), params: self.params.clone() }
    }
}

impl RequestView {
    /// The members of the encoded request: `jsonrpc`, `method` and `id`
    /// always, `params` unless the arguments are absent.
    pub open spec fn members(self) -> Map<Seq<char>, Json> {
        let fixed = no_members().insert("jsonrpc"@, Json::String(version())).insert(
            "method"@,
            Json::String(self.method),
        );
        let with_params = if self.params is Null {
            fixed
        } else {
            fixed.insert("params"@, self.params.encode())
        };
        with_params.insert("id"@, self.id.encode())
    }

    /// The document that carries this request.
    pub open spec fn encode(self) -> Json {
        Json::Object(self.members())
    }

    /// The request that a document carries. The checks are made in this
    /// order and the first that fails decides the error: the document is an
    /// object; the version marker; `id`; `method`; `params`.
    pub open spec fn decode(j: Json) -> Result<RequestView, Error> {
        match j {
            Json::Object(members) => match (
                version_check(members),
                id_of(members),
                method_of(members),
                params_of(members),
            ) {
                (Err(e), _, _, _) => Err(e),
                (_, Err(e), _, _) => Err(e),
                (_, _, Err(e), _) => Err(e),
                (_, _, _, Err(e)) => Err(e),
                (Ok(_), Ok(id), Ok(method), Ok(params)) => Ok(RequestView { id, method, params }),
            },
            _ => Err(Error::UnexpectedRequestVariant),
        }
    }

    /// Decoding what was encoded gives the request back.
    pub proof fn lemma_round_trip(self)
        ensures
            RequestView::decode(self.encode()) == Ok::<RequestView, Error>(self),
    {
        lemma_names_differ();
        self.id.lemma_round_trip();
        self.params.lemma_round_trip();
    }

    /// The encoded request has a `params` member exactly if it has
    /// arguments; `jsonrpc`, `method` and `id` are always there.
    pub proof fn lemma_params_omitted_when_absent(self)
        ensures
            self.members().contains_key("params"@) <==> !(self.params is Null),
            self.members().contains_key("jsonrpc"@),
            self.members().contains_key("method"@),
            self.members().contains_key("id"@),
    {
        lemma_names_differ();
    }
}

impl Request {
    /// Encodes the request as a document.
    pub fn to_value(&self) -> (r: Value)
        ensures
            json_of(r) == self@.encode(),
    {
        let params = self.params.to_value();
        let mut members = object_new();
        object_insert(&mut members, "jsonrpc".to_owned(), value_from_string("2.0".to_owned()));
        object_insert(&mut members, "method".to_owned(), value_from_string(self.method.clone()));
        if !value_is_null(&params) {
            object_insert(&mut members, "params".to_owned(), params);
        }
        object_insert(&mut members, "id".to_owned(), self.id.to_value());
        value_from_object(members)
    }

    /// Reads the request that a document carries.
    pub fn try_from(value: &Value) -> (r: Result<Request, Error>)
        ensures
            outcome(r) == RequestView::decode(json_of(*value)),
    {
        let members = match value_as_object(value) {
            Some(members) => members,
            None => { return Err(Error::UnexpectedRequestVariant); },
        };
        match check_version(members) {
            Err(e) => { return Err(e); },
            Ok(_) => {},
        }
        let id = match read_id(members) {
            Err(e) => { return Err(e); },
            Ok(id) => id,
        };
        let method = match read_method(members) {
            Err(e) => { return Err(e); },
            Ok(method) => method,
        };
        let params = match read_params(members) {
            Err(e) => { return Err(e); },
            Ok(params) => params,
        };
        Ok(Request { id, method, params })
    }
}

} // verus!
