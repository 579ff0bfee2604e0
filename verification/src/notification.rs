//! A call that expects no reply.
use vstd::prelude::*;

use crate::envelope::{
    check_version, lemma_names_differ, method_of, params_of, read_method, read_params, version,
    version_check,
};
use crate::error::{outcome, Error};
use crate::json::{
    json_of, members_of, no_members, object_insert, object_new, value_as_object,
    value_from_object, value_from_string, Json,
};
use crate::params::{Params, ParamsView};
use serde_json::Value;

verus! {

/// A call that expects no reply: it has no `id`.
#[derive(Debug, PartialEq, Eq)]
pub struct Notification {
    pub method: String,
    pub params: Params,
}

/// The content of a [`Notification`].
pub ghost struct NotificationView {
    pub method: Seq<char>,
    pub params: ParamsView,
}

impl View for Notification {
    type V = NotificationView;

    open spec fn view(&self) -> NotificationView {
        NotificationView { method: self.method@, params: self.params@ }
    }
}

impl Clone for Notification {
    fn clone(&self) -> (r: Notification)
        ensures
            r@ == self@,
    {
        Notification { method: self.method.clone(), params: self.params.clone() }
    }
}

impl NotificationView {
    /// The members of the encoded notification: `jsonrpc`, `method` and
    /// `params`, all three always; absent arguments are written as null.
    pub open spec fn members(self) -> Map<Seq<char>, Json> {
        no_members().insert("jsonrpc"@, Json::String(version())).insert(
            "method"@,
            Json::String(self.method),
        ).insert("params"@, self.params.encode())
    }

    /// The document that carries this notification.
    pub open spec fn encode(self) -> Json {
        Json::Object(self.members())
    }

    /// The notification that a document carries. The checks are made in this
    /// order and the first that fails decides the error: the document is an
    /// object; the version marker; `method`; `params`.
    pub open spec fn decode(j: Json) -> Result<NotificationView, Error> {
        match j {
            Json::Object(members) => match (
                version_check(members),
                method_of(members),
                params_of(members),
            ) {
                (Err(e), _, _) => Err(e),
                (_, Err(e), _) => Err(e),
                (_, _, Err(e)) => Err(e),
                (Ok(_), Ok(method), Ok(params)) => Ok(NotificationView { method, params }),
            },
            _ => Err(Error::UnexpectedRequestVariant),
        }
    }

    /// Decoding what was encoded gives the notification back.
    pub proof fn lemma_round_trip(self)
        ensures
            NotificationView::decode(self.encode()) == Ok::<NotificationView, Error>(self),
    {
        lemma_names_differ();
        self.params.lemma_round_trip();
    }

    /// The encoded notification has a `params` member whatever its
    /// arguments are, and no `id`.
    pub proof fn lemma_params_always_emitted(self)
        ensures
            self.members().contains_key("params"@),
            self.members()["params"@] == self.params.encode(),
            self.members().contains_key("jsonrpc"@),
            self.members().contains_key("method"@),
            !self.members().contains_key("id"@),
    {
        lemma_names_differ();
    }
}

impl Notification {
    /// Encodes the notification as a document.
    pub fn to_value(&self) -> (r: Value)
        ensures
            json_of(r) == self@.encode(),
    {
        let mut members = object_new();
        object_insert(&mut members, "jsonrpc".to_owned(), value_from_string("2.0".to_owned()));
        object_insert(&mut members, "method".to_owned(), value_from_string(self.method.clone()));
        object_insert(&mut members, "params".to_owned(), self.params.to_value());
        value_from_object(members)
    }

    /// Reads the notification that a document carries.
    pub fn try_from(value: &Value) -> (r: Result<Notification, Error>)
        ensures
            outcome(r) == NotificationView::decode(json_of(*value)),
    {
        let members = match value_as_object(value) {
            Some(members) => members,
            None => { return Err(Error::UnexpectedRequestVariant); },
        };
        match check_version(members) {
            Err(e) => { return Err(e); },
            Ok(_) => {},
        }
        let method = match read_method(members) {
            Err(e) => { return Err(e); },
            Ok(method) => method,
        };
        let params = match read_params(members) {
            Err(e) => { return Err(e); },
            Ok(params) => params,
        };
        Ok(Notification { method, params })
    }
}

} // verus!
