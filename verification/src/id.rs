//! The key that ties a response to its request.
use vstd::prelude::*;

use crate::error::{outcome, Error};
use crate::json::{
    json_as_i64, json_integer, json_of, value_as_i64, value_as_str, value_from_i64,
    value_from_string, value_is_number, Json,
};
use serde_json::Value;

verus! {

/// A correlation key: a string or a signed 64-bit integer.
#[derive(Debug, Eq, Hash)]
pub enum Id {
    String(String),
    Number(i64),
}

/// The content of an [`Id`].
pub ghost enum IdView {
    String(Seq<char>),
    Number(i64),
}

impl View for Id {
    type V = IdView;

    open spec fn view(&self) -> IdView {
        match self {
            Id::String(s) => IdView::String(s@),
            Id::Number(n) => IdView::Number(*n),
        }
    }
}

impl PartialEq for Id {
    fn eq(&self, other: &Id) -> (r: bool) {
        match (self, other) {
            (Id::String(a), Id::String(b)) => *a == *b,
            (Id::Number(a), Id::Number(b)) => *a == *b,
            _ => false,
        }
    }
}

impl vstd::std_specs::cmp::PartialEqSpecImpl for Id {
    open spec fn obeys_eq_spec() -> bool {
        true
    }

    open spec fn eq_spec(&self, other: &Id) -> bool {
        self@ == other@
    }
}

impl Clone for Id {
    fn clone(&self) -> (r: Id)
        ensures
            r@ == self@,
    {
        match self {
            Id::String(s) => Id::String(s.clone()),
            Id::Number(n) => Id::Number(*n),
        }
    }
}

impl From<String> for Id {
    fn from(s: String) -> (r: Id) {
        Id::String(s)
    }
}

impl vstd::std_specs::convert::FromSpecImpl<String> for Id {
    open spec fn obeys_from_spec() -> bool {
        true
    }

    open spec fn from_spec(s: String) -> Id {
        Id::String(s)
    }
}

impl From<i64> for Id {
    fn from(n: i64) -> (r: Id) {
        Id::Number(n)
    }
}

impl vstd::std_specs::convert::FromSpecImpl<i64> for Id {
    open spec fn obeys_from_spec() -> bool {
        true
    }

    open spec fn from_spec(n: i64) -> Id {
        Id::Number(n)
    }
}

impl IdView {
    /// The document that carries this key: a string stays a string, an
    /// integer becomes a number.
    pub open spec fn encode(self) -> Json {
        match self {
            IdView::String(s) => Json::String(s),
            IdView::Number(n) => json_integer(n as int),
        }
    }

    /// The key that a document carries. A number must be whole and fit 64
    /// signed bits; a string is taken as it is; nothing else is a key.
    pub open spec fn decode(j: Json) -> Result<IdView, Error> {
        match j {
            Json::Number(_) => match json_as_i64(j) {
                Some(n) => Ok(IdView::Number(n)),
                None => Err(Error::InvalidNumberCast),
            },
            Json::String(s) => Ok(IdView::String(s)),
            _ => Err(Error::UnexpectedIdVariant),
        }
    }

    /// Decoding what was encoded gives the key back.
    pub proof fn lemma_round_trip(self)
        ensures
            IdView::decode(self.encode()) == Ok::<IdView, Error>(self),
    {
    }
}

impl Id {
    /// Encodes the key as a document.
    pub fn to_value(&self) -> (r: Value)
        ensures
            json_of(r) == self@.encode(),
    {
        match self {
            Id::String(s) => value_from_string(s.clone()),
            Id::Number(n) => value_from_i64(*n),
        }
    }

    /// Reads the key that a document carries.
    pub fn try_from(value: &Value) -> (r: Result<Id, Error>)
        ensures
            outcome(r) == IdView::decode(json_of(*value)),
    {
        if value_is_number(value) {
            match value_as_i64(value) {
                Some(n) => Ok(Id::Number(n)),
                None => Err(Error::InvalidNumberCast),
            }
        } else {
            match value_as_str(value) {
                Some(s) => Ok(Id::String(s.to_owned())),
                None => Err(Error::UnexpectedIdVariant),
            }
        }
    }
}

} // verus!
