//! What the message shapes have in common: the version marker and the
//! members `id`, `method` and `params`.
use vstd::prelude::*;

use crate::error::{outcome, Error};
use crate::id::{Id, IdView};
use crate::json::{json_of, members_of, object_get, value_as_str, Json};
use crate::params::{Params, ParamsView};
use serde_json::Value;

verus! {

/// The protocol version that every message declares.
pub open spec fn version() -> Seq<char> {
    "2.0"@
}

/// The member under `key`, or null where the object has none.
pub open spec fn member_or_null(members: Map<Seq<char>, Json>, key: Seq<char>) -> Json {
    if members.contains_key(key) {
        members[key]
    } else {
        Json::Null
    }
}

/// Whether an object declares the protocol version: `jsonrpc` must be there
/// and be the string `2.0`.
pub open spec fn version_check(members: Map<Seq<char>, Json>) -> Result<(), Error> {
    if !members.contains_key("jsonrpc"@) {
        Err(Error::JsonRpcVersionNotFound)
    } else if members["jsonrpc"@] != Json::String(version()) {
        Err(Error::InvalidJsonRpcVersion)
    } else {
        Ok(())
    }
}

/// The key under `id`, which must be there.
pub open spec fn id_of(members: Map<Seq<char>, Json>) -> Result<IdView, Error> {
    if !members.contains_key("id"@) {
        Err(Error::ExpectedId)
    } else {
        IdView::decode(members["id"@])
    }
}

/// The name under `method`, which must be there and be a string.
pub open spec fn method_of(members: Map<Seq<char>, Json>) -> Result<Seq<char>, Error> {
    if !members.contains_key("method"@) {
        Err(Error::ExpectedMethod)
    } else {
        match members["method"@] {
            Json::String(name) => Ok(name),
            _ => Err(Error::InvalidMethodVariant),
        }
    }
}

/// The arguments under `params`; a missing member counts as null.
pub open spec fn params_of(members: Map<Seq<char>, Json>) -> Result<ParamsView, Error> {
    ParamsView::decode(member_or_null(members, "params"@))
}

/// The member names of the message shapes differ from one another.
pub proof fn lemma_names_differ()
    ensures
        "jsonrpc"@ != "method"@,
        "jsonrpc"@ != "params"@,
        "jsonrpc"@ != "id"@,
        "jsonrpc"@ != "result"@,
        "jsonrpc"@ != "error"@,
        "method"@ != "params"@,
        "method"@ != "result"@,
        "params"@ != "result"@,
        "method"@ != "id"@,
        "params"@ != "id"@,
        "id"@ != "result"@,
        "id"@ != "error"@,
        "result"@ != "error"@,
        "code"@ != "message"@,
        "code"@ != "data"@,
        "message"@ != "data"@,
{
    reveal_strlit("jsonrpc");
    reveal_strlit("method");
    reveal_strlit("params");
    reveal_strlit("id");
    reveal_strlit("result");
    reveal_strlit("error");
    reveal_strlit("code");
    reveal_strlit("message");
    reveal_strlit("data");
    assert("jsonrpc"@.len() == 7 && "message"@.len() == 7);
    assert("method"@.len() == 6 && "params"@.len() == 6 && "result"@.len() == 6);
    assert("error"@.len() == 5);
    assert("code"@.len() == 4 && "data"@.len() == 4);
    assert("id"@.len() == 2);
    assert("method"@[0] == 'm' && "params"@[0] == 'p' && "result"@[0] == 'r');
    assert("code"@[0] == 'c' && "data"@[0] == 'd');
}

/// Whether two strings hold the same characters.
pub(crate) fn same_text(a: &str, b: &str) -> (r: bool)
    ensures
        r == (a@ == b@),
{
    a.to_owned() == b.to_owned()
}

/// Checks that an object declares the protocol version.
pub(crate) fn check_version(members: &serde_json::Map<String, Value>) -> (r: Result<(), Error>)
    ensures
        r == version_check(members_of(*members)),
{
    match object_get(members, "jsonrpc") {
        None => Err(Error::JsonRpcVersionNotFound),
        Some(marker) => match value_as_str(marker) {
            Some(text) => if same_text(text, "2.0") {
                Ok(())
            } else {
                Err(Error::InvalidJsonRpcVersion)
            },
            None => Err(Error::InvalidJsonRpcVersion),
        },
    }
}

/// Reads the key under `id`.
pub(crate) fn read_id(members: &serde_json::Map<String, Value>) -> (r: Result<Id, Error>)
    ensures
        outcome(r) == id_of(members_of(*members)),
{
    match object_get(members, "id") {
        None => Err(Error::ExpectedId),
        Some(id) => Id::try_from(id),
    }
}

/// Reads the name under `method`.
pub(crate) fn read_method(members: &serde_json::Map<String, Value>) -> (r: Result<String, Error>)
    ensures
        outcome(r) == method_of(members_of(*members)),
{
    match object_get(members, "method") {
        None => Err(Error::ExpectedMethod),
        Some(name) => match value_as_str(name) {
            Some(text) => Ok(text.to_owned()),
            None => Err(Error::InvalidMethodVariant),
        },
    }
}

/// Reads the arguments under `params`.
pub(crate) fn read_params(members: &serde_json::Map<String, Value>) -> (r: Result<Params, Error>)
    ensures
        outcome(r) == params_of(members_of(*members)),
{
    match object_get(members, "params") {
        None => Ok(Params::Null),
        Some(params) => Params::try_from(params),
    }
}

} // verus!
