//! The arguments of a call: positional, named, or none.
use vstd::prelude::*;

use crate::error::{outcome, Error};
use crate::json::{
    clone_values, json_of, jsons_of, members_of, no_members, object_insert,
    object_new, value_as_array, value_as_object, value_from_array, value_from_object,
    value_is_null, value_null, Json,
};
use serde_json::Value;

verus! {

/// The arguments of a call.
#[derive(Debug, PartialEq, Eq)]
pub enum Params {
    /// Positional arguments, in order.
    Array(Vec<Value>),
    /// Named arguments.
    Object(serde_json::Map<String, Value>),
    /// No arguments.
    Null,
}

/// The content of [`Params`].
pub ghost enum ParamsView {
    Array(Seq<Json>),
    Object(Map<Seq<char>, Json>),
    Null,
}

impl View for Params {
    type V = ParamsView;

    open spec fn view(&self) -> ParamsView {
        match self {
            Params::Array(items) => ParamsView::Array(jsons_of(items@)),
            Params::Object(members) => ParamsView::Object(members_of(*members)),
            Params::Null => ParamsView::Null,
        }
    }
}

impl Clone for Params {
    fn clone(&self) -> (r: Params)
        ensures
            r@ == self@,
    {
        match self {
            Params::Array(items) => Params::Array(clone_values(items)),
            Params::Object(members) => Params::Object(members.clone()),
            Params::Null => Params::Null,
        }
    }
}

impl ParamsView {
    /// The document that carries these arguments.
    pub open spec fn encode(self) -> Json {
        match self {
            ParamsView::Array(items) => Json::Array(items),
            ParamsView::Object(members) => Json::Object(members),
            ParamsView::Null => Json::Null,
        }
    }

    /// The arguments that a document carries: an array, an object or null;
    /// a boolean, a number or a string is refused.
    pub open spec fn decode(j: Json) -> Result<ParamsView, Error> {
        match j {
            Json::Null => Ok(ParamsView::Null),
            Json::Array(items) => Ok(ParamsView::Array(items)),
            Json::Object(members) => Ok(ParamsView::Object(members)),
            _ => Err(Error::UnexpectedParamsVariant),
        }
    }

    /// Decoding what was encoded gives the arguments back.
    pub proof fn lemma_round_trip(self)
        ensures
            ParamsView::decode(self.encode()) == Ok::<ParamsView, Error>(self),
    {
    }

    /// Only absent arguments encode as null.
    pub proof fn lemma_null_only_for_null(self)
        ensures
            self.encode() is Null <==> self is Null,
    {
    }
}

/// The named arguments that a list of pairs builds: the pairs are entered one
/// after the other, and a later pair replaces an earlier one with the same
/// name.
pub open spec fn members_from(entries: Seq<(Seq<char>, Json)>) -> Map<Seq<char>, Json>
    decreases entries.len(),
{
    if entries.len() == 0 {
        no_members()
    } else {
        members_from(entries.drop_last()).insert(entries.last().0, entries.last().1)
    }
}

/// The pairs of `entries` as names and contents.
pub open spec fn entries_of(entries: Seq<(String, Value)>) -> Seq<(Seq<char>, Json)> {
    Seq::new(entries.len(), |i: int| (entries[i].0@, json_of(entries[i].1)))
}

/// A name is among the arguments built from a list of pairs exactly if some
/// pair carries it.
pub proof fn lemma_members_from_names(entries: Seq<(Seq<char>, Json)>, name: Seq<char>)
    ensures
        members_from(entries).contains_key(name) <==> exists|i: int|
            0 <= i < entries.len() && (#[trigger] entries[i]).0 == name,
    decreases entries.len(),
{
    if entries.len() > 0 {
        let front = entries.drop_last();
        lemma_members_from_names(front, name);
        if entries.last().0 == name {
            assert(entries[entries.len() - 1].0 == name);
        } else if members_from(front).contains_key(name) {
            let i = choose|i: int| 0 <= i < front.len() && (#[trigger] front[i]).0 == name;
            assert(entries[i].0 == name);
        } else if exists|i: int| 0 <= i < entries.len() && (#[trigger] entries[i]).0 == name {
            let i = choose|i: int| 0 <= i < entries.len() && (#[trigger] entries[i]).0 == name;
            assert(front[i].0 == name);
        }
    }
}

/// The last pair that carries a name decides what the name holds.
pub proof fn lemma_members_from_last_wins(entries: Seq<(Seq<char>, Json)>, i: int)
    requires
        0 <= i < entries.len(),
        forall|k: int| i < k < entries.len() ==> (#[trigger] entries[k]).0 != entries[i].0,
    ensures
        members_from(entries).contains_key(entries[i].0),
        members_from(entries)[entries[i].0] == entries[i].1,
    decreases entries.len(),
{
    if i < entries.len() - 1 {
        let front = entries.drop_last();
        assert(front[i] == entries[i]);
        assert forall|k: int| i < k < front.len() implies (#[trigger] front[k]).0
            != front[i].0 by {
            assert(front[k] == entries[k]);
        }
        lemma_members_from_last_wins(front, i);
        assert(entries.last() == entries[entries.len() - 1]);
    }
}

impl Params {
    /// The positional arguments, if that is what these are.
    pub fn as_array(&self) -> (r: Option<&[Value]>)
        ensures
            match self {
                Params::Array(items) => r is Some && r->0@ == items@,
                _ => r is None,
            },
    {
        match self {
            Params::Array(items) => Some(items.as_slice()),
            _ => None,
        }
    }

    /// The named arguments, if that is what these are.
    pub fn as_object(&self) -> (r: Option<&serde_json::Map<String, Value>>)
        ensures
            match self {
                Params::Object(members) => r == Some(members),
                _ => r is None,
            },
    {
        match self {
            Params::Object(members) => Some(members),
            _ => None,
        }
    }

    /// Named arguments from a list of pairs; of two pairs with one name the
    /// later one stays.
    pub fn from_entries(entries: Vec<(String, Value)>) -> (r: Params)
        ensures
            r@ == ParamsView::Object(members_from(entries_of(entries@))),
    {
        let ghost source = entries@;
        let mut members = object_new();
        for entry in it: entries.into_iter()
            invariant
                it.seq() == source,
                members_of(members) == members_from(entries_of(source.take(it.index() as int))),
        {
            let ghost before = entries_of(source.take(it.index() as int));
            let ghost after = entries_of(source.take(it.index() + 1));
            let (name, value) = entry;
            assert(after.drop_last() =~= before);
            assert(after.last() == (name@, json_of(value)));
            object_insert(&mut members, name, value);
        }
        assert(source.take(source.len() as int) =~= source);
        Params::Object(members)
    }

    /// Encodes the arguments as a document.
    pub fn to_value(&self) -> (r: Value)
        ensures
            json_of(r) == self@.encode(),
    {
        match self {
            Params::Array(items) => value_from_array(clone_values(items)),
            Params::Object(members) => value_from_object(members.clone()),
            Params::Null => value_null(),
        }
    }

    /// Reads the arguments that a document carries.
    pub fn try_from(value: &Value) -> (r: Result<Params, Error>)
        ensures
            outcome(r) == ParamsView::decode(json_of(*value)),
    {
        if value_is_null(value) {
            Ok(Params::Null)
        } else if let Some(items) = value_as_array(value) {
            Ok(Params::Array(clone_values(items)))
        } else if let Some(members) = value_as_object(value) {
            Ok(Params::Object(members.clone()))
        } else {
            Err(Error::UnexpectedParamsVariant)
        }
    }
}

impl From<Vec<Value>> for Params {
    fn from(items: Vec<Value>) -> (r: Params) {
        Params::Array(items)
    }
}

impl vstd::std_specs::convert::FromSpecImpl<Vec<Value>> for Params {
    open spec fn obeys_from_spec() -> bool {
        true
    }

    open spec fn from_spec(items: Vec<Value>) -> Params {
        Params::Array(items)
    }
}

impl From<serde_json::Map<String, Value>> for Params {
    fn from(members: serde_json::Map<String, Value>) -> (r: Params) {
        Params::Object(members)
    }
}

impl vstd::std_specs::convert::FromSpecImpl<serde_json::Map<String, Value>> for Params {
    open spec fn obeys_from_spec() -> bool {
        true
    }

    open spec fn from_spec(members: serde_json::Map<String, Value>) -> Params {
        Params::Object(members)
    }
}

} // verus!
