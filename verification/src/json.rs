//! JSON values, as the agent protocol reads and writes them.

use vstd::prelude::*;

use crate::text::{chars_of, text_eq};

verus! {

/// A JSON value. A number that is no integer of 64 bits is kept as its text.
#[derive(Debug)]
pub enum Json {
    Null,
    Bool(bool),
    Uint(u64),
    /// A number below zero.
    Int(i64),
    Real(String),
    Text(String),
    List(Vec<Json>),
    Object(Vec<(String, Json)>),
}

/// A JSON value as a mathematical value.
pub enum JsonState {
    Null,
    Bool(bool),
    Uint(u64),
    Int(i64),
    Real(Seq<char>),
    Text(Seq<char>),
    List(Seq<JsonState>),
    Object(Seq<(Seq<char>, JsonState)>),
}

impl Json {
    pub open spec fn view(self) -> JsonState
        decreases self,
    {
        match self {
            Json::Null => JsonState::Null,
            Json::Bool(b) => JsonState::Bool(b),
            Json::Uint(v) => JsonState::Uint(v),
            Json::Int(v) => JsonState::Int(v),
            Json::Real(s) => JsonState::Real(s@),
            Json::Text(s) => JsonState::Text(s@),
            Json::List(items) => JsonState::List(
                Seq::new(
                    items@.len(),
                    |i: int|
                        if 0 <= i < items@.len() {
                            items@[i].view()
                        } else {
                            JsonState::Null
                        },
                ),
            ),
            Json::Object(fields) => JsonState::Object(
                Seq::new(
                    fields@.len(),
                    |i: int|
                        if 0 <= i < fields@.len() {
                            (fields@[i].0@, fields@[i].1.view())
                        } else {
                            (Seq::empty(), JsonState::Null)
                        },
                ),
            ),
        }
    }
}

/// The values of the items of a list.
pub open spec fn items_of(items: Seq<Json>) -> Seq<JsonState> {
    Seq::new(items.len(), |i: int| items[i]@)
}

/// The names and values of the fields of an object.
pub open spec fn fields_of(fields: Seq<(String, Json)>) -> Seq<(Seq<char>, JsonState)> {
    Seq::new(fields.len(), |i: int| (fields[i].0@, fields[i].1@))
}

/// The value of the first field with the name `name`.
pub open spec fn field_in(fields: Seq<(Seq<char>, JsonState)>, name: Seq<char>) -> Option<
    JsonState,
>
    decreases fields.len(),
{
    if fields.len() == 0 {
        None
    } else if fields[0].0 == name {
        Some(fields[0].1)
    } else {
        field_in(fields.drop_first(), name)
    }
}

impl JsonState {
    /// The field `name` of an object; null where there is none.
    pub open spec fn field(self, name: Seq<char>) -> JsonState {
        match self {
            JsonState::Object(fields) => match field_in(fields, name) {
                Some(v) => v,
                None => JsonState::Null,
            },
            _ => JsonState::Null,
        }
    }

    /// The number, where this is an integer from 0 on.
    pub open spec fn as_uint(self) -> Option<u64> {
        match self {
            JsonState::Uint(v) => Some(v),
            _ => None,
        }
    }

    pub open spec fn as_boolean(self) -> Option<bool> {
        match self {
            JsonState::Bool(b) => Some(b),
            _ => None,
        }
    }

    pub open spec fn as_text(self) -> Option<Seq<char>> {
        match self {
            JsonState::Text(s) => Some(s),
            _ => None,
        }
    }

    /// A signed number.
    pub open spec fn number(v: i32) -> JsonState {
        if v < 0 {
            JsonState::Int(v as i64)
        } else {
            JsonState::Uint(v as u64)
        }
    }

    /// A text, or null.
    pub open spec fn text_or_null(s: Option<Seq<char>>) -> JsonState {
        match s {
            Some(s) => JsonState::Text(s),
            None => JsonState::Null,
        }
    }
}

impl Json {
    /// An object of `fields`.
    pub fn object(fields: Vec<(String, Json)>) -> (j: Json)
        ensures
            j@ == JsonState::Object(fields_of(fields@)),
    {
        let j = Json::Object(fields);
        assert(j@->Object_0 =~= fields_of(fields@));
        j
    }

    /// A list of `items`.
    pub fn list(items: Vec<Json>) -> (j: Json)
        ensures
            j@ == JsonState::List(items_of(items@)),
    {
        let j = Json::List(items);
        assert(j@->List_0 =~= items_of(items@));
        j
    }

    /// A text.
    pub fn text(s: &str) -> (j: Json)
        ensures
            j@ == JsonState::Text(s@),
    {
        Json::Text(s.to_owned())
    }

    /// A text, or null.
    pub fn text_or_null(s: &Option<String>) -> (j: Json)
        ensures
            j@ == JsonState::text_or_null(crate::blocks::text_of(*s)),
    {
        match s {
            Some(s) => Json::text(s.as_str()),
            None => Json::Null,
        }
    }

    /// A signed number.
    pub fn number(v: i32) -> (j: Json)
        ensures
            j@ == JsonState::number(v),
    {
        if v < 0 {
            Json::Int(v as i64)
        } else {
            Json::Uint(v as u64)
        }
    }

    /// The field `name` of an object, where there is one.
    pub fn field(&self, name: &str) -> (r: Option<&Json>)
        ensures
            self@.field(name@) == (match r {
                Some(j) => j@,
                None => JsonState::Null,
            }),
    {
        if let Json::Object(fields) = self {
            let ghost all = fields_of(fields@);
            assert(self@->Object_0 =~= all);
            assert(all.skip(0) =~= all);
            for i in 0..fields.len()
                invariant
                    all == fields_of(fields@),
                    self@ == JsonState::Object(all),
                    field_in(all, name@) == field_in(all.skip(i as int), name@),
            {
                let ghost rest = all.skip(i as int);
                let key = chars_of(fields[i].0.as_str());
                assert(rest[0] == all[i as int]);
                if text_eq(key.as_slice(), name) {
                    return Some(&fields[i].1);
                }
                assert(rest.drop_first() =~= all.skip(i + 1));
            }
            assert(all.skip(fields@.len() as int) =~= Seq::empty());
        }
        None
    }

    /// The field `name`, where it is an integer from 0 on.
    pub fn uint_field(&self, name: &str) -> (r: Option<u64>)
        ensures
            r == self@.field(name@).as_uint(),
    {
        match self.field(name) {
            Some(Json::Uint(v)) => Some(*v),
            _ => None,
        }
    }

    /// The field `name`, where it is a boolean.
    pub fn bool_field(&self, name: &str) -> (r: Option<bool>)
        ensures
            r == self@.field(name@).as_boolean(),
    {
        match self.field(name) {
            Some(Json::Bool(b)) => Some(*b),
            _ => None,
        }
    }

    /// The field `name`, where it is a text.
    pub fn text_field(&self, name: &str) -> (r: Option<&str>)
        ensures
            self@.field(name@).as_text() == (match r {
                Some(s) => Some(s@),
                None => None,
            }),
    {
        match self.field(name) {
            Some(Json::Text(s)) => Some(s.as_str()),
            _ => None,
        }
    }
}

/// Adds a field.
pub fn put(fields: &mut Vec<(String, Json)>, name: &str, value: Json)
    ensures
        fields_of(final(fields)@) == fields_of(old(fields)@).push((name@, value@)),
{
    let ghost held = fields@;
    fields.push((name.to_owned(), value));
    assert(fields_of(fields@) =~= fields_of(held).push((name@, value@)));
}

} // verus!
