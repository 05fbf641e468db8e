//! JSON values as the commands and options of the server read and write them.

use crate::text::same_text;
use vstd::prelude::*;

verus! {

/// A JSON value. Of the numbers, only those that fit an unsigned integer are told apart.
#[derive(Debug, PartialEq, Eq)]
pub enum JsonValue {
    Null,
    Bool(bool),
    Unsigned(u64),
    OtherNumber,
    Str(String),
    Array(Vec<JsonValue>),
    Object(Vec<(String, JsonValue)>),
}

/// What a JSON value says.
pub enum JsonModel {
    Null,
    Bool(bool),
    Unsigned(u64),
    OtherNumber,
    Str(Seq<char>),
    Array(Seq<JsonModel>),
    Object(Seq<(Seq<char>, JsonModel)>),
}

/// What a JSON value says.
pub open spec fn json_model(value: JsonValue) -> JsonModel
    decreases value,
{
    match value {
        JsonValue::Null => JsonModel::Null,
        JsonValue::Bool(b) => JsonModel::Bool(b),
        JsonValue::Unsigned(n) => JsonModel::Unsigned(n),
        JsonValue::OtherNumber => JsonModel::OtherNumber,
        JsonValue::Str(s) => JsonModel::Str(s@),
        JsonValue::Array(items) => JsonModel::Array(
            Seq::new(
                items@.len(),
                |i: int|
                    if 0 <= i < items@.len() {
                        json_model(items@[i])
                    } else {
                        JsonModel::Null
                    },
            ),
        ),
        JsonValue::Object(fields) => JsonModel::Object(
            Seq::new(
                fields@.len(),
                |i: int|
                    (
                        fields@[i].0@,
                        if 0 <= i < fields@.len() {
                            json_model(fields@[i].1)
                        } else {
                            JsonModel::Null
                        },
                    ),
            ),
        ),
    }
}

impl DeepView for JsonValue {
    type V = JsonModel;

    open spec fn deep_view(&self) -> JsonModel {
        json_model(*self)
    }
}

/// The value of the first field with the given name.
pub open spec fn field_named(fields: Seq<(Seq<char>, JsonModel)>, name: Seq<char>) -> Option<
    JsonModel,
>
    decreases fields.len(),
{
    if fields.len() == 0 {
        None
    } else if fields.first().0 == name {
        Some(fields.first().1)
    } else {
        field_named(fields.drop_first(), name)
    }
}

impl JsonModel {
    /// The field of an object with the given name.
    pub open spec fn get(self, name: Seq<char>) -> Option<JsonModel> {
        match self {
            JsonModel::Object(fields) => field_named(fields, name),
            _ => None,
        }
    }

    /// The text of a string.
    pub open spec fn as_str(self) -> Option<Seq<char>> {
        match self {
            JsonModel::Str(text) => Some(text),
            _ => None,
        }
    }

    /// The items of an array.
    pub open spec fn as_array(self) -> Option<Seq<JsonModel>> {
        match self {
            JsonModel::Array(items) => Some(items),
            _ => None,
        }
    }

    /// The value of a number that fits an unsigned integer.
    pub open spec fn as_u64(self) -> Option<u64> {
        match self {
            JsonModel::Unsigned(n) => Some(n),
            _ => None,
        }
    }
}

impl JsonValue {
    /// An object of two fields.
    pub fn pair(
        first: &str,
        first_value: JsonValue,
        second: &str,
        second_value: JsonValue,
    ) -> (r: JsonValue)
        ensures
            r.deep_view() == JsonModel::Object(
                seq![(first@, first_value.deep_view()), (second@, second_value.deep_view())],
            ),
    {
        let mut fields: Vec<(String, JsonValue)> = Vec::new();
        fields.push((first.to_owned(), first_value));
        fields.push((second.to_owned(), second_value));
        let r = JsonValue::Object(fields);
        assert(r.deep_view()->Object_0 =~= seq![
            (first@, first_value.deep_view()),
            (second@, second_value.deep_view()),
        ]);
        r
    }

    /// The field of an object with the given name.
    pub fn get(&self, name: &str) -> (r: Option<&JsonValue>)
        ensures
            r.deep_view() == self.deep_view().get(name@),
    {
        match self {
            JsonValue::Object(fields) => {
                let ghost all = self.deep_view()->Object_0;
                let mut i: usize = 0;
                assert(all.skip(0) =~= all);
                while i < fields.len()
                    invariant
                        i <= fields.len(),
                        *self == JsonValue::Object(*fields),
                        self.deep_view() == JsonModel::Object(all),
                        all.len() == fields@.len(),
                        field_named(all.skip(i as int), name@) == field_named(all, name@),
                    decreases fields.len() - i,
                {
                    assert(all[i as int] == (fields@[i as int].0@, fields@[i as int].1.deep_view()));
                    assert(all.skip(i as int).drop_first() =~= all.skip(i + 1));
                    if same_text(&fields[i].0, name) {
                        return Some(&fields[i].1);
                    }
                    i += 1;
                }
                None
            },
            _ => None,
        }
    }

    /// The text of a string.
    pub fn as_str(&self) -> (r: Option<&str>)
        ensures
            r.deep_view() == self.deep_view().as_str(),
    {
        match self {
            JsonValue::Str(text) => Some(text.as_str()),
            _ => None,
        }
    }

    /// The items of an array.
    pub fn as_array(&self) -> (r: Option<&Vec<JsonValue>>)
        ensures
            r.deep_view() == self.deep_view().as_array(),
    {
        match self {
            JsonValue::Array(items) => {
                assert(items.deep_view() =~= self.deep_view()->Array_0);
                Some(items)
            },
            _ => None,
        }
    }

    /// The value of a number that fits an unsigned integer.
    pub fn as_u64(&self) -> (r: Option<u64>)
        ensures
            r == self.deep_view().as_u64(),
    {
        match self {
            JsonValue::Unsigned(n) => Some(*n),
            _ => None,
        }
    }
}

}
