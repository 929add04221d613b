//! JSON documents as plain values.
//!
//! `serde_json` parses the text; everything that is then read out of a document
//! or put into one is done here, on [`Json`].

use vstd::prelude::*;
use crate::number::{parse_decimal, parse_i64, parse_u64, read_decimal, read_i64, read_u64, Reading};
use crate::text::{opt_str, same};

verus! {

/// A JSON document. A number is kept as the text that writes it.
pub enum Json {
    Null,
    Boolean(bool),
    Number(String),
    Text(String),
    Array(Vec<Json>),
    Object(Vec<(String, Json)>),
}

/// The mathematical reading of a [`Json`] document.
pub enum JsonView {
    Null,
    Boolean(bool),
    Number(Seq<char>),
    Text(Seq<char>),
    Array(Seq<JsonView>),
    Object(Seq<(Seq<char>, JsonView)>),
}

impl View for Json {
    type V = JsonView;

    open spec fn view(&self) -> JsonView {
        json_view(*self)
    }
}

/// The [`JsonView`] of a document.
pub open spec fn json_view(j: Json) -> JsonView
    decreases j,
{
    match j {
        Json::Null => JsonView::Null,
        Json::Boolean(b) => JsonView::Boolean(b),
        Json::Number(t) => JsonView::Number(t@),
        Json::Text(t) => JsonView::Text(t@),
        Json::Array(items) => JsonView::Array(
            Seq::new(
                items@.len(),
                |i: int|
                    if 0 <= i < items@.len() {
                        json_view(items@[i])
                    } else {
                        JsonView::Null
                    },
            ),
        ),
        Json::Object(members) => JsonView::Object(
            Seq::new(
                members@.len(),
                |i: int|
                    if 0 <= i < members@.len() {
                        (members@[i].0@, json_view(members@[i].1))
                    } else {
                        (Seq::empty(), JsonView::Null)
                    },
            ),
        ),
    }
}

/// The views of a list of documents.
pub open spec fn item_views(v: Seq<Json>) -> Seq<JsonView> {
    v.map_values(|j: Json| j@)
}

/// The keys and views of a list of members.
pub open spec fn member_views(v: Seq<(String, Json)>) -> Seq<(Seq<char>, JsonView)> {
    v.map_values(|m: (String, Json)| (m.0@, m.1@))
}

/// An array or an object is viewed item by item.
pub proof fn lemma_view_items(j: Json)
    ensures
        j matches Json::Array(v) ==> j@ == JsonView::Array(item_views(v@)),
        j matches Json::Object(v) ==> j@ == JsonView::Object(member_views(v@)),
{
    match j {
        Json::Array(v) => {
            assert(j@->Array_0 =~= item_views(v@));
        },
        Json::Object(v) => {
            assert(j@->Object_0 =~= member_views(v@));
        },
        _ => {},
    }
}

/// A parsed value of `serde_json`.
#[verifier::external_type_specification]
#[verifier::external_body]
pub struct ExValue(serde_json::Value);

/// What a parsed value holds.
pub uninterp spec fn value_json(v: serde_json::Value) -> JsonView;

/// What [`serde_json::from_str`] makes of a text: a document, or the message
/// of its error.
pub uninterp spec fn json_document(text: Seq<char>) -> Result<JsonView, Seq<char>>;

/// Parses a text with [`serde_json::from_str`]. The outcome is a function of
/// the text.
#[verifier::external_body]
fn parse_value(text: &str) -> (res: Result<serde_json::Value, String>)
    ensures
        match res {
            Ok(v) => json_document(text@) == Ok::<JsonView, Seq<char>>(value_json(v)),
            Err(e) => json_document(text@) == Err::<JsonView, Seq<char>>(e@),
        },
{
    serde_json::from_str::<serde_json::Value>(text).map_err(|e| e.to_string())
}

/// Takes a [`serde_json::Value`] apart: each variant becomes the [`Json`] of
/// the same kind, a number becomes the text that `serde_json` writes for it,
/// and items and members keep their order.
#[verifier::external_body]
fn value_into_json(value: serde_json::Value) -> (res: Json)
    ensures
        res@ == value_json(value),
{
    match value {
        serde_json::Value::Null => Json::Null,
        serde_json::Value::Bool(b) => Json::Boolean(b),
        serde_json::Value::Number(n) => Json::Number(n.to_string()),
        serde_json::Value::String(t) => Json::Text(t),
        serde_json::Value::Array(v) => Json::Array(v.into_iter().map(value_into_json).collect()),
        serde_json::Value::Object(m) => Json::Object(
            m.into_iter().map(|(k, v)| (k, value_into_json(v))).collect(),
        ),
    }
}

/// Parses a JSON text.
pub fn parse_json(text: &str) -> (res: Result<Json, String>)
    ensures
        match res {
            Ok(j) => json_document(text@) == Ok::<JsonView, Seq<char>>(j@),
            Err(e) => json_document(text@) == Err::<JsonView, Seq<char>>(e@),
        },
{
    match parse_value(text) {
        Ok(v) => Ok(value_into_json(v)),
        Err(e) => Err(e),
    }
}

/// The value of the first member called `key`.
pub open spec fn find_member(members: Seq<(Seq<char>, JsonView)>, key: Seq<char>) -> Option<
    JsonView,
>
    decreases members.len(),
{
    if members.len() == 0 {
        None
    } else if members[0].0 == key {
        Some(members[0].1)
    } else {
        find_member(members.drop_first(), key)
    }
}

impl JsonView {
    /// The member called `key`, in an object.
    pub open spec fn get(self, key: Seq<char>) -> Option<JsonView> {
        match self {
            JsonView::Object(members) => find_member(members, key),
            _ => None,
        }
    }

    /// The text, in a string.
    pub open spec fn text(self) -> Option<Seq<char>> {
        match self {
            JsonView::Text(t) => Some(t),
            _ => None,
        }
    }

    /// The items, in an array.
    pub open spec fn items(self) -> Option<Seq<JsonView>> {
        match self {
            JsonView::Array(v) => Some(v),
            _ => None,
        }
    }

    /// The number, where it is a natural number of 64 bits.
    pub open spec fn natural(self) -> Option<u64> {
        match self {
            JsonView::Number(t) => read_u64(t),
            _ => None,
        }
    }

    /// The number, where it is a whole number of 64 bits.
    pub open spec fn integer(self) -> Option<i64> {
        match self {
            JsonView::Number(t) => read_i64(t),
            _ => None,
        }
    }

    /// The number that a number or a string writes.
    pub open spec fn reading(self) -> Option<Reading> {
        match self {
            JsonView::Number(t) => read_decimal(t),
            JsonView::Text(t) => read_decimal(t),
            _ => None,
        }
    }

    /// The text of the member called `key`.
    pub open spec fn text_at(self, key: Seq<char>) -> Option<Seq<char>> {
        match self.get(key) {
            Some(v) => v.text(),
            None => None,
        }
    }

    /// The items of the member called `key`.
    pub open spec fn items_at(self, key: Seq<char>) -> Option<Seq<JsonView>> {
        match self.get(key) {
            Some(v) => v.items(),
            None => None,
        }
    }

    /// The natural number of the member called `key`.
    pub open spec fn natural_at(self, key: Seq<char>) -> Option<u64> {
        match self.get(key) {
            Some(v) => v.natural(),
            None => None,
        }
    }

    /// The whole number of the member called `key`.
    pub open spec fn integer_at(self, key: Seq<char>) -> Option<i64> {
        match self.get(key) {
            Some(v) => v.integer(),
            None => None,
        }
    }
}

/// The view of an optional document.
pub open spec fn opt_json(j: Option<&Json>) -> Option<JsonView> {
    match j {
        Some(v) => Some(v@),
        None => None,
    }
}

/// The views of an optional list of documents.
pub open spec fn opt_items(v: Option<&Vec<Json>>) -> Option<Seq<JsonView>> {
    match v {
        Some(v) => Some(item_views(v@)),
        None => None,
    }
}

impl Json {
    /// The member called `key`, in an object.
    pub fn get(&self, key: &str) -> (res: Option<&Json>)
        ensures
            opt_json(res) == self@.get(key@),
    {
        proof {
            lemma_view_items(*self);
        }
        match self {
            Json::Object(members) => {
                let ghost all = member_views(members@);
                let mut i: usize = 0;
                assert(all.skip(0) == all);
                while i < members.len()
                    invariant
                        i <= members@.len(),
                        all == member_views(members@),
                        self@ == JsonView::Object(all),
                        find_member(all, key@) == find_member(all.skip(i as int), key@),
                    decreases members@.len() - i,
                {
                    let ghost rest = all.skip(i as int);
                    assert(rest[0] == (members@[i as int].0@, members@[i as int].1@));
                    if same(members[i].0.as_str(), key) {
                        return Some(&members[i].1);
                    }
                    assert(rest.drop_first() == all.skip(i + 1));
                    i += 1;
                }
                None
            },
            _ => None,
        }
    }

    /// The text, in a string.
    pub fn text(&self) -> (res: Option<&str>)
        ensures
            opt_str(res) == self@.text(),
    {
        match self {
            Json::Text(t) => Some(t.as_str()),
            _ => None,
        }
    }

    /// The items, in an array.
    pub fn items(&self) -> (res: Option<&Vec<Json>>)
        ensures
            opt_items(res) == self@.items(),
    {
        proof {
            lemma_view_items(*self);
        }
        match self {
            Json::Array(v) => Some(v),
            _ => None,
        }
    }

    /// The number, where it is a natural number of 64 bits.
    pub fn natural(&self) -> (res: Option<u64>)
        ensures
            res == self@.natural(),
    {
        match self {
            Json::Number(t) => parse_u64(t.as_str()),
            _ => None,
        }
    }

    /// The number, where it is a whole number of 64 bits.
    pub fn integer(&self) -> (res: Option<i64>)
        ensures
            res == self@.integer(),
    {
        match self {
            Json::Number(t) => parse_i64(t.as_str()),
            _ => None,
        }
    }

    /// The number that a number or a string writes.
    pub fn reading(&self) -> (res: Option<Reading>)
        ensures
            res == self@.reading(),
    {
        match self {
            Json::Number(t) => parse_decimal(t.as_str()),
            Json::Text(t) => parse_decimal(t.as_str()),
            _ => None,
        }
    }

    /// The text of the member called `key`.
    pub fn text_at(&self, key: &str) -> (res: Option<&str>)
        ensures
            opt_str(res) == self@.text_at(key@),
    {
        match self.get(key) {
            Some(v) => v.text(),
            None => None,
        }
    }

    /// The items of the member called `key`.
    pub fn items_at(&self, key: &str) -> (res: Option<&Vec<Json>>)
        ensures
            opt_items(res) == self@.items_at(key@),
    {
        match self.get(key) {
            Some(v) => v.items(),
            None => None,
        }
    }

    /// The natural number of the member called `key`.
    pub fn natural_at(&self, key: &str) -> (res: Option<u64>)
        ensures
            res == self@.natural_at(key@),
    {
        match self.get(key) {
            Some(v) => v.natural(),
            None => None,
        }
    }

    /// The whole number of the member called `key`.
    pub fn integer_at(&self, key: &str) -> (res: Option<i64>)
        ensures
            res == self@.integer_at(key@),
    {
        match self.get(key) {
            Some(v) => v.integer(),
            None => None,
        }
    }

    /// A string.
    pub fn of_text(s: &str) -> (res: Json)
        ensures
            res@ == JsonView::Text(s@),
    {
        Json::Text(s.to_owned())
    }

    /// A number, from the text that writes it.
    pub fn of_number(s: &str) -> (res: Json)
        ensures
            res@ == JsonView::Number(s@),
    {
        Json::Number(s.to_owned())
    }

    /// An array.
    pub fn of_items(v: Vec<Json>) -> (res: Json)
        ensures
            res@ == JsonView::Array(item_views(v@)),
    {
        let res = Json::Array(v);
        proof {
            lemma_view_items(res);
        }
        res
    }

    /// An object.
    pub fn of_members(v: Vec<(String, Json)>) -> (res: Json)
        ensures
            res@ == JsonView::Object(member_views(v@)),
    {
        let res = Json::Object(v);
        proof {
            lemma_view_items(res);
        }
        res
    }
}

/// Adds an item to the end of a list.
pub fn put_item(list: &mut Vec<Json>, value: Json)
    ensures
        item_views(final(list)@) == item_views(old(list)@).push(value@),
{
    list.push(value);
    assert(item_views(list@) =~= item_views(old(list)@).push(value@));
}

/// Adds a member to the end of a list.
pub fn put_member(list: &mut Vec<(String, Json)>, key: &str, value: Json)
    ensures
        member_views(final(list)@) == member_views(old(list)@).push((key@, value@)),
{
    list.push((key.to_owned(), value));
    assert(member_views(list@) =~= member_views(old(list)@).push((key@, value@)));
}

/// A document stands for what it holds, item by item and member by member.
pub proof fn law_json_view(t: String, b: bool, items: Vec<Json>, members: Vec<(String, Json)>)
    ensures
        Json::Null@ == JsonView::Null,
        Json::Boolean(b)@ == JsonView::Boolean(b),
        Json::Number(t)@ == JsonView::Number(t@),
        Json::Text(t)@ == JsonView::Text(t@),
        Json::Array(items)@ matches JsonView::Array(v) && v.len() == items@.len() && (forall|i: int|
            0 <= i < v.len() ==> #[trigger] v[i] == items@[i]@),
        Json::Object(members)@ matches JsonView::Object(v) && v.len() == members@.len() && (forall|
            i: int,
        |
            0 <= i < v.len() ==> #[trigger] v[i] == (members@[i].0@, members@[i].1@)),
        opt_json(Some(&Json::Array(items))) == Some(Json::Array(items)@) && opt_json(None) is None,
        opt_items(Some(&items)) == Some(item_views(items@)) && opt_items(None) is None,
{
    lemma_view_items(Json::Array(items));
    lemma_view_items(Json::Object(members));
}

/// A member is found under its key: the first of that name counts, and there is
/// none exactly where no member has the name.
pub proof fn law_member(members: Seq<(Seq<char>, JsonView)>, key: Seq<char>, i: int)
    requires
        0 <= i <= members.len(),
        forall|k: int| 0 <= k < i ==> (#[trigger] members[k]).0 != key,
        i < members.len() ==> members[i].0 == key,
    ensures
        JsonView::Object(members).get(key) == if i < members.len() {
            Some(members[i].1)
        } else {
            None
        },
    decreases members.len(),
{
    if i > 0 {
        let rest = members.drop_first();
        assert(members[0].0 != key);
        assert forall|k: int| 0 <= k < i - 1 implies (#[trigger] rest[k]).0 != key by {
            assert(rest[k] == members[k + 1]);
        }
        law_member(rest, key, i - 1);
    }
}

/// Each kind of value is read as what it is and as nothing else; a number may
/// also be written in a string.
pub proof fn law_kinds(j: JsonView, key: Seq<char>)
    ensures
        j !is Object ==> j.get(key) is None,
        j.text() == match j {
            JsonView::Text(t) => Some(t),
            _ => None,
        },
        j.items() == match j {
            JsonView::Array(v) => Some(v),
            _ => None,
        },
        j.natural() == match j {
            JsonView::Number(t) => read_u64(t),
            _ => None,
        },
        j.integer() == match j {
            JsonView::Number(t) => read_i64(t),
            _ => None,
        },
        j.reading() == match j {
            JsonView::Number(t) => read_decimal(t),
            JsonView::Text(t) => read_decimal(t),
            _ => None,
        },
        j.get(key) is None ==> j.text_at(key) is None && j.items_at(key) is None && j.natural_at(
            key,
        ) is None && j.integer_at(key) is None,
        j.get(key) matches Some(v) ==> j.text_at(key) == v.text() && j.items_at(key) == v.items()
            && j.natural_at(key) == v.natural() && j.integer_at(key) == v.integer(),
{
}

} // verus!
