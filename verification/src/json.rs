//! JSON values as the node's logic reads them.
use vstd::prelude::*;

use crate::text;

verus! {

/// A JSON value. A number that is no 64-bit integer is kept as it was written.
#[derive(Debug, PartialEq, Eq)]
pub enum Json {
    Null,
    Bool(bool),
    Uint(u64),
    Int(i64),
    Real(String),
    Text(String),
    List(Vec<Json>),
    Object(Vec<(String, Json)>),
}

/// What a JSON value is.
pub enum JsonModel {
    Null,
    Bool(bool),
    Number(int),
    Real(Seq<char>),
    Text(Seq<char>),
    List(Seq<JsonModel>),
    Object(Seq<(Seq<char>, JsonModel)>),
}

/// What a JSON value is.
pub open spec fn model(j: Json) -> JsonModel
    decreases j,
{
    match j {
        Json::Null => JsonModel::Null,
        Json::Bool(b) => JsonModel::Bool(b),
        Json::Uint(n) => JsonModel::Number(n as int),
        Json::Int(n) => JsonModel::Number(n as int),
        Json::Real(s) => JsonModel::Real(s@),
        Json::Text(s) => JsonModel::Text(s@),
        Json::List(items) => JsonModel::List(
            Seq::new(
                items@.len(),
                |i: int|
                    if 0 <= i < items@.len() {
                        model(items@[i])
                    } else {
                        JsonModel::Null
                    },
            ),
        ),
        Json::Object(entries) => JsonModel::Object(
            Seq::new(
                entries@.len(),
                |i: int|
                    (
                        entries@[i].0@,
                        if 0 <= i < entries@.len() {
                            model(entries@[i].1)
                        } else {
                            JsonModel::Null
                        },
                    ),
            ),
        ),
    }
}

/// What the entries of an object are.
pub open spec fn entry_models(entries: Seq<(String, Json)>) -> Seq<(Seq<char>, JsonModel)> {
    Seq::new(entries.len(), |i: int| (entries[i].0@, model(entries[i].1)))
}

/// What a list is.
pub open spec fn item_models(items: Seq<Json>) -> Seq<JsonModel> {
    Seq::new(items.len(), |i: int| model(items[i]))
}

/// An object is its entries.
pub proof fn lemma_model_of_object(entries: Vec<(String, Json)>)
    ensures
        model(Json::Object(entries)) == JsonModel::Object(entry_models(entries@)),
{
    assert(model(Json::Object(entries))->Object_0 =~= entry_models(entries@));
}

/// A list is its items.
pub proof fn lemma_model_of_list(items: Vec<Json>)
    ensures
        model(Json::List(items)) == JsonModel::List(item_models(items@)),
{
    assert(model(Json::List(items))->List_0 =~= item_models(items@));
}

/// The object with those entries.
pub fn object(entries: Vec<(String, Json)>) -> (r: Json)
    ensures
        model(r) == JsonModel::Object(entry_models(entries@)),
{
    proof {
        lemma_model_of_object(entries);
    }
    Json::Object(entries)
}

/// The list of those items.
pub fn list(items: Vec<Json>) -> (r: Json)
    ensures
        model(r) == JsonModel::List(item_models(items@)),
{
    proof {
        lemma_model_of_list(items);
    }
    Json::List(items)
}

/// A named value of an object.
pub open spec fn named(name: Seq<char>, value: JsonModel) -> (Seq<char>, JsonModel) {
    (name, value)
}

/// A named value of an object.
pub fn entry(name: &str, value: Json) -> (r: (String, Json))
    ensures
        r.0@ == name@,
        model(r.1) == model(value),
{
    (name.to_owned(), value)
}

/// A text.
pub fn words(s: &str) -> (r: Json)
    ensures
        model(r) == JsonModel::Text(s@),
{
    Json::Text(s.to_owned())
}

/// A whole number.
pub fn whole(n: i64) -> (r: Json)
    ensures
        model(r) == JsonModel::Number(n as int),
{
    Json::Int(n)
}

/// A truth value.
pub fn truth(b: bool) -> (r: Json)
    ensures
        model(r) == JsonModel::Bool(b),
{
    Json::Bool(b)
}

/// A list of names.
pub open spec fn name_list(names: Seq<Seq<char>>) -> JsonModel {
    JsonModel::List(Seq::new(names.len(), |i: int| JsonModel::Text(names[i])))
}

/// A list of names.
pub fn names(list: &Vec<String>) -> (r: Json)
    ensures
        model(r) == name_list(text::views(list@)),
{
    let mut v: Vec<Json> = Vec::new();
    let mut i: usize = 0;
    while i < list.len()
        invariant
            i <= list@.len(),
            v@.len() == i,
            forall|j: int| 0 <= j < i ==> model(#[trigger] v@[j]) == JsonModel::Text(list@[j]@),
        decreases list@.len() - i,
    {
        v.push(words(list[i].as_str()));
        i += 1;
    }
    proof {
        assert(item_models(v@) =~= name_list(text::views(list@))->List_0);
    }
    self::list(v)
}

/// A text, or null.
pub open spec fn text_or_null(s: Option<Seq<char>>) -> JsonModel {
    match s {
        Some(t) => JsonModel::Text(t),
        None => JsonModel::Null,
    }
}

/// A text, or null.
pub fn optional(s: &Option<String>) -> (r: Json)
    ensures
        model(r) == text_or_null(text::opt_view(*s)),
{
    match s {
        Some(t) => words(t.as_str()),
        None => Json::Null,
    }
}

/// The value of the first entry named `key` from place `i` on.
pub open spec fn entry_from(entries: Seq<(String, Json)>, key: Seq<char>, i: int) -> Option<Json>
    decreases entries.len() - i,
{
    if i < 0 || i >= entries.len() {
        None
    } else if entries[i].0@ == key {
        Some(entries[i].1)
    } else {
        entry_from(entries, key, i + 1)
    }
}

/// The value behind an optional reference.
pub open spec fn value_of(v: Option<&Json>) -> Option<Json> {
    match v {
        Some(j) => Some(*j),
        None => None,
    }
}

impl Json {
    /// The value named `key`, where this is an object that has one.
    pub open spec fn field(self, key: Seq<char>) -> Option<Json> {
        match self {
            Json::Object(entries) => entry_from(entries@, key, 0),
            _ => None,
        }
    }

    /// The text, where this is one.
    pub open spec fn text(self) -> Option<Seq<char>> {
        match self {
            Json::Text(s) => Some(s@),
            _ => None,
        }
    }

    /// The text named `key`, where this is an object that has one.
    pub open spec fn text_field(self, key: Seq<char>) -> Option<Seq<char>> {
        match self.field(key) {
            Some(v) => v.text(),
            None => None,
        }
    }

    /// The natural number named `key`, where this is an object that has one.
    pub open spec fn number_field(self, key: Seq<char>) -> Option<u64> {
        match self.field(key) {
            Some(Json::Uint(n)) => Some(n),
            _ => None,
        }
    }

    /// The value named `key`, where this is an object that has one.
    pub fn get(&self, key: &str) -> (r: Option<&Json>)
        ensures
            value_of(r) == self.field(key@),
    {
        match self {
            Json::Object(entries) => {
                let mut i: usize = 0;
                while i < entries.len()
                    invariant
                        i <= entries@.len(),
                        self.field(key@) == entry_from(entries@, key@, i as int),
                    decreases entries@.len() - i,
                {
                    if text::same(entries[i].0.as_str(), key) {
                        return Some(&entries[i].1);
                    }
                    i += 1;
                }
                None
            },
            _ => None,
        }
    }

    /// The text, where this is one.
    pub fn as_str(&self) -> (r: Option<&str>)
        ensures
            text::opt_str_view(r) == self.text(),
    {
        match self {
            Json::Text(s) => Some(s.as_str()),
            _ => None,
        }
    }

    /// The text named `key`, where this is an object that has one.
    pub fn get_str(&self, key: &str) -> (r: Option<&str>)
        ensures
            text::opt_str_view(r) == self.text_field(key@),
    {
        match self.get(key) {
            Some(v) => v.as_str(),
            None => None,
        }
    }

    /// The natural number named `key`, where this is an object that has one.
    pub fn get_u64(&self, key: &str) -> (r: Option<u64>)
        ensures
            r == self.number_field(key@),
    {
        match self.get(key) {
            Some(v) => match v {
                Json::Uint(n) => Some(*n),
                _ => None,
            },
            None => None,
        }
    }

    /// Whether this is an object.
    pub fn is_object(&self) -> (r: bool)
        ensures
            r == (self is Object),
    {
        match self {
            Json::Object(_) => true,
            _ => false,
        }
    }
}

// ---- laws --------------------------------------------------------------------------------------

/// **Law: a named value is the first of its name.** An object that has the name gives the value of its
/// first entry under it; one that has it nowhere, and anything that is no object, gives none.
pub proof fn law_a_field_is_the_first_of_its_name(entries: Vec<(String, Json)>, key: Seq<char>, k: int)
    ensures
        0 <= k < entries@.len() && entries@[k].0@ == key && (forall|i: int|
            0 <= i < k ==> (#[trigger] entries@[i]).0@ != key) ==> Json::Object(entries).field(key) == Some(
            entries@[k].1,
        ),
        (forall|i: int| 0 <= i < entries@.len() ==> (#[trigger] entries@[i]).0@ != key)
            <==> Json::Object(entries).field(key) is None,
        forall|j: Json| !(j is Object) ==> #[trigger] j.field(key) is None,
{
    lemma_entry_from(entries@, key, 0);
    let found = entry_from(entries@, key, 0);
    if 0 <= k < entries@.len() && entries@[k].0@ == key && (forall|i: int|
        0 <= i < k ==> (#[trigger] entries@[i]).0@ != key) {
        let i = choose|i: int|
            0 <= i < entries@.len() && (#[trigger] entries@[i]).0@ == key && found == Some(entries@[i].1)
                && forall|j: int| 0 <= j < i ==> (#[trigger] entries@[j]).0@ != key;
        assert(i == k) by {
            if i < k {
                assert(entries@[i].0@ != key);
            }
            if k < i {
                assert(entries@[k].0@ != key);
            }
        }
    }
}

proof fn lemma_entry_from(entries: Seq<(String, Json)>, key: Seq<char>, i: int)
    requires
        0 <= i <= entries.len(),
    ensures
        entry_from(entries, key, i) is None <==> forall|j: int|
            i <= j < entries.len() ==> (#[trigger] entries[j]).0@ != key,
        entry_from(entries, key, i) is Some ==> exists|k: int|
            i <= k < entries.len() && (#[trigger] entries[k]).0@ == key && entry_from(entries, key, i)
                == Some(entries[k].1) && forall|j: int| i <= j < k ==> (#[trigger] entries[j]).0@ != key,
    decreases entries.len() - i,
{
    if i < entries.len() && entries[i].0@ != key {
        lemma_entry_from(entries, key, i + 1);
        if entry_from(entries, key, i) is Some {
            let k = choose|k: int|
                i + 1 <= k < entries.len() && (#[trigger] entries[k]).0@ == key && entry_from(
                    entries,
                    key,
                    i + 1,
                ) == Some(entries[k].1) && forall|j: int|
                    i + 1 <= j < k ==> (#[trigger] entries[j]).0@ != key;
            assert(entries[k].0@ == key);
        }
    } else if i < entries.len() {
        assert(entries[i].0@ == key);
    }
}

/// **Law: a text is read as it is, and only a text is read as one.**
pub proof fn law_only_a_text_is_read_as_text(j: Json, key: Seq<char>, s: String, n: u64)
    ensures
        j.text_field(key) == Some(s@) <==> (j.field(key) matches Some(v) && v matches Json::Text(t) && t@
            == s@),
        j.field(key) == Some(Json::Text(s)) ==> j.text_field(key) == Some(s@),
        j.number_field(key) == Some(n) <==> j.field(key) == Some(Json::Uint(n)),
{
}

/// **Law: nothing is lost of what a value is.** Each kind of value is told by its own kind, with all that
/// it holds.
pub proof fn law_a_value_is_seen_whole(b: bool, n: u64, i: i64, s: String, items: Vec<Json>, entries: Vec<(String, Json)>)
    ensures
        model(Json::Null) == JsonModel::Null,
        model(Json::Bool(b)) == JsonModel::Bool(b),
        model(Json::Uint(n)) == JsonModel::Number(n as int),
        model(Json::Int(i)) == JsonModel::Number(i as int),
        model(Json::Real(s)) == JsonModel::Real(s@),
        model(Json::Text(s)) == JsonModel::Text(s@),
        model(Json::List(items)) matches JsonModel::List(l) && l.len() == items@.len() && forall|k: int|
            0 <= k < l.len() ==> #[trigger] l[k] == model(items@[k]),
        model(Json::Object(entries)) matches JsonModel::Object(l) && l.len() == entries@.len() && forall|k: int|
            0 <= k < l.len() ==> (#[trigger] l[k]).0 == entries@[k].0@ && l[k].1 == model(entries@[k].1),
{
}

/// **Law: a list of names is those names, and a missing text is null.**
pub proof fn law_names_and_missing_texts(names: Seq<Seq<char>>, s: Option<Seq<char>>)
    ensures
        name_list(names) matches JsonModel::List(l) && l.len() == names.len() && forall|k: int|
            0 <= k < l.len() ==> #[trigger] l[k] == JsonModel::Text(names[k]),
        text_or_null(s) == JsonModel::Null <==> s is None,
        s matches Some(t) ==> text_or_null(s) == JsonModel::Text(t),
{
}

/// Whether an object holds `value` under `name`.
pub open spec fn tells(m: JsonModel, name: Seq<char>, value: JsonModel) -> bool {
    m matches JsonModel::Object(f) && f.contains((name, value))
}

} // verus!
