//! Structured values: the closed, recursive data model that parameters,
//! results and variables are made of.

use vstd::prelude::*;
use vstd::std_specs::convert::FromSpecImpl;

verus! {

/// A number as it appears in structured data.
#[derive(Debug, PartialEq, Eq)]
pub enum JsonNumber {
    /// A non-negative integer.
    PosInt(u64),
    /// A negative integer.
    NegInt(i64),
    /// Any other number, held as its decimal text.
    Decimal(String),
}

/// The mathematical content of a [`JsonNumber`].
pub enum NumberModel {
    PosInt(u64),
    NegInt(i64),
    Decimal(Seq<char>),
}

impl View for JsonNumber {
    type V = NumberModel;

    open spec fn view(&self) -> NumberModel {
        match self {
            JsonNumber::PosInt(n) => NumberModel::PosInt(*n),
            JsonNumber::NegInt(n) => NumberModel::NegInt(*n),
            JsonNumber::Decimal(text) => NumberModel::Decimal(text@),
        }
    }
}

/// One named member of a record.
#[derive(Debug, PartialEq)]
pub struct Entry {
    pub key: String,
    pub value: Json,
}

/// A structured value.
///
/// A record is a list of members. A name refers to the last member that
/// bears it, so a record in which no name occurs twice is the usual case and
/// one in which a name does is still well defined. `==` compares records
/// member by member, in order.
#[derive(Debug, PartialEq)]
pub enum Json {
    Null,
    Bool(bool),
    Number(JsonNumber),
    String(String),
    Array(Vec<Json>),
    Object(Vec<Entry>),
}

/// The mathematical content of a [`Json`].
pub enum JsonModel {
    Null,
    Bool(bool),
    Number(NumberModel),
    String(Seq<char>),
    Array(Seq<JsonModel>),
    Object(Seq<(Seq<char>, JsonModel)>),
}

/// The members of a record, each as its name and content.
pub open spec fn entries_view(entries: Seq<Entry>) -> Seq<(Seq<char>, JsonModel)>
    decreases entries,
{
    Seq::new(
        entries.len(),
        |i: int|
            if 0 <= i < entries.len() {
                (entries[i].key@, entries[i].value.view())
            } else {
                (Seq::empty(), JsonModel::Null)
            },
    )
}

/// The items of a list, each as its content.
pub open spec fn items_view(items: Seq<Json>) -> Seq<JsonModel>
    decreases items,
{
    Seq::new(
        items.len(),
        |i: int|
            if 0 <= i < items.len() {
                items[i].view()
            } else {
                JsonModel::Null
            },
    )
}

impl View for Json {
    type V = JsonModel;

    open spec fn view(&self) -> JsonModel
        decreases self,
    {
        match self {
            Json::Null => JsonModel::Null,
            Json::Bool(b) => JsonModel::Bool(*b),
            Json::Number(n) => JsonModel::Number(n@),
            Json::String(s) => JsonModel::String(s@),
            Json::Array(items) => JsonModel::Array(items_view(items@)),
            Json::Object(entries) => JsonModel::Object(entries_view(entries@)),
        }
    }
}

impl View for Entry {
    type V = (Seq<char>, JsonModel);

    open spec fn view(&self) -> (Seq<char>, JsonModel) {
        (self.key@, self.value@)
    }
}

/// Where the member that a name refers to stands among `entries`: the index
/// of the last member with that name, or `-1` where there is none.
pub open spec fn position(entries: Seq<(Seq<char>, JsonModel)>, key: Seq<char>) -> int
    decreases entries.len(),
{
    if entries.len() == 0 {
        -1
    } else if entries.last().0 == key {
        entries.len() - 1
    } else {
        position(entries.drop_last(), key)
    }
}

/// The content that a name refers to among `entries`.
pub open spec fn lookup(entries: Seq<(Seq<char>, JsonModel)>, key: Seq<char>) -> Option<JsonModel> {
    let at = position(entries, key);
    if at >= 0 {
        Some(entries[at].1)
    } else {
        None
    }
}

/// `entries` with `key` referring to `value`: the member that `key` referred
/// to is replaced where it stands, and a new member is added at the end where
/// there was none.
pub open spec fn upsert(entries: Seq<(Seq<char>, JsonModel)>, key: Seq<char>, value: JsonModel) -> Seq<
    (Seq<char>, JsonModel),
> {
    let at = position(entries, key);
    if at >= 0 {
        entries.update(at, (key, value))
    } else {
        entries.push((key, value))
    }
}

/// `position` returns the last index that holds the name, and `-1` exactly
/// where no index holds it.
pub proof fn lemma_position(entries: Seq<(Seq<char>, JsonModel)>, key: Seq<char>)
    ensures
        -1 <= position(entries, key) < entries.len(),
        position(entries, key) >= 0 ==> entries[position(entries, key)].0 == key,
        forall|j: int| position(entries, key) < j < entries.len() ==> entries[j].0 != key,
    decreases entries.len(),
{
    if entries.len() > 0 && entries.last().0 != key {
        let front = entries.drop_last();
        lemma_position(front, key);
        assert forall|j: int| position(entries, key) < j < entries.len() implies entries[j].0
            != key by {
            if j < front.len() {
                assert(front[j].0 != key);
            }
        }
    }
}

/// A name refers to what was last stored under it.
pub proof fn lemma_lookup_upsert_same(
    entries: Seq<(Seq<char>, JsonModel)>,
    key: Seq<char>,
    value: JsonModel,
)
    ensures
        lookup(upsert(entries, key, value), key) == Some(value),
{
    lemma_position(entries, key);
    let after = upsert(entries, key, value);
    lemma_position(after, key);
    let at = position(entries, key);
    if at >= 0 {
        assert(after[at].0 == key);
    } else {
        assert(after.last().0 == key);
    }
}

/// Storing under one name leaves what every other name refers to unchanged.
pub proof fn lemma_lookup_upsert_other(
    entries: Seq<(Seq<char>, JsonModel)>,
    key: Seq<char>,
    value: JsonModel,
    other: Seq<char>,
)
    requires
        other != key,
    ensures
        lookup(upsert(entries, key, value), other) == lookup(entries, other),
{
    lemma_position(entries, key);
    lemma_position(entries, other);
    let after = upsert(entries, key, value);
    lemma_position(after, other);
    let before_at = position(entries, other);
    let after_at = position(after, other);
    if before_at >= 0 {
        assert(after[before_at].0 == other);
    }
    if after_at >= 0 {
        assert(after_at < entries.len());
        assert(entries[after_at].0 == other);
    }
}

/// The index of the last member of `entries` named `key`.
fn find(entries: &Vec<Entry>, key: &String) -> (at: Option<usize>)
    ensures
        match at {
            Some(i) => i < entries.len() && i == position(entries_view(entries@), key@),
            None => position(entries_view(entries@), key@) == -1,
        },
{
    let ghost model = entries_view(entries@);
    let mut i: usize = entries.len();
    while i > 0
        invariant
            i <= entries.len(),
            model == entries_view(entries@),
            forall|j: int| i <= j < entries.len() ==> model[j].0 != key@,
        decreases i,
    {
        i = i - 1;
        if entries[i].key == *key {
            proof {
                lemma_position(model, key@);
                assert(model[i as int].0 == key@);
            }
            return Some(i);
        }
    }
    proof {
        lemma_position(model, key@);
    }
    None
}

/// What `key` refers to among `entries`.
pub fn get_entry<'a>(entries: &'a Vec<Entry>, key: &str) -> (found: Option<&'a Json>)
    ensures
        match found {
            Some(value) => lookup(entries_view(entries@), key@) == Some(value@),
            None => lookup(entries_view(entries@), key@) is None,
        },
{
    let name = key.to_owned();
    match find(entries, &name) {
        Some(i) => Some(&entries[i].value),
        None => None,
    }
}

/// Makes `key` refer to `value` among `entries`.
pub fn set_entry(entries: &mut Vec<Entry>, key: String, value: Json)
    ensures
        entries_view(final(entries)@) == upsert(entries_view(old(entries)@), key@, value@),
{
    match find(entries, &key) {
        Some(i) => {
            entries.set(i, Entry { key, value });
        },
        None => {
            entries.push(Entry { key, value });
        },
    }
    assert(entries_view(entries@) =~= upsert(entries_view(old(entries)@), key@, value@));
}

impl Json {
    /// The member of a record that `key` refers to; nothing where the value
    /// is no record or has no such member.
    pub fn get(&self, key: &str) -> (found: Option<&Json>)
        ensures
            match found {
                Some(value) => self@ is Object && lookup(self@->Object_0, key@) == Some(value@),
                None => self@ is Object ==> lookup(self@->Object_0, key@) is None,
            },
    {
        match self {
            Json::Object(entries) => get_entry(entries, key),
            _ => None,
        }
    }
}

impl Clone for JsonNumber {
    fn clone(&self) -> (copy: Self)
        ensures
            copy@ == self@,
    {
        match self {
            JsonNumber::PosInt(n) => JsonNumber::PosInt(*n),
            JsonNumber::NegInt(n) => JsonNumber::NegInt(*n),
            JsonNumber::Decimal(text) => JsonNumber::Decimal(text.clone()),
        }
    }
}

impl Clone for Entry {
    fn clone(&self) -> (copy: Self)
        ensures
            copy@ == self@,
        decreases self,
    {
        Entry { key: self.key.clone(), value: self.value.clone() }
    }
}

impl Clone for Json {
    fn clone(&self) -> (copy: Self)
        ensures
            copy@ == self@,
        decreases self,
    {
        match self {
            Json::Null => Json::Null,
            Json::Bool(b) => Json::Bool(*b),
            Json::Number(n) => Json::Number(n.clone()),
            Json::String(s) => Json::String(s.clone()),
            Json::Array(items) => {
                let mut copies: Vec<Json> = Vec::new();
                let mut i: usize = 0;
                while i < items.len()
                    invariant
                        i <= items.len(),
                        copies.len() == i,
                        forall|j: int| 0 <= j < i ==> copies[j]@ == items[j]@,
                        *self == Json::Array(*items),
                    decreases items.len() - i,
                {
                    assert(decreases_to!(self => self->Array_0));
                    copies.push(items[i].clone());
                    i = i + 1;
                }
                assert(items_view(copies@) =~= items_view(items@));
                Json::Array(copies)
            },
            Json::Object(entries) => {
                let mut copies: Vec<Entry> = Vec::new();
                let mut i: usize = 0;
                while i < entries.len()
                    invariant
                        i <= entries.len(),
                        copies.len() == i,
                        forall|j: int| 0 <= j < i ==> copies[j]@ == entries[j]@,
                        *self == Json::Object(*entries),
                    decreases entries.len() - i,
                {
                    assert(decreases_to!(self => self->Object_0));
                    copies.push(entries[i].clone());
                    i = i + 1;
                }
                assert(entries_view(copies@) =~= entries_view(entries@));
                Json::Object(copies)
            },
        }
    }
}

/// A copy of a list of values.
pub fn clone_items(items: &Vec<Json>) -> (copies: Vec<Json>)
    ensures
        items_view(copies@) == items_view(items@),
{
    let mut copies: Vec<Json> = Vec::new();
    let mut i: usize = 0;
    while i < items.len()
        invariant
            i <= items.len(),
            copies.len() == i,
            forall|j: int| 0 <= j < i ==> copies[j]@ == items[j]@,
        decreases items.len() - i,
    {
        copies.push(items[i].clone());
        i = i + 1;
    }
    assert(items_view(copies@) =~= items_view(items@));
    copies
}

/// A copy of the members of a record.
pub fn clone_entries(entries: &Vec<Entry>) -> (copies: Vec<Entry>)
    ensures
        entries_view(copies@) == entries_view(entries@),
{
    let mut copies: Vec<Entry> = Vec::new();
    let mut i: usize = 0;
    while i < entries.len()
        invariant
            i <= entries.len(),
            copies.len() == i,
            forall|j: int| 0 <= j < i ==> copies[j]@ == entries[j]@,
        decreases entries.len() - i,
    {
        copies.push(entries[i].clone());
        i = i + 1;
    }
    assert(entries_view(copies@) =~= entries_view(entries@));
    copies
}

impl From<i64> for Json {
    fn from(n: i64) -> (value: Json) {
        if n >= 0 {
            Json::Number(JsonNumber::PosInt(n as u64))
        } else {
            Json::Number(JsonNumber::NegInt(n))
        }
    }
}

impl FromSpecImpl<i64> for Json {
    open spec fn obeys_from_spec() -> bool {
        true
    }

    /// An integer as a value: a number, non-negative or negative.
    open spec fn from_spec(n: i64) -> Json {
        if n >= 0 {
            Json::Number(JsonNumber::PosInt(n as u64))
        } else {
            Json::Number(JsonNumber::NegInt(n))
        }
    }
}

impl From<bool> for Json {
    fn from(b: bool) -> (value: Json) {
        Json::Bool(b)
    }
}

impl FromSpecImpl<bool> for Json {
    open spec fn obeys_from_spec() -> bool {
        true
    }

    open spec fn from_spec(b: bool) -> Json {
        Json::Bool(b)
    }
}

/// What can be given where a value is wanted.
pub trait IntoJson: Sized {
    /// The content of the value that this turns into.
    spec fn json_model(self) -> JsonModel;

    /// Turns this into a value.
    fn into_json(self) -> (value: Json)
        ensures
            value@ == self.json_model(),
    ;
}

impl IntoJson for Json {
    open spec fn json_model(self) -> JsonModel {
        self@
    }

    fn into_json(self) -> (value: Json) {
        self
    }
}

impl IntoJson for bool {
    open spec fn json_model(self) -> JsonModel {
        JsonModel::Bool(self)
    }

    fn into_json(self) -> (value: Json) {
        Json::Bool(self)
    }
}

impl IntoJson for i64 {
    /// A number, non-negative or negative.
    open spec fn json_model(self) -> JsonModel {
        if self >= 0 {
            JsonModel::Number(NumberModel::PosInt(self as u64))
        } else {
            JsonModel::Number(NumberModel::NegInt(self))
        }
    }

    fn into_json(self) -> (value: Json) {
        Json::from(self)
    }
}

impl IntoJson for i32 {
    /// A number, non-negative or negative.
    open spec fn json_model(self) -> JsonModel {
        (self as i64).json_model()
    }

    fn into_json(self) -> (value: Json) {
        Json::from(self as i64)
    }
}

impl IntoJson for u64 {
    open spec fn json_model(self) -> JsonModel {
        JsonModel::Number(NumberModel::PosInt(self))
    }

    fn into_json(self) -> (value: Json) {
        Json::Number(JsonNumber::PosInt(self))
    }
}

impl IntoJson for &str {
    open spec fn json_model(self) -> JsonModel {
        JsonModel::String(self@)
    }

    fn into_json(self) -> (value: Json) {
        Json::String(self.to_owned())
    }
}

impl IntoJson for String {
    open spec fn json_model(self) -> JsonModel {
        JsonModel::String(self@)
    }

    fn into_json(self) -> (value: Json) {
        Json::String(self)
    }
}

} // verus!
