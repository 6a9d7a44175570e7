//! JSON values, read from text and written to it through `serde_json`.
//!
//! A [`Json`] holds a value as plain data: a number by its text, an object by
//! its entries in order. Reading and writing the text is `serde_json`'s work;
//! everything the crew decides about a value is decided here, on the value.
use vstd::prelude::*;

use crate::number;
use crate::text;

verus! {

/// A JSON value.
#[derive(Debug, PartialEq, Eq)]
pub enum Json {
    /// `null`.
    Null,
    /// `true` or `false`.
    Bool(bool),
    /// A number, by its text.
    Number(String),
    /// A string.
    Text(String),
    /// An array.
    Array(Vec<Json>),
    /// An object, by its entries in order.
    Object(Vec<(String, Json)>),
}

/// A JSON value by what it holds.
pub enum JsonView {
    Null,
    Bool(bool),
    Number(Seq<char>),
    Text(Seq<char>),
    Array(Seq<JsonView>),
    Object(Seq<(Seq<char>, JsonView)>),
}

/// What a JSON value holds.
pub open spec fn json_model(json: Json) -> JsonView
    decreases json,
{
    match json {
        Json::Null => JsonView::Null,
        Json::Bool(b) => JsonView::Bool(b),
        Json::Number(n) => JsonView::Number(n@),
        Json::Text(s) => JsonView::Text(s@),
        Json::Array(items) => JsonView::Array(
            Seq::new(
                items@.len(),
                |i: int|
                    if 0 <= i < items@.len() {
                        json_model(items@[i])
                    } else {
                        JsonView::Null
                    },
            ),
        ),
        Json::Object(entries) => JsonView::Object(
            Seq::new(
                entries@.len(),
                |i: int|
                    if 0 <= i < entries@.len() {
                        (entries@[i].0@, json_model(entries@[i].1))
                    } else {
                        (Seq::empty(), JsonView::Null)
                    },
            ),
        ),
    }
}

impl View for Json {
    type V = JsonView;

    open spec fn view(&self) -> JsonView {
        json_model(*self)
    }
}

/// What a list of JSON values holds.
pub open spec fn items_of(items: Seq<Json>) -> Seq<JsonView> {
    items.map_values(|item: Json| item@)
}

/// What a list of entries holds.
pub open spec fn entries_of(entries: Seq<(String, Json)>) -> Seq<(Seq<char>, JsonView)> {
    entries.map_values(|e: (String, Json)| (e.0@, e.1@))
}

/// An array holds what its items hold.
pub proof fn lemma_array(items: Vec<Json>)
    ensures
        Json::Array(items)@ == JsonView::Array(items_of(items@)),
{
    let a = Json::Array(items)@;
    assert(a->Array_0 =~= items_of(items@));
}

/// An object holds what its entries hold.
pub proof fn lemma_object(entries: Vec<(String, Json)>)
    ensures
        Json::Object(entries)@ == JsonView::Object(entries_of(entries@)),
{
    let a = Json::Object(entries)@;
    assert(a->Object_0 =~= entries_of(entries@));
}

/// The value of the first entry with `key`.
pub open spec fn lookup(entries: Seq<(Seq<char>, JsonView)>, key: Seq<char>) -> Option<JsonView>
    decreases entries.len(),
{
    if entries.len() == 0 {
        None
    } else if entries[0].0 == key {
        Some(entries[0].1)
    } else {
        lookup(entries.drop_first(), key)
    }
}

impl JsonView {
    /// The member `key` of an object.
    pub open spec fn get(self, key: Seq<char>) -> Option<JsonView> {
        match self {
            JsonView::Object(entries) => lookup(entries, key),
            _ => None,
        }
    }

    /// The member `key` of an object, `null` where there is none.
    pub open spec fn at(self, key: Seq<char>) -> JsonView {
        match self.get(key) {
            Some(value) => value,
            None => JsonView::Null,
        }
    }

    /// The string it is.
    pub open spec fn text(self) -> Option<Seq<char>> {
        match self {
            JsonView::Text(s) => Some(s),
            _ => None,
        }
    }

    /// The truth value it is.
    pub open spec fn truth(self) -> Option<bool> {
        match self {
            JsonView::Bool(b) => Some(b),
            _ => None,
        }
    }

    /// The unsigned number it is.
    pub open spec fn count(self) -> Option<nat> {
        match self {
            JsonView::Number(n) => number::unsigned(n, u64::MAX as nat),
            _ => None,
        }
    }

    /// The items of an array; none where it is none.
    pub open spec fn items(self) -> Seq<JsonView> {
        match self {
            JsonView::Array(items) => items,
            _ => Seq::empty(),
        }
    }
}

/// What an optional JSON value holds.
pub open spec fn opt_json(o: Option<&Json>) -> Option<JsonView> {
    match o {
        Some(json) => Some(json@),
        None => None,
    }
}

/// Skipping entries with other keys does not change the lookup.
proof fn lemma_lookup_skip(entries: Seq<(Seq<char>, JsonView)>, key: Seq<char>, n: int)
    requires
        0 <= n <= entries.len(),
        forall|i: int| 0 <= i < n ==> (#[trigger] entries[i]).0 != key,
    ensures
        lookup(entries, key) == lookup(entries.skip(n), key),
    decreases n,
{
    if n > 0 {
        lemma_lookup_skip(entries, key, n - 1);
        let rest = entries.skip(n - 1);
        assert(rest[0] == entries[n - 1]);
        assert(rest.drop_first() =~= entries.skip(n));
    } else {
        assert(entries.skip(0) =~= entries);
    }
}

impl Json {
    /// A string value.
    pub fn text(s: &str) -> (r: Json)
        ensures
            r@ == JsonView::Text(s@),
    {
        Json::Text(s.to_owned())
    }

    /// The member `key` of an object.
    pub fn get(&self, key: &str) -> (r: Option<&Json>)
        ensures
            opt_json(r) == self@.get(key@),
    {
        match self {
            Json::Object(entries) => {
                proof {
                    lemma_object(*entries);
                }
                let ghost all = entries_of(entries@);
                let mut i: usize = 0;
                while i < entries.len()
                    invariant
                        i <= entries.len(),
                        all == entries_of(entries@),
                        self@ == JsonView::Object(all),
                        forall|j: int| 0 <= j < i ==> (#[trigger] all[j]).0 != key@,
                    decreases entries.len() - i,
                {
                    let entry = &entries[i];
                    assert(all[i as int] == (entry.0@, entry.1@));
                    if text::same(entry.0.as_str(), key) {
                        proof {
                            lemma_lookup_skip(all, key@, i as int);
                            assert(all.skip(i as int)[0] == all[i as int]);
                        }
                        return Some(&entry.1);
                    }
                    i = i + 1;
                }
                proof {
                    lemma_lookup_skip(all, key@, all.len() as int);
                }
                None
            },
            _ => None,
        }
    }

    /// The string it is.
    pub fn as_str(&self) -> (r: Option<&str>)
        ensures
            text::opt_text(r) == self@.text(),
    {
        match self {
            Json::Text(s) => Some(s.as_str()),
            _ => None,
        }
    }

    /// The truth value it is.
    pub fn as_bool(&self) -> (r: Option<bool>)
        ensures
            r == self@.truth(),
    {
        match self {
            Json::Bool(b) => Some(*b),
            _ => None,
        }
    }

    /// The unsigned number it is.
    pub fn as_u64(&self) -> (r: Option<u64>)
        ensures
            match r {
                Some(n) => self@.count() == Some(n as nat),
                None => self@.count() is None,
            },
    {
        match self {
            Json::Number(n) => number::parse_unsigned(n.as_str(), u64::MAX),
            _ => None,
        }
    }

    /// The items of an array.
    pub fn as_array(&self) -> (r: Option<&Vec<Json>>)
        ensures
            match r {
                Some(items) => self@ == JsonView::Array(items_of(items@)),
                None => self@ !is Array,
            },
    {
        match self {
            Json::Array(items) => {
                proof {
                    lemma_array(*items);
                }
                Some(items)
            },
            _ => None,
        }
    }

    /// The string member `key` of an object.
    pub fn str_at(&self, key: &str) -> (r: Option<&str>)
        ensures
            text::opt_text(r) == self@.at(key@).text(),
    {
        match self.get(key) {
            Some(value) => value.as_str(),
            None => None,
        }
    }

    /// A copy of the value.
    pub fn copy(&self) -> (r: Json)
        ensures
            r@ == self@,
        decreases self,
    {
        match self {
            Json::Null => Json::Null,
            Json::Bool(b) => Json::Bool(*b),
            Json::Number(n) => Json::Number(n.clone()),
            Json::Text(s) => Json::Text(s.clone()),
            Json::Array(items) => {
                let mut out: Vec<Json> = Vec::new();
                let mut i: usize = 0;
                while i < items.len()
                    invariant
                        i <= items.len(),
                        *self == Json::Array(*items),
                        items_of(out@) == items_of(items@).take(i as int),
                    decreases items.len() - i,
                {
                    let ghost before = items_of(out@);
                    proof {
                        assert(decreases_to!(*self => self->Array_0));
                        assert(decreases_to!(*items => items@));
                        assert(decreases_to!(items@ => items@[i as int]));
                    }
                    let item = items[i].copy();
                    out.push(item);
                    assert(items_of(out@) =~= before.push(item@));
                    i = i + 1;
                    assert(items_of(items@).take(i as int) =~= items_of(items@).take(i - 1).push(
                        items@[i - 1]@,
                    ));
                }
                proof {
                    assert(items_of(items@).take(items@.len() as int) =~= items_of(items@));
                    lemma_array(out);
                    lemma_array(*items);
                }
                Json::Array(out)
            },
            Json::Object(entries) => {
                let mut out: Vec<(String, Json)> = Vec::new();
                let mut i: usize = 0;
                while i < entries.len()
                    invariant
                        i <= entries.len(),
                        *self == Json::Object(*entries),
                        entries_of(out@) == entries_of(entries@).take(i as int),
                    decreases entries.len() - i,
                {
                    let ghost before = entries_of(out@);
                    proof {
                        assert(decreases_to!(*self => self->Object_0));
                        assert(decreases_to!(*entries => entries@));
                        assert(decreases_to!(entries@ => entries@[i as int]));
                        assert(decreases_to!(entries@[i as int] => entries@[i as int].1));
                    }
                    let key = entries[i].0.clone();
                    let value = entries[i].1.copy();
                    out.push((key, value));
                    assert(entries_of(out@) =~= before.push((key@, value@)));
                    i = i + 1;
                    assert(entries_of(entries@).take(i as int) =~= entries_of(entries@).take(
                        i - 1,
                    ).push((entries@[i - 1].0@, entries@[i - 1].1@)));
                }
                proof {
                    assert(entries_of(entries@).take(entries@.len() as int) =~= entries_of(
                        entries@,
                    ));
                    lemma_object(out);
                    lemma_object(*entries);
                }
                Json::Object(out)
            },
        }
    }
}

/// An object under construction.
pub struct Fields {
    entries: Vec<(String, Json)>,
}

impl View for Fields {
    type V = Seq<(Seq<char>, JsonView)>;

    closed spec fn view(&self) -> Seq<(Seq<char>, JsonView)> {
        entries_of(self.entries@)
    }
}

impl Fields {
    /// No entries yet.
    pub fn new() -> (r: Self)
        ensures
            r@ == Seq::<(Seq<char>, JsonView)>::empty(),
    {
        let r = Fields { entries: Vec::new() };
        assert(r@ =~= Seq::<(Seq<char>, JsonView)>::empty());
        r
    }

    /// The same entries and one more.
    pub fn with(self, key: &str, value: Json) -> (r: Self)
        ensures
            r@ == self@.push((key@, value@)),
    {
        let mut entries = self.entries;
        entries.push((key.to_owned(), value));
        let r = Fields { entries };
        assert(r@ =~= self@.push((key@, value@)));
        r
    }

    /// The object.
    pub fn build(self) -> (r: Json)
        ensures
            r@ == JsonView::Object(self@),
    {
        proof {
            lemma_object(self.entries);
        }
        Json::Object(self.entries)
    }
}

/// An array under construction.
pub struct Items {
    items: Vec<Json>,
}

impl View for Items {
    type V = Seq<JsonView>;

    closed spec fn view(&self) -> Seq<JsonView> {
        items_of(self.items@)
    }
}

impl Items {
    /// No items yet.
    pub fn new() -> (r: Self)
        ensures
            r@ == Seq::<JsonView>::empty(),
    {
        let r = Items { items: Vec::new() };
        assert(r@ =~= Seq::<JsonView>::empty());
        r
    }

    /// The same items and one more.
    pub fn with(self, value: Json) -> (r: Self)
        ensures
            r@ == self@.push(value@),
    {
        let mut items = self.items;
        items.push(value);
        let r = Items { items };
        assert(r@ =~= self@.push(value@));
        r
    }

    /// Whether there are none.
    pub fn is_empty(&self) -> (r: bool)
        ensures
            r == (self@.len() == 0),
    {
        self.items.len() == 0
    }

    /// The same items and those of `more`.
    pub fn extended(self, more: Items) -> (r: Self)
        ensures
            r@ == self@ + more@,
    {
        let mut items = self.items;
        let mut rest = more.items;
        items.append(&mut rest);
        let r = Items { items };
        assert(r@ =~= self@ + more@);
        r
    }

    /// The array.
    pub fn build(self) -> (r: Json)
        ensures
            r@ == JsonView::Array(self@),
    {
        proof {
            lemma_array(self.items);
        }
        Json::Array(self.items)
    }
}

/// The strings of a list as JSON.
pub open spec fn text_items(list: Seq<String>) -> Seq<JsonView> {
    list.map_values(|s: String| JsonView::Text(s@))
}

/// An array of strings.
pub fn text_array(list: &[String]) -> (r: Json)
    ensures
        r@ == JsonView::Array(text_items(list@)),
{
    let mut items = Items::new();
    let mut i: usize = 0;
    while i < list.len()
        invariant
            i <= list.len(),
            items@ == text_items(list@).take(i as int),
        decreases list.len() - i,
    {
        items = items.with(Json::text(list[i].as_str()));
        i = i + 1;
        assert(text_items(list@).take(i as int) =~= text_items(list@).take(i - 1).push(
            JsonView::Text(list@[i - 1]@),
        ));
    }
    assert(text_items(list@).take(list@.len() as int) =~= text_items(list@));
    items.build()
}

/// `serde_json`'s own value tree.
#[verifier::external_type_specification]
#[verifier::external_body]
pub struct ExValue(serde_json::Value);

/// What a `serde_json` value tree holds.
pub uninterp spec fn json_of(value: serde_json::Value) -> JsonView;

/// The value that a text writes as JSON, by `serde_json`'s reading.
pub uninterp spec fn json_parse(s: Seq<char>) -> Option<JsonView>;

/// What a `serde_json` value tree keeps of a value: an object's keys sorted,
/// the last of equal keys, and numbers in its own form.
pub uninterp spec fn json_kept(value: JsonView) -> JsonView;

/// The compact text of a value, by `serde_json`'s writing.
pub uninterp spec fn json_text(value: JsonView) -> Seq<char>;

/// Whether a number's text is a decimal integer within `u64` or `i64`, in its
/// plain form.
pub open spec fn plain_integer(n: Seq<char>) -> bool {
    ||| exists|k: nat| k <= u64::MAX && n == #[trigger] number::decimal(k)
    ||| exists|k: nat|
        1 <= k <= 0x8000_0000_0000_0000 && n == seq!['-'] + #[trigger] number::decimal(k)
}

/// Whether a value holds no numbers but plain integers, and every object's keys
/// in strict order, so that a value tree keeps it as it is.
pub open spec fn tidy(value: JsonView) -> bool
    decreases value,
{
    match value {
        JsonView::Number(n) => plain_integer(n),
        JsonView::Array(items) => forall|i: int| 0 <= i < items.len() ==> tidy(#[trigger] items[i]),
        JsonView::Object(entries) => {
            &&& forall|i: int| 0 <= i < entries.len() ==> tidy((#[trigger] entries[i]).1)
            &&& forall|i: int, j: int|
                0 <= i < j < entries.len() ==> crate::order::before(
                    (#[trigger] entries[i]).0,
                    (#[trigger] entries[j]).0,
                )
        },
        _ => true,
    }
}

/// `serde_json::from_str`, into its value tree: what it reads is named, not
/// spelled out.
#[verifier::external_body]
fn parse_value(s: &str) -> (r: Option<serde_json::Value>)
    ensures
        match r {
            Some(value) => json_parse(s@) == Some(json_of(value)),
            None => json_parse(s@) is None,
        },
{
    serde_json::from_str(s).ok()
}

/// The contents of a `serde_json::Value`, variant by variant.
#[verifier::external_body]
fn read_value(value: serde_json::Value) -> (r: Json)
    ensures
        r@ == json_of(value),
{
    match value {
        serde_json::Value::Null => Json::Null,
        serde_json::Value::Bool(b) => Json::Bool(b),
        serde_json::Value::Number(n) => Json::Number(n.to_string()),
        serde_json::Value::String(s) => Json::Text(s),
        serde_json::Value::Array(items) => Json::Array(items.into_iter().map(read_value).collect()),
        serde_json::Value::Object(map) => {
            Json::Object(map.into_iter().map(|(k, v)| (k, read_value(v))).collect())
        },
    }
}

/// A `serde_json::Value` with the contents of a value, variant by variant. A
/// tidy value is kept as it is; what else becomes of one is named.
#[verifier::external_body]
fn make_value(json: &Json) -> (r: serde_json::Value)
    ensures
        json_of(r) == json_kept(json@),
        tidy(json@) ==> json_of(r) == json@,
{
    match json {
        Json::Null => serde_json::Value::Null,
        Json::Bool(b) => serde_json::Value::Bool(*b),
        Json::Number(n) => n.parse().map_or(serde_json::Value::Null, serde_json::Value::Number),
        Json::Text(s) => serde_json::Value::String(s.clone()),
        Json::Array(items) => serde_json::Value::Array(items.iter().map(make_value).collect()),
        Json::Object(entries) => serde_json::Value::Object(
            entries.iter().map(|(k, v)| (k.clone(), make_value(v))).collect(),
        ),
    }
}

/// `serde_json::Value`'s `Display`: the compact text. The text is named; of a
/// string it stands between quotes and reads back as the string.
#[verifier::external_body]
fn print_value(value: &serde_json::Value) -> (r: String)
    ensures
        r@ == json_text(json_of(*value)),
        json_of(*value) is Text ==> json_parse(r@) == Some(json_of(*value)),
        json_of(*value) is Text ==> r@.len() >= 2 && r@[0] == '"' && r@.last() == '"',
{
    value.to_string()
}

/// What an optional owned JSON value holds.
pub open spec fn opt_owned(o: Option<Json>) -> Option<JsonView> {
    match o {
        Some(json) => Some(json@),
        None => None,
    }
}

/// The value that `s` writes as JSON, if it writes one.
pub fn parse(s: &str) -> (r: Option<Json>)
    ensures
        opt_owned(r) == json_parse(s@),
{
    match parse_value(s) {
        Some(value) => Some(read_value(value)),
        None => None,
    }
}

/// The compact text of a value.
pub fn print(json: &Json) -> (r: String)
    ensures
        r@ == json_text(json_kept(json@)),
        tidy(json@) ==> r@ == json_text(json@),
        json@ is Text ==> json_parse(r@) == Some(json@),
        json@ is Text ==> r@.len() >= 2 && r@[0] == '"' && r@.last() == '"',
{
    let value = make_value(json);
    print_value(&value)
}

/// A member is found under its key: the first entry with the key gives its value,
/// and a key that no entry has gives none.
pub proof fn a_member_is_found_under_its_key(
    entries: Seq<(Seq<char>, JsonView)>,
    key: Seq<char>,
    at: int,
)
    ensures
        0 <= at < entries.len() && entries[at].0 == key && (forall|j: int|
            0 <= j < at ==> (#[trigger] entries[j]).0 != key) ==> JsonView::Object(entries).get(key)
            == Some(entries[at].1),
        (forall|j: int| 0 <= j < entries.len() ==> (#[trigger] entries[j]).0 != key)
            ==> JsonView::Object(entries).get(key) is None,
{
    if 0 <= at < entries.len() && entries[at].0 == key && (forall|j: int|
        0 <= j < at ==> (#[trigger] entries[j]).0 != key) {
        lemma_lookup_skip(entries, key, at);
        assert(entries.skip(at)[0] == entries[at]);
    }
    if forall|j: int| 0 <= j < entries.len() ==> (#[trigger] entries[j]).0 != key {
        lemma_lookup_skip(entries, key, entries.len() as int);
    }
}

/// A value reads as what it is, and as nothing else.
pub proof fn a_value_reads_as_what_it_is(
    json: Json,
    text: Option<&str>,
    truth: Option<bool>,
    count: Option<u64>,
    items: Option<&Vec<Json>>,
)
    requires
        call_ensures(Json::as_str, (&json,), text),
        call_ensures(Json::as_bool, (&json,), truth),
        call_ensures(Json::as_u64, (&json,), count),
        call_ensures(Json::as_array, (&json,), items),
    ensures
        match json@ {
            JsonView::Text(s) => text matches Some(t) && t@ == s,
            _ => text is None,
        },
        truth == (match json@ {
            JsonView::Bool(b) => Some(b),
            _ => None,
        }),
        json@ !is Number ==> count is None,
        items is Some <==> json@ is Array,
{
}

} // verus!
