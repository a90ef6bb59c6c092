//! JSON values as the proxy reads and rewrites them.

use std::collections::VecDeque;
use vstd::prelude::*;
use crate::text::same;

verus! {

/// A JSON value.
///
/// An object is a list of entries; where two entries share a key, the later one
/// counts.
#[derive(Debug)]
pub enum Json {
    Null,
    Bool(bool),
    Number(serde_json::Number),
    Text(String),
    Array(Vec<Json>),
    Object(Vec<JsonEntry>),
}

/// One `"key": value` pair of a JSON object.
#[derive(Debug)]
pub struct JsonEntry {
    pub key: String,
    pub value: Json,
}

/// What a JSON value means: an object is a map from keys to values.
#[verifier::ext_equal]
pub enum JsonView {
    Null,
    Bool(bool),
    Number(serde_json::Number),
    Text(Seq<char>),
    Array(Seq<JsonView>),
    Object(Map<Seq<char>, JsonView>),
}

/// One level of a `serde_json` value.
pub enum JsonNode {
    Null,
    Bool(bool),
    Number(serde_json::Number),
    Text(String),
    Array(VecDeque<serde_json::Value>),
    Object(VecDeque<(String, serde_json::Value)>),
}

/// The number type of `serde_json`, carried through unread.
#[verifier::external_type_specification]
#[verifier::external_body]
pub struct ExNumber(serde_json::Number);

/// The value tree of `serde_json`.
#[verifier::external_type_specification]
#[verifier::external_body]
pub struct ExValue(serde_json::Value);

/// The error of `serde_json`.
#[verifier::external_type_specification]
#[verifier::external_body]
pub struct ExError(serde_json::Error);

/// What the entries of an object mean.
pub open spec fn entries_view(entries: Seq<JsonEntry>) -> Map<Seq<char>, JsonView>
    decreases entries,
{
    if entries.len() == 0 {
        Map::empty()
    } else {
        entries_view(entries.drop_last()).insert(
            entries.last().key@,
            json_view(entries.last().value),
        )
    }
}

/// What a JSON value means.
pub open spec fn json_view(j: Json) -> JsonView
    decreases j,
{
    match j {
        Json::Null => JsonView::Null,
        Json::Bool(b) => JsonView::Bool(b),
        Json::Number(n) => JsonView::Number(n),
        Json::Text(s) => JsonView::Text(s@),
        Json::Array(items) => JsonView::Array(
            Seq::new(
                items@.len(),
                |i: int|
                    if 0 <= i < items@.len() {
                        json_view(items@[i])
                    } else {
                        JsonView::Null
                    },
            ),
        ),
        Json::Object(entries) => JsonView::Object(entries_view(entries@)),
    }
}

impl View for Json {
    type V = JsonView;

    open spec fn view(&self) -> JsonView {
        json_view(*self)
    }
}

/// What the items of an array mean.
pub open spec fn items_view(items: Seq<Json>) -> Seq<JsonView> {
    items.map_values(|j: Json| j@)
}

/// The value under `key`, where `j` is an object that has one.
pub open spec fn field(j: JsonView, key: Seq<char>) -> Option<JsonView> {
    match j {
        JsonView::Object(m) => if m.contains_key(key) {
            Some(m[key])
        } else {
            None
        },
        _ => None,
    }
}

/// The value under `inner` in the object under `outer`.
pub open spec fn field2(j: JsonView, outer: Seq<char>, inner: Seq<char>) -> Option<JsonView> {
    match field(j, outer) {
        Some(o) => field(o, inner),
        None => None,
    }
}

/// The characters of a JSON string.
pub open spec fn text_of(j: JsonView) -> Option<Seq<char>> {
    match j {
        JsonView::Text(s) => Some(s),
        _ => None,
    }
}

/// The string under `key`.
pub open spec fn text_field(j: JsonView, key: Seq<char>) -> Option<Seq<char>> {
    match field(j, key) {
        Some(v) => text_of(v),
        None => None,
    }
}

/// The items of a JSON array.
pub open spec fn items_of(j: JsonView) -> Option<Seq<JsonView>> {
    match j {
        JsonView::Array(items) => Some(items),
        _ => None,
    }
}

/// `j` with `key` set to `value`; null becomes an object.
pub open spec fn with_field(j: JsonView, key: Seq<char>, value: JsonView) -> JsonView {
    match j {
        JsonView::Object(m) => JsonView::Object(m.insert(key, value)),
        JsonView::Null => JsonView::Object(Map::empty().insert(key, value)),
        _ => j,
    }
}

/// `j` without `key`.
pub open spec fn without_field(j: JsonView, key: Seq<char>) -> JsonView {
    match j {
        JsonView::Object(m) => JsonView::Object(m.remove(key)),
        _ => j,
    }
}

/// The value that a path of keys leads to.
pub open spec fn pointer(j: JsonView, path: Seq<Seq<char>>) -> Option<JsonView>
    decreases path.len(),
{
    if path.len() == 0 {
        Some(j)
    } else {
        match field(j, path[0]) {
            Some(v) => pointer(v, path.drop_first()),
            None => None,
        }
    }
}

/// `j` with one item replaced in the array that a path of keys leads to, where there
/// is such an item.
pub open spec fn with_item(
    j: JsonView,
    path: Seq<Seq<char>>,
    index: int,
    value: JsonView,
) -> JsonView
    decreases path.len(),
{
    if path.len() == 0 {
        match j {
            JsonView::Array(items) => if 0 <= index < items.len() {
                JsonView::Array(items.update(index, value))
            } else {
                j
            },
            _ => j,
        }
    } else {
        match field(j, path[0]) {
            Some(v) => with_field(j, path[0], with_item(v, path.drop_first(), index, value)),
            None => j,
        }
    }
}

/// The tree that a `serde_json` value holds.
pub uninterp spec fn value_tree(v: serde_json::Value) -> JsonView;

/// The tree that `serde_json` reads out of a text; none where it refuses the text.
pub uninterp spec fn decoded(text: Seq<u8>) -> Option<JsonView>;

/// The compact text that `serde_json` writes for a tree.
pub uninterp spec fn encoded(tree: JsonView) -> Seq<char>;

/// One part of a record of `count` parts: what an object has under `key`, or what an array of
/// that many items has at `place`.
pub open spec fn part(j: JsonView, key: Seq<char>, place: int, count: nat) -> Option<JsonView> {
    match j {
        JsonView::Array(items) => if items.len() == count {
            Some(items[place])
        } else {
            None
        },
        _ => field(j, key),
    }
}

/// The string that is one part of the record in a JSON text. Where a key is repeated, the
/// last one counts.
pub open spec fn said(text: Seq<u8>, key: Seq<char>, place: int, count: nat) -> Option<Seq<char>> {
    match decoded(text) {
        Some(tree) => match part(tree, key, place, count) {
            Some(v) => text_of(v),
            None => None,
        },
        None => None,
    }
}

/// The key by which `serde_json` marks a text that it is to read as JSON in turn.
pub open spec fn raw_mark() -> Seq<char> {
    "$serde_json::private::RawValue"@
}

/// Whether the first key of an object, in the order in which keys are written, is the one
/// by which `serde_json` marks a text.
pub open spec fn begins_with_mark(m: Map<Seq<char>, JsonView>) -> bool {
    m.contains_key(raw_mark()) && forall|k: Seq<char>|
        m.contains_key(k) ==> !#[trigger] crate::text::before(k, raw_mark())
}

/// Whether a tree is nested at most `depth` deep, no object in it begins with the mark of
/// `serde_json`, and each number in it is read, from the text that is written for it, as
/// the same number.
pub open spec fn readable(tree: JsonView, depth: nat) -> bool
    decreases depth,
{
    match tree {
        JsonView::Number(_) => decoded(vstd::utf8::encode_utf8(encoded(tree))) == Some(tree),
        JsonView::Array(items) => depth > 0 && forall|i: int|
            0 <= i < items.len() ==> readable(#[trigger] items[i], (depth - 1) as nat),
        JsonView::Object(m) => depth > 0 && !begins_with_mark(m) && forall|k: Seq<char>|
            m.contains_key(k) ==> readable(#[trigger] m[k], (depth - 1) as nat),
        _ => true,
    }
}

/// Whether a tree is one that reading gives back once it was written. `serde_json` follows
/// 127 levels.
pub open spec fn reads_back(tree: JsonView) -> bool {
    readable(tree, 127)
}

/// Whether a text reads as a tree, wherever the tree is one that reading gives back.
pub open spec fn reads_as(text: Seq<u8>, tree: JsonView) -> bool {
    reads_back(tree) ==> decoded(text) == Some(tree)
}

/// What the entries of one level of a `serde_json` object mean.
pub open spec fn node_entries(entries: Seq<(String, serde_json::Value)>) -> Map<Seq<char>, JsonView>
    decreases entries.len(),
{
    if entries.len() == 0 {
        Map::empty()
    } else {
        node_entries(entries.drop_last()).insert(entries.last().0@, value_tree(entries.last().1))
    }
}

/// Whether no two entries share a key.
pub open spec fn distinct_keys(entries: Seq<(String, serde_json::Value)>) -> bool {
    forall|i: int, j: int|
        0 <= i < j < entries.len() ==> (#[trigger] entries[i]).0@ != (#[trigger] entries[j]).0@
}

/// What one level of a `serde_json` value means.
pub open spec fn node_view(n: JsonNode) -> JsonView {
    match n {
        JsonNode::Null => JsonView::Null,
        JsonNode::Bool(b) => JsonView::Bool(b),
        JsonNode::Number(n) => JsonView::Number(n),
        JsonNode::Text(s) => JsonView::Text(s@),
        JsonNode::Array(items) => JsonView::Array(
            items@.map_values(|v: serde_json::Value| value_tree(v)),
        ),
        JsonNode::Object(entries) => JsonView::Object(node_entries(entries@)),
    }
}

/// `serde_json::Number` has a derived `Clone`: the copy is the same number.
pub assume_specification[ <serde_json::Number as Clone>::clone ](n: &serde_json::Number) -> (r:
    serde_json::Number)
    ensures
        r == *n,
;

/// `serde_json::from_slice` into a `serde_json::Value`: what it reads, or whether
/// it refuses, depends on the text alone.
#[verifier::external_body]
fn read_value(text: &[u8]) -> (r: Result<serde_json::Value, serde_json::Error>)
    ensures
        r is Ok <==> decoded(text@) is Some,
        r matches Ok(v) ==> decoded(text@) == Some(value_tree(v)),
{
    serde_json::from_slice(text)
}

/// `serde_json::to_string` of a `serde_json::Value`: it fails on no value, the text
/// depends on the tree alone (in this build a `serde_json::Map` is sorted by its keys),
/// and reading the text gives the tree back, but where that is nested more deeply than the
/// reader follows, holds an object that begins with the private key of `RawValue`, which
/// this build reads as raw text, or holds a number that does not come back, as some floats
/// do not. A number is written and read alone as it is inside a tree.
#[verifier::external_body]
fn write_value(v: &serde_json::Value) -> (r: Result<String, serde_json::Error>)
    ensures
        r is Ok,
        r matches Ok(s) ==> s@ == encoded(value_tree(*v)),
        r matches Ok(s) ==> (reads_back(value_tree(*v)) ==> decoded(vstd::utf8::encode_utf8(s@))
            == Some(value_tree(*v))),
{
    serde_json::to_string(v)
}

/// Takes one level of a `serde_json::Value` apart, variant by variant. A
/// `serde_json::Map` holds no key twice.
#[verifier::external_body]
fn open_value(v: serde_json::Value) -> (r: JsonNode)
    ensures
        node_view(r) == value_tree(v),
        r matches JsonNode::Object(entries) ==> distinct_keys(entries@),
{
    match v {
        serde_json::Value::Null => JsonNode::Null,
        serde_json::Value::Bool(b) => JsonNode::Bool(b),
        serde_json::Value::Number(n) => JsonNode::Number(n),
        serde_json::Value::String(s) => JsonNode::Text(s),
        serde_json::Value::Array(items) => JsonNode::Array(items.into()),
        serde_json::Value::Object(entries) => JsonNode::Object(entries.into_iter().collect()),
    }
}

/// Puts one level of a `serde_json::Value` together, variant by variant. Where two
/// entries share a key, `serde_json::Map` keeps the later one.
#[verifier::external_body]
fn close_value(n: JsonNode) -> (r: serde_json::Value)
    ensures
        value_tree(r) == node_view(n),
{
    match n {
        JsonNode::Null => serde_json::Value::Null,
        JsonNode::Bool(b) => serde_json::Value::Bool(b),
        JsonNode::Number(n) => serde_json::Value::Number(n),
        JsonNode::Text(s) => serde_json::Value::String(s),
        JsonNode::Array(items) => serde_json::Value::Array(items.into()),
        JsonNode::Object(entries) => serde_json::Value::Object(entries.into_iter().collect()),
    }
}

/// The last of the entries with a key gives the key its value.
proof fn lemma_entry_last(entries: Seq<JsonEntry>, i: int)
    requires
        0 <= i < entries.len(),
        forall|j: int| i < j < entries.len() ==> entries[j].key@ != entries[i].key@,
    ensures
        entries_view(entries).contains_key(entries[i].key@),
        entries_view(entries)[entries[i].key@] == json_view(entries[i].value),
    decreases entries.len(),
{
    if i < entries.len() - 1 {
        lemma_entry_last(entries.drop_last(), i);
    }
}

/// A key that no entry has is not in the map.
proof fn lemma_entry_absent(entries: Seq<JsonEntry>, key: Seq<char>)
    requires
        forall|j: int| 0 <= j < entries.len() ==> entries[j].key@ != key,
    ensures
        !entries_view(entries).contains_key(key),
    decreases entries.len(),
{
    if entries.len() > 0 {
        lemma_entry_absent(entries.drop_last(), key);
    }
}

/// Taking out an entry changes no other key.
proof fn lemma_entry_removed(entries: Seq<JsonEntry>, i: int)
    requires
        0 <= i < entries.len(),
    ensures
        entries_view(entries.remove(i)).remove(entries[i].key@) == entries_view(entries).remove(
            entries[i].key@,
        ),
    decreases entries.len(),
{
    let key = entries[i].key@;
    let less = entries.remove(i);
    if i == entries.len() - 1 {
        assert(less == entries.drop_last());
    } else {
        lemma_entry_removed(entries.drop_last(), i);
        assert(less.drop_last() == entries.drop_last().remove(i));
        assert(less.last() == entries.last());
        assert(entries.drop_last()[i] == entries[i]);
        let a = entries_view(less.drop_last());
        let b = entries_view(entries.drop_last());
        let k = entries.last().key@;
        let v = json_view(entries.last().value);
        assert(a.remove(key) == b.remove(key));
        assert(a.insert(k, v).remove(key) =~= b.insert(k, v).remove(key)) by {
            assert forall|x: Seq<char>| a.insert(k, v).remove(key).contains_key(x)
                == b.insert(k, v).remove(key).contains_key(x) by {
                assert(a.remove(key).contains_key(x) == b.remove(key).contains_key(x));
            }
            assert forall|x: Seq<char>|
                a.insert(k, v).remove(key).contains_key(x) implies a.insert(k, v).remove(key)[x]
                == b.insert(k, v).remove(key)[x] by {
                if x != k {
                    assert(a.remove(key)[x] == b.remove(key)[x]);
                }
            }
        }
    }
}

/// Every key of the map is the key of an entry.
proof fn lemma_entry_exists(entries: Seq<JsonEntry>, key: Seq<char>)
    requires
        entries_view(entries).contains_key(key),
    ensures
        exists|i: int| 0 <= i < entries.len() && entries[i].key@ == key,
    decreases entries.len(),
{
    if entries.len() > 0 && entries.last().key@ != key {
        lemma_entry_exists(entries.drop_last(), key);
        let i = choose|i: int|
            0 <= i < entries.drop_last().len() && entries.drop_last()[i].key@ == key;
        assert(entries[i].key@ == key);
    }
}

/// The key of every entry is in the map.
proof fn lemma_entry_present(entries: Seq<JsonEntry>, i: int)
    requires
        0 <= i < entries.len(),
    ensures
        entries_view(entries).contains_key(entries[i].key@),
    decreases entries.len(),
{
    if i < entries.len() - 1 {
        lemma_entry_present(entries.drop_last(), i);
    }
}

/// Entries that agree one for one mean the same object.
proof fn lemma_same_entries(a: Seq<JsonEntry>, b: Seq<(String, serde_json::Value)>)
    requires
        a.len() == b.len(),
        forall|i: int| 0 <= i < b.len() ==> {
            &&& (#[trigger] b[i]).0@ == a[i].key@
            &&& value_tree(b[i].1) == json_view(a[i].value)
        },
    ensures
        entries_view(a) == node_entries(b),
    decreases a.len(),
{
    if a.len() > 0 {
        lemma_same_entries(a.drop_last(), b.drop_last());
    }
}

/// Replacing an item leaves what stands elsewhere as it is.
pub proof fn lemma_with_item_elsewhere(
    j: JsonView,
    path: Seq<Seq<char>>,
    index: int,
    value: JsonView,
    other: Seq<Seq<char>>,
    n: int,
)
    requires
        0 <= n < path.len(),
        n < other.len(),
        path[n] != other[n],
    ensures
        pointer(with_item(j, path, index, value), other) == pointer(j, other),
    decreases path.len(),
{
    match field(j, path[0]) {
        Some(v) => {
            if path[0] == other[0] {
                let p = path.drop_first();
                let o = other.drop_first();
                assert(p[n - 1] == path[n] && o[n - 1] == other[n]);
                lemma_with_item_elsewhere(v, p, index, value, o, n - 1);
            } else {
                assert(field(with_item(j, path, index, value), other[0]) == field(j, other[0]));
            }
        },
        None => {},
    }
}

/// Replacing an item replaces that item in the array that the path leads to.
pub proof fn lemma_with_item_there(
    j: JsonView,
    path: Seq<Seq<char>>,
    index: int,
    value: JsonView,
)
    ensures
        pointer(with_item(j, path, index, value), path) == match pointer(j, path) {
            Some(v) => Some(with_item(v, Seq::empty(), index, value)),
            None => None,
        },
    decreases path.len(),
{
    if path.len() > 0 {
        match field(j, path[0]) {
            Some(v) => {
                lemma_with_item_there(v, path.drop_first(), index, value);
                let new = with_item(v, path.drop_first(), index, value);
                assert(field(with_item(j, path, index, value), path[0]) == Some(new));
            },
            None => {},
        }
    }
}

/// Where no two entries share a key, each entry stands in the object.
proof fn lemma_node_entry(entries: Seq<(String, serde_json::Value)>, i: int)
    requires
        0 <= i < entries.len(),
        distinct_keys(entries),
    ensures
        node_entries(entries).dom().finite(),
        node_entries(entries).contains_key(entries[i].0@),
        node_entries(entries)[entries[i].0@] == value_tree(entries[i].1),
    decreases entries.len(),
{
    if entries.len() > 1 {
        let before = entries.drop_last();
        assert(distinct_keys(before));
        lemma_node_entry(before, if i < before.len() { i } else { 0 });
        if i < before.len() {
            assert(entries[i].0@ != entries.last().0@);
        }
    } else {
        assert(node_entries(entries.drop_last()) == Map::<Seq<char>, JsonView>::empty());
    }
}

/// The items of an array are smaller than the array.
proof fn lemma_item_smaller(j: Json, i: int)
    requires
        j is Array,
        0 <= i < j->Array_0@.len(),
    ensures
        decreases_to!(j => j->Array_0@[i]),
{
    assert(decreases_to!(j => j->Array_0));
    assert(decreases_to!(j->Array_0 => j->Array_0@));
    assert(decreases_to!(j->Array_0@ => j->Array_0@[i]));
}

/// The values in an object are smaller than the object.
proof fn lemma_entry_smaller(j: Json, i: int)
    requires
        j is Object,
        0 <= i < j->Object_0@.len(),
    ensures
        decreases_to!(j => j->Object_0@[i].value),
{
    assert(decreases_to!(j => j->Object_0));
    assert(decreases_to!(j->Object_0 => j->Object_0@));
    assert(decreases_to!(j->Object_0@ => j->Object_0@[i]));
    assert(decreases_to!(j->Object_0@[i] => j->Object_0@[i].value));
}

/// Whether `key` is one of `keys`.
fn contains_text(keys: &Vec<String>, key: &str) -> (r: bool)
    ensures
        r == exists|i: int| 0 <= i < keys@.len() && keys@[i]@ == key@,
{
    let mut i: usize = 0;
    while i < keys.len()
        invariant
            i <= keys@.len(),
            forall|j: int| 0 <= j < i ==> keys@[j]@ != key@,
        decreases keys@.len() - i,
    {
        if same(keys[i].as_str(), key) {
            return true;
        }
        i = i + 1;
    }
    false
}

impl Json {
    /// A JSON string.
    pub fn text(s: &str) -> (r: Json)
        ensures
            r@ == JsonView::Text(s@),
    {
        Json::Text(s.to_owned())
    }

    /// The object without entries.
    pub fn object() -> (r: Json)
        ensures
            r@ == JsonView::Object(Map::empty()),
    {
        let entries: Vec<JsonEntry> = Vec::new();
        assert(entries_view(entries@) == Map::<Seq<char>, JsonView>::empty());
        Json::Object(entries)
    }

    /// The value under `key`, where this is an object that has one.
    pub fn get(&self, key: &str) -> (r: Option<&Json>)
        ensures
            r is Some <==> field(self@, key@) is Some,
            r matches Some(j) ==> field(self@, key@) == Some(j@),
    {
        match self {
            Json::Object(entries) => {
                let mut i: usize = entries.len();
                while i > 0
                    invariant
                        i <= entries@.len(),
                        forall|j: int| i <= j < entries@.len() ==> entries@[j].key@ != key@,
                        self@ == JsonView::Object(entries_view(entries@)),
                    decreases i,
                {
                    i = i - 1;
                    if same(entries[i].key.as_str(), key) {
                        proof {
                            lemma_entry_last(entries@, i as int);
                        }
                        return Some(&entries[i].value);
                    }
                }
                proof {
                    lemma_entry_absent(entries@, key@);
                }
                None
            },
            _ => None,
        }
    }

    /// The value under `inner` in the object under `outer`.
    pub fn get2(&self, outer: &str, inner: &str) -> (r: Option<&Json>)
        ensures
            r is Some <==> field2(self@, outer@, inner@) is Some,
            r matches Some(j) ==> field2(self@, outer@, inner@) == Some(j@),
    {
        match self.get(outer) {
            Some(o) => o.get(inner),
            None => None,
        }
    }

    /// The characters of a JSON string.
    pub fn as_text(&self) -> (r: Option<&str>)
        ensures
            r is Some <==> text_of(self@) is Some,
            r matches Some(s) ==> text_of(self@) == Some(s@),
    {
        match self {
            Json::Text(s) => Some(s.as_str()),
            _ => None,
        }
    }

    /// The string under `key`.
    pub fn get_text(&self, key: &str) -> (r: Option<&str>)
        ensures
            r is Some <==> text_field(self@, key@) is Some,
            r matches Some(s) ==> text_field(self@, key@) == Some(s@),
    {
        match self.get(key) {
            Some(v) => v.as_text(),
            None => None,
        }
    }

    /// The items of a JSON array.
    pub fn as_items(&self) -> (r: Option<&Vec<Json>>)
        ensures
            r is Some <==> items_of(self@) is Some,
            r matches Some(v) ==> items_of(self@) == Some(items_view(v@)),
    {
        match self {
            Json::Array(items) => {
                assert(self@->Array_0 =~= items_view(items@));
                Some(items)
            },
            _ => None,
        }
    }

    /// Takes the value out from under `key`.
    pub fn take(&mut self, key: &str) -> (r: Option<Json>)
        ensures
            final(self)@ == without_field(old(self)@, key@),
            r is Some <==> field(old(self)@, key@) is Some,
            r matches Some(j) ==> field(old(self)@, key@) == Some(j@),
    {
        match self {
            Json::Object(entries) => {
                let ghost before = entries@;
                let mut found: Option<Json> = None;
                let mut i: usize = entries.len();
                while i > 0
                    invariant
                        i <= entries@.len(),
                        forall|j: int| i <= j < entries@.len() ==> entries@[j].key@ != key@,
                        entries_view(entries@).remove(key@) == entries_view(before).remove(key@),
                        found is None ==> entries@ == before,
                        found matches Some(j) ==> entries_view(before).contains_key(key@)
                            && entries_view(before)[key@] == j@,
                    decreases i,
                {
                    i = i - 1;
                    if same(entries[i].key.as_str(), key) {
                        proof {
                            if found is None {
                                lemma_entry_last(entries@, i as int);
                            }
                            lemma_entry_removed(entries@, i as int);
                        }
                        let entry = entries.remove(i);
                        if found.is_none() {
                            found = Some(entry.value);
                        }
                    }
                }
                proof {
                    lemma_entry_absent(entries@, key@);
                    assert(entries_view(entries@).remove(key@) =~= entries_view(entries@));
                }
                found
            },
            _ => None,
        }
    }

    /// Sets `key` to `value`; null becomes an object.
    pub fn set(&mut self, key: &str, value: Json)
        requires
            old(self)@ is Object || old(self)@ is Null,
        ensures
            final(self)@ == with_field(old(self)@, key@, value@),
    {
        let ghost before = self@;
        let _ = self.take(key);
        match self {
            Json::Object(entries) => {
                let ghost rest = entries@;
                entries.push(JsonEntry { key: key.to_owned(), value });
                assert(entries@.drop_last() == rest);
                assert(entries_view(rest) == before->Object_0.remove(key@));
                assert(entries_view(entries@) =~= before->Object_0.insert(key@, value@));
            },
            _ => {
                let mut entries: Vec<JsonEntry> = Vec::new();
                let ghost rest = entries@;
                entries.push(JsonEntry { key: key.to_owned(), value });
                assert(entries@.drop_last() == rest);
                assert(entries_view(rest) == Map::<Seq<char>, JsonView>::empty());
                assert(before is Null);
                *self = Json::Object(entries);
            },
        }
        assert(self@ == JsonView::Object(entries_view(self->Object_0@)));
        assert(self@ == with_field(before, key@, value@));
    }

    /// The value that the keys of `path` from `depth` on lead to.
    pub fn pointer(&self, path: &Vec<&str>, depth: usize) -> (r: Option<&Json>)
        requires
            depth <= path@.len(),
        ensures
            r is Some <==> pointer(self@, crate::text::views(path@).skip(depth as int)) is Some,
            r matches Some(j) ==> pointer(self@, crate::text::views(path@).skip(depth as int))
                == Some(j@),
        decreases path@.len() - depth,
    {
        let ghost keys = crate::text::views(path@).skip(depth as int);
        if depth == path.len() {
            return Some(self);
        }
        assert(keys[0] == path@[depth as int]@);
        assert(keys.drop_first() == crate::text::views(path@).skip(depth + 1));
        match self.get(path[depth]) {
            Some(v) => v.pointer(path, depth + 1),
            None => None,
        }
    }

    /// Replaces one item in the array that the keys of `path` from `depth` on lead to,
    /// where there is such an item.
    pub fn set_item(&mut self, path: &Vec<&str>, depth: usize, index: usize, value: Json)
        requires
            depth <= path@.len(),
        ensures
            final(self)@ == with_item(
                old(self)@,
                crate::text::views(path@).skip(depth as int),
                index as int,
                value@,
            ),
        decreases path@.len() - depth,
    {
        let ghost before = self@;
        let ghost keys = crate::text::views(path@).skip(depth as int);
        if depth == path.len() {
            match self {
                Json::Array(items) => {
                    let ghost items_before = items@;
                    if index < items.len() {
                        items.set(index, value);
                        assert(items_view(items@) =~= items_view(items_before).update(
                            index as int,
                            value@,
                        ));
                    }
                },
                _ => {},
            }
            proof {
                if *self is Array {
                    assert(self@->Array_0 =~= items_view(self->Array_0@));
                    assert(before->Array_0 =~= items_view(old(self)->Array_0@));
                }
            }
            return;
        }
        assert(keys[0] == path@[depth as int]@);
        assert(keys.drop_first() == crate::text::views(path@).skip(depth + 1));
        let taken = self.take(path[depth]);
        match taken {
            Some(inner) => {
                let mut inner = inner;
                inner.set_item(path, depth + 1, index, value);
                self.set(path[depth], inner);
                assert(before is Object);
                assert(self@->Object_0 =~= before->Object_0.insert(keys[0], inner@));
            },
            None => {
                proof {
                    if before is Object {
                        assert(self@->Object_0 =~= before->Object_0);
                    }
                }
            },
        }
    }

    /// The keys of an object, each once.
    pub fn keys(&self) -> (r: Vec<String>)
        ensures
            forall|k: Seq<char>| #![trigger field(self@, k)]
                field(self@, k) is Some <==> exists|i: int| 0 <= i < r@.len() && r@[i]@ == k,
            forall|i: int, j: int| 0 <= i < j < r@.len() ==> r@[i]@ != r@[j]@,
    {
        let mut out: Vec<String> = Vec::new();
        match self {
            Json::Object(entries) => {
                let mut i: usize = 0;
                while i < entries.len()
                    invariant
                        i <= entries@.len(),
                        forall|j: int| 0 <= j < i ==> exists|n: int|
                            0 <= n < out@.len() && out@[n]@ == (#[trigger] entries@[j]).key@,
                        forall|n: int| 0 <= n < out@.len() ==> exists|j: int|
                            0 <= j < i && entries@[j].key@ == (#[trigger] out@[n])@,
                        forall|n: int, m: int| 0 <= n < m < out@.len() ==> out@[n]@ != out@[m]@,
                    decreases entries@.len() - i,
                {
                    let ghost before = out@;
                    if !contains_text(&out, entries[i].key.as_str()) {
                        out.push(entries[i].key.clone());
                        assert(out@[before.len() as int]@ == entries@[i as int].key@);
                        assert forall|j: int| 0 <= j < i implies exists|n: int|
                            0 <= n < out@.len() && out@[n]@ == (#[trigger] entries@[j]).key@ by {
                            let n = choose|n: int|
                                0 <= n < before.len() && before[n]@ == entries@[j].key@;
                            assert(out@[n]@ == entries@[j].key@);
                        }
                    } else {
                        assert(exists|n: int|
                            0 <= n < out@.len() && out@[n]@ == entries@[i as int].key@);
                    }
                    i = i + 1;
                }
                proof {
                    assert forall|k: Seq<char>| #![trigger field(self@, k)]
                        field(self@, k) is Some <==> exists|i: int|
                            0 <= i < out@.len() && out@[i]@ == k by {
                        if field(self@, k) is Some {
                            lemma_entry_exists(entries@, k);
                            let j = choose|j: int| 0 <= j < entries@.len() && entries@[j].key@ == k;
                            assert(entries@[j].key@ == k);
                        }
                        if exists|i: int| 0 <= i < out@.len() && out@[i]@ == k {
                            let n = choose|n: int| 0 <= n < out@.len() && out@[n]@ == k;
                            assert(out@[n]@ == k);
                            let j = choose|j: int| 0 <= j < entries@.len() && entries@[j].key@ == k;
                            lemma_entry_present(entries@, j);
                        }
                    }
                }
                out
            },
            _ => out,
        }
    }

    /// A copy.
    pub fn copy(&self) -> (r: Json)
        ensures
            r@ == self@,
        decreases self,
    {
        match self {
            Json::Null => Json::Null,
            Json::Bool(b) => Json::Bool(*b),
            Json::Number(n) => Json::Number(n.clone()),
            Json::Text(s) => Json::Text(s.clone()),
            Json::Array(items) => {
                let mut out: Vec<Json> = Vec::new();
                let mut i: usize = 0;
                while i < items.len()
                    invariant
                        *self == Json::Array(*items),
                        i <= items@.len(),
                        out@.len() == i,
                        forall|j: int| 0 <= j < i ==> (#[trigger] out@[j])@ == items@[j]@,
                    decreases items@.len() - i,
                {
                    proof {
                        lemma_item_smaller(*self, i as int);
                    }
                    out.push(items[i].copy());
                    i = i + 1;
                }
                let r = Json::Array(out);
                assert(r@->Array_0 =~= self@->Array_0);
                r
            },
            Json::Object(entries) => {
                let mut out: Vec<JsonEntry> = Vec::new();
                let mut i: usize = 0;
                while i < entries.len()
                    invariant
                        *self == Json::Object(*entries),
                        i <= entries@.len(),
                        entries_view(out@) == entries_view(entries@.take(i as int)),
                    decreases entries@.len() - i,
                {
                    proof {
                        lemma_entry_smaller(*self, i as int);
                    }
                    let ghost before = out@;
                    out.push(
                        JsonEntry { key: entries[i].key.clone(), value: entries[i].value.copy() },
                    );
                    assert(out@.drop_last() == before);
                    assert(entries@.take(i + 1).drop_last() == entries@.take(i as int));
                    i = i + 1;
                }
                assert(entries@.take(i as int) == entries@);
                Json::Object(out)
            },
        }
    }

    /// The JSON value that a `serde_json` value holds.
    pub fn from_value(v: serde_json::Value) -> (r: Json)
        ensures
            r@ == value_tree(v),
        decreases value_tree(v),
    {
        match open_value(v) {
            JsonNode::Null => Json::Null,
            JsonNode::Bool(b) => Json::Bool(b),
            JsonNode::Number(n) => Json::Number(n),
            JsonNode::Text(s) => Json::Text(s),
            JsonNode::Array(rest) => {
                let mut rest = rest;
                let ghost all = rest@;
                let ghost trees = all.map_values(|v: serde_json::Value| value_tree(v));
                let mut out: Vec<Json> = Vec::new();
                assert(rest@ == all.skip(0));
                while rest.len() > 0
                    invariant
                        trees == all.map_values(|v: serde_json::Value| value_tree(v)),
                        value_tree(v) == JsonView::Array(trees),
                        out@.len() + rest@.len() == all.len(),
                        rest@ == all.skip(out@.len() as int),
                        items_view(out@) == trees.take(out@.len() as int),
                    decreases rest@.len(),
                {
                    let ghost n = out@.len() as int;
                    if let Some(item) = rest.pop_front() {
                        assert(item == all[n]);
                        assert(decreases_to!(value_tree(v) => value_tree(v)->Array_0));
                        assert(decreases_to!(trees => trees[n]));
                        out.push(Json::from_value(item));
                        assert(items_view(out@) =~= trees.take(n + 1));
                        assert(rest@ =~= all.skip(n + 1));
                    }
                }
                let r = Json::Array(out);
                assert(r@->Array_0 =~= items_view(out@));
                assert(trees.take(out@.len() as int) == trees);
                r
            },
            JsonNode::Object(rest) => {
                let mut rest = rest;
                let ghost all = rest@;
                let mut out: Vec<JsonEntry> = Vec::new();
                assert(rest@ == all.skip(0));
                assert(entries_view(out@) == node_entries(all.take(0)));
                while rest.len() > 0
                    invariant
                        value_tree(v) == JsonView::Object(node_entries(all)),
                        distinct_keys(all),
                        out@.len() + rest@.len() == all.len(),
                        rest@ == all.skip(out@.len() as int),
                        entries_view(out@) == node_entries(all.take(out@.len() as int)),
                    decreases rest@.len(),
                {
                    let ghost n = out@.len() as int;
                    let ghost before = out@;
                    if let Some((key, value)) = rest.pop_front() {
                        assert((key, value) == all[n]);
                        proof {
                            lemma_node_entry(all, n);
                            assert(decreases_to!(value_tree(v) => value_tree(v)->Object_0));
                            assert(decreases_to!(node_entries(all) => node_entries(all)[key@]));
                        }
                        out.push(JsonEntry { key, value: Json::from_value(value) });
                        assert(out@.drop_last() == before);
                        assert(all.take(n + 1).drop_last() == all.take(n));
                        assert(rest@ =~= all.skip(n + 1));
                    }
                }
                assert(all.take(out@.len() as int) == all);
                Json::Object(out)
            },
        }
    }

    /// The `serde_json` value that holds this JSON value.
    pub fn into_value(self) -> (r: serde_json::Value)
        ensures
            value_tree(r) == self@,
        decreases self,
    {
        match self {
            Json::Null => close_value(JsonNode::Null),
            Json::Bool(b) => close_value(JsonNode::Bool(b)),
            Json::Number(n) => close_value(JsonNode::Number(n)),
            Json::Text(s) => close_value(JsonNode::Text(s)),
            Json::Array(items) => {
                let mut rest = items;
                let ghost all = rest@;
                let mut out: VecDeque<serde_json::Value> = VecDeque::new();
                while rest.len() > 0
                    invariant
                        self == Json::Array(items),
                        all == items@,
                        rest@.len() <= all.len(),
                        rest@ == all.take(rest@.len() as int),
                        out@.len() == all.len() - rest@.len(),
                        forall|i: int| 0 <= i < out@.len() ==> value_tree(#[trigger] out@[i])
                            == json_view(all[rest@.len() + i]),
                    decreases rest@.len(),
                {
                    let ghost n = rest@.len() as int;
                    if let Some(item) = rest.pop() {
                        assert(item == all[n - 1]);
                        proof {
                            lemma_item_smaller(self, n - 1);
                        }
                        let ghost before = out@;
                        out.push_front(item.into_value());
                        assert(rest@ =~= all.take(n - 1));
                        assert forall|i: int| 0 <= i < out@.len() implies value_tree(
                            #[trigger] out@[i],
                        ) == json_view(all[n - 1 + i]) by {
                            if i > 0 {
                                assert(out@[i] == before[i - 1]);
                            }
                        }
                    }
                }
                assert(self@->Array_0 =~= out@.map_values(|v: serde_json::Value| value_tree(v)));
                close_value(JsonNode::Array(out))
            },
            Json::Object(entries) => {
                let mut rest = entries;
                let ghost all = rest@;
                let mut out: VecDeque<(String, serde_json::Value)> = VecDeque::new();
                while rest.len() > 0
                    invariant
                        self == Json::Object(entries),
                        all == entries@,
                        rest@.len() <= all.len(),
                        rest@ == all.take(rest@.len() as int),
                        out@.len() == all.len() - rest@.len(),
                        forall|i: int| 0 <= i < out@.len() ==> {
                            &&& (#[trigger] out@[i]).0@ == all[rest@.len() + i].key@
                            &&& value_tree(out@[i].1) == json_view(all[rest@.len() + i].value)
                        },
                    decreases rest@.len(),
                {
                    let ghost n = rest@.len() as int;
                    let ghost before = out@;
                    if let Some(entry) = rest.pop() {
                        assert(entry == all[n - 1]);
                        proof {
                            lemma_entry_smaller(self, n - 1);
                        }
                        let JsonEntry { key, value } = entry;
                        out.push_front((key, value.into_value()));
                        assert(rest@ =~= all.take(n - 1));
                        assert forall|i: int| 0 <= i < out@.len() implies {
                            &&& (#[trigger] out@[i]).0@ == all[n - 1 + i].key@
                            &&& value_tree(out@[i].1) == json_view(all[n - 1 + i].value)
                        } by {
                            if i > 0 {
                                assert(out@[i] == before[i - 1]);
                            }
                        }
                    }
                }
                proof {
                    lemma_same_entries(all, out@);
                }
                close_value(JsonNode::Object(out))
            },
        }
    }

    /// Reads a JSON text.
    pub fn parse(text: &[u8]) -> (r: Option<Json>)
        ensures
            r is Some <==> decoded(text@) is Some,
            r matches Some(j) ==> decoded(text@) == Some(j@),
    {
        match read_value(text) {
            Ok(v) => Some(Json::from_value(v)),
            Err(_) => None,
        }
    }

    /// One part of a record of `count` parts, by its key or its place.
    pub fn part(&self, key: &str, place: usize, count: usize) -> (r: Option<&Json>)
        requires
            place < count,
        ensures
            r is Some <==> part(self@, key@, place as int, count as nat) is Some,
            r matches Some(j) ==> part(self@, key@, place as int, count as nat) == Some(j@),
    {
        match self.as_items() {
            Some(items) => if items.len() == count {
                assert(items_view(items@)[place as int] == items@[place as int]@);
                Some(&items[place])
            } else {
                None
            },
            None => self.get(key),
        }
    }

    /// The string that is one part of the record in a JSON text.
    pub fn text_in(text: &[u8], key: &str, place: usize, count: usize) -> (r: Option<String>)
        requires
            place < count,
        ensures
            crate::client::sync::optional_text(r) == said(text@, key@, place as int, count as nat),
    {
        match Json::parse(text) {
            Some(j) => match j.part(key, place, count) {
                Some(v) => match v.as_text() {
                    Some(s) => Some(s.to_owned()),
                    None => None,
                },
                None => None,
            },
            None => None,
        }
    }

    /// Writes the value as a compact text.
    pub fn write(self) -> (r: String)
        ensures
            r@ == encoded(self@),
            reads_as(vstd::utf8::encode_utf8(r@), self@),
    {
        match write_value(&self.into_value()) {
            Ok(s) => s,
            Err(_) => String::new(),
        }
    }
}

} // verus!
