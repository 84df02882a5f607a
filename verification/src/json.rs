//! JSON documents: the tree that serde_json parses, and the rules by which a
//! field of a record is read from it (objects by key, arrays by position).
use crate::model::opt_chars;
use crate::text::{all_digits, chars_of, digits_value, only_digits, same_chars};
use vstd::prelude::*;

verus! {

/// A parsed JSON value. A number keeps the text that serde_json prints for
/// it and the bit pattern of the double that `Number::as_f64` gives for it.
#[derive(Debug)]
pub enum JsonValue {
    Null,
    Bool(bool),
    Number(String, Option<u64>),
    Str(String),
    Array(Vec<JsonValue>),
    Object(Vec<(String, JsonValue)>),
}

/// The mathematical view of a JSON value.
pub enum JsonTree {
    Null,
    Bool(bool),
    Number(Seq<char>, Option<u64>),
    Str(Seq<char>),
    Array(Seq<JsonTree>),
    Object(Seq<(Seq<char>, JsonTree)>),
}

pub open spec fn tree_of(v: JsonValue) -> JsonTree
    decreases v, 1nat,
{
    match v {
        JsonValue::Null => JsonTree::Null,
        JsonValue::Bool(b) => JsonTree::Bool(b),
        JsonValue::Number(n, b) => JsonTree::Number(n@, b),
        JsonValue::Str(s) => JsonTree::Str(s@),
        JsonValue::Array(items) => JsonTree::Array(trees_of(items@, 0)),
        JsonValue::Object(entries) => JsonTree::Object(entry_trees_of(entries@, 0)),
    }
}

pub open spec fn trees_of(items: Seq<JsonValue>, from: nat) -> Seq<JsonTree>
    decreases items, 0nat, items.len() - from,
{
    if from < items.len() {
        seq![tree_of(items[from as int])] + trees_of(items, from + 1)
    } else {
        Seq::empty()
    }
}

pub open spec fn entry_trees_of(entries: Seq<(String, JsonValue)>, from: nat) -> Seq<
    (Seq<char>, JsonTree),
>
    decreases entries, 0nat, entries.len() - from,
{
    if from < entries.len() {
        seq![(entries[from as int].0@, tree_of(entries[from as int].1))] + entry_trees_of(
            entries,
            from + 1,
        )
    } else {
        Seq::empty()
    }
}

impl View for JsonValue {
    type V = JsonTree;

    open spec fn view(&self) -> JsonTree {
        tree_of(*self)
    }
}

pub proof fn lemma_trees_of(items: Seq<JsonValue>, from: nat)
    requires
        from <= items.len(),
    ensures
        trees_of(items, from).len() == items.len() - from,
        forall|i: int|
            0 <= i < items.len() - from ==> #[trigger] trees_of(items, from)[i] == tree_of(
                items[from + i],
            ),
    decreases items.len() - from,
{
    if from < items.len() {
        lemma_trees_of(items, from + 1);
        assert forall|i: int| 0 <= i < items.len() - from implies #[trigger] trees_of(
            items,
            from,
        )[i] == tree_of(items[from + i]) by {
            if i > 0 {
                assert(trees_of(items, from)[i] == trees_of(items, from + 1)[i - 1]);
            }
        }
    }
}

pub proof fn lemma_entry_trees_of(entries: Seq<(String, JsonValue)>, from: nat)
    requires
        from <= entries.len(),
    ensures
        entry_trees_of(entries, from).len() == entries.len() - from,
        forall|i: int|
            0 <= i < entries.len() - from ==> #[trigger] entry_trees_of(entries, from)[i] == (
                entries[from + i].0@,
                tree_of(entries[from + i].1),
            ),
    decreases entries.len() - from,
{
    if from < entries.len() {
        lemma_entry_trees_of(entries, from + 1);
        assert forall|i: int| 0 <= i < entries.len() - from implies #[trigger] entry_trees_of(
            entries,
            from,
        )[i] == (entries[from + i].0@, tree_of(entries[from + i].1)) by {
            if i > 0 {
                assert(entry_trees_of(entries, from)[i] == entry_trees_of(entries, from + 1)[i
                    - 1]);
            }
        }
    }
}

pub open spec fn opt_tree(v: Option<JsonValue>) -> Option<JsonTree> {
    match v {
        Some(x) => Some(x@),
        None => None,
    }
}

pub open spec fn opt_tree_ref(v: Option<&JsonValue>) -> Option<JsonTree> {
    match v {
        Some(x) => Some(x@),
        None => None,
    }
}

/// What serde_json's `from_slice` makes of the bytes as a `serde_json::Value`,
/// or `None` where it refuses them.
pub uninterp spec fn json_parse(bytes: Seq<u8>) -> Option<JsonTree>;

/// Parses the bytes with `serde_json::from_slice::<serde_json::Value>`.
/// Trusted: the result is taken to be the named document `json_parse`, with
/// objects as their (key, value) entries and numbers as the text that
/// `serde_json::Number` displays. The JSON grammar itself is not stated.
#[verifier::external_body]
pub(crate) fn parse_json(bytes: &[u8]) -> (r: Option<JsonValue>)
    ensures
        opt_tree(r) == json_parse(bytes@),
{
    serde_json::from_slice::<serde_json::Value>(bytes).ok().map(json_from_serde)
}

/// serde_json's own value type, carried opaquely.
#[verifier::external_type_specification]
#[verifier::external_body]
pub struct ExSerdeJsonValue(serde_json::Value);

/// Moves a `serde_json::Value` into the library's own tree, one variant for
/// one variant; part of the trusted parse above.
#[verifier::external_body]
fn json_from_serde(value: serde_json::Value) -> JsonValue {
    match value {
        serde_json::Value::Null => JsonValue::Null,
        serde_json::Value::Bool(b) => JsonValue::Bool(b),
        serde_json::Value::Number(n) => JsonValue::Number(n.to_string(), n.as_f64().map(|x| x.to_bits())),
        serde_json::Value::String(s) => JsonValue::Str(s),
        serde_json::Value::Array(a) => JsonValue::Array(a.into_iter().map(json_from_serde).collect()),
        serde_json::Value::Object(m) => JsonValue::Object(
            m.into_iter().map(|(k, v)| (k, json_from_serde(v))).collect(),
        ),
    }
}

/// The value of the first entry with the given key.
pub open spec fn lookup(entries: Seq<(Seq<char>, JsonTree)>, key: Seq<char>) -> Option<JsonTree>
    decreases entries.len(),
{
    if entries.len() == 0 {
        None
    } else if entries[0].0 == key {
        Some(entries[0].1)
    } else {
        lookup(entries.drop_first(), key)
    }
}

/// `serde_json::Value::get` with a key: the member of an object.
pub open spec fn tree_get(t: JsonTree, key: Seq<char>) -> Option<JsonTree> {
    match t {
        JsonTree::Object(entries) => lookup(entries, key),
        _ => None,
    }
}

/// Whether the tree is an object without members.
pub open spec fn is_empty_object(t: JsonTree) -> bool {
    t matches JsonTree::Object(e) && e.len() == 0
}

proof fn lemma_lookup_from(entries: Seq<(Seq<char>, JsonTree)>, key: Seq<char>, i: int)
    requires
        0 <= i <= entries.len(),
        forall|j: int| 0 <= j < i ==> #[trigger] entries[j].0 != key,
    ensures
        lookup(entries, key) == lookup(entries.subrange(i, entries.len() as int), key),
    decreases i,
{
    if i > 0 {
        assert(entries.drop_first().subrange(i - 1, entries.drop_first().len() as int)
            =~= entries.subrange(i, entries.len() as int));
        assert forall|j: int| 0 <= j < i - 1 implies #[trigger] entries.drop_first()[j].0
            != key by {
            assert(entries.drop_first()[j] == entries[j + 1]);
        }
        lemma_lookup_from(entries.drop_first(), key, i - 1);
    } else {
        assert(entries.subrange(0, entries.len() as int) =~= entries);
    }
}

/// The member of an object with the given key (`serde_json::Value::get`).
pub fn json_get<'a>(v: &'a JsonValue, key: &str) -> (r: Option<&'a JsonValue>)
    ensures
        opt_tree_ref(r) == tree_get(v@, key@),
{
    match v {
        JsonValue::Object(entries) => {
            let wanted = chars_of(key);
            let ghost t = entry_trees_of(entries@, 0);
            proof {
                lemma_entry_trees_of(entries@, 0);
            }
            assert(v@ == JsonTree::Object(t));
            let mut i: usize = 0;
            while i < entries.len()
                invariant
                    v@ == JsonTree::Object(t),
                    i <= entries@.len(),
                    t == entry_trees_of(entries@, 0),
                    t.len() == entries@.len(),
                    forall|j: int|
                        0 <= j < entries@.len() ==> #[trigger] t[j] == (
                            entries@[j].0@,
                            tree_of(entries@[j].1),
                        ),
                    wanted@ == key@,
                    forall|j: int| 0 <= j < i ==> #[trigger] t[j].0 != key@,
                decreases entries@.len() - i,
            {
                let name = chars_of(entries[i].0.as_str());
                if same_chars(&name, &wanted) {
                    proof {
                        lemma_lookup_from(t, key@, i as int);
                        assert(t.subrange(i as int, t.len() as int)[0] == t[i as int]);
                    }
                    return Some(&entries[i].1);
                }
                i = i + 1;
            }
            proof {
                lemma_lookup_from(t, key@, i as int);
            }
            None
        },
        _ => None,
    }
}

pub fn json_is_empty_object(v: &JsonValue) -> (r: bool)
    ensures
        r == is_empty_object(v@),
{
    match v {
        JsonValue::Object(entries) => {
            proof {
                lemma_entry_trees_of(entries@, 0);
            }
            entries.len() == 0
        },
        _ => false,
    }
}

/// A member of a record in a JSON document, read the way serde reads a
/// struct: from an object by name, from an array by position.
pub open spec fn field_at(t: JsonTree, name: Seq<char>, index: int) -> Option<JsonTree> {
    match t {
        JsonTree::Object(entries) => lookup(entries, name),
        JsonTree::Array(items) => if 0 <= index < items.len() {
            Some(items[index])
        } else {
            None
        },
        _ => None,
    }
}

/// Whether a document can hold a record whose fields have the given
/// defaults: any object, or an array with no more elements than fields whose
/// missing tail consists of defaulted fields.
pub open spec fn record_shape(t: JsonTree, defaults: Seq<bool>) -> bool {
    match t {
        JsonTree::Object(_) => true,
        JsonTree::Array(items) => items.len() <= defaults.len() && forall|i: int|
            items.len() <= i < defaults.len() ==> #[trigger] defaults[i],
        _ => false,
    }
}

pub fn json_field<'a>(v: &'a JsonValue, name: &str, index: usize) -> (r: Option<&'a JsonValue>)
    ensures
        opt_tree_ref(r) == field_at(v@, name@, index as int),
{
    match v {
        JsonValue::Array(items) => {
            proof {
                lemma_trees_of(items@, 0);
            }
            if index < items.len() {
                Some(&items[index])
            } else {
                None
            }
        },
        JsonValue::Object(_) => json_get(v, name),
        _ => None,
    }
}

pub fn json_record_shape(v: &JsonValue, defaults: &Vec<bool>) -> (r: bool)
    ensures
        r == record_shape(v@, defaults@),
{
    match v {
        JsonValue::Object(_) => true,
        JsonValue::Array(items) => {
            proof {
                lemma_trees_of(items@, 0);
            }
            let ghost t = trees_of(items@, 0);
            assert(v@ == JsonTree::Array(t));
            if items.len() > defaults.len() {
                return false;
            }
            let mut i = items.len();
            while i < defaults.len()
                invariant
                    v@ == JsonTree::Array(t),
                    t.len() == items@.len(),
                    items@.len() <= i <= defaults@.len(),
                    forall|j: int| items@.len() <= j < i ==> #[trigger] defaults@[j],
                decreases defaults@.len() - i,
            {
                if !defaults[i] {
                    return false;
                }
                i = i + 1;
            }
            true
        },
        _ => false,
    }
}

/// A required text field.
pub open spec fn dec_str(f: Option<JsonTree>) -> Option<Seq<char>> {
    match f {
        Some(JsonTree::Str(s)) => Some(s),
        _ => None,
    }
}

/// An optional text field (`Option<String>`): absent or null is `None`.
pub open spec fn dec_opt_str(f: Option<JsonTree>) -> Option<Option<Seq<char>>> {
    match f {
        None => Some(None),
        Some(JsonTree::Null) => Some(None),
        Some(JsonTree::Str(s)) => Some(Some(s)),
        _ => None,
    }
}

/// A text field that defaults to the empty text when absent.
pub open spec fn dec_str_or_empty(f: Option<JsonTree>) -> Option<Seq<char>> {
    match f {
        None => Some(Seq::empty()),
        Some(JsonTree::Str(s)) => Some(s),
        _ => None,
    }
}

/// The unsigned number that a JSON number denotes, if it fits below `max`.
pub open spec fn number_unsigned(text: Seq<char>, max: nat) -> Option<nat> {
    if text.len() > 0 && all_digits(text) && digits_value(text) <= max {
        Some(digits_value(text))
    } else {
        None
    }
}

/// A required unsigned field.
pub open spec fn dec_uint(f: Option<JsonTree>, max: nat) -> Option<nat> {
    match f {
        Some(JsonTree::Number(n, _)) => number_unsigned(n, max),
        _ => None,
    }
}

/// An optional unsigned field.
pub open spec fn dec_opt_uint(f: Option<JsonTree>, max: nat) -> Option<Option<nat>> {
    match f {
        None => Some(None),
        Some(JsonTree::Null) => Some(None),
        Some(JsonTree::Number(n, _)) => match number_unsigned(n, max) {
            Some(v) => Some(Some(v)),
            None => None,
        },
        _ => None,
    }
}

/// An optional number read as a double (`Option<f64>`): the bit pattern of
/// the double.
pub open spec fn dec_opt_number(f: Option<JsonTree>) -> Option<Option<u64>> {
    match f {
        None => Some(None),
        Some(JsonTree::Null) => Some(None),
        Some(JsonTree::Number(_, Some(b))) => Some(Some(b)),
        _ => None,
    }
}

/// An optional value of any shape (`Option<serde_json::Value>`).
pub open spec fn dec_opt_any(f: Option<JsonTree>) -> Option<JsonTree> {
    match f {
        Some(JsonTree::Null) => None,
        _ => f,
    }
}

pub fn json_str(f: Option<&JsonValue>) -> (r: Option<String>)
    ensures
        opt_chars(r) == dec_str(opt_tree_ref(f)),
{
    match f {
        Some(JsonValue::Str(s)) => Some(s.clone()),
        _ => None,
    }
}

pub fn json_opt_str(f: Option<&JsonValue>) -> (r: Option<Option<String>>)
    ensures
        match dec_opt_str(opt_tree_ref(f)) {
            Some(x) => r matches Some(y) && opt_chars(y) == x,
            None => r is None,
        },
{
    match f {
        None => Some(None),
        Some(JsonValue::Null) => Some(None),
        Some(JsonValue::Str(s)) => Some(Some(s.clone())),
        _ => None,
    }
}

pub fn json_str_or_empty(f: Option<&JsonValue>) -> (r: Option<String>)
    ensures
        opt_chars(r) == dec_str_or_empty(opt_tree_ref(f)),
{
    match f {
        None => Some(String::new()),
        Some(JsonValue::Str(s)) => Some(s.clone()),
        _ => None,
    }
}

pub fn json_number_unsigned(text: &String, max: u64) -> (r: Option<u64>)
    ensures
        match number_unsigned(text@, max as nat) {
            Some(v) => r == Some(v as u64),
            None => r is None,
        },
{
    let chars = chars_of(text.as_str());
    if chars.len() == 0 || !only_digits(&chars) {
        return None;
    }
    crate::text::parse_unsigned_chars(&chars, max)
}

pub fn json_uint(f: Option<&JsonValue>, max: u64) -> (r: Option<u64>)
    ensures
        match dec_uint(opt_tree_ref(f), max as nat) {
            Some(v) => r == Some(v as u64),
            None => r is None,
        },
{
    match f {
        Some(JsonValue::Number(n, _)) => json_number_unsigned(n, max),
        _ => None,
    }
}

pub fn json_opt_uint(f: Option<&JsonValue>, max: u64) -> (r: Option<Option<u64>>)
    ensures
        match dec_opt_uint(opt_tree_ref(f), max as nat) {
            Some(Some(v)) => r == Some(Some(v as u64)),
            Some(None) => r == Some(None::<u64>),
            None => r is None,
        },
{
    match f {
        None => Some(None),
        Some(JsonValue::Null) => Some(None),
        Some(JsonValue::Number(n, _)) => match json_number_unsigned(n, max) {
            Some(v) => Some(Some(v)),
            None => None,
        },
        _ => None,
    }
}

pub fn json_opt_number(f: Option<&JsonValue>) -> (r: Option<Option<u64>>)
    ensures
        r == dec_opt_number(opt_tree_ref(f)),
{
    match f {
        None => Some(None),
        Some(JsonValue::Null) => Some(None),
        Some(JsonValue::Number(_, Some(b))) => Some(Some(*b)),
        _ => None,
    }
}

pub fn json_opt_any(f: Option<&JsonValue>) -> (r: Option<&JsonValue>)
    ensures
        opt_tree_ref(r) == dec_opt_any(opt_tree_ref(f)),
{
    match f {
        Some(JsonValue::Null) => None,
        _ => f,
    }
}

/// The members of an array, as the trees they are.
pub fn json_items(v: &JsonValue) -> (r: Option<&Vec<JsonValue>>)
    ensures
        match v@ {
            JsonTree::Array(items) => r matches Some(x) && x@.len() == items.len() && forall|
                i: int,
            |
                0 <= i < items.len() ==> #[trigger] x@[i]@ == items[i],
            _ => r is None,
        },
{
    match v {
        JsonValue::Array(items) => {
            proof {
                lemma_trees_of(items@, 0);
            }
            Some(items)
        },
        _ => None,
    }
}

/// The number of values in a tree, counting the tree itself.
pub open spec fn tree_size(t: JsonTree) -> nat
    decreases t, 1nat,
{
    match t {
        JsonTree::Array(items) => 1 + sizes_of(items, 0),
        JsonTree::Object(entries) => 1 + entry_sizes_of(entries, 0),
        _ => 1,
    }
}

pub open spec fn sizes_of(items: Seq<JsonTree>, from: nat) -> nat
    decreases items, 0nat, items.len() - from,
{
    if from < items.len() {
        tree_size(items[from as int]) + sizes_of(items, from + 1)
    } else {
        0
    }
}

pub open spec fn entry_sizes_of(entries: Seq<(Seq<char>, JsonTree)>, from: nat) -> nat
    decreases entries, 0nat, entries.len() - from,
{
    if from < entries.len() {
        tree_size(entries[from as int].1) + entry_sizes_of(entries, from + 1)
    } else {
        0
    }
}

proof fn lemma_sizes_of(items: Seq<JsonTree>, from: nat, i: int)
    requires
        from <= i < items.len(),
    ensures
        tree_size(items[i]) <= sizes_of(items, from),
    decreases items.len() - from,
{
    if from < i {
        lemma_sizes_of(items, from + 1, i);
    }
}

proof fn lemma_entry_sizes_of(entries: Seq<(Seq<char>, JsonTree)>, from: nat, i: int)
    requires
        from <= i < entries.len(),
    ensures
        tree_size(entries[i].1) <= entry_sizes_of(entries, from),
    decreases entries.len() - from,
{
    if from < i {
        lemma_entry_sizes_of(entries, from + 1, i);
    }
}

proof fn lemma_lookup_member(entries: Seq<(Seq<char>, JsonTree)>, key: Seq<char>)
    ensures
        lookup(entries, key) matches Some(x) ==> exists|i: int|
            0 <= i < entries.len() && entries[i].1 == x,
    decreases entries.len(),
{
    if entries.len() > 0 && entries[0].0 != key {
        lemma_lookup_member(entries.drop_first(), key);
        if let Some(x) = lookup(entries, key) {
            let i = choose|i: int|
                0 <= i < entries.drop_first().len() && entries.drop_first()[i].1 == x;
            assert(entries[i + 1].1 == x);
        }
    }
}

/// A member of a record is smaller than the record.
pub proof fn lemma_field_smaller(t: JsonTree, name: Seq<char>, index: int)
    ensures
        field_at(t, name, index) matches Some(x) ==> tree_size(x) < tree_size(t),
{
    match t {
        JsonTree::Object(entries) => {
            lemma_lookup_member(entries, name);
            if let Some(x) = lookup(entries, name) {
                let i = choose|i: int| 0 <= i < entries.len() && entries[i].1 == x;
                lemma_entry_sizes_of(entries, 0, i);
            }
        },
        JsonTree::Array(items) => {
            if 0 <= index < items.len() {
                lemma_sizes_of(items, 0, index);
            }
        },
        _ => {},
    }
}

} // verus!
