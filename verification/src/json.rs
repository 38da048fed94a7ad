//! The protocol JSON value.
//!
//! [`JsonValue`] is the value type at every integration boundary: tool schemas,
//! provider payloads and responses, capability manifests. Text is read and
//! written by `serde_json`, whose types stay inside this module.

use crate::model::Duplicate;
use crate::text::same;
use serde_json::value::RawValue;
use std::collections::BTreeMap;
use vstd::prelude::*;
use vstd::utf8::encode_utf8;

verus! {

/// `serde_json::Value`, carried through the conversions of this module.
#[verifier::external_type_specification]
#[verifier::external_body]
pub struct ExSerdeValue(serde_json::Value);

/// Name of the member by which `serde_json` marks a value that it keeps as text.
pub const RESERVED_MEMBER: &'static str = "$serde_json::private::RawValue";

/// Model of a JSON number.
pub enum NumberModel {
    /// A whole number.
    Int(int),
    /// Any other number, by its decimal text.
    Float(Seq<char>),
}

/// Whether a decimal text is a zero, of either sign.
pub open spec fn is_zero_text(text: Seq<char>) -> bool {
    text == "0.0"@ || text == "-0.0"@
}

impl NumberModel {
    /// Whether two numbers compare equal. The two zeros of a floating-point number do; a whole
    /// number equals no other.
    pub open spec fn alike(self, other: NumberModel) -> bool {
        match (self, other) {
            (NumberModel::Float(a), NumberModel::Float(b)) => a == b || (is_zero_text(a)
                && is_zero_text(b)),
            _ => self == other,
        }
    }
}

/// Model of a JSON value. An object is the map that its entries define.
pub enum Json {
    Null,
    Bool(bool),
    Number(NumberModel),
    String(Seq<char>),
    Array(Seq<Json>),
    Object(Map<Seq<char>, Json>),
}

/// A JSON number.
#[derive(Clone, Debug, PartialEq)]
pub enum JsonNumber {
    /// A non-negative whole number.
    Unsigned(u64),
    /// A whole number.
    Signed(i64),
    /// Any other number, by its decimal text.
    Float(String),
}

/// A JSON value.
#[derive(Debug, PartialEq)]
pub enum JsonValue {
    /// `null`.
    Null,
    /// `true` or `false`.
    Bool(bool),
    /// A number.
    Number(JsonNumber),
    /// A string.
    String(String),
    /// An array.
    Array(Vec<JsonValue>),
    /// An object.
    Object(JsonObject),
}

/// The members of a JSON object. A later member replaces an earlier one of the same name.
#[derive(Debug, PartialEq)]
pub struct JsonObject {
    entries: Vec<(String, JsonValue)>,
}

/// The shapes a JSON value can have.
#[derive(Clone, Copy, Debug, Eq, PartialEq, Structural)]
pub enum JsonKind {
    Null,
    Bool,
    Number,
    String,
    Array,
    Object,
}

/// Failure to read JSON text.
#[derive(Clone, Debug, Eq, PartialEq)]
pub struct JsonError {
    /// Diagnostic of the reader.
    pub message: String,
}

impl View for JsonNumber {
    type V = NumberModel;

    open spec fn view(&self) -> NumberModel {
        match *self {
            JsonNumber::Unsigned(n) => NumberModel::Int(n as int),
            JsonNumber::Signed(n) => NumberModel::Int(n as int),
            JsonNumber::Float(text) => NumberModel::Float(text@),
        }
    }
}

/// The model of a value.
pub closed spec fn value_model(value: JsonValue) -> Json
    decreases value,
{
    match value {
        JsonValue::Null => Json::Null,
        JsonValue::Bool(b) => Json::Bool(b),
        JsonValue::Number(n) => Json::Number(n@),
        JsonValue::String(s) => Json::String(s@),
        JsonValue::Array(items) => Json::Array(item_models(items@)),
        JsonValue::Object(object) => Json::Object(member_models(object.entries@)),
    }
}

/// The models of the items of an array.
pub closed spec fn item_models(items: Seq<JsonValue>) -> Seq<Json>
    decreases items,
{
    if items.len() == 0 {
        Seq::empty()
    } else {
        item_models(items.drop_last()).push(value_model(items.last()))
    }
}

/// The map that a sequence of members defines.
pub closed spec fn member_models(entries: Seq<(String, JsonValue)>) -> Map<Seq<char>, Json>
    decreases entries,
{
    if entries.len() == 0 {
        Map::empty()
    } else {
        member_models(entries.drop_last()).insert(
            entries.last().0@,
            value_model(entries.last().1),
        )
    }
}

impl View for JsonValue {
    type V = Json;

    closed spec fn view(&self) -> Json {
        value_model(*self)
    }
}

impl View for JsonObject {
    type V = Map<Seq<char>, Json>;

    closed spec fn view(&self) -> Map<Seq<char>, Json> {
        member_models(self.entries@)
    }
}

/// Shape by shape, the model of a value.
pub broadcast proof fn lemma_value_shape(value: JsonValue)
    ensures
        #[trigger] value@ == (match value {
            JsonValue::Null => Json::Null,
            JsonValue::Bool(b) => Json::Bool(b),
            JsonValue::Number(n) => Json::Number(n@),
            JsonValue::String(s) => Json::String(s@),
            JsonValue::Array(items) => Json::Array(crate::model::views(items@)),
            JsonValue::Object(object) => Json::Object(object@),
        }),
{
    if let JsonValue::Array(items) = value {
        lemma_item_models(items@);
    }
}

proof fn lemma_item_models(items: Seq<JsonValue>)
    ensures
        item_models(items) == crate::model::views(items),
    decreases items.len(),
{
    if items.len() > 0 {
        lemma_item_models(items.drop_last());
        assert(items =~= items.drop_last().push(items.last()));
        crate::model::lemma_views_push(items.drop_last(), items.last());
    } else {
        assert(item_models(items) =~= crate::model::views(items));
    }
}

/// The value of a member, if the object has it.
pub open spec fn member(object: Map<Seq<char>, Json>, key: Seq<char>) -> Option<Json> {
    if object.contains_key(key) {
        Some(object[key])
    } else {
        None
    }
}

impl Json {
    /// The value of a member, if this is an object that has it.
    pub open spec fn get(self, key: Seq<char>) -> Option<Json> {
        match self {
            Json::Object(object) => member(object, key),
            _ => None,
        }
    }

    /// The text of a string.
    pub open spec fn string(self) -> Option<Seq<char>> {
        match self {
            Json::String(s) => Some(s),
            _ => None,
        }
    }

    /// The value of a whole number that a `u64` can hold.
    pub open spec fn natural(self) -> Option<u64> {
        match self {
            Json::Number(NumberModel::Int(n)) => if 0 <= n <= u64::MAX {
                Some(n as u64)
            } else {
                None
            },
            _ => None,
        }
    }

    /// The items of an array.
    pub open spec fn items(self) -> Option<Seq<Json>> {
        match self {
            Json::Array(items) => Some(items),
            _ => None,
        }
    }

    /// The members of an object.
    pub open spec fn members(self) -> Option<Map<Seq<char>, Json>> {
        match self {
            Json::Object(object) => Some(object),
            _ => None,
        }
    }

    /// The value of a boolean.
    pub open spec fn boolean(self) -> Option<bool> {
        match self {
            Json::Bool(b) => Some(b),
            _ => None,
        }
    }

    /// The shape of a value.
    pub open spec fn kind(self) -> JsonKind {
        match self {
            Json::Null => JsonKind::Null,
            Json::Bool(_) => JsonKind::Bool,
            Json::Number(_) => JsonKind::Number,
            Json::String(_) => JsonKind::String,
            Json::Array(_) => JsonKind::Array,
            Json::Object(_) => JsonKind::Object,
        }
    }

    /// Whether two values compare equal: numbers as [`NumberModel::alike`] has it, items in their
    /// order, members by name.
    pub open spec fn alike(self, other: Json) -> bool
        decreases self,
    {
        match (self, other) {
            (Json::Number(a), Json::Number(b)) => a.alike(b),
            (Json::Array(a), Json::Array(b)) => a.len() == b.len() && forall|i: int|
                0 <= i < a.len() ==> (#[trigger] a[i]).alike(b[i]),
            (Json::Object(a), Json::Object(b)) => a.dom().finite() && a.dom() == b.dom()
                && forall|key: Seq<char>| #[trigger]
                a.contains_key(key) ==> a[key].alike(b[key]),
            _ => self == other,
        }
    }

    /// Whether all numbers are whole, arrays and objects nest at most `k` deep, and no object has
    /// the member that the reader keeps for itself.
    pub open spec fn whole_within(self, k: nat) -> bool
        decreases k,
    {
        match self {
            Json::Number(n) => n is Int,
            Json::Array(items) => k > 0 && forall|i: int|
                0 <= i < items.len() ==> (#[trigger] items[i]).whole_within((k - 1) as nat),
            Json::Object(object) => k > 0 && !object.contains_key(RESERVED_MEMBER@) && forall|
                key: Seq<char>,
            | #[trigger]
                object.contains_key(key) ==> object[key].whole_within((k - 1) as nat),
            _ => true,
        }
    }
}

impl JsonObject {
    /// An object without members.
    pub fn new() -> (r: JsonObject)
        ensures
            r@ == Map::<Seq<char>, Json>::empty(),
    {
        JsonObject { entries: Vec::new() }
    }

    /// Set one member.
    pub fn insert(&mut self, key: String, value: JsonValue)
        ensures
            final(self)@ == old(self)@.insert(key@, value@),
    {
        let ghost before = self.entries@;
        self.entries.push((key, value));
        proof {
            assert(self.entries@.drop_last() =~= before);
            assert(self.entries@.last() == (key, value));
        }
    }

    /// This object with one more member.
    pub fn with(self, key: &str, value: JsonValue) -> (r: JsonObject)
        ensures
            r@ == self@.insert(key@, value@),
    {
        let mut object = self;
        object.insert(key.to_owned(), value);
        object
    }

    /// Borrow the value of a member.
    pub fn get(&self, key: &str) -> (r: Option<&JsonValue>)
        ensures
            match r {
                Some(value) => member(self@, key@) == Some(value@),
                None => member(self@, key@) is None,
            },
    {
        match position(&self.entries, key) {
            Some(i) => Some(&self.entries[i].1),
            None => None,
        }
    }

    /// The first name, in the order of its characters, that is not one of the known names.
    pub fn least_unknown(&self, known: &Vec<&str>) -> (r: Option<&str>)
        ensures
            match r {
                Some(name) => {
                    &&& self@.contains_key(name@)
                    &&& !listed(known@, name@)
                    &&& forall|other: Seq<char>| #[trigger]
                        self@.contains_key(other) && !listed(known@, other)
                            ==> !crate::text::before(other, name@)
                },
                None => forall|name: Seq<char>| #[trigger]
                    self@.contains_key(name) ==> listed(known@, name),
            },
    {
        let mut best: Option<&str> = None;
        let mut i: usize = 0;
        assert(self.entries@.take(0) =~= Seq::<(String, JsonValue)>::empty());
        while i < self.entries.len()
            invariant
                i <= self.entries@.len(),
                match best {
                    Some(name) => {
                        &&& member_models(self.entries@.take(i as int)).contains_key(name@)
                        &&& !listed(known@, name@)
                        &&& forall|other: Seq<char>| #[trigger]
                            member_models(self.entries@.take(i as int)).contains_key(other)
                                && !listed(known@, other) ==> !crate::text::before(other, name@)
                    },
                    None => forall|name: Seq<char>| #[trigger]
                        member_models(self.entries@.take(i as int)).contains_key(name) ==> listed(
                            known@,
                            name,
                        ),
                },
            decreases self.entries.len() - i,
        {
            let ghost old_part = self.entries@.take(i as int);
            let ghost part = self.entries@.take(i + 1);
            let name = self.entries[i].0.as_str();
            proof {
                assert(part.drop_last() =~= old_part);
                assert(part.last() == self.entries@[i as int]);
            }
            if !is_listed(known, name) {
                match best {
                    Some(current) => {
                        if crate::text::is_before(name, current) {
                            proof {
                                assert forall|other: Seq<char>| #[trigger]
                                    member_models(part).contains_key(other) && !listed(known@, other)
                                    implies !crate::text::before(other, name@) by {
                                    if other != name@ {
                                        assert(member_models(old_part).contains_key(other));
                                        if crate::text::before(other, name@) {
                                            crate::text::lemma_before_trans(
                                                other,
                                                name@,
                                                current@,
                                            );
                                        }
                                    } else {
                                        crate::text::lemma_before_irreflexive(other);
                                    }
                                }
                            }
                            best = Some(name);
                        } else {
                            assert forall|other: Seq<char>| #[trigger]
                                member_models(part).contains_key(other) && !listed(known@, other)
                                implies !crate::text::before(other, current@) by {
                                if other != name@ {
                                    assert(member_models(old_part).contains_key(other));
                                }
                            }
                        }
                    },
                    None => {
                        proof {
                            assert forall|other: Seq<char>| #[trigger]
                                member_models(part).contains_key(other) && !listed(known@, other)
                                implies !crate::text::before(other, name@) by {
                                if other != name@ {
                                    assert(member_models(old_part).contains_key(other));
                                } else {
                                    crate::text::lemma_before_irreflexive(other);
                                }
                            }
                        }
                        best = Some(name);
                    },
                }
            } else {
                assert forall|other: Seq<char>| #[trigger]
                    member_models(part).contains_key(other) && !listed(known@, other)
                    implies member_models(old_part).contains_key(other) by {
                    assert(other != name@);
                }
                assert forall|other: Seq<char>| #[trigger] member_models(old_part).contains_key(other)
                    implies member_models(part).contains_key(other) by {}
            }
            i = i + 1;
        }
        assert(self.entries@.take(i as int) =~= self.entries@);
        best
    }
}

/// Index of the entry that holds the value of a member.
fn position(entries: &Vec<(String, JsonValue)>, key: &str) -> (r: Option<usize>)
    ensures
        match r {
            Some(i) => i < entries@.len() && member(member_models(entries@), key@) == Some(
                value_model(entries@[i as int].1),
            ),
            None => member(member_models(entries@), key@) is None,
        },
{
    let mut i: usize = entries.len();
    assert(entries@.take(i as int) =~= entries@);
    while i > 0
        invariant
            i <= entries@.len(),
            member(member_models(entries@), key@) == member(
                member_models(entries@.take(i as int)),
                key@,
            ),
        decreases i,
    {
        let ghost part = entries@.take(i as int);
        proof {
            assert(part.drop_last() =~= entries@.take(i - 1));
            assert(part.last() == entries@[i - 1]);
        }
        if same(entries[i - 1].0.as_str(), key) {
            return Some(i - 1);
        }
        i = i - 1;
    }
    assert(entries@.take(0) =~= Seq::<(String, JsonValue)>::empty());
    None
}

proof fn lemma_member_named(entries: Seq<(String, JsonValue)>, key: Seq<char>)
    requires
        member_models(entries).contains_key(key),
    ensures
        exists|i: int| 0 <= i < entries.len() && (#[trigger] entries[i]).0@ == key,
    decreases entries.len(),
{
    if entries.len() > 0 {
        if entries.last().0@ == key {
            assert(entries[entries.len() - 1].0@ == key);
        } else {
            lemma_member_named(entries.drop_last(), key);
            let i = choose|i: int|
                0 <= i < entries.drop_last().len() && (#[trigger] entries.drop_last()[i]).0@ == key;
            assert(entries[i].0@ == key);
        }
    }
}

proof fn lemma_named_member(entries: Seq<(String, JsonValue)>, i: int)
    requires
        0 <= i < entries.len(),
    ensures
        member_models(entries).contains_key(entries[i].0@),
    decreases entries.len(),
{
    if i < entries.len() - 1 {
        lemma_named_member(entries.drop_last(), i);
        assert(entries.drop_last()[i] == entries[i]);
    }
}

fn equal_values(a: &JsonValue, b: &JsonValue) -> (r: bool)
    ensures
        r == value_model(*a).alike(value_model(*b)),
    decreases a,
{
    match (a, b) {
        (JsonValue::Null, JsonValue::Null) => true,
        (JsonValue::Bool(a), JsonValue::Bool(b)) => *a == *b,
        (JsonValue::Number(a), JsonValue::Number(b)) => a.equals(b),
        (JsonValue::String(a), JsonValue::String(b)) => same(a.as_str(), b.as_str()),
        (JsonValue::Array(a), JsonValue::Array(b)) => equal_items(a, b),
        (JsonValue::Object(a), JsonValue::Object(b)) => equal_members(&a.entries, b),
        _ => false,
    }
}

fn equal_items(a: &Vec<JsonValue>, b: &Vec<JsonValue>) -> (r: bool)
    ensures
        r == Json::Array(item_models(a@)).alike(Json::Array(item_models(b@))),
    decreases a,
{
    let ghost all = crate::model::views(a@);
    let ghost others = crate::model::views(b@);
    proof {
        lemma_item_models(a@);
        lemma_item_models(b@);
        assert(all.len() == a@.len() && others.len() == b@.len());
    }
    if a.len() != b.len() {
        return false;
    }
    let mut i: usize = 0;
    while i < a.len()
        invariant
            i <= a@.len(),
            a@.len() == b@.len(),
            all == crate::model::views(a@),
            others == crate::model::views(b@),
            all == item_models(a@),
            others == item_models(b@),
            forall|j: int| 0 <= j < i ==> (#[trigger] all[j]).alike(others[j]),
        decreases a.len() - i,
    {
        assert(all[i as int] == value_model(a@[i as int]));
        assert(others[i as int] == value_model(b@[i as int]));
        if !equal_values(&a[i], &b[i]) {
            return false;
        }
        i = i + 1;
    }
    true
}

proof fn lemma_members_finite(entries: Seq<(String, JsonValue)>)
    ensures
        member_models(entries).dom().finite(),
    decreases entries.len(),
{
    if entries.len() > 0 {
        lemma_members_finite(entries.drop_last());
    }
}

fn equal_members(a: &Vec<(String, JsonValue)>, b: &JsonObject) -> (r: bool)
    ensures
        r == Json::Object(member_models(a@)).alike(Json::Object(member_models(b.entries@))),
    decreases a,
{
    let ghost mine = member_models(a@);
    let ghost other = member_models(b.entries@);
    let mut i: usize = 0;
    while i < a.len()
        invariant
            i <= a@.len(),
            mine == member_models(a@),
            other == member_models(b.entries@),
            forall|j: int|
                0 <= j < i ==> other.contains_key((#[trigger] a@[j]).0@) && mine[a@[j].0@].alike(
                    other[a@[j].0@],
                ),
        decreases a.len() - i,
    {
        let key = a[i].0.as_str();
        proof {
            lemma_named_member(a@, i as int);
        }
        match (position(a, key), position(&b.entries, key)) {
            (Some(p), Some(q)) => {
                if !equal_values(&a[p].1, &b.entries[q].1) {
                    assert(mine.contains_key(key@));
                    return false;
                }
            },
            _ => {
                assert(mine.contains_key(key@));
                assert(!other.dom().contains(key@));
                return false;
            },
        }
        i = i + 1;
    }
    let mut k: usize = 0;
    while k < b.entries.len()
        invariant
            k <= b.entries@.len(),
            mine == member_models(a@),
            other == member_models(b.entries@),
            forall|j: int|
                0 <= j < k ==> mine.contains_key((#[trigger] b.entries@[j]).0@),
        decreases b.entries.len() - k,
    {
        proof {
            lemma_named_member(b.entries@, k as int);
        }
        if position(a, b.entries[k].0.as_str()).is_none() {
            assert(other.dom().contains(b.entries@[k as int].0@));
            return false;
        }
        k = k + 1;
    }
    proof {
        assert forall|key: Seq<char>| mine.contains_key(key) <==> other.contains_key(key) by {
            if mine.contains_key(key) {
                lemma_member_named(a@, key);
            }
            if other.contains_key(key) {
                lemma_member_named(b.entries@, key);
            }
        }
        assert forall|key: Seq<char>| #[trigger] mine.contains_key(key) implies mine[key].alike(
            other[key],
        ) by {
            lemma_member_named(a@, key);
        }
        assert(mine.dom() =~= other.dom());
        lemma_members_finite(a@);
    }
    true
}

/// Whether a name is one of the listed names.
pub open spec fn listed(names: Seq<&str>, name: Seq<char>) -> bool {
    exists|i: int| 0 <= i < names.len() && (#[trigger] names[i])@ == name
}

fn is_listed(names: &Vec<&str>, name: &str) -> (r: bool)
    ensures
        r == listed(names@, name@),
{
    let mut i: usize = 0;
    while i < names.len()
        invariant
            i <= names@.len(),
            forall|j: int| 0 <= j < i ==> (#[trigger] names@[j])@ != name@,
        decreases names.len() - i,
    {
        if same(names[i], name) {
            assert(names@[i as int]@ == name@);
            return true;
        }
        i = i + 1;
    }
    false
}

impl JsonValue {
    /// A whole number.
    pub fn unsigned(n: u64) -> (r: JsonValue)
        ensures
            r@ == Json::Number(NumberModel::Int(n as int)),
    {
        broadcast use lemma_value_shape;

        JsonValue::Number(JsonNumber::Unsigned(n))
    }

    /// A number that is not whole, by its decimal text.
    pub fn decimal(text: &str) -> (r: JsonValue)
        ensures
            r@ == Json::Number(NumberModel::Float(text@)),
    {
        broadcast use lemma_value_shape;

        JsonValue::Number(JsonNumber::Float(text.to_owned()))
    }

    /// A string.
    pub fn text(s: &str) -> (r: JsonValue)
        ensures
            r@ == Json::String(s@),
    {
        broadcast use lemma_value_shape;

        JsonValue::String(s.to_owned())
    }

    /// A boolean.
    pub fn flag(b: bool) -> (r: JsonValue)
        ensures
            r@ == Json::Bool(b),
    {
        broadcast use lemma_value_shape;

        JsonValue::Bool(b)
    }

    /// `null`.
    pub fn null() -> (r: JsonValue)
        ensures
            r@ == Json::Null,
    {
        broadcast use lemma_value_shape;

        JsonValue::Null
    }

    /// An array.
    pub fn array(items: Vec<JsonValue>) -> (r: JsonValue)
        ensures
            r@ == Json::Array(crate::model::views(items@)),
    {
        broadcast use lemma_value_shape;

        JsonValue::Array(items)
    }

    /// An object.
    pub fn object(object: JsonObject) -> (r: JsonValue)
        ensures
            r@ == Json::Object(object@),
    {
        broadcast use lemma_value_shape;

        JsonValue::Object(object)
    }

    /// Borrow the value of a member, if this is an object that has it.
    pub fn get(&self, key: &str) -> (r: Option<&JsonValue>)
        ensures
            match r {
                Some(value) => self@.get(key@) == Some(value@),
                None => self@.get(key@) is None,
            },
    {
        broadcast use lemma_value_shape;

        match self {
            JsonValue::Object(object) => object.get(key),
            _ => None,
        }
    }

    /// Borrow the text of a string.
    pub fn as_str(&self) -> (r: Option<&str>)
        ensures
            match r {
                Some(text) => self@.string() == Some(text@),
                None => self@.string() is None,
            },
    {
        broadcast use lemma_value_shape;

        match self {
            JsonValue::String(text) => Some(text.as_str()),
            _ => None,
        }
    }

    /// The value of a whole number that a `u64` can hold.
    pub fn as_u64(&self) -> (r: Option<u64>)
        ensures
            r == self@.natural(),
    {
        broadcast use lemma_value_shape;

        match self {
            JsonValue::Number(JsonNumber::Unsigned(n)) => Some(*n),
            JsonValue::Number(JsonNumber::Signed(n)) => if *n >= 0 {
                Some(*n as u64)
            } else {
                None
            },
            _ => None,
        }
    }

    /// The value of a boolean.
    pub fn as_bool(&self) -> (r: Option<bool>)
        ensures
            r == self@.boolean(),
    {
        broadcast use lemma_value_shape;

        match self {
            JsonValue::Bool(b) => Some(*b),
            _ => None,
        }
    }

    /// Borrow the items of an array.
    pub fn as_array(&self) -> (r: Option<&Vec<JsonValue>>)
        ensures
            match r {
                Some(items) => self@.items() == Some(crate::model::views(items@)),
                None => self@.items() is None,
            },
    {
        broadcast use lemma_value_shape;

        match self {
            JsonValue::Array(items) => Some(items),
            _ => None,
        }
    }

    /// Borrow the members of an object.
    pub fn as_object(&self) -> (r: Option<&JsonObject>)
        ensures
            match r {
                Some(object) => self@.members() == Some(object@),
                None => self@.members() is None,
            },
    {
        broadcast use lemma_value_shape;

        match self {
            JsonValue::Object(object) => Some(object),
            _ => None,
        }
    }

    /// The shape of this value.
    pub fn kind(&self) -> (r: JsonKind)
        ensures
            r == self@.kind(),
    {
        broadcast use lemma_value_shape;

        match self {
            JsonValue::Null => JsonKind::Null,
            JsonValue::Bool(_) => JsonKind::Bool,
            JsonValue::Number(_) => JsonKind::Number,
            JsonValue::String(_) => JsonKind::String,
            JsonValue::Array(_) => JsonKind::Array,
            JsonValue::Object(_) => JsonKind::Object,
        }
    }

    /// Whether two values are equal, members compared by name.
    pub fn equals(&self, other: &JsonValue) -> (r: bool)
        ensures
            r == self@.alike(other@),
    {
        equal_values(self, other)
    }

    /// Read one value from JSON text.
    pub fn parse(text: &str) -> (r: Result<JsonValue, JsonError>)
        ensures
            match r {
                Ok(value) => serde_from_str(text@) == Ok::<Json, Seq<char>>(value@),
                Err(error) => serde_from_str(text@) == Err::<Json, Seq<char>>(error.message@),
            },
    {
        match read_text(text) {
            Ok(value) => Ok(value),
            Err(message) => Err(JsonError { message }),
        }
    }

    /// Write this value as compact JSON text, members in the order of their names.
    pub fn to_json_string(&self) -> (r: String)
        ensures
            r@ == serde_to_string(self@),
            self@.whole_within(127) ==> serde_from_str(r@) is Ok && serde_from_str(r@)->Ok_0 == self@,
    {
        write_text(self)
    }
}

impl JsonKind {
    /// Name of a shape, as diagnostics print it.
    pub open spec fn spec_name(self) -> Seq<char> {
        match self {
            JsonKind::Null => "Null"@,
            JsonKind::Bool => "Bool"@,
            JsonKind::Number => "Number"@,
            JsonKind::String => "String"@,
            JsonKind::Array => "Array"@,
            JsonKind::Object => "Object"@,
        }
    }

    /// Name of this shape, as diagnostics print it.
    pub fn name(self) -> (r: &'static str)
        ensures
            r@ == self.spec_name(),
    {
        match self {
            JsonKind::Null => "Null",
            JsonKind::Bool => "Bool",
            JsonKind::Number => "Number",
            JsonKind::String => "String",
            JsonKind::Array => "Array",
            JsonKind::Object => "Object",
        }
    }
}

fn is_zero(text: &str) -> (r: bool)
    ensures
        r == is_zero_text(text@),
{
    same(text, "0.0") || same(text, "-0.0")
}

impl JsonNumber {
    fn equals(&self, other: &JsonNumber) -> (r: bool)
        ensures
            r == self@.alike(other@),
    {
        match (self, other) {
            (JsonNumber::Unsigned(a), JsonNumber::Unsigned(b)) => *a == *b,
            (JsonNumber::Signed(a), JsonNumber::Signed(b)) => *a == *b,
            (JsonNumber::Unsigned(a), JsonNumber::Signed(b)) => *b >= 0 && *a == *b as u64,
            (JsonNumber::Signed(a), JsonNumber::Unsigned(b)) => *a >= 0 && *a as u64 == *b,
            (JsonNumber::Float(a), JsonNumber::Float(b)) => same(a.as_str(), b.as_str()) || (
            is_zero(a.as_str()) && is_zero(b.as_str())),
            _ => false,
        }
    }

    fn duplicate_number(&self) -> (r: JsonNumber)
        ensures
            r@ == self@,
    {
        match self {
            JsonNumber::Unsigned(n) => JsonNumber::Unsigned(*n),
            JsonNumber::Signed(n) => JsonNumber::Signed(*n),
            JsonNumber::Float(text) => JsonNumber::Float(text.clone()),
        }
    }
}

impl Duplicate for JsonValue {
    fn duplicate(&self) -> (r: Self) {
        duplicate_value(self)
    }
}

impl Clone for JsonValue {
    fn clone(&self) -> (r: Self)
        ensures
            r@ == self@,
    {
        duplicate_value(self)
    }
}

impl Clone for JsonObject {
    fn clone(&self) -> (r: Self)
        ensures
            r@ == self@,
    {
        JsonObject { entries: duplicate_entries(&self.entries) }
    }
}

fn duplicate_value(value: &JsonValue) -> (r: JsonValue)
    ensures
        r@ == value@,
    decreases value,
{
    match value {
        JsonValue::Null => JsonValue::Null,
        JsonValue::Bool(b) => JsonValue::Bool(*b),
        JsonValue::Number(n) => JsonValue::Number(n.duplicate_number()),
        JsonValue::String(s) => JsonValue::String(s.clone()),
        JsonValue::Array(items) => JsonValue::Array(duplicate_items(items)),
        JsonValue::Object(object) => JsonValue::Object(
            JsonObject { entries: duplicate_entries(&object.entries) },
        ),
    }
}

fn duplicate_items(items: &Vec<JsonValue>) -> (r: Vec<JsonValue>)
    ensures
        item_models(r@) == item_models(items@),
    decreases items,
{
    let mut out: Vec<JsonValue> = Vec::new();
    let mut i: usize = 0;
    assert(items@.take(0) =~= out@);
    while i < items.len()
        invariant
            i <= items@.len(),
            item_models(out@) == item_models(items@.take(i as int)),
        decreases items.len() - i,
    {
        let item = duplicate_value(&items[i]);
        proof {
            assert(items@.take(i + 1).drop_last() =~= items@.take(i as int));
            assert(out@.push(item).drop_last() =~= out@);
        }
        out.push(item);
        i = i + 1;
    }
    assert(items@.take(i as int) =~= items@);
    out
}

fn duplicate_entries(entries: &Vec<(String, JsonValue)>) -> (r: Vec<(String, JsonValue)>)
    ensures
        member_models(r@) == member_models(entries@),
    decreases entries,
{
    let mut out: Vec<(String, JsonValue)> = Vec::new();
    let mut i: usize = 0;
    assert(entries@.take(0) =~= out@);
    while i < entries.len()
        invariant
            i <= entries@.len(),
            member_models(out@) == member_models(entries@.take(i as int)),
        decreases entries.len() - i,
    {
        let item = (entries[i].0.clone(), duplicate_value(&entries[i].1));
        proof {
            assert(entries@.take(i + 1).drop_last() =~= entries@.take(i as int));
            assert(out@.push(item).drop_last() =~= out@);
        }
        out.push(item);
        i = i + 1;
    }
    assert(entries@.take(i as int) =~= entries@);
    out
}

/// What `serde_json::from_str` reads from a text: a value, or the text of its error.
pub uninterp spec fn serde_from_str(text: Seq<char>) -> Result<Json, Seq<char>>;

/// What `serde_json::from_slice` reads from bytes, if they hold one JSON value.
pub uninterp spec fn serde_from_slice(bytes: Seq<u8>) -> Option<Json>;

/// What `serde_json::to_string` writes for a value.
pub uninterp spec fn serde_to_string(value: Json) -> Seq<char>;

/// `serde_json::from_str`: the value that a text writes, or the text of the error.
#[verifier::external_body]
fn read_text(text: &str) -> (r: Result<JsonValue, String>)
    ensures
        match r {
            Ok(value) => serde_from_str(text@) == Ok::<Json, Seq<char>>(value@),
            Err(message) => serde_from_str(text@) == Err::<Json, Seq<char>>(message@),
        },
{
    serde_json::from_str(text).map(import).map_err(|error| error.to_string())
}

/// `serde_json::from_slice`: the value that bytes write, or `None` where they write none.
#[verifier::external_body]
pub(crate) fn read_bytes(bytes: &[u8]) -> (r: Option<JsonValue>)
    ensures
        match r {
            Some(value) => serde_from_slice(bytes@) == Some(value@),
            None => serde_from_slice(bytes@) is None,
        },
{
    serde_json::from_slice(bytes).ok().map(import)
}

/// `serde_json::to_string`: the text of a value. Reading the text of whole numbers, strings
/// and containers that nest at most 127 deep (the reader's limit) gives the value back, but for
/// an object with the member that the reader keeps for itself.
#[verifier::external_body]
fn write_text(value: &JsonValue) -> (r: String)
    ensures
        r@ == serde_to_string(value@),
        value@.whole_within(127) ==> serde_from_str(r@) is Ok && serde_from_str(r@)->Ok_0 == value@,
{
    export(value).to_string()
}

/// What `serde_json::from_slice` reads from bytes as an object whose members stay text, if they
/// hold one: each name with the text of its value, in the order of the names.
pub uninterp spec fn serde_raw_members(bytes: Seq<u8>) -> Option<Seq<(Seq<char>, Seq<char>)>>;

/// The views of names with texts.
pub open spec fn pair_views(pairs: Seq<(String, String)>) -> Seq<(Seq<char>, Seq<char>)> {
    pairs.map_values(|pair: (String, String)| (pair.0@, pair.1@))
}

/// Whether bytes stand, one after another, within others.
pub open spec fn part_of(part: Seq<u8>, whole: Seq<u8>) -> bool {
    exists|at: int| #[trigger] starts_at(part, whole, at)
}

/// Whether bytes stand within others from this place on.
pub open spec fn starts_at(part: Seq<u8>, whole: Seq<u8>, at: int) -> bool {
    0 <= at && at + part.len() <= whole.len() && whole.subrange(at, at + part.len()) == part
}

/// `serde_json::from_slice` as a map to `serde_json::value::RawValue`: the members of an object,
/// each with the text of its value. The text is a part of the bytes, as it stands there; nothing
/// more is claimed of it.
#[verifier::external_body]
fn raw_members(bytes: &[u8]) -> (r: Option<Vec<(String, String)>>)
    ensures
        match r {
            Some(members) => serde_raw_members(bytes@) == Some(pair_views(members@)) && forall|
                i: int,
            |
                0 <= i < members@.len() ==> part_of(
                    encode_utf8((#[trigger] members@[i]).1@),
                    bytes@,
                ),
            None => serde_raw_members(bytes@) is None,
        },
{
    let members: BTreeMap<String, Box<RawValue>> = serde_json::from_slice(bytes).ok()?;
    Some(members.into_iter().map(|(name, text)| (name, text.get().to_owned())).collect())
}

/// The text of the member with a name, among members by name.
pub open spec fn text_named(members: Seq<(Seq<char>, Seq<char>)>, name: Seq<char>) -> Option<
    Seq<char>,
>
    decreases members.len(),
{
    if members.len() == 0 {
        None
    } else if members[0].0 == name {
        Some(members[0].1)
    } else {
        text_named(members.drop_first(), name)
    }
}

/// The text of the value that a path of member names leads to, as it was written.
pub open spec fn text_at_path(bytes: Seq<u8>, path: Seq<Seq<char>>) -> Option<Seq<char>>
    decreases path.len(),
{
    if path.len() == 0 {
        None
    } else {
        match serde_raw_members(bytes) {
            None => None,
            Some(members) => match text_named(members, path[0]) {
                None => None,
                Some(text) => if path.len() == 1 {
                    Some(text)
                } else {
                    text_at_path(encode_utf8(text), path.drop_first())
                },
            },
        }
    }
}

/// The views of names.
pub open spec fn name_views(names: Seq<&str>) -> Seq<Seq<char>> {
    names.map_values(|name: &str| name@)
}

proof fn lemma_parts_nest(inner: Seq<u8>, part: Seq<u8>, whole: Seq<u8>)
    requires
        part_of(inner, part),
        part_of(part, whole),
    ensures
        part_of(inner, whole),
{
    let i = choose|i: int| #[trigger] starts_at(inner, part, i);
    let j = choose|j: int| #[trigger] starts_at(part, whole, j);
    assert(whole.subrange(i + j, i + j + inner.len()) =~= part.subrange(i, i + inner.len()));
    assert(starts_at(inner, whole, i + j));
}

fn take_member(bytes: &[u8], name: &str) -> (r: Option<String>)
    ensures
        crate::model::opt_view(r) == match serde_raw_members(bytes@) {
            None => None,
            Some(members) => text_named(members, name@),
        },
        r matches Some(text) ==> part_of(encode_utf8(text@), bytes@),
{
    let members = match raw_members(bytes) {
        None => return None,
        Some(members) => members,
    };
    let ghost all = pair_views(members@);
    let mut i: usize = 0;
    assert(all.skip(0) =~= all);
    while i < members.len()
        invariant
            i <= members@.len(),
            all == pair_views(members@),
            text_named(all, name@) == text_named(all.skip(i as int), name@),
            forall|k: int|
                0 <= k < members@.len() ==> part_of(
                    encode_utf8((#[trigger] members@[k]).1@),
                    bytes@,
                ),
            serde_raw_members(bytes@) == Some(all),
        decreases members.len() - i,
    {
        let ghost rest = all.skip(i as int);
        proof {
            assert(rest[0] == (members@[i as int].0@, members@[i as int].1@));
            assert(rest.drop_first() =~= all.skip(i + 1));
        }
        if same(members[i].0.as_str(), name) {
            return Some(members[i].1.clone());
        }
        i = i + 1;
    }
    assert(all.skip(i as int).len() == 0);
    None
}

fn take_from(bytes: &[u8], path: &[&str], from: usize) -> (r: Option<String>)
    requires
        from <= path@.len(),
    ensures
        crate::model::opt_view(r) == text_at_path(bytes@, name_views(path@).skip(from as int)),
        r matches Some(text) ==> part_of(encode_utf8(text@), bytes@),
    decreases path@.len() - from,
{
    let ghost names = name_views(path@).skip(from as int);
    if from == path.len() {
        return None;
    }
    assert(names[0] == path@[from as int]@);
    let text = match take_member(bytes, path[from]) {
        None => return None,
        Some(text) => text,
    };
    if from + 1 == path.len() {
        return Some(text);
    }
    assert(names.drop_first() =~= name_views(path@).skip(from + 1));
    let found = take_from(text.as_str().as_bytes(), path, from + 1);
    proof {
        if found is Some {
            lemma_parts_nest(encode_utf8(found->0@), encode_utf8(text@), bytes@);
        }
    }
    found
}

/// Take the text of the value that a path of member names leads to, as it was written.
pub(crate) fn take_text(bytes: &[u8], path: &[&str]) -> (r: Option<String>)
    ensures
        crate::model::opt_view(r) == text_at_path(bytes@, name_views(path@)),
        r matches Some(text) ==> part_of(encode_utf8(text@), bytes@),
{
    assert(name_views(path@).skip(0) =~= name_views(path@));
    take_from(bytes, path, 0)
}

/// Variant by variant, a `serde_json::Value` as a [`JsonValue`].
#[verifier::external_body]
pub(crate) fn import(value: serde_json::Value) -> JsonValue {
    match value {
        serde_json::Value::Null => JsonValue::Null,
        serde_json::Value::Bool(b) => JsonValue::Bool(b),
        serde_json::Value::Number(n) => JsonValue::Number(match (n.as_u64(), n.as_i64()) {
            (Some(n), _) => JsonNumber::Unsigned(n),
            (_, Some(n)) => JsonNumber::Signed(n),
            _ => JsonNumber::Float(n.to_string()),
        }),
        serde_json::Value::String(s) => JsonValue::String(s),
        serde_json::Value::Array(items) => JsonValue::Array(items.into_iter().map(import).collect()),
        serde_json::Value::Object(members) => JsonValue::Object(JsonObject {
            entries: members.into_iter().map(|(key, value)| (key, import(value))).collect(),
        }),
    }
}

/// Variant by variant, a [`JsonValue`] as a `serde_json::Value`.
#[verifier::external_body]
pub(crate) fn export(value: &JsonValue) -> serde_json::Value {
    match value {
        JsonValue::Null => serde_json::Value::Null,
        JsonValue::Bool(b) => serde_json::Value::from(*b),
        JsonValue::Number(JsonNumber::Unsigned(n)) => serde_json::Value::from(*n),
        JsonValue::Number(JsonNumber::Signed(n)) => serde_json::Value::from(*n),
        JsonValue::Number(JsonNumber::Float(text)) => serde_json::from_str(text).unwrap_or_default(),
        JsonValue::String(s) => serde_json::Value::from(s.as_str()),
        JsonValue::Array(items) => items.iter().map(export).collect(),
        JsonValue::Object(object) => object.entries.iter().map(|e| (e.0.clone(), export(&e.1))).collect(),
    }
}

} // verus!
