//! JSON values: the tree that the gateway's rules read, and its passage from
//! and to JSON text.

use crate::{text, views};
use serde_json::{Number, Value};
use vstd::prelude::*;

verus! {

// ---------------------------------------------------------------------------
// The mathematical model
// ---------------------------------------------------------------------------

/// What a JSON value is. The members of an object stand in ascending order of
/// their keys.
pub enum JsonModel {
    Null,
    Bool(bool),
    Number { signed: Option<i64>, unsigned: Option<u64>, raw: Number },
    Text(Seq<char>),
    List(Seq<JsonModel>),
    Object(Seq<(Seq<char>, JsonModel)>),
}

/// `a` stands before `b` in the order of characters.
pub open spec fn text_less(a: Seq<char>, b: Seq<char>) -> bool
    decreases a.len(),
{
    if b.len() == 0 {
        false
    } else if a.len() == 0 {
        true
    } else {
        a[0] < b[0] || (a[0] == b[0] && text_less(a.skip(1), b.skip(1)))
    }
}

/// Each key stands before the next one.
pub open spec fn ascending(members: Seq<(Seq<char>, JsonModel)>) -> bool {
    forall|i: int, j: int|
        0 <= i && j == i + 1 && j < members.len() ==> text_less(
            (#[trigger] members[i]).0,
            (#[trigger] members[j]).0,
        )
}

/// The value that stands under `key`, the first one from position `from` on.
pub open spec fn lookup_from(
    members: Seq<(Seq<char>, JsonModel)>,
    key: Seq<char>,
    from: int,
) -> Option<JsonModel>
    decreases members.len() - from,
{
    if from < 0 || from >= members.len() {
        None
    } else if members[from].0 == key {
        Some(members[from].1)
    } else {
        lookup_from(members, key, from + 1)
    }
}

/// The position that a token of a JSON pointer names in an array: decimal
/// digits with neither a sign nor a leading zero.
pub open spec fn list_position(token: Seq<char>) -> Option<int> {
    if token.len() > 0 && (token[0] == '+' || (token[0] == '0' && token.len() != 1)) {
        None
    } else {
        text::parse_unsigned(token, usize::MAX as int)
    }
}

impl JsonModel {
    /// The member `key` of an object; nothing for any other value.
    pub open spec fn get(self, key: Seq<char>) -> Option<JsonModel> {
        match self {
            JsonModel::Object(members) => lookup_from(members, key, 0),
            _ => None,
        }
    }

    /// The part that one token of a JSON pointer leads to: a member of an
    /// object, or an item of an array by its position.
    pub open spec fn step(self, token: Seq<char>) -> Option<JsonModel> {
        match self {
            JsonModel::Object(members) => lookup_from(members, token, 0),
            JsonModel::List(items) => match list_position(token) {
                Some(at) => if at < items.len() {
                    Some(items[at])
                } else {
                    None
                },
                None => None,
            },
            _ => None,
        }
    }

    /// The part that a JSON pointer leads to, token by token.
    pub open spec fn pointer(self, tokens: Seq<Seq<char>>) -> Option<JsonModel>
        decreases tokens.len(),
    {
        if tokens.len() == 0 {
            Some(self)
        } else {
            match self.step(tokens[0]) {
                Some(part) => part.pointer(tokens.skip(1)),
                None => None,
            }
        }
    }

    /// The `i64` that a number is; nothing for any other value.
    pub open spec fn as_i64(self) -> Option<i64> {
        match self {
            JsonModel::Number { signed, .. } => signed,
            _ => None,
        }
    }

    /// The characters of a text; nothing for any other value.
    pub open spec fn as_text(self) -> Option<Seq<char>> {
        match self {
            JsonModel::Text(text) => Some(text),
            _ => None,
        }
    }
}

/// A JSON number: its value as a signed and as an unsigned integer, where it
/// has one, and the number itself.
#[derive(Debug)]
pub struct JsonNumber {
    signed: Option<i64>,
    unsigned: Option<u64>,
    raw: Number,
}

/// A JSON value.
#[derive(Debug)]
pub enum Json {
    Null,
    Bool(bool),
    Number(JsonNumber),
    String(String),
    Array(Vec<Json>),
    Object(JsonObject),
}

/// The members of a JSON object, each key once, in ascending order of the keys.
#[derive(Debug)]
pub struct JsonObject {
    members: Vec<(String, Json)>,
}

impl JsonNumber {
    pub closed spec fn spec_signed(&self) -> Option<i64> {
        self.signed
    }

    pub closed spec fn spec_unsigned(&self) -> Option<u64> {
        self.unsigned
    }

    pub closed spec fn spec_raw(&self) -> Number {
        self.raw
    }

    /// The number as a JSON value.
    pub open spec fn model(&self) -> JsonModel {
        JsonModel::Number {
            signed: self.spec_signed(),
            unsigned: self.spec_unsigned(),
            raw: self.spec_raw(),
        }
    }

    #[verifier::type_invariant]
    closed spec fn genuine(&self) -> bool {
        self.model() == number_contents(self.raw)
    }
}

impl JsonObject {
    /// The keys with their values.
    pub closed spec fn model(&self) -> Seq<(Seq<char>, JsonModel)>
        decreases self, 0nat,
    {
        Seq::new(
            self.members@.len(),
            |i: int|
                if 0 <= i < self.members@.len() {
                    (self.members@[i].0@, self.members@[i].1.model())
                } else {
                    arbitrary()
                },
        )
    }

    #[verifier::type_invariant]
    closed spec fn in_order(&self) -> bool {
        ascending(self.model())
    }
}

impl Json {
    /// The value that the tree stands for.
    pub open spec fn model(&self) -> JsonModel
        decreases self, 1nat,
    {
        match self {
            Json::Null => JsonModel::Null,
            Json::Bool(b) => JsonModel::Bool(*b),
            Json::Number(n) => n.model(),
            Json::String(text) => JsonModel::Text(text@),
            Json::Array(items) => JsonModel::List(
                Seq::new(
                    items@.len(),
                    |i: int|
                        if 0 <= i < items@.len() {
                            items@[i].model()
                        } else {
                            arbitrary()
                        },
                ),
            ),
            Json::Object(object) => JsonModel::Object(object.model()),
        }
    }
}

impl DeepView for Json {
    type V = JsonModel;

    open spec fn deep_view(&self) -> JsonModel {
        self.model()
    }
}

// ---------------------------------------------------------------------------
// JSON text
// ---------------------------------------------------------------------------

#[verifier::external_type_specification]
#[verifier::external_body]
pub struct ExValue(serde_json::Value);

#[verifier::external_type_specification]
#[verifier::external_body]
pub struct ExNumber(serde_json::Number);

/// The contents of a `serde_json::Value`.
pub uninterp spec fn value_contents(value: serde_json::Value) -> JsonModel;

/// What `serde_json::from_str` makes of a text: the value, or the message of
/// the error.
pub uninterp spec fn json_from_text(text: Seq<char>) -> Result<JsonModel, Seq<char>>;

/// What `serde_json::Number::as_i64` says of a number.
pub uninterp spec fn number_as_i64(number: serde_json::Number) -> Option<i64>;

/// What `serde_json::Number::as_u64` says of a number.
pub uninterp spec fn number_as_u64(number: serde_json::Number) -> Option<u64>;

/// What `serde_json::to_string` makes of a value; nothing where it fails.
pub uninterp spec fn json_compact(value: JsonModel) -> Option<Seq<char>>;

/// What `serde_json::to_string_pretty` makes of a value; nothing where it fails.
pub uninterp spec fn json_pretty(value: JsonModel) -> Option<Seq<char>>;

/// What the `Display` of `serde_json::Value` makes of a value.
pub uninterp spec fn json_display(value: JsonModel) -> Seq<char>;

/// A number as a JSON value.
pub open spec fn number_contents(number: Number) -> JsonModel {
    JsonModel::Number {
        signed: number_as_i64(number),
        unsigned: number_as_u64(number),
        raw: number,
    }
}

/// `serde_json::Number::as_i64`: the number as an `i64`, where it is one.
pub assume_specification[ serde_json::Number::as_i64 ](number: &serde_json::Number) -> (value: Option<i64>)
    ensures
        value == number_as_i64(*number),
;

/// `serde_json::Number::as_u64`: the number as a `u64`, where it is one.
pub assume_specification[ serde_json::Number::as_u64 ](number: &serde_json::Number) -> (value: Option<u64>)
    ensures
        value == number_as_u64(*number),
;

/// The clone of a `serde_json::Number` is the same number.
#[verifier::external_body]
fn clone_number(number: &Number) -> (clone: Number)
    ensures
        clone == *number,
{
    number.clone()
}

/// One level of a value, whose parts are still outside values.
enum Shape {
    Null,
    Bool(bool),
    Number(Number),
    Text(String),
    List(Vec<Value>),
    Object(Vec<(String, Value)>),
}

impl Shape {
    spec fn model(&self) -> JsonModel {
        match self {
            Shape::Null => JsonModel::Null,
            Shape::Bool(b) => JsonModel::Bool(*b),
            Shape::Number(n) => number_contents(*n),
            Shape::Text(text) => JsonModel::Text(text@),
            Shape::List(items) => JsonModel::List(items@.map_values(|v: Value| value_contents(v))),
            Shape::Object(members) => JsonModel::Object(
                members@.map_values(|m: (String, Value)| (m.0@, value_contents(m.1))),
            ),
        }
    }

    spec fn in_order(&self) -> bool {
        match self.model() {
            JsonModel::Object(members) => ascending(members),
            _ => true,
        }
    }
}

/// `serde_json::from_str`, for a value of any kind: the value that the text
/// spells, or the message of the error.
#[verifier::external_body]
fn value_from_str(text: &str) -> (value: Result<Value, String>)
    ensures
        match value {
            Ok(v) => json_from_text(text@) == Ok::<JsonModel, Seq<char>>(value_contents(v)),
            Err(message) => json_from_text(text@) == Err::<JsonModel, Seq<char>>(message@),
        },
{
    serde_json::from_str(text).map_err(|error| error.to_string())
}

/// Tells the variants of `serde_json::Value` apart. The members of an object
/// come in ascending order of their keys, each key once: `serde_json::Map`
/// keeps them in a `BTreeMap`.
#[verifier::external_body]
fn open_value(value: Value) -> (shape: Shape)
    ensures
        shape.model() == value_contents(value),
        shape.in_order(),
{
    match value {
        Value::Null => Shape::Null,
        Value::Bool(b) => Shape::Bool(b),
        Value::Number(n) => Shape::Number(n),
        Value::String(text) => Shape::Text(text),
        Value::Array(items) => Shape::List(items),
        Value::Object(members) => Shape::Object(members.into_iter().collect()),
    }
}

/// Puts a `serde_json::Value` together out of one level of it. The members of
/// an object are in ascending order, each key once, so that
/// `serde_json::Map` holds them as they are.
#[verifier::external_body]
fn close_value(shape: Shape) -> (value: Value)
    requires
        shape.in_order(),
    ensures
        value_contents(value) == shape.model(),
{
    match shape {
        Shape::Null => Value::Null,
        Shape::Bool(b) => Value::Bool(b),
        Shape::Number(n) => Value::Number(n),
        Shape::Text(text) => Value::String(text),
        Shape::List(items) => Value::Array(items),
        Shape::Object(members) => Value::Object(members.into_iter().collect()),
    }
}

/// `serde_json::to_string` of a value: its compact text.
#[verifier::external_body]
fn value_to_string(value: &Value) -> (text: Option<String>)
    ensures
        text.deep_view() == json_compact(value_contents(*value)),
{
    serde_json::to_string(value).ok()
}

/// `serde_json::to_string_pretty` of a value: its text over several lines.
#[verifier::external_body]
fn value_to_string_pretty(value: &Value) -> (text: Option<String>)
    ensures
        text.deep_view() == json_pretty(value_contents(*value)),
{
    serde_json::to_string_pretty(value).ok()
}

/// The `Display` of a `serde_json::Value`.
#[verifier::external_body]
fn value_display(value: &Value) -> (text: String)
    ensures
        text@ == json_display(value_contents(*value)),
{
    value.to_string()
}

/// The tree of an outside value.
pub fn import(value: Value) -> (json: Json)
    ensures
        json.model() == value_contents(value),
    decreases value_contents(value),
{
    match open_value(value) {
        Shape::Null => Json::Null,
        Shape::Bool(b) => Json::Bool(b),
        Shape::Number(raw) => Json::Number(
            JsonNumber { signed: raw.as_i64(), unsigned: raw.as_u64(), raw },
        ),
        Shape::Text(text) => Json::String(text),
        Shape::List(values) => {
            let ghost whole = values@;
            let mut items: Vec<Json> = Vec::new();
            for item in it: values
                invariant
                    it.seq() == whole,
                    value_contents(value) == JsonModel::List(
                        whole.map_values(|v: Value| value_contents(v)),
                    ),
                    items@.len() == it.index(),
                    forall|i: int|
                        0 <= i < it.index() ==> (#[trigger] items@[i]).model() == value_contents(
                            whole[i],
                        ),
            {
                let ghost k = it.index();
                assert(value_contents(value)->List_0[k] == value_contents(whole[k]));
                items.push(import(item));
            }
            let json = Json::Array(items);
            assert(json.model()->List_0 =~= whole.map_values(|v: Value| value_contents(v)));
            json
        },
        Shape::Object(values) => {
            let ghost whole = values@;
            let mut members: Vec<(String, Json)> = Vec::new();
            for member in it: values
                invariant
                    it.seq() == whole,
                    value_contents(value) == JsonModel::Object(
                        whole.map_values(|m: (String, Value)| (m.0@, value_contents(m.1))),
                    ),
                    members@.len() == it.index(),
                    forall|i: int|
                        0 <= i < it.index() ==> (#[trigger] members@[i]).0@ == whole[i].0@
                            && members@[i].1.model() == value_contents(whole[i].1),
            {
                let ghost k = it.index();
                assert(value_contents(value)->Object_0[k].1 == value_contents(whole[k].1));
                members.push((member.0, import(member.1)));
            }
            proof {
                let object = JsonObject { members };
                assert(object.model() =~= whole.map_values(
                    |m: (String, Value)| (m.0@, value_contents(m.1)),
                ));
            }
            Json::Object(JsonObject { members })
        },
    }
}

/// The outside value of a tree.
pub fn export(json: &Json) -> (value: Value)
    ensures
        value_contents(value) == json.model(),
    decreases json.model(),
{
    match json {
        Json::Null => close_value(Shape::Null),
        Json::Bool(b) => close_value(Shape::Bool(*b)),
        Json::Number(n) => {
            proof {
                use_type_invariant(n);
            }
            close_value(Shape::Number(clone_number(&n.raw)))
        },
        Json::String(text) => close_value(Shape::Text(text.clone())),
        Json::Array(items) => {
            let mut values: Vec<Value> = Vec::new();
            let mut i: usize = 0;
            while i < items.len()
                invariant
                    i <= items@.len(),
                    *json == Json::Array(*items),
                    values@.len() == i,
                    forall|k: int|
                        0 <= k < i ==> value_contents(#[trigger] values@[k]) == items@[k].model(),
                decreases items@.len() - i,
            {
                assert(json.model()->List_0[i as int] == items@[i as int].model());
                let value = export(&items[i]);
                values.push(value);
                i = i + 1;
            }
            assert(values@.map_values(|v: Value| value_contents(v)) =~= json.model()->List_0);
            close_value(Shape::List(values))
        },
        Json::Object(object) => {
            proof {
                use_type_invariant(object);
            }
            let mut values: Vec<(String, Value)> = Vec::new();
            let mut i: usize = 0;
            while i < object.members.len()
                invariant
                    i <= object.members@.len(),
                    *json == Json::Object(*object),
                    values@.len() == i,
                    forall|k: int|
                        0 <= k < i ==> (#[trigger] values@[k]).0@ == object.members@[k].0@
                            && value_contents(values@[k].1) == object.members@[k].1.model(),
                decreases object.members@.len() - i,
            {
                let member = &object.members[i];
                assert(object.model()[i as int].1 == member.1.model());
                assert(json.model()->Object_0[i as int].1 == member.1.model());
                let value = export(&member.1);
                values.push((member.0.clone(), value));
                i = i + 1;
            }
            assert(values@.map_values(|m: (String, Value)| (m.0@, value_contents(m.1)))
                =~= object.model());
            close_value(Shape::Object(values))
        },
    }
}

impl JsonNumber {
    /// The number as an `i64`, where it is one.
    pub fn as_i64(&self) -> (value: Option<i64>)
        ensures
            value == self.spec_signed(),
    {
        self.signed
    }

    /// The number as a `u64`, where it is one.
    pub fn as_u64(&self) -> (value: Option<u64>)
        ensures
            value == self.spec_unsigned(),
    {
        self.unsigned
    }

    fn copy(&self) -> (copy: JsonNumber)
        ensures
            copy.model() == self.model(),
    {
        proof {
            use_type_invariant(self);
        }
        JsonNumber {
            signed: self.signed,
            unsigned: self.unsigned,
            raw: clone_number(&self.raw),
        }
    }
}

impl JsonObject {
    /// The number of members.
    pub fn len(&self) -> (n: usize)
        ensures
            n == self.model().len(),
    {
        self.members.len()
    }

    /// The key at position `i`.
    pub fn key_at(&self, i: usize) -> (key: &String)
        requires
            i < self.model().len(),
        ensures
            key@ == self.model()[i as int].0,
    {
        &self.members[i].0
    }

    /// The value at position `i`.
    pub fn value_at(&self, i: usize) -> (value: &Json)
        requires
            i < self.model().len(),
        ensures
            value.model() == self.model()[i as int].1,
    {
        &self.members[i].1
    }

    /// The value under `key`.
    pub fn get(&self, key: &str) -> (value: Option<&Json>)
        ensures
            value.deep_view() == lookup_from(self.model(), key@, 0),
    {
        let mut i: usize = 0;
        while i < self.members.len()
            invariant
                i <= self.members@.len(),
                lookup_from(self.model(), key@, 0) == lookup_from(self.model(), key@, i as int),
            decreases self.members@.len() - i,
        {
            if text::same_text(self.members[i].0.as_str(), key) {
                return Some(&self.members[i].1);
            }
            i = i + 1;
        }
        None
    }

    fn copy(&self) -> (copy: JsonObject)
        ensures
            copy.model() == self.model(),
        decreases self.model(),
    {
        let mut members: Vec<(String, Json)> = Vec::new();
        let mut i: usize = 0;
        while i < self.members.len()
            invariant
                i <= self.members@.len(),
                members@.len() == i,
                forall|k: int|
                    0 <= k < i ==> (#[trigger] members@[k]).0@ == self.members@[k].0@
                        && members@[k].1.model() == self.members@[k].1.model(),
            decreases self.members@.len() - i,
        {
            let member = &self.members[i];
            assert(self.model()[i as int].1 == member.1.model());
            assert(decreases_to!(self.model() => self.model()[i as int]));
            let value = member.1.copy();
            members.push((member.0.clone(), value));
            i = i + 1;
        }
        proof {
            use_type_invariant(self);
            assert(JsonObject { members }.model() =~= self.model());
        }
        JsonObject { members }
    }
}

impl Json {
    /// The member `key` of an object.
    pub fn get(&self, key: &str) -> (value: Option<&Json>)
        ensures
            value.deep_view() == self.model().get(key@),
    {
        match self {
            Json::Object(object) => object.get(key),
            _ => None,
        }
    }

    /// The part that one token of a JSON pointer leads to.
    pub fn step(&self, token: &str) -> (part: Option<&Json>)
        ensures
            part.deep_view() == self.model().step(token@),
    {
        match self {
            Json::Object(object) => object.get(token),
            Json::Array(items) => {
                let chars = text::chars_of(token);
                if chars.len() > 0 && (chars[0] == '+' || (chars[0] == '0' && chars.len() != 1)) {
                    return None;
                }
                match text::unsigned_of(token, usize::MAX as u64) {
                    Some(at) => if at < items.len() as u64 {
                        Some(&items[at as usize])
                    } else {
                        None
                    },
                    None => None,
                }
            },
            _ => None,
        }
    }

    /// The part that the tokens of a JSON pointer lead to.
    pub fn pointer(&self, tokens: &[&str]) -> (part: Option<&Json>)
        ensures
            part.deep_view() == self.model().pointer(tokens@.map_values(|t: &str| t@)),
    {
        let ghost path = tokens@.map_values(|t: &str| t@);
        let mut here = self;
        let mut i: usize = 0;
        assert(path.skip(0) =~= path);
        while i < tokens.len()
            invariant
                i <= tokens@.len(),
                path == tokens@.map_values(|t: &str| t@),
                self.model().pointer(path) == here.model().pointer(path.skip(i as int)),
            decreases tokens@.len() - i,
        {
            assert(path.skip(i as int)[0] == tokens@[i as int]@);
            assert(path.skip(i as int).skip(1) =~= path.skip(i + 1));
            match here.step(tokens[i]) {
                Some(part) => {
                    here = part;
                },
                None => {
                    return None;
                },
            }
            i = i + 1;
        }
        Some(here)
    }

    /// The text, where the value is one.
    pub fn as_str(&self) -> (text: Option<&str>)
        ensures
            text.deep_view() == self.model().as_text(),
    {
        match self {
            Json::String(text) => Some(text.as_str()),
            _ => None,
        }
    }

    /// The value as an `i64`, where it is a number that is one.
    pub fn as_i64(&self) -> (value: Option<i64>)
        ensures
            value == self.model().as_i64(),
    {
        match self {
            Json::Number(n) => n.as_i64(),
            _ => None,
        }
    }

    /// A copy of the whole tree.
    pub fn copy(&self) -> (copy: Json)
        ensures
            copy.model() == self.model(),
        decreases self.model(),
    {
        match self {
            Json::Null => Json::Null,
            Json::Bool(b) => Json::Bool(*b),
            Json::Number(n) => Json::Number(n.copy()),
            Json::String(text) => Json::String(text.clone()),
            Json::Array(items) => {
                let mut copies: Vec<Json> = Vec::new();
                let mut i: usize = 0;
                while i < items.len()
                    invariant
                        i <= items@.len(),
                        *self == Json::Array(*items),
                        copies@.len() == i,
                        forall|k: int|
                            0 <= k < i ==> (#[trigger] copies@[k]).model() == items@[k].model(),
                    decreases items@.len() - i,
                {
                    assert(self.model()->List_0[i as int] == items@[i as int].model());
                    let item = items[i].copy();
                    copies.push(item);
                    i = i + 1;
                }
                let json = Json::Array(copies);
                assert(json.model()->List_0 =~= self.model()->List_0);
                json
            },
            Json::Object(object) => {
                assert(self.model()->Object_0 == object.model());
                assert(decreases_to!(self.model() => self.model()->Object_0));
                Json::Object(object.copy())
            },
        }
    }
}

impl Clone for Json {
    fn clone(&self) -> (copy: Self)
        ensures
            copy.model() == self.model(),
    {
        self.copy()
    }
}

/// Reads a JSON text; on failure, the message that says why.
pub fn parse_json(text: &str) -> (json: Result<Json, String>)
    ensures
        views::result_view(json) == json_from_text(text@),
{
    match value_from_str(text) {
        Ok(value) => Ok(import(value)),
        Err(message) => Err(message),
    }
}

/// The compact text of a value.
pub fn compact_text(json: &Json) -> (text: Option<String>)
    ensures
        text.deep_view() == json_compact(json.model()),
{
    value_to_string(&export(json))
}

/// The text of a value over several lines.
pub fn pretty_text(json: &Json) -> (text: Option<String>)
    ensures
        text.deep_view() == json_pretty(json.model()),
{
    value_to_string_pretty(&export(json))
}

/// The text of a value as `Display` gives it.
pub fn display_text(json: &Json) -> (text: String)
    ensures
        text@ == json_display(json.model()),
{
    value_display(&export(json))
}

// ---------------------------------------------------------------------------
// Laws
// ---------------------------------------------------------------------------

/// The member of an object under a key is the first one with that key; there
/// is none exactly where no member has the key. Nothing else has members.
pub proof fn law_member_is_the_first_with_its_key(members: Seq<(Seq<char>, JsonModel)>, key: Seq<char>)
    ensures
        match JsonModel::Object(members).get(key) {
            Some(value) => exists|i: int|
                #![trigger members[i]]
                0 <= i < members.len() && members[i] == (key, value) && forall|j: int|
                    0 <= j < i ==> (#[trigger] members[j]).0 != key,
            None => forall|j: int| 0 <= j < members.len() ==> (#[trigger] members[j]).0 != key,
        },
{
    lemma_lookup(members, key, 0);
}

proof fn lemma_lookup(members: Seq<(Seq<char>, JsonModel)>, key: Seq<char>, from: int)
    requires
        0 <= from <= members.len(),
    ensures
        match lookup_from(members, key, from) {
            Some(value) => exists|i: int|
                #![trigger members[i]]
                from <= i < members.len() && members[i] == (key, value) && forall|j: int|
                    from <= j < i ==> (#[trigger] members[j]).0 != key,
            None => forall|j: int| from <= j < members.len() ==> (#[trigger] members[j]).0 != key,
        },
    decreases members.len() - from,
{
    if from < members.len() {
        if members[from].0 == key {
            assert(members[from] == (key, members[from].1));
        } else {
            lemma_lookup(members, key, from + 1);
        }
    }
}

/// A key of which an object has a member is found.
pub proof fn law_given_member_is_found(members: Seq<(Seq<char>, JsonModel)>, at: int)
    requires
        0 <= at < members.len(),
        forall|j: int| 0 <= j < at ==> (#[trigger] members[j]).0 != members[at].0,
    ensures
        JsonModel::Object(members).get(members[at].0) == Some(members[at].1),
{
    law_member_is_the_first_with_its_key(members, members[at].0);
}

/// Only objects have members.
pub proof fn law_only_objects_have_members(value: JsonModel, key: Seq<char>)
    ensures
        value.get(key) is Some ==> value is Object,
{
}

/// A token leads from an object to its member, and from a list to the item
/// whose position it spells in decimal digits; there is no other way on.
pub proof fn law_token_leads_to_a_part(value: JsonModel, token: Seq<char>)
    ensures
        value is Object ==> value.step(token) == value.get(token),
        value matches JsonModel::List(items) ==> forall|i: int|
            0 <= i < items.len() && i <= usize::MAX && token == #[trigger] text::decimal(i)
                ==> value.step(token) == Some(items[i]),
        value matches JsonModel::List(items) ==> (value.step(token) is Some ==> exists|i: int|
            0 <= i < items.len() && token == #[trigger] text::decimal(i)),
        value.step(token) is Some ==> value is Object || value is List,
{
    if let JsonModel::List(items) = value {
        assert forall|i: int|
            0 <= i < items.len() && i <= usize::MAX && token == #[trigger] text::decimal(
                i,
            ) implies value.step(token) == Some(items[i]) by {
            text::law_decimal_spells_the_number(i);
            text::law_number_is_read_back(i as nat, 0, usize::MAX as int);
            assert('0' <= token[0] <= '9');
            assert(token.len() != 1 ==> i > 0);
        }
        if value.step(token) is Some {
            assert forall|k: int| 0 <= k < token.len() implies '0' <= #[trigger] token[k] <= '9' by {
                assert(text::is_digit(text::without_plus(token)[k]));
            }
            text::law_digits_are_decimal(token);
        }
    }
}

/// Following a path is following its beginning, and then the rest; a path
/// without tokens leads nowhere else.
pub proof fn law_path_is_followed_in_steps(value: JsonModel, first: Seq<Seq<char>>, second: Seq<Seq<char>>)
    ensures
        value.pointer(first + second) == (match value.pointer(first) {
            Some(part) => part.pointer(second),
            None => None,
        }),
        value.pointer(Seq::empty()) == Some(value),
    decreases first.len(),
{
    if first.len() == 0 {
        assert(first + second =~= second);
    } else {
        assert((first + second).skip(1) =~= first.skip(1) + second);
        if let Some(part) = value.step(first[0]) {
            law_path_is_followed_in_steps(part, first.skip(1), second);
        }
    }
}

/// A path of one token is one step.
pub proof fn law_path_of_one_token(value: JsonModel, token: Seq<char>)
    ensures
        value.pointer(seq![token]) == value.step(token),
{
    assert(seq![token].skip(1) =~= Seq::<Seq<char>>::empty());
    if let Some(part) = value.step(token) {
        assert(part.pointer(Seq::empty()) == Some(part));
    }
}

/// Texts, and only they, have characters; numbers, and only they, are integers.
pub proof fn law_values_are_what_they_are(value: JsonModel)
    ensures
        value matches JsonModel::Text(chars) ==> value.as_text() == Some(chars),
        value !is Text ==> value.as_text() is None,
        value matches JsonModel::Number { signed, .. } ==> value.as_i64() == signed,
        value !is Number ==> value.as_i64() is None,
{
}

/// The tree stands for the value that it is made of, a list with every item in
/// its place.
pub proof fn law_tree_stands_for_its_value(b: bool, chars: String, items: Vec<Json>, at: int)
    ensures
        Json::Null.model() is Null,
        Json::Bool(b).model() == JsonModel::Bool(b),
        Json::String(chars).model() == JsonModel::Text(chars@),
        Json::Array(items).model() is List,
        Json::Array(items).model()->List_0.len() == items@.len(),
        0 <= at < items@.len() ==> Json::Array(items).model()->List_0[at] == items@[at].model(),
{
}

} // verus!
