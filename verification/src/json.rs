//! JSON values as the node API exchanges them, their mathematical model,
//! field accessors, parsing through `serde_json`, and their compact text.

use vstd::prelude::*;

use crate::text::{decimal, push_decimal, push_signed_decimal, signed_decimal, str_eq};

verus! {

/// A JSON number: a non-negative integer, a negative integer, or any other
/// number kept as its text.
#[derive(Debug, PartialEq, Eq)]
pub enum JsonNumber {
    PosInt(u64),
    NegInt(i64),
    Float(String),
}

impl Clone for JsonNumber {
    fn clone(&self) -> (r: Self)
        ensures
            r == *self,
    {
        match self {
            JsonNumber::PosInt(n) => JsonNumber::PosInt(*n),
            JsonNumber::NegInt(n) => JsonNumber::NegInt(*n),
            JsonNumber::Float(t) => JsonNumber::Float(t.clone()),
        }
    }
}

/// A JSON value. Object members keep their order.
#[derive(Debug)]
pub enum JsonValue {
    Null,
    Bool(bool),
    Number(JsonNumber),
    String(String),
    Array(Vec<JsonValue>),
    Object(Vec<(String, JsonValue)>),
}

/// The mathematical content of a [`JsonValue`].
pub enum JsonModel {
    Null,
    Bool(bool),
    Number(JsonNumber),
    Str(Seq<char>),
    Array(Seq<JsonModel>),
    Object(Seq<(Seq<char>, JsonModel)>),
}

/// The model of a value.
pub open spec fn json_model(v: JsonValue) -> JsonModel
    decreases v,
{
    match v {
        JsonValue::Null => JsonModel::Null,
        JsonValue::Bool(b) => JsonModel::Bool(b),
        JsonValue::Number(n) => JsonModel::Number(n),
        JsonValue::String(s) => JsonModel::Str(s@),
        JsonValue::Array(items) => JsonModel::Array(item_models(items@)),
        JsonValue::Object(members) => JsonModel::Object(member_models(members@)),
    }
}

/// The models of array items.
pub open spec fn item_models(items: Seq<JsonValue>) -> Seq<JsonModel>
    decreases items,
{
    if items.len() == 0 {
        Seq::empty()
    } else {
        item_models(items.drop_last()).push(json_model(items.last()))
    }
}

/// The models of object members.
pub open spec fn member_models(members: Seq<(String, JsonValue)>) -> Seq<(Seq<char>, JsonModel)>
    decreases members,
{
    if members.len() == 0 {
        Seq::empty()
    } else {
        member_models(members.drop_last()).push((members.last().0@, json_model(members.last().1)))
    }
}

impl View for JsonValue {
    type V = JsonModel;

    open spec fn view(&self) -> JsonModel {
        json_model(*self)
    }
}

pub proof fn lemma_item_models_len(items: Seq<JsonValue>)
    ensures
        item_models(items).len() == items.len(),
        forall|i: int| 0 <= i < items.len() ==> #[trigger] item_models(items)[i] == json_model(items[i]),
    decreases items.len(),
{
    if items.len() > 0 {
        lemma_item_models_len(items.drop_last());
    }
}

pub proof fn lemma_member_models_len(members: Seq<(String, JsonValue)>)
    ensures
        member_models(members).len() == members.len(),
        forall|i: int| 0 <= i < members.len() ==> #[trigger] member_models(members)[i] == (members[i].0@, json_model(members[i].1)),
    decreases members.len(),
{
    if members.len() > 0 {
        lemma_member_models_len(members.drop_last());
    }
}

/// Copies a value; the copy has the same model.
pub fn clone_json(v: &JsonValue) -> (r: JsonValue)
    ensures
        r@ == v@,
    decreases *v,
{
    match v {
        JsonValue::Null => JsonValue::Null,
        JsonValue::Bool(b) => JsonValue::Bool(*b),
        JsonValue::Number(n) => JsonValue::Number(n.clone()),
        JsonValue::String(s) => JsonValue::String(s.clone()),
        JsonValue::Array(items) => {
            let mut out: Vec<JsonValue> = Vec::new();
            let mut i: usize = 0;
            while i < items.len()
                invariant
                    *v == JsonValue::Array(*items),
                    i <= items@.len(),
                    item_models(out@) == item_models(items@.take(i as int)),
                decreases items.len() - i,
            {
                proof {
                    assert(decreases_to!(*v => v->Array_0));
                    assert(decreases_to!(v->Array_0 => items@));
                    assert(decreases_to!(items@ => items@[i as int]));
                }
                let c = clone_json(&items[i]);
                let ghost before = out@;
                out.push(c);
                proof {
                    assert(out@.drop_last() =~= before);
                    assert(items@.take(i + 1).drop_last() =~= items@.take(i as int));
                }
                i = i + 1;
            }
            assert(items@.take(items@.len() as int) =~= items@);
            JsonValue::Array(out)
        },
        JsonValue::Object(members) => {
            let mut out: Vec<(String, JsonValue)> = Vec::new();
            let mut i: usize = 0;
            while i < members.len()
                invariant
                    *v == JsonValue::Object(*members),
                    i <= members@.len(),
                    member_models(out@) == member_models(members@.take(i as int)),
                decreases members.len() - i,
            {
                proof {
                    assert(decreases_to!(*v => v->Object_0));
                    assert(decreases_to!(v->Object_0 => members@));
                    assert(decreases_to!(members@ => members@[i as int]));
                    assert(decreases_to!(members@[i as int] => members@[i as int].1));
                }
                let c = clone_json(&members[i].1);
                let k = members[i].0.clone();
                let ghost before = out@;
                out.push((k, c));
                proof {
                    assert(out@.drop_last() =~= before);
                    assert(members@.take(i + 1).drop_last() =~= members@.take(i as int));
                }
                i = i + 1;
            }
            assert(members@.take(members@.len() as int) =~= members@);
            JsonValue::Object(out)
        },
    }
}

impl Clone for JsonValue {
    fn clone(&self) -> (r: Self)
        ensures
            r@ == self@,
    {
        clone_json(self)
    }
}

/// Appending a member extends the models by the member's model.
pub proof fn lemma_member_models_push(members: Seq<(String, JsonValue)>, x: (String, JsonValue))
    ensures
        member_models(members.push(x)) == member_models(members).push((x.0@, json_model(x.1))),
{
    assert(members.push(x).drop_last() =~= members);
}

/// Appending an item extends the models by the item's model.
pub proof fn lemma_item_models_push(items: Seq<JsonValue>, x: JsonValue)
    ensures
        item_models(items.push(x)) == item_models(items).push(json_model(x)),
{
    assert(items.push(x).drop_last() =~= items);
}

/// Appends the member `key: value` to an object under construction.
pub fn object_push(members: &mut Vec<(String, JsonValue)>, key: &str, value: JsonValue)
    ensures
        member_models(final(members)@) == member_models(old(members)@).push((key@, value@)),
{
    let k = String::from_str(key);
    let ghost e = (k, value);
    members.push((k, value));
    proof {
        lemma_member_models_push(old(members)@, e);
    }
}

/// The first member of `members` named `key`.
pub open spec fn member(members: Seq<(Seq<char>, JsonModel)>, key: Seq<char>) -> Option<JsonModel>
    decreases members.len(),
{
    if members.len() == 0 {
        None
    } else if members[0].0 == key {
        Some(members[0].1)
    } else {
        member(members.drop_first(), key)
    }
}

/// The member `key` of an object; `None` for other values.
pub open spec fn field(v: JsonModel, key: Seq<char>) -> Option<JsonModel> {
    match v {
        JsonModel::Object(members) => member(members, key),
        _ => None,
    }
}

/// The text of a string value.
pub open spec fn text_of(v: JsonModel) -> Option<Seq<char>> {
    match v {
        JsonModel::Str(s) => Some(s),
        _ => None,
    }
}

/// A non-negative integer value.
pub open spec fn u64_of(v: JsonModel) -> Option<u64> {
    match v {
        JsonModel::Number(JsonNumber::PosInt(n)) => Some(n),
        _ => None,
    }
}

/// A boolean value.
pub open spec fn bool_of(v: JsonModel) -> Option<bool> {
    match v {
        JsonModel::Bool(b) => Some(b),
        _ => None,
    }
}

/// The text of the member `key`, when it is a string.
pub open spec fn field_text(v: JsonModel, key: Seq<char>) -> Option<Seq<char>> {
    match field(v, key) {
        Some(x) => text_of(x),
        None => None,
    }
}

/// The member `key`, when it is a non-negative integer.
pub open spec fn field_u64(v: JsonModel, key: Seq<char>) -> Option<u64> {
    match field(v, key) {
        Some(x) => u64_of(x),
        None => None,
    }
}

/// The member `key`, when it is a boolean.
pub open spec fn field_bool(v: JsonModel, key: Seq<char>) -> Option<bool> {
    match field(v, key) {
        Some(x) => bool_of(x),
        None => None,
    }
}

/// A string value.
pub fn json_str(s: &str) -> (r: JsonValue)
    ensures
        r@ == JsonModel::Str(s@),
{
    JsonValue::String(String::from_str(s))
}

/// A non-negative integer value.
pub fn json_u64(n: u64) -> (r: JsonValue)
    ensures
        r@ == JsonModel::Number(JsonNumber::PosInt(n)),
{
    JsonValue::Number(JsonNumber::PosInt(n))
}

impl JsonValue {
    /// The member `key` of an object.
    pub fn get(&self, key: &str) -> (r: Option<&JsonValue>)
        ensures
            match field(self@, key@) {
                Some(x) => r matches Some(y) && y@ == x,
                None => r is None,
            },
    {
        match self {
            JsonValue::Object(members) => {
                proof {
                    lemma_member_models_len(members@);
                }
                let ghost ms = member_models(members@);
                let mut i: usize = 0;
                assert(ms.skip(0) =~= ms);
                while i < members.len()
                    invariant
                        i <= members@.len(),
                        ms.len() == members@.len(),
                        forall|j: int| 0 <= j < members@.len() ==> #[trigger] ms[j] == (members@[j].0@, json_model(members@[j].1)),
                        field(self@, key@) == member(ms, key@),
                        member(ms, key@) == member(ms.skip(i as int), key@),
                    decreases members.len() - i,
                {
                    proof {
                        assert(ms.skip(i as int)[0] == ms[i as int]);
                        assert(ms.skip(i as int).drop_first() =~= ms.skip(i + 1));
                    }
                    if str_eq(members[i].0.as_str(), key) {
                        return Some(&members[i].1);
                    }
                    i = i + 1;
                }
                assert(ms.skip(i as int) =~= Seq::<(Seq<char>, JsonModel)>::empty());
                None
            },
            _ => None,
        }
    }

    /// The text of a string value.
    pub fn as_str(&self) -> (r: Option<&str>)
        ensures
            match text_of(self@) {
                Some(t) => r matches Some(s) && s@ == t,
                None => r is None,
            },
    {
        match self {
            JsonValue::String(s) => Some(s.as_str()),
            _ => None,
        }
    }

    /// A non-negative integer value.
    pub fn as_u64(&self) -> (r: Option<u64>)
        ensures
            r == u64_of(self@),
    {
        match self {
            JsonValue::Number(JsonNumber::PosInt(n)) => Some(*n),
            _ => None,
        }
    }

    /// A boolean value.
    pub fn as_bool(&self) -> (r: Option<bool>)
        ensures
            r == bool_of(self@),
    {
        match self {
            JsonValue::Bool(b) => Some(*b),
            _ => None,
        }
    }

    /// The items of an array value.
    pub fn as_array(&self) -> (r: Option<&Vec<JsonValue>>)
        ensures
            match self@ {
                JsonModel::Array(items) => r matches Some(x) && item_models(x@) == items,
                _ => r is None,
            },
    {
        match self {
            JsonValue::Array(items) => Some(items),
            _ => None,
        }
    }
}

/// The text of the member `key`, when it is a string.
pub fn get_text<'a>(v: &'a JsonValue, key: &str) -> (r: Option<&'a str>)
    ensures
        match field_text(v@, key@) {
            Some(t) => r matches Some(s) && s@ == t,
            None => r is None,
        },
{
    match v.get(key) {
        Some(x) => x.as_str(),
        None => None,
    }
}

/// The member `key`, when it is a non-negative integer.
pub fn get_u64(v: &JsonValue, key: &str) -> (r: Option<u64>)
    ensures
        r == field_u64(v@, key@),
{
    match v.get(key) {
        Some(x) => x.as_u64(),
        None => None,
    }
}

/// The member `key`, when it is a boolean.
pub fn get_bool(v: &JsonValue, key: &str) -> (r: Option<bool>)
    ensures
        r == field_bool(v@, key@),
{
    match v.get(key) {
        Some(x) => x.as_bool(),
        None => None,
    }
}

// ---------------------------------------------------------------------------
// Parsing
// ---------------------------------------------------------------------------

/// `serde_json`'s parse of `text` into a value, or its error message.
pub uninterp spec fn json_parse(text: Seq<char>) -> Result<JsonModel, Seq<char>>;

/// The parse tree of `serde_json` as a [`JsonValue`]: one node for one node.
#[verifier::external_type_specification]
#[verifier::external_body]
pub struct ExSerdeValue(serde_json::Value);

/// Turns a `serde_json::Value` into the library's own tree, node by node:
/// integers that fit `u64` or `i64` stay integers, other numbers keep the
/// text `serde_json` prints for them.
#[verifier::external_body]
fn from_serde_value(v: serde_json::Value) -> JsonValue {
    match v {
        serde_json::Value::Null => JsonValue::Null,
        serde_json::Value::Bool(b) => JsonValue::Bool(b),
        serde_json::Value::Number(n) => JsonValue::Number(match (n.as_u64(), n.as_i64()) {
            (Some(u), _) => JsonNumber::PosInt(u),
            (None, Some(i)) => JsonNumber::NegInt(i),
            (None, None) => JsonNumber::Float(n.to_string()),
        }),
        serde_json::Value::String(s) => JsonValue::String(s),
        serde_json::Value::Array(a) => JsonValue::Array(a.into_iter().map(from_serde_value).collect()),
        serde_json::Value::Object(m) => JsonValue::Object(m.into_iter().map(|(k, x)| (k, from_serde_value(x))).collect()),
    }
}

/// `serde_json::from_str::<serde_json::Value>`: the parse of `text`, or the
/// text of `serde_json`'s error. What is accepted and what comes out is
/// `serde_json`'s business and is named, not restated.
#[verifier::external_body]
pub(crate) fn parse_json(text: &str) -> (r: Result<JsonValue, String>)
    ensures
        match json_parse(text@) {
            Ok(m) => r matches Ok(v) && v@ == m,
            Err(e) => r matches Err(s) && s@ == e,
        },
{
    match serde_json::from_str::<serde_json::Value>(text) {
        Ok(v) => Ok(from_serde_value(v)),
        Err(e) => Err(e.to_string()),
    }
}

/// `serde_json`'s parse of the bytes `bytes` into a value, or its error
/// message.
pub uninterp spec fn json_parse_bytes(bytes: Seq<u8>) -> Result<JsonModel, Seq<char>>;

/// `serde_json::from_slice::<serde_json::Value>`: the parse of `bytes`, or
/// the text of `serde_json`'s error. What is accepted and what comes out is
/// `serde_json`'s business and is named, not restated.
#[verifier::external_body]
fn parse_json_slice(bytes: &[u8]) -> (r: Result<JsonValue, String>)
    ensures
        match json_parse_bytes(bytes@) {
            Ok(m) => r matches Ok(v) && v@ == m,
            Err(e) => r matches Err(s) && s@ == e,
        },
{
    match serde_json::from_slice::<serde_json::Value>(bytes) {
        Ok(v) => Ok(from_serde_value(v)),
        Err(e) => Err(e.to_string()),
    }
}

/// Parses a JSON body given as bytes; bytes that `serde_json` refuses are a
/// codec error carrying its message.
pub fn parse_json_body(bytes: &[u8]) -> (r: Result<JsonValue, crate::error::GridError>)
    ensures
        match json_parse_bytes(bytes@) {
            Ok(m) => r matches Ok(v) && v@ == m,
            Err(e) => r matches Err(crate::error::GridError::Codec(s)) && s@ == e,
        },
{
    match parse_json_slice(bytes) {
        Ok(v) => Ok(v),
        Err(e) => Err(crate::error::GridError::Codec(e)),
    }
}

/// Parses JSON text; text that `serde_json` refuses is a codec error
/// carrying its message.
pub fn parse_json_text(text: &str) -> (r: Result<JsonValue, crate::error::GridError>)
    ensures
        match json_parse(text@) {
            Ok(m) => r matches Ok(v) && v@ == m,
            Err(e) => r matches Err(crate::error::GridError::Codec(s)) && s@ == e,
        },
{
    match parse_json(text) {
        Ok(v) => Ok(v),
        Err(e) => Err(crate::error::GridError::Codec(e)),
    }
}

// ---------------------------------------------------------------------------
// Compact text form
// ---------------------------------------------------------------------------

/// The lower-case hexadecimal digit for `d < 16`.
pub open spec fn hex_digit(d: nat) -> char {
    if d < 10 {
        (('0' as u32) + d) as char
    } else {
        (('a' as u32) + d - 10) as char
    }
}

/// How one character appears inside a JSON string literal.
pub open spec fn escape_char(c: char) -> Seq<char> {
    if c == '"' {
        seq!['\\', '"']
    } else if c == '\\' {
        seq!['\\', '\\']
    } else if c == '\u{8}' {
        seq!['\\', 'b']
    } else if c == '\u{c}' {
        seq!['\\', 'f']
    } else if c == '\n' {
        seq!['\\', 'n']
    } else if c == '\r' {
        seq!['\\', 'r']
    } else if c == '\t' {
        seq!['\\', 't']
    } else if (c as u32) < 0x20 {
        seq!['\\', 'u', '0', '0', hex_digit((c as u32 / 16) as nat), hex_digit((c as u32 % 16) as nat)]
    } else {
        seq![c]
    }
}

/// The escaped contents of a string literal.
pub open spec fn escape(s: Seq<char>) -> Seq<char>
    decreases s.len(),
{
    if s.len() == 0 {
        seq![]
    } else {
        escape(s.drop_last()) + escape_char(s.last())
    }
}

/// A JSON string literal.
pub open spec fn quoted(s: Seq<char>) -> Seq<char> {
    seq!['"'] + escape(s) + seq!['"']
}

/// The text of a number.
pub open spec fn number_text(n: JsonNumber) -> Seq<char> {
    match n {
        JsonNumber::PosInt(u) => decimal(u as nat),
        JsonNumber::NegInt(i) => signed_decimal(i as int),
        JsonNumber::Float(t) => t@,
    }
}

/// The compact text of a value, as `serde_json::to_string` writes it.
pub open spec fn json_text(v: JsonModel) -> Seq<char>
    decreases v,
{
    match v {
        JsonModel::Null => "null"@,
        JsonModel::Bool(b) => if b {
            "true"@
        } else {
            "false"@
        },
        JsonModel::Number(n) => number_text(n),
        JsonModel::Str(s) => quoted(s),
        JsonModel::Array(items) => seq!['['] + items_text(items) + seq![']'],
        JsonModel::Object(members) => seq!['{'] + members_text(members) + seq!['}'],
    }
}

/// Array items separated by commas.
pub open spec fn items_text(items: Seq<JsonModel>) -> Seq<char>
    decreases items,
{
    if items.len() == 0 {
        seq![]
    } else if items.len() == 1 {
        json_text(items[0])
    } else {
        items_text(items.drop_last()) + seq![','] + json_text(items.last())
    }
}

/// Object members separated by commas.
pub open spec fn members_text(members: Seq<(Seq<char>, JsonModel)>) -> Seq<char>
    decreases members,
{
    if members.len() == 0 {
        seq![]
    } else if members.len() == 1 {
        quoted(members[0].0) + seq![':'] + json_text(members[0].1)
    } else {
        members_text(members.drop_last()) + seq![','] + quoted(members.last().0) + seq![':'] + json_text(
            members.last().1,
        )
    }
}

fn hex_digit_str(d: u32) -> (r: &'static str)
    requires
        d < 16,
    ensures
        r@ == seq![hex_digit(d as nat)],
{
    match d {
        0 => { proof { reveal_strlit("0"); } "0" },
        1 => { proof { reveal_strlit("1"); } "1" },
        2 => { proof { reveal_strlit("2"); } "2" },
        3 => { proof { reveal_strlit("3"); } "3" },
        4 => { proof { reveal_strlit("4"); } "4" },
        5 => { proof { reveal_strlit("5"); } "5" },
        6 => { proof { reveal_strlit("6"); } "6" },
        7 => { proof { reveal_strlit("7"); } "7" },
        8 => { proof { reveal_strlit("8"); } "8" },
        9 => { proof { reveal_strlit("9"); } "9" },
        10 => { proof { reveal_strlit("a"); } "a" },
        11 => { proof { reveal_strlit("b"); } "b" },
        12 => { proof { reveal_strlit("c"); } "c" },
        13 => { proof { reveal_strlit("d"); } "d" },
        14 => { proof { reveal_strlit("e"); } "e" },
        _ => { proof { reveal_strlit("f"); } "f" },
    }
}

/// Appends the escaped form of one character.
fn push_escaped_char(out: &mut String, s: &str, i: usize)
    requires
        i < s@.len(),
    ensures
        final(out)@ == old(out)@ + escape_char(s@[i as int]),
{
    let n = s.unicode_len();
    let c = s.get_char(i);
    if c == '"' {
        proof { reveal_strlit("\\\""); }
        out.append("\\\"");
    } else if c == '\\' {
        proof { reveal_strlit("\\\\"); }
        out.append("\\\\");
    } else if c == '\u{8}' {
        proof { reveal_strlit("\\b"); }
        out.append("\\b");
    } else if c == '\u{c}' {
        proof { reveal_strlit("\\f"); }
        out.append("\\f");
    } else if c == '\n' {
        proof { reveal_strlit("\\n"); }
        out.append("\\n");
    } else if c == '\r' {
        proof { reveal_strlit("\\r"); }
        out.append("\\r");
    } else if c == '\t' {
        proof { reveal_strlit("\\t"); }
        out.append("\\t");
    } else if (c as u32) < 0x20 {
        proof { reveal_strlit("\\u00"); }
        out.append("\\u00");
        out.append(hex_digit_str((c as u32) / 16));
        out.append(hex_digit_str((c as u32) % 16));
        assert(out@ =~= old(out)@ + escape_char(c));
    } else {
        out.append(s.substring_char(i, i + 1));
        assert(s@.subrange(i as int, i + 1) =~= seq![c]);
    }
}

/// Appends `s` as a JSON string literal.
pub fn push_quoted(out: &mut String, s: &str)
    ensures
        final(out)@ == old(out)@ + quoted(s@),
{
    proof { reveal_strlit("\""); }
    out.append("\"");
    let n = s.unicode_len();
    let mut i: usize = 0;
    let ghost start = out@;
    while i < n
        invariant
            n == s@.len(),
            i <= n,
            out@ == start + escape(s@.take(i as int)),
        decreases n - i,
    {
        push_escaped_char(out, s, i);
        proof {
            assert(s@.take(i + 1).drop_last() =~= s@.take(i as int));
            assert(s@.take(i + 1).last() == s@[i as int]);
        }
        i = i + 1;
    }
    out.append("\"");
    assert(s@.take(n as int) =~= s@);
    assert(out@ =~= old(out)@ + quoted(s@));
}

/// Appends the compact text of `v`.
pub fn push_json(out: &mut String, v: &JsonValue)
    ensures
        final(out)@ == old(out)@ + json_text(v@),
    decreases *v,
{
    match v {
        JsonValue::Null => {
            proof { reveal_strlit("null"); }
            out.append("null");
        },
        JsonValue::Bool(b) => {
            proof { reveal_strlit("true"); reveal_strlit("false"); }
            if *b {
                out.append("true");
            } else {
                out.append("false");
            }
        },
        JsonValue::Number(n) => match n {
            JsonNumber::PosInt(u) => push_decimal(out, *u),
            JsonNumber::NegInt(i) => push_signed_decimal(out, *i),
            JsonNumber::Float(t) => out.append(t.as_str()),
        },
        JsonValue::String(s) => push_quoted(out, s.as_str()),
        JsonValue::Array(items) => {
            proof { reveal_strlit("["); reveal_strlit("]"); }
            out.append("[");
            let ghost start = out@;
            let mut i: usize = 0;
            while i < items.len()
                invariant
                    *v == JsonValue::Array(*items),
                    i <= items@.len(),
                    out@ == start + items_text(item_models(items@.take(i as int))),
                decreases items.len() - i,
            {
                proof { reveal_strlit(","); }
                if i > 0 {
                    out.append(",");
                }
                proof {
                    assert(decreases_to!(*v => v->Array_0));
                    assert(decreases_to!(v->Array_0 => items@));
                    assert(decreases_to!(items@ => items@[i as int]));
                }
                push_json(out, &items[i]);
                proof {
                    let t = items@.take(i + 1);
                    assert(t.drop_last() =~= items@.take(i as int));
                    let ms = item_models(t);
                    lemma_item_models_len(t);
                    lemma_item_models_len(items@.take(i as int));
                    assert(ms.drop_last() == item_models(items@.take(i as int)));
                    if i > 0 {
                        assert(out@ =~= start + (items_text(ms.drop_last()) + seq![','] + json_text(ms.last())));
                    } else {
                        assert(out@ =~= start + json_text(ms[0]));
                    }
                }
                i = i + 1;
            }
            out.append("]");
            proof {
                assert(items@.take(items@.len() as int) =~= items@);
            }
        },
        JsonValue::Object(members) => {
            proof { reveal_strlit("{"); reveal_strlit("}"); }
            out.append("{");
            let ghost start = out@;
            let mut i: usize = 0;
            while i < members.len()
                invariant
                    *v == JsonValue::Object(*members),
                    i <= members@.len(),
                    out@ == start + members_text(member_models(members@.take(i as int))),
                decreases members.len() - i,
            {
                proof { reveal_strlit(","); reveal_strlit(":"); }
                if i > 0 {
                    out.append(",");
                }
                push_quoted(out, members[i].0.as_str());
                out.append(":");
                proof {
                    assert(decreases_to!(*v => v->Object_0));
                    assert(decreases_to!(v->Object_0 => members@));
                    assert(decreases_to!(members@ => members@[i as int]));
                    assert(decreases_to!(members@[i as int] => members@[i as int].1));
                }
                push_json(out, &members[i].1);
                proof {
                    let t = members@.take(i + 1);
                    assert(t.drop_last() =~= members@.take(i as int));
                    let ms = member_models(t);
                    lemma_member_models_len(t);
                    lemma_member_models_len(members@.take(i as int));
                    assert(ms.drop_last() == member_models(members@.take(i as int)));
                    let x = ms.last();
                    if i > 0 {
                        assert(out@ =~= start + (members_text(ms.drop_last()) + seq![','] + quoted(x.0) + seq![':'] + json_text(x.1)));
                    } else {
                        assert(out@ =~= start + (quoted(ms[0].0) + seq![':'] + json_text(ms[0].1)));
                    }
                }
                i = i + 1;
            }
            out.append("}");
            proof {
                assert(members@.take(members@.len() as int) =~= members@);
            }
        },
    }
}

/// The compact text of `v`, as `serde_json::to_string` writes it.
pub fn to_json_string(v: &JsonValue) -> (r: String)
    ensures
        r@ == json_text(v@),
{
    let mut out = String::new();
    push_json(&mut out, v);
    out
}

} // verus!
