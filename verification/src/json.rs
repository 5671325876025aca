//! JSON values as the provider core reads them.
//!
//! Parsing and string escaping are `serde_json`'s. A parsed value is read
//! through `serde_json`'s own accessors; what a value holds is described by
//! [`JsonView`], the tree of plain values it stands for.
use vstd::prelude::*;

verus! {

#[verifier::external_type_specification]
#[verifier::external_body]
pub struct ExJsonValue(serde_json::Value);

#[verifier::external_type_specification]
#[verifier::external_body]
#[verifier::reject_recursive_types(K)]
#[verifier::reject_recursive_types(V)]
pub struct ExJsonMap<K, V>(serde_json::Map<K, V>);

/// The plain-value tree a JSON value stands for. Object entries are listed in
/// the order `serde_json::Map` iterates them, each key once.
pub enum JsonView {
    Null,
    Bool(bool),
    Number,
    Str(Seq<char>),
    Array(Seq<JsonView>),
    Object(Seq<(Seq<char>, JsonView)>),
}

/// What a parsed `serde_json::Value` holds.
pub uninterp spec fn json_view(value: serde_json::Value) -> JsonView;

/// The entries of a `serde_json::Map`, in iteration order.
pub uninterp spec fn json_map_view(map: serde_json::Map<String, serde_json::Value>) -> Seq<
    (Seq<char>, JsonView),
>;

/// What `serde_json::from_str::<Value>` makes of a text: `None` when the text
/// is not one JSON value.
pub uninterp spec fn json_text(text: Seq<char>) -> Option<JsonView>;

/// What `serde_json`'s stream deserializer makes of a byte buffer: the values
/// it reads one after another, the offset just past the last one read, and
/// whether it stopped on a syntax error (as opposed to the end of the input).
pub uninterp spec fn json_scan(bytes: Seq<u8>) -> (Seq<JsonView>, nat, bool);

/// The value stored under `key` among object `entries`.
pub open spec fn entries_lookup(entries: Seq<(Seq<char>, JsonView)>, key: Seq<char>) -> Option<
    JsonView,
>
    decreases entries.len(),
{
    if entries.len() == 0 {
        None
    } else if entries[0].0 == key {
        Some(entries[0].1)
    } else {
        entries_lookup(entries.drop_first(), key)
    }
}

/// What `Value::get(key)` finds: the member of an object, nothing otherwise.
pub open spec fn member(value: JsonView, key: Seq<char>) -> Option<JsonView> {
    match value {
        JsonView::Object(entries) => entries_lookup(entries, key),
        _ => None,
    }
}

/// The text of a string value.
pub open spec fn str_of(value: JsonView) -> Option<Seq<char>> {
    match value {
        JsonView::Str(s) => Some(s),
        _ => None,
    }
}

/// The text of member `key`, when that member is a string.
pub open spec fn member_str(value: JsonView, key: Seq<char>) -> Option<Seq<char>> {
    match member(value, key) {
        Some(m) => str_of(m),
        None => None,
    }
}

/// Parses one JSON value from `text`.
#[verifier::external_body]
pub fn parse_json(text: &str) -> (r: Option<serde_json::Value>)
    ensures
        match r {
            Some(v) => json_text(text@) == Some(json_view(v)),
            None => json_text(text@) is None,
        },
{
    serde_json::from_str::<serde_json::Value>(text).ok()
}

/// Reads consecutive JSON values from `bytes` with `serde_json`'s stream
/// deserializer: the values read, the offset just past the last one, and
/// whether reading stopped on a syntax error rather than at the end of input.
#[verifier::external_body]
pub fn scan_json(bytes: &[u8]) -> (r: (Vec<serde_json::Value>, usize, bool))
    ensures
        r.0@.map_values(|v: serde_json::Value| json_view(v)) == json_scan(bytes@).0,
        r.1 as nat == json_scan(bytes@).1,
        r.2 == json_scan(bytes@).2,
        r.1 <= bytes@.len(),
{
    let mut stream = serde_json::Deserializer::from_slice(bytes).into_iter::<serde_json::Value>();
    let (mut values, mut consumed) = (Vec::new(), 0usize);
    loop {
        match stream.next() {
            Some(Ok(value)) => {
                consumed = stream.byte_offset();
                values.push(value);
            },
            Some(Err(error)) => return (values, consumed, !error.is_eof()),
            None => return (values, consumed, false),
        }
    }
}

/// `Value::get(key)`.
#[verifier::external_body]
pub fn json_get<'a>(value: &'a serde_json::Value, key: &str) -> (r: Option<&'a serde_json::Value>)
    ensures
        r is None <==> member(json_view(*value), key@) is None,
        r matches Some(m) ==> member(json_view(*value), key@) == Some(json_view(*m)),
{
    value.get(key)
}

/// `Value::as_str`.
#[verifier::external_body]
pub fn json_as_str(value: &serde_json::Value) -> (r: Option<&str>)
    ensures
        r is None <==> str_of(json_view(*value)) is None,
        r matches Some(s) ==> str_of(json_view(*value)) == Some(s@),
{
    value.as_str()
}

/// `Value::as_bool`.
#[verifier::external_body]
pub fn json_as_bool(value: &serde_json::Value) -> (r: Option<bool>)
    ensures
        match json_view(*value) {
            JsonView::Bool(b) => r == Some(b),
            _ => r is None,
        },
{
    value.as_bool()
}

/// `Value::is_null`.
#[verifier::external_body]
pub fn json_is_null(value: &serde_json::Value) -> (r: bool)
    ensures
        r == (json_view(*value) is Null),
{
    value.is_null()
}

/// `Value::as_array`.
#[verifier::external_body]
pub fn json_as_array(value: &serde_json::Value) -> (r: Option<&Vec<serde_json::Value>>)
    ensures
        match json_view(*value) {
            JsonView::Array(items) => r matches Some(a) && a@.map_values(
                |v: serde_json::Value| json_view(v),
            ) == items,
            _ => r is None,
        },
{
    value.as_array()
}

/// `Value::as_object`.
#[verifier::external_body]
pub fn json_as_object(value: &serde_json::Value) -> (r: Option<
    &serde_json::Map<String, serde_json::Value>,
>)
    ensures
        match json_view(*value) {
            JsonView::Object(entries) => r matches Some(m) && json_map_view(*m) == entries,
            _ => r is None,
        },
{
    value.as_object()
}

/// `Map::iter`, collected: the entries in iteration order.
#[verifier::external_body]
pub fn json_entries<'a>(map: &'a serde_json::Map<String, serde_json::Value>) -> (r: Vec<
    (&'a String, &'a serde_json::Value),
>)
    ensures
        r@.len() == json_map_view(*map).len(),
        forall|i: int|
            0 <= i < r@.len() ==> (#[trigger] r@[i]).0@ == json_map_view(*map)[i].0 && json_view(
                *r@[i].1,
            ) == json_map_view(*map)[i].1,
{
    map.iter().collect()
}

pub open spec fn hex_digit(d: u32) -> char {
    if d == 0 { '0' } else if d == 1 { '1' } else if d == 2 { '2' } else if d == 3 { '3' }
    else if d == 4 { '4' } else if d == 5 { '5' } else if d == 6 { '6' } else if d == 7 { '7' }
    else if d == 8 { '8' } else if d == 9 { '9' } else if d == 10 { 'a' } else if d == 11 { 'b' }
    else if d == 12 { 'c' } else if d == 13 { 'd' } else if d == 14 { 'e' } else { 'f' }
}

/// How `serde_json` writes one character inside a string literal.
pub open spec fn escape_char(c: char) -> Seq<char> {
    let u = c as u32;
    if c == '"' {
        seq!['\\', '"']
    } else if c == '\\' {
        seq!['\\', '\\']
    } else if u == 0x08 {
        seq!['\\', 'b']
    } else if u == 0x09 {
        seq!['\\', 't']
    } else if u == 0x0a {
        seq!['\\', 'n']
    } else if u == 0x0c {
        seq!['\\', 'f']
    } else if u == 0x0d {
        seq!['\\', 'r']
    } else if u < 0x20 {
        seq!['\\', 'u', '0', '0', hex_digit(u / 16), hex_digit(u % 16)]
    } else {
        seq![c]
    }
}

pub open spec fn escape_seq(s: Seq<char>) -> Seq<char>
    decreases s.len(),
{
    if s.len() == 0 {
        Seq::empty()
    } else {
        escape_seq(s.drop_last()) + escape_char(s.last())
    }
}

/// The JSON string literal `serde_json` writes for text `s`.
pub open spec fn json_quote(s: Seq<char>) -> Seq<char> {
    seq!['"'] + escape_seq(s) + seq!['"']
}

/// Serializes `text` as a JSON string literal.
#[verifier::external_body]
pub fn quote_json(text: &str) -> (r: String)
    ensures
        r@ == json_quote(text@),
{
    serde_json::to_string(text).unwrap_or_default()
}

} // verus!
