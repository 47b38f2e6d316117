//! JSON documents as the library reads them, parsed by `serde_json`.
use vstd::prelude::*;

verus! {

/// A JSON value. Object members keep the order in which `serde_json`'s map
/// yields them (ascending by key).
#[derive(Debug)]
pub enum JsonValue {
    Null,
    Bool(bool),
    /// A number, kept as the text `serde_json` prints for it.
    Number(String),
    Str(String),
    Array(Vec<JsonValue>),
    Object(Vec<(String, JsonValue)>),
}

#[verifier::external_type_specification]
#[verifier::external_body]
pub struct ExJsonDocument(serde_json::Value);

/// The document that `serde_json::from_str::<serde_json::Value>` reads from
/// this text, `None` when it reports an error.
pub uninterp spec fn json_document(text: Seq<char>) -> Option<JsonValue>;

/// Parses JSON text with `serde_json::from_str::<serde_json::Value>`; the
/// result is the library's copy of the parsed value. The contract claims
/// only that equal texts give equal results.
#[verifier::external_body]
pub fn parse_json(text: &str) -> (r: Option<JsonValue>)
    ensures
        r == json_document(text@),
{
    serde_json::from_str::<serde_json::Value>(text).ok().map(|v| json_from_value(&v))
}

/// Copies a `serde_json::Value` into a `JsonValue`, variant by variant.
#[verifier::external_body]
fn json_from_value(v: &serde_json::Value) -> JsonValue {
    match v {
        serde_json::Value::Null => JsonValue::Null,
        serde_json::Value::Bool(b) => JsonValue::Bool(*b),
        serde_json::Value::Number(n) => JsonValue::Number(n.to_string()),
        serde_json::Value::String(s) => JsonValue::Str(s.clone()),
        serde_json::Value::Array(a) => JsonValue::Array(a.iter().map(json_from_value).collect()),
        serde_json::Value::Object(m) => JsonValue::Object(
            m.iter().map(|(k, x)| (k.clone(), json_from_value(x))).collect(),
        ),
    }
}

/// A lowercase hexadecimal digit.
pub open spec fn hex_digit_char(n: u32) -> char {
    if n < 10 {
        ((n + 48) as u8) as char
    } else {
        ((n + 87) as u8) as char
    }
}

/// How a character is written inside a JSON string: `"` and `\` and the
/// control characters escaped (`\b \f \n \r \t`, else `\u00` and two
/// lowercase hex digits), every other character as itself.
pub open spec fn json_escape(c: char) -> Seq<char> {
    let n = c as u32;
    if c == '"' {
        seq!['\\', '"']
    } else if c == '\\' {
        seq!['\\', '\\']
    } else if n == 8 {
        seq!['\\', 'b']
    } else if n == 12 {
        seq!['\\', 'f']
    } else if n == 10 {
        seq!['\\', 'n']
    } else if n == 13 {
        seq!['\\', 'r']
    } else if n == 9 {
        seq!['\\', 't']
    } else if n < 32 {
        seq!['\\', 'u', '0', '0', hex_digit_char(n / 16), hex_digit_char(n % 16)]
    } else {
        seq![c]
    }
}

/// The escaped characters of a string.
pub open spec fn json_escaped(s: Seq<char>) -> Seq<char>
    decreases s.len(),
{
    if s.len() == 0 {
        Seq::empty()
    } else {
        json_escaped(s.drop_last()) + json_escape(s.last())
    }
}

/// The JSON text of a string (as `serde_json::to_string` writes it): the
/// escaped characters between double quotes.
pub open spec fn json_string_literal(s: Seq<char>) -> Seq<char> {
    seq!['"'] + json_escaped(s) + seq!['"']
}

fn hex_digit_exec(n: u32) -> (r: char)
    requires
        n < 16,
    ensures
        r == hex_digit_char(n),
{
    if n < 10 {
        ((n + 48) as u8) as char
    } else {
        ((n + 87) as u8) as char
    }
}

fn push_all(out: &mut Vec<char>, add: &[char])
    ensures
        final(out)@ == old(out)@ + add@,
{
    let n = add.len();
    for i in 0..n
        invariant
            n == add@.len(),
            out@ == old(out)@ + add@.take(i as int),
    {
        assert(add@.take(i + 1) =~= add@.take(i as int).push(add@[i as int]));
        out.push(add[i]);
    }
    assert(add@.take(n as int) =~= add@);
}

/// A string written as a JSON string literal.
pub fn json_quote(s: &str) -> (r: String)
    ensures
        r@ == json_string_literal(s@),
{
    let c = crate::text::chars_of(s);
    let mut out: Vec<char> = Vec::new();
    out.push('"');
    let n = c.len();
    for i in 0..n
        invariant
            n == c@.len(),
            out@ == seq!['"'] + json_escaped(c@.take(i as int)),
    {
        assert(c@.take(i + 1).drop_last() =~= c@.take(i as int));
        assert(c@.take(i + 1).last() == c@[i as int]);
        let ch = c[i];
        let v = ch as u32;
        let ghost before = out@;
        if ch == '"' {
            push_all(&mut out, &['\\', '"']);
        } else if ch == '\\' {
            push_all(&mut out, &['\\', '\\']);
        } else if v == 8 {
            push_all(&mut out, &['\\', 'b']);
        } else if v == 12 {
            push_all(&mut out, &['\\', 'f']);
        } else if v == 10 {
            push_all(&mut out, &['\\', 'n']);
        } else if v == 13 {
            push_all(&mut out, &['\\', 'r']);
        } else if v == 9 {
            push_all(&mut out, &['\\', 't']);
        } else if v < 32 {
            let hi = hex_digit_exec(v / 16);
            let lo = hex_digit_exec(v % 16);
            push_all(&mut out, &['\\', 'u', '0', '0', hi, lo]);
        } else {
            out.push(ch);
            assert(out@ =~= before + seq![ch]);
        }
        assert(out@ =~= seq!['"'] + json_escaped(c@.take(i + 1)));
    }
    out.push('"');
    assert(c@.take(n as int) =~= c@);
    assert(out@ =~= json_string_literal(s@));
    crate::text::string_of(&out)
}

/// The first member of an object with this key (`serde_json::Map::get`).
pub open spec fn object_get(entries: Seq<(String, JsonValue)>, key: Seq<char>) -> Option<JsonValue>
    decreases entries.len(),
{
    if entries.len() == 0 {
        None
    } else if entries[0].0@ == key {
        Some(entries[0].1)
    } else {
        object_get(entries.drop_first(), key)
    }
}

/// The value of the first of `keys` that the object has
/// (`map.get(k1).or_else(|| map.get(k2))...`).
pub open spec fn object_get_first(entries: Seq<(String, JsonValue)>, keys: Seq<Seq<char>>) -> Option<
    JsonValue,
>
    decreases keys.len(),
{
    if keys.len() == 0 {
        None
    } else {
        match object_get(entries, keys[0]) {
            Some(v) => Some(v),
            None => object_get_first(entries, keys.drop_first()),
        }
    }
}

/// The text of a JSON string (`Value::as_str`).
pub open spec fn as_text(v: Option<JsonValue>) -> Option<Seq<char>> {
    match v {
        Some(JsonValue::Str(s)) => Some(s@),
        _ => None,
    }
}

pub fn object_get_exec<'a>(entries: &'a Vec<(String, JsonValue)>, key: &str) -> (r: Option<
    &'a JsonValue,
>)
    ensures
        match r {
            Some(v) => object_get(entries@, key@) == Some(*v),
            None => object_get(entries@, key@) is None,
        },
{
    let n = entries.len();
    let mut i: usize = 0;
    assert(entries@.skip(0) =~= entries@);
    while i < n
        invariant
            n == entries.len(),
            i <= n,
            object_get(entries@, key@) == object_get(entries@.skip(i as int), key@),
        decreases n - i,
    {
        assert(entries@.skip(i as int).drop_first() =~= entries@.skip(i + 1));
        let k: &str = entries[i].0.as_str();
        if str_eq(k, key) {
            return Some(&entries[i].1);
        }
        i = i + 1;
    }
    None
}

pub fn object_get_first_exec<'a>(entries: &'a Vec<(String, JsonValue)>, keys: &Vec<&str>) -> (r: Option<
    &'a JsonValue,
>)
    ensures
        match r {
            Some(v) => object_get_first(entries@, keys@.map_values(|k: &str| k@)) == Some(*v),
            None => object_get_first(entries@, keys@.map_values(|k: &str| k@)) is None,
        },
{
    let ghost ks = keys@.map_values(|k: &str| k@);
    let n = keys.len();
    let mut i: usize = 0;
    assert(ks.skip(0) =~= ks);
    while i < n
        invariant
            n == keys.len(),
            i <= n,
            ks == keys@.map_values(|k: &str| k@),
            object_get_first(entries@, ks) == object_get_first(entries@, ks.skip(i as int)),
        decreases n - i,
    {
        assert(ks.skip(i as int).drop_first() =~= ks.skip(i + 1));
        match object_get_exec(entries, keys[i]) {
            Some(v) => {
                return Some(v);
            },
            None => {},
        }
        i = i + 1;
    }
    None
}

/// String equality (`str == str`).
pub fn str_eq(a: &str, b: &str) -> (r: bool)
    ensures
        r == (a@ == b@),
{
    let x = crate::text::chars_of(a);
    let y = crate::text::chars_of(b);
    crate::text::chars_eq(&x, &y)
}

} // verus!
