//! JSON text as the protocol uses it: string literals on the way out, and the
//! members of one object on the way in, both through serde_json.
use vstd::prelude::*;

verus! {

/// The lower-case hexadecimal digits, in order.
pub open spec fn hex_digits() -> Seq<char> {
    seq!['0', '1', '2', '3', '4', '5', '6', '7', '8', '9', 'a', 'b', 'c', 'd', 'e', 'f']
}

/// How one character stands inside a JSON string literal: quote and backslash
/// are escaped, control characters get their short escape or `\u00XX`, every
/// other character stands as itself.
pub open spec fn escape_char(c: char) -> Seq<char> {
    if c == '"' {
        seq!['\\', '"']
    } else if c == '\\' {
        seq!['\\', '\\']
    } else if c == '\u{8}' {
        seq!['\\', 'b']
    } else if c == '\t' {
        seq!['\\', 't']
    } else if c == '\n' {
        seq!['\\', 'n']
    } else if c == '\u{c}' {
        seq!['\\', 'f']
    } else if c == '\r' {
        seq!['\\', 'r']
    } else if (c as u32) < 0x20 {
        seq!['\\', 'u', '0', '0', hex_digits()[(c as u32) as int / 16], hex_digits()[(c as u32) as int % 16]]
    } else {
        seq![c]
    }
}

/// The escaped form of a whole character sequence.
pub open spec fn escape_chars(s: Seq<char>) -> Seq<char>
    decreases s.len(),
{
    if s.len() == 0 {
        Seq::empty()
    } else {
        escape_chars(s.drop_last()) + escape_char(s.last())
    }
}

/// The JSON string literal for `s`: its escaped form between double quotes.
pub open spec fn json_string_literal(s: Seq<char>) -> Seq<char> {
    seq!['"'] + escape_chars(s) + seq!['"']
}

/// The members of the JSON object that `text` holds, in serde_json's reading:
/// `None` when `text` is not one JSON object; otherwise each member's name with
/// its value when that value is a string, `None` for any other value.
pub uninterp spec fn json_object_members(text: Seq<u8>) -> Option<Seq<(Seq<char>, Option<Seq<char>>)>>;

/// The view of a list of members as the library reads them.
pub open spec fn members_view(m: Seq<(String, Option<String>)>) -> Seq<(Seq<char>, Option<Seq<char>>)> {
    m.map_values(|p: (String, Option<String>)| (p.0@, match p.1 {
        Some(s) => Some(s@),
        None => None,
    }))
}

/// Relies on serde_json's `Display` for `Value::String`, which writes the
/// string as a compact JSON literal through `format_escaped_str`.
#[verifier::external_body]
pub(crate) fn quote(s: &str) -> (r: String)
    ensures
        r@ == json_string_literal(s@),
{
    serde_json::Value::String(s.to_owned()).to_string()
}

/// Relies on serde_json::from_slice reading the bytes as one JSON object into a
/// map from member name to `Value`; each value is then told apart as a string
/// or not.
#[verifier::external_body]
pub(crate) fn parse_object(text: &[u8]) -> (r: Option<Vec<(String, Option<String>)>>)
    ensures
        r is Some <==> json_object_members(text@) is Some,
        r matches Some(m) ==> members_view(m@) == json_object_members(text@)->0,
{
    let parsed = serde_json::from_slice::<std::collections::BTreeMap<String, serde_json::Value>>(text);
    match parsed {
        Ok(map) => Some(map.into_iter().map(|(name, value)| match value {
            serde_json::Value::String(s) => (name, Some(s)),
            _ => (name, None),
        }).collect()),
        Err(_) => None,
    }
}


/// The value of the first member at or after position `i` that is named `name`,
/// when that value is a string.
pub open spec fn member_from(
    m: Seq<(Seq<char>, Option<Seq<char>>)>,
    name: Seq<char>,
    i: int,
) -> Option<Seq<char>>
    decreases m.len() - i,
{
    if i < 0 || i >= m.len() {
        None
    } else if m[i].0 == name {
        m[i].1
    } else {
        member_from(m, name, i + 1)
    }
}

/// The string value of the member named `name`, if there is one.
pub open spec fn string_member(m: Seq<(Seq<char>, Option<Seq<char>>)>, name: Seq<char>) -> Option<Seq<char>> {
    member_from(m, name, 0)
}

/// The view of an optional `String`.
pub open spec fn opt_view(s: Option<String>) -> Option<Seq<char>> {
    match s {
        Some(t) => Some(t@),
        None => None,
    }
}

/// Looks up the string value of the member named `name`.
pub fn string_member_of(members: &Vec<(String, Option<String>)>, name: &String) -> (r: Option<String>)
    ensures
        opt_view(r) == string_member(members_view(members@), name@),
{
    let ghost m = members_view(members@);
    let mut i: usize = 0;
    while i < members.len()
        invariant
            i <= members@.len(),
            m == members_view(members@),
            member_from(m, name@, 0) == member_from(m, name@, i as int),
        decreases members@.len() - i,
    {
        if members[i].0 == *name {
            return match &members[i].1 {
                Some(s) => Some(s.clone()),
                None => None,
            };
        }
        i = i + 1;
    }
    None
}

} // verus!
