//! A JSON document tree, field lookup over it, and parsing through serde_json.

use vstd::prelude::*;
use crate::text::same_text;

verus! {

/// One JSON value. Numbers keep the text serde_json writes for them; an
/// object keeps its members in the order serde_json yields them.
#[derive(Debug, PartialEq, Eq)]
pub enum JsonValue {
    Null,
    Bool(bool),
    Number(String),
    Str(String),
    Array(Vec<JsonValue>),
    Object(Vec<(String, JsonValue)>),
}

/// The value of the first member named `key`.
pub open spec fn lookup(members: Seq<(String, JsonValue)>, key: Seq<char>) -> Option<JsonValue>
    decreases members.len(),
{
    if members.len() == 0 {
        None
    } else if members[0].0@ == key {
        Some(members[0].1)
    } else {
        lookup(members.drop_first(), key)
    }
}

impl JsonValue {
    /// The member `key` of an object; nothing for any other value.
    pub open spec fn field(self, key: Seq<char>) -> Option<JsonValue> {
        match self {
            JsonValue::Object(members) => lookup(members@, key),
            _ => None,
        }
    }

    /// The characters of a string value.
    pub open spec fn text(self) -> Option<Seq<char>> {
        match self {
            JsonValue::Str(s) => Some(s@),
            _ => None,
        }
    }

    /// The characters of the string member `key`, if it is a string.
    pub open spec fn str_field(self, key: Seq<char>) -> Option<Seq<char>> {
        match self.field(key) {
            Some(v) => v.text(),
            None => None,
        }
    }

    /// The member `key` of an object.
    pub fn get(&self, key: &str) -> (r: Option<&JsonValue>)
        ensures
            match r {
                Some(v) => self.field(key@) == Some(*v),
                None => self.field(key@) is None,
            },
    {
        match self {
            JsonValue::Object(members) => member(members, key),
            _ => None,
        }
    }

    /// The string held by a string value.
    pub fn as_str(&self) -> (r: Option<&String>)
        ensures
            match r {
                Some(s) => self.text() == Some(s@),
                None => self.text() is None,
            },
    {
        match self {
            JsonValue::Str(s) => Some(s),
            _ => None,
        }
    }

    /// The string member `key`, if it is a string.
    pub fn get_str(&self, key: &str) -> (r: Option<&String>)
        ensures
            match r {
                Some(s) => self.str_field(key@) == Some(s@),
                None => self.str_field(key@) is None,
            },
    {
        match self.get(key) {
            Some(v) => v.as_str(),
            None => None,
        }
    }
}

/// A required string member: present and a string.
pub open spec fn string_member(v: Option<JsonValue>) -> Option<String> {
    match v {
        Some(JsonValue::Str(s)) => Some(s),
        _ => None,
    }
}

/// An optional string member: absent or null gives `Some(None)`, a string
/// gives `Some(Some(s))`, and any other value is a type error (`None`).
pub open spec fn opt_string_member(v: Option<JsonValue>) -> Option<Option<String>> {
    match v {
        None => Some(None),
        Some(JsonValue::Null) => Some(None),
        Some(JsonValue::Str(s)) => Some(Some(s)),
        _ => None,
    }
}

/// An optional boolean member: absent or null gives `Some(None)`, a boolean
/// gives `Some(Some(b))`, and any other value is a type error (`None`).
pub open spec fn opt_bool_member(v: Option<JsonValue>) -> Option<Option<bool>> {
    match v {
        None => Some(None),
        Some(JsonValue::Null) => Some(None),
        Some(JsonValue::Bool(b)) => Some(Some(b)),
        _ => None,
    }
}

/// An optional member of any type: absent or null gives nothing.
pub open spec fn opt_value_member(v: Option<JsonValue>) -> Option<JsonValue> {
    match v {
        Some(JsonValue::Null) => None,
        other => other,
    }
}

/// Removing a member whose name is not `key` leaves the lookup of `key` alone.
pub proof fn lemma_lookup_remove(members: Seq<(String, JsonValue)>, i: int, key: Seq<char>)
    requires
        0 <= i < members.len(),
        members[i].0@ != key,
    ensures
        lookup(members.remove(i), key) == lookup(members, key),
    decreases i,
{
    if i > 0 {
        lemma_lookup_remove(members.drop_first(), i - 1, key);
        assert(members.remove(i).drop_first() =~= members.drop_first().remove(i - 1));
    } else {
        assert(members.remove(0) =~= members.drop_first());
        assert(members.drop_first() == members.drop_first());
    }
}

/// Index of the first member named `key`.
fn position(members: &Vec<(String, JsonValue)>, key: &str) -> (r: Option<usize>)
    ensures
        match r {
            Some(i) => i < members.len() && members@[i as int].0@ == key@ && lookup(members@, key@)
                == Some(members@[i as int].1),
            None => lookup(members@, key@) is None,
        },
{
    let mut i: usize = 0;
    assert(members@.subrange(0, members.len() as int) =~= members@);
    while i < members.len()
        invariant
            i <= members.len(),
            lookup(members@, key@) == lookup(members@.subrange(i as int, members.len() as int), key@),
            forall|k: int| 0 <= k < i ==> members@[k].0@ != key@,
        decreases members.len() - i,
    {
        assert(members@.subrange(i as int, members.len() as int).drop_first()
            =~= members@.subrange(i + 1, members.len() as int));
        assert(members@.subrange(i as int, members.len() as int)[0] == members@[i as int]);
        if same_text(members[i].0.as_str(), key) {
            return Some(i);
        }
        i = i + 1;
    }
    None
}

/// Takes the first member named `key` out of `members`; the lookup of every
/// other name is unchanged.
pub fn take_member(members: &mut Vec<(String, JsonValue)>, key: &str) -> (r: Option<JsonValue>)
    ensures
        r == lookup(old(members)@, key@),
        forall|k: Seq<char>| k != key@ ==> lookup(final(members)@, k) == lookup(old(members)@, k),
{
    match position(members, key) {
        Some(i) => {
            let ghost before = members@;
            let (_name, v) = members.remove(i);
            proof {
                assert forall|k: Seq<char>| k != key@ implies lookup(members@, k) == lookup(before, k) by {
                    lemma_lookup_remove(before, i as int, k);
                }
            }
            Some(v)
        },
        None => None,
    }
}

/// The value of the first member named `key`.
pub fn member<'a>(members: &'a Vec<(String, JsonValue)>, key: &str) -> (r: Option<&'a JsonValue>)
    ensures
        match r {
            Some(v) => lookup(members@, key@) == Some(*v),
            None => lookup(members@, key@) is None,
        },
{
    match position(members, key) {
        Some(i) => Some(&members[i].1),
        None => None,
    }
}

/// The member `key`, when it is a string.
pub fn string_member_of(members: &Vec<(String, JsonValue)>, key: &str) -> (r: Option<String>)
    ensures
        r == string_member(lookup(members@, key@)),
{
    match position(members, key) {
        Some(i) => match &members[i].1 {
            JsonValue::Str(s) => Some(s.clone()),
            _ => None,
        },
        None => None,
    }
}

/// The member `key` as an optional string; `None` where it has another type.
pub fn opt_string_member_of(members: &Vec<(String, JsonValue)>, key: &str) -> (r: Option<Option<String>>)
    ensures
        r == opt_string_member(lookup(members@, key@)),
{
    match position(members, key) {
        Some(i) => match &members[i].1 {
            JsonValue::Null => Some(None),
            JsonValue::Str(s) => Some(Some(s.clone())),
            _ => None,
        },
        None => Some(None),
    }
}

/// A lowercase hexadecimal digit.
pub open spec fn hex_digit(d: u32) -> char {
    if d < 10 { (('0' as u32) + d) as char } else { (('a' as u32) + d - 10) as char }
}

/// How one character stands inside a JSON string literal.
pub open spec fn escape_char(c: char) -> Seq<char> {
    if c == '"' {
        seq!['\\', '"']
    } else if c == '\\' {
        seq!['\\', '\\']
    } else if c == '\u{8}' {
        seq!['\\', 'b']
    } else if c == '\u{c}' {
        seq!['\\', 'f']
    } else if c == '\n' {
        seq!['\\', 'n']
    } else if c == '\r' {
        seq!['\\', 'r']
    } else if c == '\t' {
        seq!['\\', 't']
    } else if (c as u32) < 0x20 {
        seq!['\\', 'u', '0', '0', hex_digit((c as u32) / 16), hex_digit((c as u32) % 16)]
    } else {
        seq![c]
    }
}

/// The characters of `s`, each escaped for a JSON string literal.
pub open spec fn escaped(s: Seq<char>) -> Seq<char>
    decreases s.len(),
{
    if s.len() == 0 {
        Seq::empty()
    } else {
        escaped(s.drop_last()) + escape_char(s.last())
    }
}

/// `s` as a JSON string literal.
pub open spec fn quoted(s: Seq<char>) -> Seq<char> {
    seq!['"'] + escaped(s) + seq!['"']
}

/// Relies on serde_json::to_string on a `str`: the string literal that
/// serde_json writes, with the escapes of its `ESCAPE` table.
#[verifier::external_body]
pub(crate) fn quote_json(s: &str) -> (r: String)
    ensures
        r@ == quoted(s@),
{
    serde_json::to_string(s).unwrap_or_default()
}

/// The compact JSON text of a value, as serde_json writes it.
pub open spec fn json_text(v: JsonValue) -> Seq<char>
    decreases v,
{
    match v {
        JsonValue::Null => "null"@,
        JsonValue::Bool(b) => if b { "true"@ } else { "false"@ },
        JsonValue::Number(n) => n@,
        JsonValue::Str(s) => quoted(s@),
        JsonValue::Array(items) => seq!['['] + items_text(items@) + seq![']'],
        JsonValue::Object(members) => seq!['{'] + members_text(members@) + seq!['}'],
    }
}

/// The texts of array items, separated by commas.
pub open spec fn items_text(items: Seq<JsonValue>) -> Seq<char>
    decreases items,
{
    if items.len() == 0 {
        Seq::empty()
    } else if items.len() == 1 {
        json_text(items[0])
    } else {
        items_text(items.drop_last()) + seq![','] + json_text(items.last())
    }
}

/// The members of an object as `"key":value`, separated by commas.
pub open spec fn members_text(members: Seq<(String, JsonValue)>) -> Seq<char>
    decreases members,
{
    if members.len() == 0 {
        Seq::empty()
    } else if members.len() == 1 {
        quoted(members[0].0@) + seq![':'] + json_text(members[0].1)
    } else {
        members_text(members.drop_last()) + seq![','] + quoted(members.last().0@) + seq![':']
            + json_text(members.last().1)
    }
}

impl JsonValue {
    /// The compact JSON text of this value.
    pub fn to_json_string(&self) -> (r: String)
        ensures
            r@ == json_text(*self),
        decreases self,
    {
        proof {
            reveal_strlit("[");
            reveal_strlit("]");
            reveal_strlit("{");
            reveal_strlit("}");
            reveal_strlit(",");
            reveal_strlit(":");
        }
        match self {
            JsonValue::Null => "null".to_owned(),
            JsonValue::Bool(b) => if *b { "true".to_owned() } else { "false".to_owned() },
            JsonValue::Number(n) => n.clone(),
            JsonValue::Str(s) => quote_json(s.as_str()),
            JsonValue::Array(items) => {
                let mut out = String::new();
                let mut i: usize = 0;
                while i < items.len()
                    invariant
                        i <= items.len(),
                        out@ == items_text(items@.subrange(0, i as int)),
                        *self == JsonValue::Array(*items),
                    decreases items.len() - i,
                {
                    proof {
                                                reveal_strlit(",");
                        assert(decreases_to!(*self => (*self)->Array_0));
                        assert(decreases_to!(*items => items@));
                        assert(decreases_to!(items@ => items@[i as int]));
                    }
                    let t = items[i].to_json_string();
                    proof {
                        let pre = items@.subrange(0, i + 1);
                        assert(pre.drop_last() =~= items@.subrange(0, i as int));
                        assert(pre.last() == items@[i as int]);
                        assert(t@ == json_text(pre.last()));
                        if i == 0 {
                            assert(pre[0] == items@[0]);
                        }
                    }
                    if i > 0 {
                        out = out.concat(",");
                    }
                    out = out.concat(t.as_str());
                    i = i + 1;
                }
                assert(items@.subrange(0, items.len() as int) =~= items@);
                "[".to_owned().concat(out.as_str()).concat("]")
            },
            JsonValue::Object(members) => {
                let mut out = String::new();
                let mut i: usize = 0;
                while i < members.len()
                    invariant
                        i <= members.len(),
                        out@ == members_text(members@.subrange(0, i as int)),
                        *self == JsonValue::Object(*members),
                    decreases members.len() - i,
                {
                    proof {
                                                reveal_strlit(",");
                        reveal_strlit(":");
                        assert(decreases_to!(*self => (*self)->Object_0));
                        assert(decreases_to!(*members => members@));
                        assert(decreases_to!(members@ => members@[i as int]));
                        assert(decreases_to!(members@[i as int] => members@[i as int].1));
                    }
                    let t = members[i].1.to_json_string();
                    let k = quote_json(members[i].0.as_str());
                    proof {
                        let pre = members@.subrange(0, i + 1);
                        assert(pre.drop_last() =~= members@.subrange(0, i as int));
                        assert(pre.last() == members@[i as int]);
                        assert(t@ == json_text(pre.last().1));
                        assert(k@ == quoted(pre.last().0@));
                        if i == 0 {
                            assert(pre[0] == members@[0]);
                        }
                    }
                    if i > 0 {
                        out = out.concat(",");
                    }
                    out = out.concat(k.as_str()).concat(":").concat(t.as_str());
                    i = i + 1;
                }
                assert(members@.subrange(0, members.len() as int) =~= members@);
                "{".to_owned().concat(out.as_str()).concat("}")
            },
        }
    }
}

/// serde_json's document tree, carried opaquely from the parser to `tree_of`.
#[verifier::external_type_specification]
#[verifier::external_body]
pub struct ExSerdeValue(serde_json::Value);

/// The tree that serde_json reads from `text`, or nothing where it rejects the text.
pub uninterp spec fn json_parse(text: Seq<char>) -> Option<JsonValue>;

/// Relies on serde_json::from_str::<serde_json::Value>: one JSON document,
/// whitespace around it allowed; the result depends on the text alone.
#[verifier::external_body]
pub(crate) fn parse_json(text: &str) -> (r: Option<JsonValue>)
    ensures
        r == json_parse(text@),
{
    serde_json::from_str::<serde_json::Value>(text).ok().map(tree_of)
}

/// Copies a serde_json tree into a `JsonValue`, node for node; a number
/// becomes the text that serde_json's `Display` writes for it.
#[verifier::external_body]
fn tree_of(v: serde_json::Value) -> JsonValue {
    match v {
        serde_json::Value::Null => JsonValue::Null,
        serde_json::Value::Bool(b) => JsonValue::Bool(b),
        serde_json::Value::Number(n) => JsonValue::Number(n.to_string()),
        serde_json::Value::String(s) => JsonValue::Str(s),
        serde_json::Value::Array(a) => JsonValue::Array(a.into_iter().map(tree_of).collect()),
        serde_json::Value::Object(o) => JsonValue::Object(o.into_iter().map(|(k, x)| (k, tree_of(x))).collect()),
    }
}

} // verus!
