//! A JSON document as the model configuration readers see it, and the parse
//! of a configuration file's bytes into one, by `serde_json`. Numbers are kept
//! as what the readers ask of them: their value as an unsigned 64-bit integer,
//! when they are one.
use vstd::prelude::*;
use crate::errors::AIProxyError;
use crate::text::concat_str;

verus! {

/// A JSON value.
#[derive(Debug)]
pub enum JsonValue {
    Null,
    Bool(bool),
    /// A number, with its value when it is a non-negative integer that fits
    /// in 64 bits.
    Number(Option<u64>),
    Str(String),
    Array(Vec<JsonValue>),
    /// An object's members, each name once.
    Object(Vec<(String, JsonValue)>),
}

/// The value of the first member named `key` among `members`.
pub open spec fn member(members: Seq<(String, JsonValue)>, key: Seq<char>) -> Option<JsonValue>
    decreases members.len(),
{
    if members.len() == 0 {
        None
    } else if members[0].0@ == key {
        Some(members[0].1)
    } else {
        member(members.drop_first(), key)
    }
}

/// `v[key]`: the member named `key` when `v` is an object that has one.
pub open spec fn field(v: Option<JsonValue>, key: Seq<char>) -> Option<JsonValue> {
    match v {
        Some(JsonValue::Object(members)) => member(members@, key),
        _ => None,
    }
}

/// The value as a boolean, when it is one.
pub open spec fn bool_of(v: Option<JsonValue>) -> Option<bool> {
    match v {
        Some(JsonValue::Bool(b)) => Some(b),
        _ => None,
    }
}

/// The value as an unsigned 64-bit integer, when it is one.
pub open spec fn u64_of(v: Option<JsonValue>) -> Option<u64> {
    match v {
        Some(JsonValue::Number(n)) => n,
        _ => None,
    }
}

/// The value as text, when it is a string.
pub open spec fn str_of(v: Option<JsonValue>) -> Option<Seq<char>> {
    match v {
        Some(JsonValue::Str(s)) => Some(s@),
        _ => None,
    }
}

/// The value is an object.
pub open spec fn is_object(v: Option<JsonValue>) -> bool {
    v matches Some(JsonValue::Object(_))
}

impl JsonValue {
    /// The member named `key`, when this is an object that has one.
    pub fn get(&self, key: &str) -> (res: Option<&JsonValue>)
        ensures
            match res {
                Some(r) => field(Some(*self), key@) == Some(*r),
                None => field(Some(*self), key@) is None,
            },
    {
        match self {
            JsonValue::Object(members) => {
                let mut i: usize = 0;
                assert(field(Some(*self), key@) == member(members@, key@));
                assert(members@.subrange(0, members@.len() as int) =~= members@);
                while i < members.len()
                    invariant
                        0 <= i <= members@.len(),
                        field(Some(*self), key@) == member(members@, key@),
                        member(members@, key@) == member(members@.subrange(i as int, members@.len() as int), key@),
                    decreases members@.len() - i,
                {
                    proof {
                        let rest = members@.subrange(i as int, members@.len() as int);
                        assert(rest.drop_first() =~= members@.subrange(i as int + 1, members@.len() as int));
                        assert(rest[0] == members@[i as int]);
                    }
                    if crate::keyed::str_equal(members[i].0.as_str(), key) {
                        proof {
                            let rest = members@.subrange(i as int, members@.len() as int);
                            assert(member(rest, key@) == Some(members@[i as int].1));
                        }
                        return Some(&members[i].1);
                    }
                    i = i + 1;
                }
                None
            },
            _ => None,
        }
    }
}

/// The boolean at `v`, when there is one.
pub fn as_bool(v: Option<&JsonValue>) -> (res: Option<bool>)
    ensures
        res == bool_of(
            match v {
                Some(x) => Some(*x),
                None => None,
            },
        ),
{
    match v {
        Some(JsonValue::Bool(b)) => Some(*b),
        _ => None,
    }
}

/// The unsigned integer at `v`, when there is one.
pub fn as_u64(v: Option<&JsonValue>) -> (res: Option<u64>)
    ensures
        res == u64_of(
            match v {
                Some(x) => Some(*x),
                None => None,
            },
        ),
{
    match v {
        Some(JsonValue::Number(n)) => *n,
        _ => None,
    }
}

/// The text at `v`, when it is a string.
pub fn as_str(v: Option<&JsonValue>) -> (res: Option<&String>)
    ensures
        match res {
            Some(s) => str_of(
                match v {
                    Some(x) => Some(*x),
                    None => None,
                },
            ) == Some(s@),
            None => str_of(
                match v {
                    Some(x) => Some(*x),
                    None => None,
                },
            ) is None,
        },
{
    match v {
        Some(JsonValue::Str(s)) => Some(s),
        _ => None,
    }
}

/// Whether `v` is an object.
pub fn object_at(v: Option<&JsonValue>) -> (res: bool)
    ensures
        res == is_object(
            match v {
                Some(x) => Some(*x),
                None => None,
            },
        ),
{
    match v {
        Some(JsonValue::Object(_)) => true,
        _ => false,
    }
}

/// The member named `key` of the value at `v`, when there is one.
pub fn get_at<'a>(v: Option<&'a JsonValue>, key: &str) -> (res: Option<&'a JsonValue>)
    ensures
        match res {
            Some(r) => field(
                match v {
                    Some(x) => Some(*x),
                    None => None,
                },
                key@,
            ) == Some(*r),
            None => field(
                match v {
                    Some(x) => Some(*x),
                    None => None,
                },
                key@,
            ) is None,
        },
{
    match v {
        Some(x) => x.get(key),
        None => None,
    }
}

#[verifier::external_type_specification]
#[verifier::external_body]
pub struct ExSerdeJsonValue(serde_json::Value);

/// What `serde_json` makes of a file's bytes: the JSON value they hold, or the
/// text of the parse error.
pub uninterp spec fn parsed_json(bytes: Seq<u8>) -> Result<JsonValue, Seq<char>>;

/// A `serde_json::Value` as the library holds it, member for member; a
/// number keeps `serde_json::Number::as_u64`.
#[verifier::external_body]
fn library_json(value: &serde_json::Value) -> JsonValue {
    match value {
        serde_json::Value::Null => JsonValue::Null,
        serde_json::Value::Bool(b) => JsonValue::Bool(*b),
        serde_json::Value::Number(n) => JsonValue::Number(n.as_u64()),
        serde_json::Value::String(s) => JsonValue::Str(s.clone()),
        serde_json::Value::Array(items) => JsonValue::Array(items.iter().map(library_json).collect()),
        serde_json::Value::Object(m) => JsonValue::Object(m.iter().map(|(k, v)| (k.clone(), library_json(v))).collect()),
    }
}

/// `serde_json::from_slice::<serde_json::Value>`: the bytes parsed as JSON,
/// or the text of the parse error. The result depends on the bytes alone; it
/// is named, not described.
#[verifier::external_body]
fn parse_json_bytes(bytes: &Vec<u8>) -> (res: Result<JsonValue, String>)
    ensures
        match res {
            Ok(v) => parsed_json(bytes@) == Ok::<JsonValue, Seq<char>>(v),
            Err(e) => parsed_json(bytes@) == Err::<JsonValue, Seq<char>>(e@),
        },
{
    match serde_json::from_slice::<serde_json::Value>(bytes.as_slice()) {
        Ok(v) => Ok(library_json(&v)),
        Err(e) => Err(e.to_string()),
    }
}

/// The message of a configuration file that does not parse.
pub open spec fn parse_failure_message(config_name: Seq<char>, error: Seq<char>) -> Seq<char> {
    "failed to parse "@ + config_name + ", "@ + error
}

/// What a parse of the configuration file `config_name` gives: its value, or
/// a `ModelConfigLoadError` naming the file and the parse error.
pub fn config_from_parse(config_name: &str, parsed: Result<JsonValue, String>) -> (res: Result<
    JsonValue,
    AIProxyError,
>)
    ensures
        match parsed {
            Ok(v) => res == Ok::<JsonValue, AIProxyError>(v),
            Err(e) => res matches Err(AIProxyError::ModelConfigLoadError { message }) && message@
                == parse_failure_message(config_name@, e@),
        },
{
    match parsed {
        Ok(v) => Ok(v),
        Err(e) => {
            let head = concat_str("failed to parse ", config_name);
            let with_sep = concat_str(head.as_str(), ", ");
            Err(AIProxyError::ModelConfigLoadError { message: concat_str(with_sep.as_str(), e.as_str()) })
        },
    }
}

/// Reads the configuration file `config_name` from its bytes: its JSON value,
/// or a `ModelConfigLoadError` naming the file and the parse error.
pub fn read_config(config_name: &str, contents: &Vec<u8>) -> (res: Result<JsonValue, AIProxyError>)
    ensures
        match parsed_json(contents@) {
            Ok(v) => res == Ok::<JsonValue, AIProxyError>(v),
            Err(e) => res matches Err(AIProxyError::ModelConfigLoadError { message }) && message@
                == parse_failure_message(config_name@, e),
        },
{
    let parsed = parse_json_bytes(contents);
    config_from_parse(config_name, parsed)
}

} // verus!
