//! JSON values as the library reads them: error bodies of API responses,
//! searched for their error type and cleaned of the API token.

use vstd::prelude::*;
use crate::text::{chars_eq, chars_of, replace_all, replace_chars, string_of};

verus! {

/// A JSON value. Numbers are kept as their text.
#[derive(Debug)]
pub enum JsonValue {
    Null,
    Bool(bool),
    Number(String),
    Str(String),
    Array(Vec<JsonValue>),
    Object(Vec<(String, JsonValue)>),
}

/// The text that takes the place of the API token in error bodies.
pub const REDACTED: &'static str = "[REDACTED]";

/// `b` is `a` with `token` replaced by `replacement` in every string value,
/// and with everything else (keys, numbers, structure) unchanged.
pub open spec fn is_redaction(a: JsonValue, b: JsonValue, token: Seq<char>, replacement: Seq<char>) -> bool
    decreases a,
{
    match (a, b) {
        (JsonValue::Null, JsonValue::Null) => true,
        (JsonValue::Bool(x), JsonValue::Bool(y)) => x == y,
        (JsonValue::Number(x), JsonValue::Number(y)) => x@ == y@,
        (JsonValue::Str(x), JsonValue::Str(y)) => y@ == replace_all(x@, token, replacement),
        (JsonValue::Array(xs), JsonValue::Array(ys)) => xs@.len() == ys@.len() && forall|i: int|
            0 <= i < xs@.len() ==> #[trigger] is_redaction(xs@[i], ys@[i], token, replacement),
        (JsonValue::Object(xs), JsonValue::Object(ys)) => xs@.len() == ys@.len() && forall|i: int|
            0 <= i < xs@.len() ==> xs@[i].0@ == ys@[i].0@ && #[trigger] is_redaction(
                xs@[i].1,
                ys@[i].1,
                token,
                replacement,
            ),
        _ => false,
    }
}

/// Replaces `token` by `replacement` in every string of `value`.
pub fn redact(value: JsonValue, token: &[char], replacement: &[char]) -> (r: JsonValue)
    ensures
        is_redaction(value, r, token@, replacement@),
    decreases value,
{
    match value {
        JsonValue::Null => JsonValue::Null,
        JsonValue::Bool(b) => JsonValue::Bool(b),
        JsonValue::Number(n) => JsonValue::Number(n),
        JsonValue::Str(s) => {
            let cs = chars_of(s.as_str());
            let replaced = replace_chars(cs.as_slice(), token, replacement);
            JsonValue::Str(string_of(replaced.as_slice()))
        },
        JsonValue::Array(items) => {
            let ghost orig = items@;
            let mut items = items;
            let mut out: Vec<JsonValue> = Vec::new();
            let n = items.len();
            let mut k: usize = 0;
            while k < n
                invariant
                    n == orig.len(),
                    k <= n,
                    items@ == orig.skip(k as int),
                    out@.len() == k,
                    forall|j: int|
                        0 <= j < k ==> #[trigger] is_redaction(
                            orig[j],
                            out@[j],
                            token@,
                            replacement@,
                        ),
                    forall|j: int| 0 <= j < n ==> decreases_to!(value => #[trigger] orig[j]),
                decreases n - k,
            {
                let item = items.remove(0);
                assert(item == orig[k as int]);
                assert(items@ == orig.skip(k + 1));
                let red = redact(item, token, replacement);
                out.push(red);
                k = k + 1;
            }
            assert forall|j: int| 0 <= j < orig.len() implies is_redaction(
                orig[j],
                out@[j],
                token@,
                replacement@,
            ) by {}
            JsonValue::Array(out)
        },
        JsonValue::Object(entries) => {
            let ghost orig = entries@;
            let mut entries = entries;
            let mut out: Vec<(String, JsonValue)> = Vec::new();
            let n = entries.len();
            let mut k: usize = 0;
            while k < n
                invariant
                    n == orig.len(),
                    k <= n,
                    entries@ == orig.skip(k as int),
                    out@.len() == k,
                    forall|j: int| 0 <= j < k ==> orig[j].0@ == (#[trigger] out@[j]).0@,
                    forall|j: int|
                        0 <= j < k ==> #[trigger] is_redaction(
                            orig[j].1,
                            out@[j].1,
                            token@,
                            replacement@,
                        ),
                    forall|j: int| 0 <= j < n ==> decreases_to!(value => #[trigger] orig[j].1),
                decreases n - k,
            {
                let entry = entries.remove(0);
                assert(entry == orig[k as int]);
                let (key, item) = entry;
                assert(item == orig[k as int].1);
                assert(key@ == orig[k as int].0@);
                assert(entries@ == orig.skip(k + 1));
                let red = redact(item, token, replacement);
                let ghost prev = out@;
                let ghost key_view = key@;
                let pair = (key, red);
                assert(pair.0@ == key_view);
                out.push(pair);
                assert forall|j: int| 0 <= j < k + 1 implies orig[j].0@ == out@[j].0@
                    && #[trigger] is_redaction(orig[j].1, out@[j].1, token@, replacement@) by {
                    if j < k {
                        assert(out@[j] == prev[j]);
                    } else {
                        assert(out@[j] == pair);
                    }
                }
                k = k + 1;
            }
            assert forall|i: int| 0 <= i < orig.len() implies is_redaction(
                orig[i].1,
                out@[i].1,
                token@,
                replacement@,
            ) by {}
            JsonValue::Object(out)
        },
    }
}

/// The value of the first entry of an object whose key is `key`.
pub open spec fn entry_value(entries: Seq<(String, JsonValue)>, key: Seq<char>) -> Option<JsonValue>
    decreases entries.len(),
{
    if entries.len() == 0 {
        None
    } else if entries[0].0@ == key {
        Some(entries[0].1)
    } else {
        entry_value(entries.drop_first(), key)
    }
}

/// The error type that a `422` response names: the string under the key
/// `error` of an object body, and `ValidationError` otherwise.
pub open spec fn validation_error_type(body: Option<JsonValue>) -> Seq<char> {
    match body {
        Some(JsonValue::Object(entries)) => match entry_value(entries@, "error"@) {
            Some(JsonValue::Str(s)) => s@,
            _ => "ValidationError"@,
        },
        _ => "ValidationError"@,
    }
}

/// The value of the first entry of `entries` whose key is `key`.
pub fn find_entry<'a>(entries: &'a Vec<(String, JsonValue)>, key: &str) -> (r: Option<&'a JsonValue>)
    ensures
        match r {
            Some(v) => entry_value(entries@, key@) == Some(*v),
            None => entry_value(entries@, key@) is None,
        },
{
    let kc = chars_of(key);
    let n = entries.len();
    let mut i: usize = 0;
    assert(entries@.skip(0) == entries@);
    while i < n
        invariant
            n == entries@.len(),
            i <= n,
            kc@ == key@,
            entry_value(entries@, key@) == entry_value(entries@.skip(i as int), key@),
        decreases n - i,
    {
        let ec = chars_of(entries[i].0.as_str());
        assert(entries@.skip(i as int)[0] == entries@[i as int]);
        if chars_eq(ec.as_slice(), kc.as_slice()) {
            return Some(&entries[i].1);
        }
        assert(entries@.skip(i as int).drop_first() == entries@.skip(i + 1));
        i = i + 1;
    }
    None
}

/// The error type of a `422` response with the given body.
pub fn error_type_of(body: &Option<JsonValue>) -> (r: String)
    ensures
        r@ == validation_error_type(*body),
{
    if let Some(JsonValue::Object(entries)) = body {
        if let Some(JsonValue::Str(s)) = find_entry(entries, "error") {
            return s.clone();
        }
    }
    "ValidationError".to_owned()
}

impl JsonValue {
    /// The value of an object's first entry under `key`; nothing for a value
    /// that is not an object.
    pub fn get(&self, key: &str) -> (r: Option<&JsonValue>)
        ensures
            match self {
                JsonValue::Object(entries) => match r {
                    Some(v) => entry_value(entries@, key@) == Some(*v),
                    None => entry_value(entries@, key@) is None,
                },
                _ => r is None,
            },
    {
        match self {
            JsonValue::Object(entries) => find_entry(entries, key),
            _ => None,
        }
    }

    /// The text of a string value; nothing for other values.
    pub fn as_str(&self) -> (r: Option<&str>)
        ensures
            match self {
                JsonValue::Str(s) => r matches Some(t) && t@ == s@,
                _ => r is None,
            },
    {
        match self {
            JsonValue::Str(s) => Some(s.as_str()),
            _ => None,
        }
    }
}

} // verus!
