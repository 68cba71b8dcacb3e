//! Redaction of JSON values before they are shown: the value of every
//! member whose key looks sensitive is replaced by a marker, at any depth.
use vstd::prelude::*;
use crate::text::{ascii_lowercase, chars_contain, contains, to_ascii_lowercase, to_chars};

verus! {

/// A JSON value. Numbers are kept as their text; an object keeps its
/// members in order.
#[derive(Debug)]
pub enum JsonValue {
    Null,
    Bool(bool),
    Number(String),
    Str(String),
    Array(Vec<JsonValue>),
    Object(Vec<(String, JsonValue)>),
}

/// The text that replaces a sensitive value.
pub open spec fn redaction_marker() -> Seq<char> {
    "***REDACTED***"@
}

/// The fragments that make a key sensitive.
pub open spec fn sensitive_fragments() -> Seq<Seq<char>> {
    seq![
        "password"@,
        "token"@,
        "secret"@,
        "master"@,
        "key"@,
        "authorization"@,
        "notes"@,
        "custom_fields"@,
    ]
}

/// A key is sensitive when, in ASCII lower case, it contains one of the
/// sensitive fragments.
pub open spec fn sensitive_key(key: Seq<char>) -> bool {
    exists|i: int| 0 <= i < sensitive_fragments().len() && contains(ascii_lowercase(key), #[trigger] sensitive_fragments()[i])
}

/// Whether `key` is sensitive.
pub fn is_sensitive_key(key: &str) -> (r: bool)
    ensures
        r == sensitive_key(key@),
{
    let lower = to_ascii_lowercase(key);
    let needles: [&str; 8] = [
        "password",
        "token",
        "secret",
        "master",
        "key",
        "authorization",
        "notes",
        "custom_fields",
    ];
    let ghost frags = sensitive_fragments();
    let mut i: usize = 0;
    while i < 8
        invariant
            i <= 8,
            lower@ == ascii_lowercase(key@),
            frags == sensitive_fragments(),
            forall|k: int| 0 <= k < 8 ==> (#[trigger] needles@[k])@ == frags[k],
            forall|k: int| 0 <= k < i ==> !contains(ascii_lowercase(key@), #[trigger] frags[k]),
        decreases 8 - i,
    {
        let needle = to_chars(needles[i]);
        if chars_contain(lower.as_slice(), needle.as_slice()) {
            assert(contains(ascii_lowercase(key@), frags[i as int]));
            return true;
        }
        i = i + 1;
    }
    false
}

/// `out` is `v` with the value of every member under a sensitive key, at
/// any depth, replaced by the marker; everything else is kept.
pub open spec fn redaction_of(v: JsonValue, out: JsonValue) -> bool
    decreases v,
{
    match v {
        JsonValue::Object(m) => match out {
            JsonValue::Object(o) => o@.len() == m@.len() && forall|i: int|
                0 <= i < m@.len() ==> {
                    &&& (#[trigger] o@[i]).0@ == m@[i].0@
                    &&& if sensitive_key(m@[i].0@) {
                        o@[i].1 matches JsonValue::Str(s) && s@ == redaction_marker()
                    } else {
                        redaction_of(m@[i].1, o@[i].1)
                    }
                },
            _ => false,
        },
        JsonValue::Array(a) => match out {
            JsonValue::Array(b) => b@.len() == a@.len() && forall|i: int|
                0 <= i < a@.len() ==> redaction_of(a@[i], #[trigger] b@[i]),
            _ => false,
        },
        JsonValue::Null => out is Null,
        JsonValue::Bool(b) => out == JsonValue::Bool(b),
        JsonValue::Number(n) => out matches JsonValue::Number(k) && k@ == n@,
        JsonValue::Str(s) => out matches JsonValue::Str(t) && t@ == s@,
    }
}

/// `v` with the value of every member under a sensitive key replaced by
/// `***REDACTED***`, at any depth.
pub fn redact_json(value: &JsonValue) -> (out: JsonValue)
    ensures
        redaction_of(*value, out),
    decreases value,
{
    match value {
        JsonValue::Object(map) => {
            let mut out: Vec<(String, JsonValue)> = Vec::new();
            let mut i: usize = 0;
            while i < map.len()
                invariant
                    i <= map@.len(),
                    out@.len() == i,
                    *value == JsonValue::Object(*map),
                    forall|k: int|
                        0 <= k < i ==> {
                            &&& (#[trigger] out@[k]).0@ == map@[k].0@
                            &&& if sensitive_key(map@[k].0@) {
                                out@[k].1 matches JsonValue::Str(s) && s@ == redaction_marker()
                            } else {
                                redaction_of(map@[k].1, out@[k].1)
                            }
                        },
                decreases map@.len() - i,
            {
                let key = map[i].0.clone();
                if is_sensitive_key(map[i].0.as_str()) {
                    out.push((key, JsonValue::Str(String::from_str("***REDACTED***"))));
                } else {
                    assert(decreases_to!(*value => (*value)->Object_0));
                    assert(decreases_to!(*map => map@));
                    assert(decreases_to!(map@ => map@[i as int]));
                    assert(decreases_to!(map@[i as int] => map@[i as int].1));
                    assert(decreases_to!(*value => map@[i as int].1));
                    let item = redact_json(&map[i].1);
                    out.push((key, item));
                }
                i = i + 1;
            }
            JsonValue::Object(out)
        },
        JsonValue::Array(items) => {
            let mut out: Vec<JsonValue> = Vec::new();
            let mut i: usize = 0;
            while i < items.len()
                invariant
                    i <= items@.len(),
                    out@.len() == i,
                    *value == JsonValue::Array(*items),
                    forall|k: int| 0 <= k < i ==> redaction_of(items@[k], #[trigger] out@[k]),
                decreases items@.len() - i,
            {
                assert(decreases_to!(*value => (*value)->Array_0));
                assert(decreases_to!(*items => items@));
                assert(decreases_to!(items@ => items@[i as int]));
                assert(decreases_to!(*value => items@[i as int]));
                let item = redact_json(&items[i]);
                out.push(item);
                i = i + 1;
            }
            JsonValue::Array(out)
        },
        JsonValue::Null => JsonValue::Null,
        JsonValue::Bool(b) => JsonValue::Bool(*b),
        JsonValue::Number(n) => JsonValue::Number(n.clone()),
        JsonValue::Str(s) => JsonValue::Str(s.clone()),
    }
}

/// Every member under a sensitive key, at any depth, holds the marker.
pub open spec fn fully_redacted(v: JsonValue) -> bool
    decreases v,
{
    match v {
        JsonValue::Object(m) => forall|i: int|
            0 <= i < m@.len() ==> if sensitive_key((#[trigger] m@[i]).0@) {
                m@[i].1 matches JsonValue::Str(s) && s@ == redaction_marker()
            } else {
                fully_redacted(m@[i].1)
            },
        JsonValue::Array(a) => forall|i: int| 0 <= i < a@.len() ==> fully_redacted(#[trigger] a@[i]),
        _ => true,
    }
}

/// `a` and `b` hold the same JSON: the same shape, keys, texts and
/// numbers.
pub open spec fn same_json(a: JsonValue, b: JsonValue) -> bool
    decreases a,
{
    match a {
        JsonValue::Object(m) => match b {
            JsonValue::Object(o) => o@.len() == m@.len() && forall|i: int|
                0 <= i < m@.len() ==> (#[trigger] o@[i]).0@ == m@[i].0@ && same_json(m@[i].1, o@[i].1),
            _ => false,
        },
        JsonValue::Array(x) => match b {
            JsonValue::Array(y) => y@.len() == x@.len() && forall|i: int|
                0 <= i < x@.len() ==> same_json(x@[i], #[trigger] y@[i]),
            _ => false,
        },
        JsonValue::Null => b is Null,
        JsonValue::Bool(f) => b == JsonValue::Bool(f),
        JsonValue::Number(n) => b matches JsonValue::Number(k) && k@ == n@,
        JsonValue::Str(t) => b matches JsonValue::Str(u) && u@ == t@,
    }
}

/// After redaction no sensitive member, at any depth, holds anything but
/// the marker.
pub proof fn lemma_redaction_complete(v: JsonValue, out: JsonValue)
    requires
        redaction_of(v, out),
    ensures
        fully_redacted(out),
    decreases v,
{
    match v {
        JsonValue::Object(m) => {
            let o = out->Object_0;
            assert forall|i: int| 0 <= i < o@.len() implies if sensitive_key((#[trigger] o@[i]).0@) {
                o@[i].1 matches JsonValue::Str(s) && s@ == redaction_marker()
            } else {
                fully_redacted(o@[i].1)
            } by {
                assert(o@[i].0@ == m@[i].0@);
                if !sensitive_key(m@[i].0@) {
                    assert(decreases_to!(v => v->Object_0));
                    assert(decreases_to!(v->Object_0 => m@));
                    assert(decreases_to!(m@ => m@[i]));
                    assert(decreases_to!(m@[i] => m@[i].1));
                    lemma_redaction_complete(m@[i].1, o@[i].1);
                }
            }
        },
        JsonValue::Array(a) => {
            let b = out->Array_0;
            assert forall|i: int| 0 <= i < b@.len() implies fully_redacted(#[trigger] b@[i]) by {
                assert(decreases_to!(v => v->Array_0));
                assert(decreases_to!(v->Array_0 => a@));
                assert(decreases_to!(a@ => a@[i]));
                lemma_redaction_complete(a@[i], b@[i]);
            }
        },
        _ => {},
    }
}

/// Redacting what is already fully redacted changes nothing.
pub proof fn lemma_redaction_of_redacted(v: JsonValue, out: JsonValue)
    requires
        fully_redacted(v),
        redaction_of(v, out),
    ensures
        same_json(v, out),
    decreases v,
{
    match v {
        JsonValue::Object(m) => {
            let o = out->Object_0;
            assert forall|i: int| 0 <= i < m@.len() implies (#[trigger] o@[i]).0@ == m@[i].0@ && same_json(
                m@[i].1,
                o@[i].1,
            ) by {
                assert(o@[i].0@ == m@[i].0@);
                assert(m@.contains(m@[i]));
                if !sensitive_key(m@[i].0@) {
                    assert(decreases_to!(v => v->Object_0));
                    assert(decreases_to!(v->Object_0 => m@));
                    assert(decreases_to!(m@ => m@[i]));
                    assert(decreases_to!(m@[i] => m@[i].1));
                    lemma_redaction_of_redacted(m@[i].1, o@[i].1);
                }
            }
        },
        JsonValue::Array(a) => {
            let b = out->Array_0;
            assert forall|i: int| 0 <= i < a@.len() implies same_json(a@[i], #[trigger] b@[i]) by {
                assert(decreases_to!(v => v->Array_0));
                assert(decreases_to!(v->Array_0 => a@));
                assert(decreases_to!(a@ => a@[i]));
                lemma_redaction_of_redacted(a@[i], b@[i]);
            }
        },
        _ => {},
    }
}

/// Redaction is idempotent: redacting a redacted value gives the same JSON
/// back.
pub proof fn lemma_redaction_idempotent(v: JsonValue, once: JsonValue, twice: JsonValue)
    requires
        redaction_of(v, once),
        redaction_of(once, twice),
    ensures
        same_json(once, twice),
{
    lemma_redaction_complete(v, once);
    lemma_redaction_of_redacted(once, twice);
}

} // verus!
