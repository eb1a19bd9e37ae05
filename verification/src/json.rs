//! A plain JSON document model for the protocol's payloads: null,
//! booleans, unsigned integers, strings, arrays and objects. The
//! pipeline's request bodies are built and its response bodies are
//! read as values of this type.
use vstd::prelude::*;
use vstd::string::StrSliceExecFns;

verus! {

/// One JSON value. Objects keep their members in order; lookup takes
/// the first member with a matching name. Numbers are the unsigned
/// integers the protocol uses (byte offsets, sizes, status codes).
#[derive(Debug, PartialEq, Eq)]
pub enum JsonValue {
    Null,
    Bool(bool),
    Num(u64),
    Str(String),
    Arr(Vec<JsonValue>),
    Obj(Vec<(String, JsonValue)>),
}

/// First member of `entries` named `key`, searching from index `i`.
pub open spec fn obj_get_from(entries: Seq<(String, JsonValue)>, key: Seq<char>, i: int) -> Option<
    JsonValue,
>
    decreases entries.len() - i,
{
    if i < 0 || i >= entries.len() {
        None
    } else if entries[i].0@ == key {
        Some(entries[i].1)
    } else {
        obj_get_from(entries, key, i + 1)
    }
}

/// First member of `entries` named `key`.
pub open spec fn spec_obj_get(entries: Seq<(String, JsonValue)>, key: Seq<char>) -> Option<
    JsonValue,
> {
    obj_get_from(entries, key, 0)
}

/// Member `key` of `v`, when `v` is an object that has it.
pub open spec fn spec_get(v: JsonValue, key: Seq<char>) -> Option<JsonValue> {
    match v {
        JsonValue::Obj(entries) => spec_obj_get(entries@, key),
        _ => None,
    }
}

/// Lookup finds the member at `i` when no earlier member shares its name.
pub proof fn lemma_obj_get_at(es: Seq<(String, JsonValue)>, k: Seq<char>, i: int)
    requires
        0 <= i < es.len(),
        es[i].0@ == k,
        forall|j: int| 0 <= j < i ==> (#[trigger] es[j]).0@ != k,
    ensures
        spec_obj_get(es, k) == Some(es[i].1),
{
    lemma_obj_get_at_from(es, k, i, 0);
}

proof fn lemma_obj_get_at_from(es: Seq<(String, JsonValue)>, k: Seq<char>, i: int, from: int)
    requires
        0 <= from <= i < es.len(),
        es[i].0@ == k,
        forall|j: int| from <= j < i ==> (#[trigger] es[j]).0@ != k,
    ensures
        obj_get_from(es, k, from) == Some(es[i].1),
    decreases i - from,
{
    if from < i {
        lemma_obj_get_at_from(es, k, i, from + 1);
    }
}

/// Lookup misses when no member bears the name.
pub proof fn lemma_obj_get_none(es: Seq<(String, JsonValue)>, k: Seq<char>)
    requires
        forall|j: int| 0 <= j < es.len() ==> (#[trigger] es[j]).0@ != k,
    ensures
        spec_obj_get(es, k) is None,
{
    lemma_obj_get_none_from(es, k, 0);
}

proof fn lemma_obj_get_none_from(es: Seq<(String, JsonValue)>, k: Seq<char>, from: int)
    requires
        0 <= from,
        forall|j: int| from <= j < es.len() ==> (#[trigger] es[j]).0@ != k,
    ensures
        obj_get_from(es, k, from) is None,
    decreases es.len() - from,
{
    if from < es.len() {
        lemma_obj_get_none_from(es, k, from + 1);
    }
}

/// serde_json's parsed document type, declared so that the conversion
/// below may take it; it stays opaque here.
#[verifier::external_type_specification]
#[verifier::external_body]
pub struct ExValue(serde_json::Value);

/// The JSON document denoted by `text`, when `text` is a JSON text
/// whose numbers all fit the model (unsigned integers), and `None`
/// otherwise. The parse depends on the text alone.
pub uninterp spec fn json_of(text: Seq<char>) -> Option<JsonValue>;

/// Relies on serde_json::from_str::<serde_json::Value>: parses JSON
/// text, rebuilt member for member as a JsonValue by `value_to_json`.
#[verifier::external_body]
pub(crate) fn parse_json(text: &str) -> (r: Option<JsonValue>)
    ensures
        r == json_of(text@),
{
    match serde_json::from_str::<serde_json::Value>(text) {
        Ok(v) => value_to_json(&v),
        Err(_) => None,
    }
}

/// Relies on serde_json::Value's variants: copies the parsed document
/// into the library's model, one variant per arm; a number outside the
/// unsigned-integer range makes the whole conversion fail.
#[verifier::external_body]
fn value_to_json(v: &serde_json::Value) -> (r: Option<JsonValue>)
{
    match v {
        serde_json::Value::Null => Some(JsonValue::Null),
        serde_json::Value::Bool(b) => Some(JsonValue::Bool(*b)),
        serde_json::Value::Number(n) => n.as_u64().map(JsonValue::Num),
        serde_json::Value::String(s) => Some(JsonValue::Str(s.clone())),
        serde_json::Value::Array(a) => a.iter().map(value_to_json).collect::<Option<Vec<
            JsonValue,
        >>>().map(JsonValue::Arr),
        serde_json::Value::Object(m) => m.iter().map(
            |(k, w)| value_to_json(w).map(|j| (k.clone(), j)),
        ).collect::<Option<Vec<(String, JsonValue)>>>().map(JsonValue::Obj),
    }
}

impl JsonValue {
    /// Looks up member `key`; `None` on a non-object or an absent member.
    pub fn get<'a>(&'a self, key: &str) -> (r: Option<&'a JsonValue>)
        ensures
            r is Some <==> spec_get(*self, key@) is Some,
            r is Some ==> *r->0 == spec_get(*self, key@)->0,
    {
        match self {
            JsonValue::Obj(entries) => {
                proof {
                    assert(spec_get(*self, key@) == spec_obj_get(entries@, key@));
                }
                let n = entries.len();
                let mut i: usize = 0;
                while i < n
                    invariant
                        n == entries@.len(),
                        i <= n,
                        self is Obj && self->Obj_0 == *entries,
                        spec_obj_get(entries@, key@) == obj_get_from(entries@, key@, i as int),
                    decreases n - i,
                {
                    if crate::strutil::str_eq(entries[i].0.as_str(), key) {
                        proof {
                            assert(obj_get_from(entries@, key@, i as int) == Some(
                                entries@[i as int].1,
                            ));
                        }
                        return Some(&entries[i].1);
                    }
                    proof {
                        assert(obj_get_from(entries@, key@, i as int) == obj_get_from(
                            entries@,
                            key@,
                            i + 1,
                        ));
                    }
                    i = i + 1;
                }
                None
            },
            _ => None,
        }
    }

    /// Moves member `key` out of an object, consuming the value;
    /// `None` on a non-object or an absent member.
    pub fn take(self, key: &str) -> (r: Option<JsonValue>)
        ensures
            r is Some <==> spec_get(self, key@) is Some,
            r is Some ==> r->0 == spec_get(self, key@)->0,
    {
        match self {
            JsonValue::Obj(mut entries) => {
                let n = entries.len();
                let mut i: usize = 0;
                while i < n
                    invariant
                        n == entries@.len(),
                        i <= n,
                        self is Obj && self->Obj_0@ == entries@,
                        spec_obj_get(entries@, key@) == obj_get_from(entries@, key@, i as int),
                    decreases n - i,
                {
                    if crate::strutil::str_eq(entries[i].0.as_str(), key) {
                        proof {
                            assert(obj_get_from(entries@, key@, i as int) == Some(
                                entries@[i as int].1,
                            ));
                        }
                        let (_, v) = entries.remove(i);
                        return Some(v);
                    }
                    proof {
                        assert(obj_get_from(entries@, key@, i as int) == obj_get_from(
                            entries@,
                            key@,
                            i + 1,
                        ));
                    }
                    i = i + 1;
                }
                None
            },
            _ => None,
        }
    }

    /// The string content, when `self` is a string.
    pub fn as_str<'a>(&'a self) -> (r: Option<&'a String>)
        ensures
            r is Some <==> self is Str,
            self is Str ==> r->0@ == self->Str_0@,
    {
        match self {
            JsonValue::Str(s) => Some(s),
            _ => None,
        }
    }

    /// The numeric content, when `self` is a number.
    pub fn as_u64(&self) -> (r: Option<u64>)
        ensures
            r is Some <==> self is Num,
            self is Num ==> r->0 == self->Num_0,
    {
        match self {
            JsonValue::Num(n) => Some(*n),
            _ => None,
        }
    }

    /// The elements, when `self` is an array.
    pub fn as_array<'a>(&'a self) -> (r: Option<&'a Vec<JsonValue>>)
        ensures
            r is Some <==> self is Arr,
            self is Arr ==> r->0@ == self->Arr_0@,
    {
        match self {
            JsonValue::Arr(a) => Some(a),
            _ => None,
        }
    }

    /// The members, when `self` is an object.
    pub fn as_object<'a>(&'a self) -> (r: Option<&'a Vec<(String, JsonValue)>>)
        ensures
            r is Some <==> self is Obj,
            self is Obj ==> r->0@ == self->Obj_0@,
    {
        match self {
            JsonValue::Obj(entries) => Some(entries),
            _ => None,
        }
    }
}

} // verus!
