//! A JSON tree as the event classifier reads it: plain values, arrays and
//! ordered key/value pairs. Transcript lines are parsed into this shape by
//! serde_json behind a trusted wrapper; everything that inspects the tree
//! afterwards is verified.

use vstd::prelude::*;

verus! {

pub enum Json {
    Null,
    Bool(bool),
    /// An integral number. The tracker reads no numeric payloads out of
    /// transcript events, so only unsigned integers are carried over.
    Num(u64),
    Str(String),
    Arr(Vec<Json>),
    Obj(Vec<(String, Json)>),
}

// ---- Spec-level accessors ----

pub open spec fn obj_get(pairs: Seq<(String, Json)>, key: Seq<char>) -> Option<Json>
    decreases pairs.len(),
{
    if pairs.len() == 0 {
        Option::None
    } else if pairs[0].0@ == key {
        Option::Some(pairs[0].1)
    } else {
        obj_get(pairs.drop_first(), key)
    }
}

pub open spec fn json_get(j: Json, key: Seq<char>) -> Option<Json> {
    match j {
        Json::Obj(pairs) => obj_get(pairs@, key),
        _ => Option::None,
    }
}

pub open spec fn json_as_str(j: Json) -> Option<String> {
    match j {
        Json::Str(s) => Option::Some(s),
        _ => Option::None,
    }
}

/// The string at `key`, when the value there is a string.
pub open spec fn json_get_str(j: Json, key: Seq<char>) -> Option<String> {
    match json_get(j, key) {
        Option::Some(v) => json_as_str(v),
        Option::None => Option::None,
    }
}

/// The string at `key`, as a character sequence.
pub open spec fn jstr(j: Json, key: Seq<char>) -> Option<Seq<char>> {
    match json_get(j, key) {
        Option::Some(v) => match v {
            Json::Str(s) => Option::Some(s@),
            _ => Option::None,
        },
        Option::None => Option::None,
    }
}

/// The string two keys deep, as a character sequence.
pub open spec fn jstr2(j: Json, k1: Seq<char>, k2: Seq<char>) -> Option<Seq<char>> {
    match json_get(j, k1) {
        Option::Some(v) => jstr(v, k2),
        Option::None => Option::None,
    }
}

// ---- Exec accessors ----

proof fn lemma_obj_get_step(pairs: Seq<(String, Json)>, key: Seq<char>, i: int)
    requires
        0 <= i < pairs.len(),
        pairs[i].0@ != key,
        obj_get(pairs, key) == obj_get(pairs.skip(i), key),
    ensures
        obj_get(pairs, key) == obj_get(pairs.skip(i + 1), key),
{
    assert(pairs.skip(i).drop_first() =~= pairs.skip(i + 1));
    assert(pairs.skip(i)[0] == pairs[i]);
}

impl Json {
    /// Object member lookup; `None` on non-objects and absent keys.
    pub fn get<'a>(&'a self, key: &str) -> (r: Option<&'a Json>)
        ensures
            match r {
                Option::Some(v) => json_get(*self, key@) == Option::Some(*v),
                Option::None => json_get(*self, key@) is None,
            },
    {
        match self {
            Json::Obj(pairs) => {
                assert(json_get(*self, key@) == obj_get(pairs@, key@));
                assert(pairs@.skip(0) =~= pairs@);
                let mut i: usize = 0;
                while i < pairs.len()
                    invariant
                        i <= pairs@.len(),
                        json_get(*self, key@) == obj_get(pairs@, key@),
                        obj_get(pairs@, key@) == obj_get(pairs@.skip(i as int), key@),
                    decreases pairs@.len() - i,
                {
                    if crate::textutil::str_eq(pairs[i].0.as_str(), key) {
                        assert(obj_get(pairs@.skip(i as int), key@) == Option::Some(
                            pairs@[i as int].1,
                        ));
                        return Option::Some(&pairs[i].1);
                    }
                    proof {
                        lemma_obj_get_step(pairs@, key@, i as int);
                    }
                    i = i + 1;
                }
                assert(pairs@.skip(i as int) =~= Seq::<(String, Json)>::empty());
                Option::None
            },
            _ => Option::None,
        }
    }

    pub fn as_str_opt<'a>(&'a self) -> (r: Option<&'a String>)
        ensures
            match r {
                Option::Some(s) => json_as_str(*self) == Option::Some(*s),
                Option::None => json_as_str(*self) is None,
            },
    {
        match self {
            Json::Str(s) => Option::Some(s),
            _ => Option::None,
        }
    }

    pub fn as_arr<'a>(&'a self) -> (r: Option<&'a Vec<Json>>)
        ensures
            match r {
                Option::Some(a) => *self matches Json::Arr(b) && a@ == b@,
                Option::None => !(*self matches Json::Arr(_)),
            },
    {
        match self {
            Json::Arr(a) => Option::Some(a),
            _ => Option::None,
        }
    }

    pub fn is_object(&self) -> (r: bool)
        ensures
            r == (*self matches Json::Obj(_)),
    {
        match self {
            Json::Obj(_) => true,
            _ => false,
        }
    }

    /// The string at `key`, cloned; `None` when absent or not a string.
    pub fn get_string(&self, key: &str) -> (r: Option<String>)
        ensures
            crate::types::ov(r) == jstr(*self, key@),
            r == json_get_str(*self, key@),
    {
        match self.get(key) {
            Option::Some(v) => match v.as_str_opt() {
                Option::Some(s) => Option::Some(s.clone()),
                Option::None => Option::None,
            },
            Option::None => Option::None,
        }
    }

    /// The string two keys deep, cloned.
    pub fn get_string2(&self, k1: &str, k2: &str) -> (r: Option<String>)
        ensures
            crate::types::ov(r) == jstr2(*self, k1@, k2@),
    {
        match self.get(k1) {
            Option::Some(v) => v.get_string(k2),
            Option::None => Option::None,
        }
    }
}

// ---- Trusted parsing ----

#[verifier::external_type_specification]
#[verifier::external_body]
pub struct ExSerdeValue(serde_json::Value);

/// What parsing one line of transcript text yields: `None` for malformed
/// JSON, otherwise the tree as `convert_value` reads it. The result is a
/// function of the text alone.
pub uninterp spec fn json_of(s: Seq<char>) -> Option<Json>;

/// Relies on serde_json's Value accessors: maps each Value variant to the
/// library's tree, one arm per variant. Numbers that are not unsigned
/// integers are read as null; the tracker reads no numeric payloads.
#[verifier::external_body]
fn convert_value(v: &serde_json::Value) -> Json {
    match v {
        serde_json::Value::Null => Json::Null,
        serde_json::Value::Bool(b) => Json::Bool(*b),
        serde_json::Value::Number(n) => match n.as_u64() {
            Some(u) => Json::Num(u),
            None => Json::Null,
        },
        serde_json::Value::String(s) => Json::Str(s.clone()),
        serde_json::Value::Array(a) => Json::Arr(a.iter().map(convert_value).collect()),
        serde_json::Value::Object(o) => Json::Obj(
            o.iter().map(|(k, u)| (k.clone(), convert_value(u))).collect(),
        ),
    }
}

/// Relies on serde_json::from_str::<Value>: parses one standalone JSON text
/// per the JSON grammar, deterministically in the text alone; `None` exactly
/// when the text is not valid JSON.
#[verifier::external_body]
pub fn parse_json_line(s: &str) -> (r: Option<Json>)
    ensures
        r == json_of(s@),
{
    match serde_json::from_str::<serde_json::Value>(s) {
        Ok(v) => Some(convert_value(&v)),
        Err(_) => None,
    }
}

} // verus!
