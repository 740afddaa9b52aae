//! The crate's own JSON tree.
//!
//! Remote responses, settings values and cookie files all arrive as JSON.
//! The logic that reads them is verified, so it works on this plain
//! datatype; only the conversion between JSON text and this tree goes
//! through the `json` crate, behind the two trusted functions at the bottom.
//! Numbers are carried as `i64`: every field the library reads (ids, page
//! numbers, durations, result codes) is integral, and the conversion maps
//! any number outside the `i64` range, and any scaled or fractional
//! number, to `Null`.
use vstd::prelude::*;

verus! {

broadcast use vstd::std_specs::vec::group_vec_axioms;

/// A JSON value.
#[derive(Debug)]
pub enum Json {
    Null,
    Bool(bool),
    Int(i64),
    Str(String),
    Arr(Vec<Json>),
    Obj(Vec<(String, Json)>),
}

/// The value under the first entry of an object with the given key.
pub open spec fn spec_obj_get(entries: Seq<(String, Json)>, key: Seq<char>) -> Option<Json>
    decreases entries.len(),
{
    if entries.len() == 0 {
        None
    } else if entries[0].0@ == key {
        Some(entries[0].1)
    } else {
        spec_obj_get(entries.skip(1), key)
    }
}

/// `spec_obj_get` finds the entry at `at` when all earlier keys differ.
pub proof fn lemma_obj_get_at(entries: Seq<(String, Json)>, key: Seq<char>, at: int)
    requires
        0 <= at < entries.len(),
        entries[at].0@ == key,
        forall|k: int| 0 <= k < at ==> (#[trigger] entries[k]).0@ != key,
    ensures
        spec_obj_get(entries, key) == Some(entries[at].1),
    decreases at,
{
    if at > 0 {
        assert(entries.skip(1)[at - 1] == entries[at]);
        assert(forall|k: int|
            0 <= k < at - 1 ==> (#[trigger] entries.skip(1)[k]).0 == entries[k + 1].0);
        lemma_obj_get_at(entries.skip(1), key, at - 1);
    }
}

/// `spec_obj_get` finds nothing when no key matches.
pub proof fn lemma_obj_get_none(entries: Seq<(String, Json)>, key: Seq<char>)
    requires
        forall|k: int| 0 <= k < entries.len() ==> (#[trigger] entries[k]).0@ != key,
    ensures
        spec_obj_get(entries, key) is None,
    decreases entries.len(),
{
    if entries.len() > 0 {
        assert(forall|k: int|
            0 <= k < entries.len() - 1 ==> (#[trigger] entries.skip(1)[k]).0 == entries[k + 1].0);
        lemma_obj_get_none(entries.skip(1), key);
    }
}

/// Looking a key up in an object, as `spec_obj_get`; `None` on any other
/// value or a missing key.
pub open spec fn spec_get(j: Json, key: Seq<char>) -> Option<Json> {
    match j {
        Json::Obj(entries) => spec_obj_get(entries@, key),
        _ => None,
    }
}

pub open spec fn spec_as_usize(j: Json) -> Option<usize> {
    match j {
        Json::Int(i) => if 0 <= i <= usize::MAX {
            Some(i as usize)
        } else {
            None
        },
        _ => None,
    }
}

pub open spec fn spec_as_i64(j: Json) -> Option<i64> {
    match j {
        Json::Int(i) => Some(i),
        _ => None,
    }
}

pub open spec fn spec_as_bool(j: Json) -> Option<bool> {
    match j {
        Json::Bool(b) => Some(b),
        _ => None,
    }
}

impl Json {
    pub fn is_null(&self) -> (r: bool)
        ensures
            r == (*self is Null),
    {
        match self {
            Json::Null => true,
            _ => false,
        }
    }

    pub fn is_boolean(&self) -> (r: bool)
        ensures
            r == (*self is Bool),
    {
        match self {
            Json::Bool(_) => true,
            _ => false,
        }
    }

    pub fn is_number(&self) -> (r: bool)
        ensures
            r == (*self is Int),
    {
        match self {
            Json::Int(_) => true,
            _ => false,
        }
    }

    pub fn is_string(&self) -> (r: bool)
        ensures
            r == (*self is Str),
    {
        match self {
            Json::Str(_) => true,
            _ => false,
        }
    }

    pub fn is_array(&self) -> (r: bool)
        ensures
            r == (*self is Arr),
    {
        match self {
            Json::Arr(_) => true,
            _ => false,
        }
    }

    pub fn is_object(&self) -> (r: bool)
        ensures
            r == (*self is Obj),
    {
        match self {
            Json::Obj(_) => true,
            _ => false,
        }
    }

    pub fn as_bool(&self) -> (r: Option<bool>)
        ensures
            r == spec_as_bool(*self),
    {
        match self {
            Json::Bool(b) => Some(*b),
            _ => None,
        }
    }

    pub fn as_i64(&self) -> (r: Option<i64>)
        ensures
            r == spec_as_i64(*self),
    {
        match self {
            Json::Int(i) => Some(*i),
            _ => None,
        }
    }

    pub fn as_usize(&self) -> (r: Option<usize>)
        ensures
            r == spec_as_usize(*self),
    {
        match self {
            Json::Int(i) => {
                if *i >= 0 && *i as u64 <= usize::MAX as u64 {
                    Some(*i as usize)
                } else {
                    None
                }
            },
            _ => None,
        }
    }

    pub fn as_str(&self) -> (r: Option<&str>)
        ensures
            r is Some <==> *self is Str,
            r is Some ==> r->Some_0@ == (*self)->Str_0@,
    {
        match self {
            Json::Str(s) => {
                proof {
                    assert((*self)->Str_0 == *s);
                }
                Some(s.as_str())
            },
            _ => None,
        }
    }

    /// The member under a key, `None` when the key is missing or the value
    /// is not an object.
    #[verifier::loop_isolation(false)]
    pub fn get<'a>(&'a self, key: &str) -> (r: Option<&'a Json>)
        ensures
            match r {
                Some(v) => spec_get(*self, key@) == Some(*v),
                None => spec_get(*self, key@) is None,
            },
    {
        match self {
            Json::Obj(entries) => {
                proof {
                    assert(entries@.skip(0) =~= entries@);
                }
                let mut i: usize = 0;
                while i < entries.len()
                    invariant
                        0 <= i <= entries@.len(),
                        spec_obj_get(entries@, key@) == spec_obj_get(entries@.skip(i as int), key@),
                    decreases entries@.len() - i,
                {
                    if crate::strutil::str_eq(entries[i].0.as_str(), key) {
                        proof {
                            assert(entries@.skip(i as int)[0] == entries@[i as int]);
                        }
                        return Some(&entries[i].1);
                    }
                    proof {
                        assert(entries@.skip(i as int).skip(1) =~= entries@.skip(i + 1));
                        assert(entries@.skip(i as int)[0] == entries@[i as int]);
                    }
                    i += 1;
                }
                proof {
                    assert(entries@.skip(i as int).len() == 0);
                }
                None
            },
            _ => None,
        }
    }

    pub fn has_key(&self, key: &str) -> (r: bool)
        ensures
            r == (spec_get(*self, key@) is Some),
    {
        self.get(key).is_some()
    }
}

/// Structural equality of two JSON trees, with strings compared by their
/// characters.
pub open spec fn json_equiv(a: Json, b: Json) -> bool
    decreases a,
{
    match (a, b) {
        (Json::Null, Json::Null) => true,
        (Json::Bool(x), Json::Bool(y)) => x == y,
        (Json::Int(x), Json::Int(y)) => x == y,
        (Json::Str(x), Json::Str(y)) => x@ == y@,
        (Json::Arr(x), Json::Arr(y)) => {
            &&& x@.len() == y@.len()
            &&& forall|i: int|
                0 <= i < x@.len() ==> json_equiv(#[trigger] x@[i], y@[i])
        },
        (Json::Obj(x), Json::Obj(y)) => {
            &&& x@.len() == y@.len()
            &&& forall|i: int|
                0 <= i < x@.len() ==> (#[trigger] x@[i]).0@ == y@[i].0@ && json_equiv(
                    x@[i].1,
                    y@[i].1,
                )
        },
        _ => false,
    }
}

/// Deep copy of a JSON tree.
#[verifier::loop_isolation(false)]
fn clone_json(j: &Json) -> (r: Json)
    ensures
        json_equiv(r, *j),
    decreases *j,
{
    match j {
        Json::Null => Json::Null,
        Json::Bool(b) => Json::Bool(*b),
        Json::Int(i) => Json::Int(*i),
        Json::Str(s) => Json::Str(s.clone()),
        Json::Arr(items) => {
            let mut out: Vec<Json> = Vec::new();
            let mut i: usize = 0;
            while i < items.len()
                invariant
                    0 <= i <= items@.len(),
                    *j == Json::Arr(*items),
                    out@.len() == i,
                    forall|k: int| 0 <= k < i ==> json_equiv(#[trigger] out@[k], items@[k]),
                decreases items@.len() - i,
            {
                let c = clone_json(&items[i]);
                out.push(c);
                i += 1;
            }
            Json::Arr(out)
        },
        Json::Obj(entries) => {
            let mut out: Vec<(String, Json)> = Vec::new();
            let mut i: usize = 0;
            while i < entries.len()
                invariant
                    0 <= i <= entries@.len(),
                    *j == Json::Obj(*entries),
                    out@.len() == i,
                    forall|k: int|
                        0 <= k < i ==> (#[trigger] out@[k]).0@ == entries@[k].0@ && json_equiv(
                            out@[k].1,
                            entries@[k].1,
                        ),
                decreases entries@.len() - i,
            {
                let k = entries[i].0.clone();
                let v = clone_json(&entries[i].1);
                out.push((k, v));
                i += 1;
            }
            Json::Obj(out)
        },
    }
}

impl Clone for Json {
    /// Cloning yields an equivalent tree.
    fn clone(&self) -> (r: Self)
        ensures
            json_equiv(r, *self),
    {
        clone_json(self)
    }
}

/// Decide `json_equiv` on two JSON trees.
#[verifier::loop_isolation(false)]
pub fn json_eq(a: &Json, b: &Json) -> (r: bool)
    ensures
        r == json_equiv(*a, *b),
    decreases *a,
{
    match (a, b) {
        (Json::Null, Json::Null) => true,
        (Json::Bool(x), Json::Bool(y)) => *x == *y,
        (Json::Int(x), Json::Int(y)) => *x == *y,
        (Json::Str(x), Json::Str(y)) => crate::strutil::str_eq(x.as_str(), y.as_str()),
        (Json::Arr(x), Json::Arr(y)) => {
            if x.len() != y.len() {
                return false;
            }
            let mut i: usize = 0;
            while i < x.len()
                invariant
                    0 <= i <= x@.len(),
                    x@.len() == y@.len(),
                    *a == Json::Arr(*x),
                    *b == Json::Arr(*y),
                    forall|k: int| 0 <= k < i ==> json_equiv(#[trigger] x@[k], y@[k]),
                decreases x@.len() - i,
            {
                if !json_eq(&x[i], &y[i]) {
                    return false;
                }
                i += 1;
            }
            true
        },
        (Json::Obj(x), Json::Obj(y)) => {
            if x.len() != y.len() {
                return false;
            }
            let mut i: usize = 0;
            while i < x.len()
                invariant
                    0 <= i <= x@.len(),
                    x@.len() == y@.len(),
                    *a == Json::Obj(*x),
                    *b == Json::Obj(*y),
                    forall|k: int|
                        0 <= k < i ==> (#[trigger] x@[k]).0@ == y@[k].0@ && json_equiv(
                            x@[k].1,
                            y@[k].1,
                        ),
                decreases x@.len() - i,
            {
                if !crate::strutil::str_eq(x[i].0.as_str(), y[i].0.as_str()) {
                    return false;
                }
                if !json_eq(&x[i].1, &y[i].1) {
                    return false;
                }
                i += 1;
            }
            true
        },
        _ => false,
    }
}

impl PartialEq for Json {
    /// `==` on JSON trees decides `json_equiv`.
    fn eq(&self, other: &Json) -> (r: bool) {
        json_eq(self, other)
    }
}

impl vstd::std_specs::cmp::PartialEqSpecImpl for Json {
    open spec fn obeys_eq_spec() -> bool {
        true
    }

    open spec fn eq_spec(&self, other: &Json) -> bool {
        json_equiv(*self, *other)
    }
}

/// The first value that is present and not `Null` under one of the keys, in
/// key order.
pub open spec fn spec_multikey(j: Json, keys: Seq<Seq<char>>) -> Option<Json>
    decreases keys.len(),
{
    if keys.len() == 0 {
        None
    } else {
        match spec_get(j, keys[0]) {
            Some(v) => if !(v is Null) {
                Some(v)
            } else {
                spec_multikey(j, keys.skip(1))
            },
            None => spec_multikey(j, keys.skip(1)),
        }
    }
}

/// Return the first value which is not null under the keys, tried in order.
pub fn jv_multikey_value<'a>(obj: &'a Json, keys: Vec<&str>) -> (r: Option<&'a Json>)
    ensures
        match r {
            Some(v) => spec_multikey(*obj, keys@.map_values(|k: &str| k@)) == Some(*v),
            None => spec_multikey(*obj, keys@.map_values(|k: &str| k@)) is None,
        },
{
    let ghost ks = keys@.map_values(|k: &str| k@);
    proof {
        assert(ks.skip(0) =~= ks);
    }
    let mut i: usize = 0;
    while i < keys.len()
        invariant
            0 <= i <= keys@.len(),
            ks == keys@.map_values(|k: &str| k@),
            spec_multikey(*obj, ks) == spec_multikey(*obj, ks.skip(i as int)),
        decreases keys@.len() - i,
    {
        proof {
            assert(ks.skip(i as int)[0] == ks[i as int]);
            assert(ks.skip(i as int).skip(1) =~= ks.skip(i + 1));
        }
        match obj.get(keys[i]) {
            Some(v) => {
                if !v.is_null() {
                    return Some(v);
                }
            },
            None => {},
        }
        i += 1;
    }
    proof {
        assert(ks.skip(i as int).len() == 0);
    }
    None
}

#[verifier::external_type_specification]
#[verifier::external_body]
pub struct ExJsonValue(json::JsonValue);

#[verifier::external_type_specification]
#[verifier::external_body]
pub struct ExNumber(json::number::Number);

/// The tree that a piece of JSON text parses to, or `None` where the text is
/// not valid JSON; the result depends on the text alone.
pub uninterp spec fn json_text_value(s: Seq<char>) -> Option<Json>;

/// The text that a JSON tree serializes to; the result depends on the tree
/// alone.
pub uninterp spec fn json_dumped(j: Json) -> Seq<char>;

/// Relies on Number::as_parts: a number whose unscaled mantissa fits
/// `i64` — the lowest value included, carried as a negative mantissa of
/// one more than `i64::MAX` — gives that integer; a scaled, out-of-range
/// or not-a-number value gives `Null`. The sign and magnitude are read
/// directly, so no conversion in the outside crate negates the mantissa.
#[verifier::external_body]
fn int_of_number(n: &json::number::Number) -> Json {
    if n.is_nan() {
        return Json::Null;
    }
    let (positive, mantissa, exponent) = n.as_parts();
    if exponent != 0 {
        Json::Null
    } else if mantissa <= i64::MAX as u64 {
        Json::Int(if positive { mantissa as i64 } else { -(mantissa as i64) })
    } else if !positive && mantissa == 1u64 << 63 {
        Json::Int(i64::MIN)
    } else {
        Json::Null
    }
}

/// Relies on the `json` crate's variant accessors: each arm moves one
/// variant of the parsed value into the crate's own tree; numbers go
/// through `int_of_number`.
#[verifier::external_body]
fn json_of(v: &json::JsonValue) -> Json {
    match v {
        json::JsonValue::Null => Json::Null,
        json::JsonValue::Boolean(b) => Json::Bool(*b),
        json::JsonValue::Number(n) => int_of_number(n),
        json::JsonValue::Short(s) => Json::Str(s.as_str().to_owned()),
        json::JsonValue::String(s) => Json::Str(s.clone()),
        json::JsonValue::Array(a) => Json::Arr(a.iter().map(json_of).collect()),
        json::JsonValue::Object(o) => Json::Obj(
            o.iter().map(|(k, x)| (k.to_owned(), json_of(x))).collect(),
        ),
    }
}

/// Relies on json::parse: whether text parses, and what it parses to, is a
/// function of the text alone.
#[verifier::external_body]
pub fn parse_json(s: &str) -> (r: Option<Json>)
    ensures
        r == json_text_value(s@),
{
    match json::parse(s) {
        Ok(v) => Some(json_of(&v)),
        Err(_) => None,
    }
}

/// Relies on Number::from_parts: the number is built from its sign and
/// magnitude, so the lowest `i64` — whose magnitude is one more than
/// `i64::MAX` — never goes through a negation the outside crate cannot
/// represent.
#[verifier::external_body]
fn number_of_int(i: i64) -> json::number::Number {
    if i >= 0 {
        json::number::Number::from_parts(true, i as u64, 0)
    } else if i == i64::MIN {
        json::number::Number::from_parts(false, 9223372036854775808u64, 0)
    } else {
        json::number::Number::from_parts(false, (-i) as u64, 0)
    }
}

/// Relies on the `json` crate's constructors: each arm moves one variant of
/// the crate's own tree into the outside value that `dump_json` serializes;
/// numbers go through `number_of_int`.
#[verifier::external_body]
fn jv_of(j: &Json) -> json::JsonValue {
    match j {
        Json::Null => json::JsonValue::Null,
        Json::Bool(b) => json::JsonValue::Boolean(*b),
        Json::Int(i) => json::JsonValue::Number(number_of_int(*i)),
        Json::Str(s) => json::JsonValue::String(s.clone()),
        Json::Arr(a) => json::JsonValue::Array(a.iter().map(jv_of).collect()),
        Json::Obj(o) => {
            let mut m = json::object::Object::new();
            for (k, v) in o.iter() {
                m.insert(k, jv_of(v));
            }
            json::JsonValue::Object(m)
        },
    }
}

/// Relies on JsonValue::dump: the serialized text is a function of the value
/// alone.
#[verifier::external_body]
pub fn dump_json(j: &Json) -> (r: String)
    ensures
        r@ == json_dumped(*j),
{
    jv_of(j).dump()
}

} // verus!
