//! JSON values as `serde_json` holds them, and what this library reads of them.
//!
//! A `serde_json::Value` is carried around as it is. The decoders look at a
//! value only through the functions specified here, and every contract speaks
//! of it through `shape` and `entries`.

use vstd::prelude::*;

verus! {

#[verifier::external_type_specification]
#[verifier::external_body]
pub struct ExValue(serde_json::Value);

#[verifier::external_type_specification]
#[verifier::external_body]
#[verifier::reject_recursive_types(K)]
#[verifier::reject_recursive_types(V)]
pub struct ExObject<K, V>(serde_json::Map<K, V>);

/// What a JSON value is at its top level. A number has an integer value
/// unless it is written with a fraction or an exponent.
pub enum JsonShape {
    Null,
    Bool(bool),
    Number(Option<int>),
    String(Seq<char>),
    Array(Seq<serde_json::Value>),
    Object(serde_json::Map<String, serde_json::Value>),
}

/// The top level of the value `v`.
pub uninterp spec fn shape(v: serde_json::Value) -> JsonShape;

/// The key/value pairs of the object `m`, in the order in which it hands them
/// out.
pub uninterp spec fn entries(m: serde_json::Map<String, serde_json::Value>) -> Seq<
    (Seq<char>, serde_json::Value),
>;

/// The mapping that a run of key/value pairs writes: of two pairs under one
/// key the later one counts.
pub open spec fn contents(pairs: Seq<(Seq<char>, serde_json::Value)>) -> Map<
    Seq<char>,
    serde_json::Value,
>
    decreases pairs.len(),
{
    if pairs.len() == 0 {
        Map::empty()
    } else {
        contents(pairs.drop_last()).insert(pairs.last().0, pairs.last().1)
    }
}

/// Key/value pairs as contracts speak of them: each key by its text.
pub open spec fn pair_views(pairs: Seq<(String, serde_json::Value)>) -> Seq<
    (Seq<char>, serde_json::Value),
> {
    pairs.map_values(|p: (String, serde_json::Value)| (p.0@, p.1))
}

/// `serde_json::Value::is_null`: whether the value is `null`.
pub assume_specification[ serde_json::Value::is_null ](v: &serde_json::Value) -> (b: bool)
    ensures
        b == (shape(*v) is Null),
;

/// `serde_json::Value::as_str`: the text of a string, `None` for any other
/// value.
pub assume_specification<'a>[ serde_json::Value::as_str ](v: &'a serde_json::Value) -> (r: Option<
    &'a str,
>)
    ensures
        match r {
            Some(s) => shape(*v) == JsonShape::String(s@),
            None => !(shape(*v) is String),
        },
;

/// `serde_json::Value::as_array`: the elements of an array, `None` for any
/// other value.
pub assume_specification<'a>[ serde_json::Value::as_array ](v: &'a serde_json::Value) -> (r: Option<
    &'a Vec<serde_json::Value>,
>)
    ensures
        match r {
            Some(a) => shape(*v) == JsonShape::Array(a@),
            None => !(shape(*v) is Array),
        },
;

/// `serde_json::Value::as_object`: the map of an object, `None` for any other
/// value.
pub assume_specification<'a>[ serde_json::Value::as_object ](
    v: &'a serde_json::Value,
) -> (r: Option<&'a serde_json::Map<String, serde_json::Value>>)
    ensures
        match r {
            Some(m) => shape(*v) == JsonShape::Object(*m),
            None => !(shape(*v) is Object),
        },
;

/// `serde_json::Value::as_i64`: the value of a number that is an integer and
/// fits in an `i64`, `None` for any other value.
pub assume_specification[ serde_json::Value::as_i64 ](v: &serde_json::Value) -> (r: Option<i64>)
    ensures
        r == match shape(*v) {
            JsonShape::Number(Some(n)) => if i64::MIN <= n <= i64::MAX {
                Some(n as i64)
            } else {
                None
            },
            _ => None,
        },
;

/// `Clone` for `serde_json::Value`: the copy is the same value.
pub assume_specification[ <serde_json::Value as Clone>::clone ](v: &serde_json::Value) -> (r:
    serde_json::Value)
    ensures
        r == *v,
;

/// `Default` for `serde_json::Value`: the value `null`.
pub assume_specification[ <serde_json::Value as Default>::default ]() -> (v: serde_json::Value)
    ensures
        shape(v) is Null,
;

/// `serde_json::Map::new`: a map without entries.
pub assume_specification[ serde_json::Map::<String, serde_json::Value>::new ]() -> (m:
    serde_json::Map<String, serde_json::Value>)
    ensures
        entries(m) == Seq::<(Seq<char>, serde_json::Value)>::empty(),
;

/// `serde_json::Map::insert`: afterwards `k` maps to `v` and every other key
/// to what it mapped to before; the value that `k` had is handed back.
pub assume_specification[ serde_json::Map::<String, serde_json::Value>::insert ](
    m: &mut serde_json::Map<String, serde_json::Value>,
    k: String,
    v: serde_json::Value,
) -> (previous: Option<serde_json::Value>)
    ensures
        contents(entries(*final(m))) == contents(entries(*old(m))).insert(k@, v),
        previous == if contents(entries(*old(m))).contains_key(k@) {
            Some(contents(entries(*old(m)))[k@])
        } else {
            None
        },
;

/// `serde_json::Value::Object`: the object that holds the map `m`.
#[verifier::external_body]
pub(crate) fn object_value(m: serde_json::Map<String, serde_json::Value>) -> (v: serde_json::Value)
    ensures
        shape(v) == JsonShape::Object(m),
{
    serde_json::Value::Object(m)
}

/// `serde_json::Value::String`: the string that holds the text `s`.
#[verifier::external_body]
pub(crate) fn string_value(s: String) -> (v: serde_json::Value)
    ensures
        shape(v) == JsonShape::String(s@),
{
    serde_json::Value::String(s)
}

/// `serde_json::Map::iter`, its first item: the pair that the map hands out
/// first, `None` for a map without entries.
#[verifier::external_body]
pub(crate) fn first_entry(m: &serde_json::Map<String, serde_json::Value>) -> (r: Option<
    (String, serde_json::Value),
>)
    ensures
        match r {
            Some(pair) => entries(*m).len() > 0 && (pair.0@, pair.1) == entries(*m)[0],
            None => entries(*m).len() == 0,
        },
{
    m.iter().next().map(|(k, v)| (k.clone(), v.clone()))
}

/// `serde_json::Map::iter`, all its items: the pairs of the map in the order
/// in which it hands them out.
#[verifier::external_body]
pub(crate) fn all_entries(m: &serde_json::Map<String, serde_json::Value>) -> (r: Vec<
    (String, serde_json::Value),
>)
    ensures
        pair_views(r@) == entries(*m),
{
    m.iter().map(|(k, v)| (k.clone(), v.clone())).collect()
}

} // verus!
