//! Trusted boundary to the engine-side JSON representation (serde_json) and
//! the path-query engine (serde_json_path): the outside types declared opaque,
//! names for what they hold, and wrappers whose contracts Verus believes.
//!
//! Everything verified about parsing, rendering and querying rests on the
//! contracts in this file.

use vstd::prelude::*;

use crate::json::{sorted_insert, spec_finite, JsonModel};

verus! {

#[verifier::external_type_specification]
#[verifier::external_body]
pub struct ExSerdeValue(serde_json::Value);

#[verifier::external_type_specification]
#[verifier::external_body]
pub struct ExSerdeError(serde_json::Error);

#[verifier::external_type_specification]
#[verifier::external_body]
#[verifier::reject_recursive_types(K)]
#[verifier::reject_recursive_types(V)]
pub struct ExSerdeMap<K, V>(serde_json::Map<K, V>);

#[verifier::external_type_specification]
#[verifier::external_body]
pub struct ExJsonPath(serde_json_path::JsonPath);

#[verifier::external_type_specification]
#[verifier::external_body]
pub struct ExJsonPathParseError(serde_json_path::ParseError);

/// The JSON value an engine-side node holds.
pub uninterp spec fn sj_model(v: serde_json::Value) -> JsonModel;

/// The entries an engine-side object map holds, in its iteration order:
/// ascending by key.
pub uninterp spec fn map_model(m: serde_json::Map<String, serde_json::Value>) -> Seq<
    (Seq<char>, JsonModel),
>;

/// What parsing this text as JSON returns: the document, or nothing when the
/// text is rejected.
pub uninterp spec fn parse_model(text: Seq<char>) -> Option<JsonModel>;

/// The text the engine-side serializer prints for a value with this model.
pub uninterp spec fn render_model(doc: JsonModel) -> Seq<char>;

/// Whether this text is a well-formed path query.
pub uninterp spec fn query_compiles(text: Seq<char>) -> bool;

/// The query text a compiled path query was built from.
pub uninterp spec fn compiled_query(p: serde_json_path::JsonPath) -> Seq<char>;

/// The nodes, by value and in order, that evaluating the query compiled from
/// `query` against `doc` yields.
pub uninterp spec fn eval_query(query: Seq<char>, doc: JsonModel) -> Seq<JsonModel>;

/// The bit pattern of the 64-bit IEEE float nearest to the integer `i`.
pub uninterp spec fn float_bits_of_int(i: int) -> u64;

/// The kind of an engine-side JSON node.
#[derive(Clone, Copy, Debug)]
pub enum JsonKind {
    Null,
    Bool,
    Num,
    Str,
    Arr,
    Obj,
}

/// Relies on serde_json::Value::Null: the constructor of the null node.
#[verifier::external_body]
pub(crate) fn sj_null() -> (r: serde_json::Value)
    ensures
        sj_model(r) == JsonModel::Null,
{
    serde_json::Value::Null
}

/// Relies on serde_json::Value::Bool: the constructor of a boolean node.
#[verifier::external_body]
pub(crate) fn sj_bool(b: bool) -> (r: serde_json::Value)
    ensures
        sj_model(r) == JsonModel::Bool(b),
{
    serde_json::Value::Bool(b)
}

/// Relies on serde_json::Number::from(i64): an exact integer-valued number.
#[verifier::external_body]
pub(crate) fn sj_int(i: i64) -> (r: serde_json::Value)
    ensures
        sj_model(r) == JsonModel::Int(i as int),
{
    serde_json::Value::Number(serde_json::Number::from(i))
}

/// Relies on serde_json::Number::from(u64): an exact integer-valued number.
#[verifier::external_body]
pub(crate) fn sj_uint(u: u64) -> (r: serde_json::Value)
    ensures
        sj_model(r) == JsonModel::Int(u as int),
{
    serde_json::Value::Number(serde_json::Number::from(u))
}

/// Relies on serde_json::Number::from_f64, which accepts every finite float
/// and stores it unchanged, and on bytemuck::cast reinterpreting the bits.
#[verifier::external_body]
pub(crate) fn sj_float(bits: u64) -> (r: serde_json::Value)
    requires
        spec_finite(bits),
    ensures
        sj_model(r) == JsonModel::Float(bits),
{
    let n = serde_json::Number::from_f64(bytemuck::cast(bits)).unwrap();
    serde_json::Value::Number(n)
}

/// Relies on serde_json::Value::String: the constructor of a string node.
#[verifier::external_body]
pub(crate) fn sj_str(s: &str) -> (r: serde_json::Value)
    ensures
        sj_model(r) == JsonModel::Str(s@),
{
    serde_json::Value::String(s.to_owned())
}

/// Relies on serde_json::Value::Array: the constructor of an array node,
/// keeping the elements in order.
#[verifier::external_body]
pub(crate) fn sj_arr(items: Vec<serde_json::Value>) -> (r: serde_json::Value)
    ensures
        sj_model(r) == JsonModel::Arr(Seq::new(items@.len(), |i: int| sj_model(items@[i]))),
{
    serde_json::Value::Array(items)
}

/// Relies on serde_json::Map::new: the empty object map.
#[verifier::external_body]
pub(crate) fn sjmap_new() -> (r: serde_json::Map<String, serde_json::Value>)
    ensures
        map_model(r) == Seq::<(Seq<char>, JsonModel)>::empty(),
{
    serde_json::Map::new()
}

/// Relies on serde_json::Map::insert on the ordered (B-tree) map: the entry
/// lands at its key-ordered position, replacing an entry with an equal key.
#[verifier::external_body]
pub(crate) fn sjmap_insert(
    m: &mut serde_json::Map<String, serde_json::Value>,
    k: String,
    v: serde_json::Value,
)
    ensures
        map_model(*final (m)) == sorted_insert(map_model(*old(m)), (k@, sj_model(v))),
{
    m.insert(k, v);
}

/// Relies on serde_json::Value::Object: the constructor of an object node
/// holding exactly the map's entries.
#[verifier::external_body]
pub(crate) fn sj_obj(m: serde_json::Map<String, serde_json::Value>) -> (r: serde_json::Value)
    ensures
        sj_model(r) == JsonModel::Obj(map_model(m)),
{
    serde_json::Value::Object(m)
}

/// Relies on the serde_json::Value variants being exactly Null, Bool, Number,
/// String, Array and Object.
#[verifier::external_body]
pub(crate) fn sj_kind(v: &serde_json::Value) -> (r: JsonKind)
    ensures
        (r is Null <==> sj_model(*v) is Null),
        (r is Bool <==> sj_model(*v) is Bool),
        (r is Num <==> (sj_model(*v) is Int || sj_model(*v) is Float)),
        (r is Str <==> sj_model(*v) is Str),
        (r is Arr <==> sj_model(*v) is Arr),
        (r is Obj <==> sj_model(*v) is Obj),
{
    match v {
        serde_json::Value::Null => JsonKind::Null,
        serde_json::Value::Bool(_) => JsonKind::Bool,
        serde_json::Value::Number(_) => JsonKind::Num,
        serde_json::Value::String(_) => JsonKind::Str,
        serde_json::Value::Array(_) => JsonKind::Arr,
        serde_json::Value::Object(_) => JsonKind::Obj,
    }
}

/// Relies on serde_json::Value::as_bool.
#[verifier::external_body]
pub(crate) fn sj_as_bool(v: &serde_json::Value) -> (r: bool)
    requires
        sj_model(*v) is Bool,
    ensures
        sj_model(*v) == JsonModel::Bool(r),
{
    v.as_bool().unwrap()
}

/// Relies on serde_json::Value::as_str.
#[verifier::external_body]
pub(crate) fn sj_as_str(v: &serde_json::Value) -> (r: String)
    requires
        sj_model(*v) is Str,
    ensures
        sj_model(*v) == JsonModel::Str(r@),
{
    v.as_str().unwrap().to_owned()
}

/// Relies on serde_json::Number::as_i64: the integer when the number is
/// integer-valued and fits 64 signed bits, and nothing otherwise.
#[verifier::external_body]
pub(crate) fn sj_num_i64(v: &serde_json::Value) -> (r: Option<i64>)
    requires
        sj_model(*v) is Int || sj_model(*v) is Float,
    ensures
        match sj_model(*v) {
            JsonModel::Int(i) => {
                if i64::MIN <= i <= i64::MAX {
                    r == Some(i as i64)
                } else {
                    r is None
                }
            },
            JsonModel::Float(_) => r is None,
            _ => true,
        },
{
    v.as_i64()
}

/// Relies on serde_json::Number::as_f64, which returns a real-valued number's
/// float unchanged and an integer-valued one rounded to the nearest float,
/// and on bytemuck::cast reinterpreting the bits.
#[verifier::external_body]
pub(crate) fn sj_num_bits(v: &serde_json::Value) -> (r: u64)
    requires
        sj_model(*v) is Int || sj_model(*v) is Float,
    ensures
        match sj_model(*v) {
            JsonModel::Float(bits) => r == bits,
            JsonModel::Int(i) => r == float_bits_of_int(i),
            _ => true,
        },
{
    let x = v.as_f64().unwrap();
    bytemuck::cast(x)
}

/// Relies on serde_json::Value::as_array.
#[verifier::external_body]
pub(crate) fn sj_arr_len(v: &serde_json::Value) -> (r: usize)
    requires
        sj_model(*v) is Arr,
    ensures
        sj_model(*v)->Arr_0.len() == r as int,
{
    v.as_array().unwrap().len()
}

/// Relies on serde_json::Value::as_array and slice indexing.
#[verifier::external_body]
pub(crate) fn sj_arr_get<'a>(v: &'a serde_json::Value, i: usize) -> (r: &'a serde_json::Value)
    requires
        sj_model(*v) is Arr,
        i < sj_model(*v)->Arr_0.len(),
    ensures
        sj_model(*r) == sj_model(*v)->Arr_0[i as int],
{
    &v.as_array().unwrap()[i]
}

/// Relies on serde_json::Value::as_object.
#[verifier::external_body]
pub(crate) fn sj_obj_len(v: &serde_json::Value) -> (r: usize)
    requires
        sj_model(*v) is Obj,
    ensures
        sj_model(*v)->Obj_0.len() == r as int,
{
    v.as_object().unwrap().len()
}

/// Relies on serde_json::Map::iter visiting the entries in the map's order.
#[verifier::external_body]
pub(crate) fn sj_obj_entry<'a>(v: &'a serde_json::Value, i: usize) -> (r: (
    String,
    &'a serde_json::Value,
))
    requires
        sj_model(*v) is Obj,
        i < sj_model(*v)->Obj_0.len(),
    ensures
        r.0@ == sj_model(*v)->Obj_0[i as int].0,
        sj_model(*r.1) == sj_model(*v)->Obj_0[i as int].1,
{
    let (k, val) = v.as_object().unwrap().iter().nth(i).unwrap();
    (k.clone(), val)
}

/// Relies on serde_json::from_str, which parses deterministically: the same
/// text is always accepted with the same document or always rejected.
#[verifier::external_body]
pub(crate) fn parse_json(s: &str) -> (r: Result<serde_json::Value, serde_json::Error>)
    ensures
        r matches Ok(v) ==> parse_model(s@) == Some(sj_model(v)),
        r is Err ==> parse_model(s@) is None,
{
    serde_json::from_str(s)
}

/// Relies on serde_json::to_string, which prints deterministically, never
/// fails on a Value, and prints text that parses back to an equal value
/// whenever the parser accepts it.
#[verifier::external_body]
pub(crate) fn render_json(v: &serde_json::Value) -> (s: String)
    ensures
        s@ == render_model(sj_model(*v)),
        parse_model(s@) matches Some(j) ==> j == sj_model(*v),
{
    serde_json::to_string(v).unwrap()
}

/// Relies on serde_json::Error's Display rendering; nothing is claimed of the
/// text.
#[verifier::external_body]
pub(crate) fn json_err_string(e: &serde_json::Error) -> String {
    format!("{e}")
}

/// Relies on serde_json_path::JsonPath::parse, which parses deterministically:
/// the same text is always accepted or always rejected.
#[verifier::external_body]
pub(crate) fn jsonpath_parse(q: &str) -> (r: Result<
    serde_json_path::JsonPath,
    serde_json_path::ParseError,
>)
    ensures
        r matches Ok(p) ==> query_compiles(q@) && compiled_query(p) == q@,
        r is Err ==> !query_compiles(q@),
{
    serde_json_path::JsonPath::parse(q)
}

/// Relies on serde_json_path::ParseError's Display rendering; nothing is
/// claimed of the text.
#[verifier::external_body]
pub(crate) fn jsonpath_err_string(e: &serde_json_path::ParseError) -> String {
    format!("{e}")
}

/// Relies on serde_json_path::JsonPath::query and NodeList::all: evaluation
/// is a deterministic function of the query text and the document value, and
/// yields the result nodes in order.
#[verifier::external_body]
pub(crate) fn jsonpath_query<'a>(
    p: &serde_json_path::JsonPath,
    doc: &'a serde_json::Value,
) -> (r: Vec<&'a serde_json::Value>)
    ensures
        r@.len() == eval_query(compiled_query(*p), sj_model(*doc)).len(),
        forall|i: int|
            0 <= i < r@.len() ==> sj_model(*r@[i]) == eval_query(
                compiled_query(*p),
                sj_model(*doc),
            )[i],
{
    p.query(doc).all()
}

} // verus!
