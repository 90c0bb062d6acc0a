use vstd::prelude::*;
use crate::text::names_view;

verus! {

// What serde_json computes is a function of the input text (and key) alone,
// so each extraction below is given a name that contracts can speak of.

pub uninterp spec fn json_str_field(text: Seq<char>, key: Seq<char>) -> Option<Seq<char>>;

pub uninterp spec fn json_i64_field(text: Seq<char>, key: Seq<char>) -> Option<i64>;

pub uninterp spec fn json_u32_field(text: Seq<char>, key: Seq<char>) -> Option<u32>;

pub uninterp spec fn json_bool_field(text: Seq<char>, key: Seq<char>) -> Option<bool>;

pub uninterp spec fn json_string_list_field(text: Seq<char>, key: Seq<char>) -> Option<
    Seq<Seq<char>>,
>;

pub uninterp spec fn json_list_text(key: Seq<char>, items: Seq<Seq<char>>) -> Seq<char>;

/// Relies on serde_json::from_str and Value::get/as_str: the string at `key`
/// of the top-level object, or None when the text does not parse, is not an
/// object, lacks the key, or holds a non-string there.
#[verifier::external_body]
pub(crate) fn json_get_string(text: &str, key: &str) -> (r: Option<String>)
    ensures
        r matches Some(s) ==> json_str_field(text@, key@) == Some(s@),
        r is None ==> json_str_field(text@, key@) is None,
{
    match serde_json::from_str::<serde_json::Value>(text) {
        Ok(v) => v.get(key).and_then(|x| x.as_str()).map(|s| s.to_string()),
        Err(_) => None,
    }
}

/// Relies on serde_json::from_str and Value::get/as_i64: the integer at `key`
/// of the top-level object, or None.
#[verifier::external_body]
pub(crate) fn json_get_i64(text: &str, key: &str) -> (r: Option<i64>)
    ensures
        r == json_i64_field(text@, key@),
{
    match serde_json::from_str::<serde_json::Value>(text) {
        Ok(v) => v.get(key).and_then(|x| x.as_i64()),
        Err(_) => None,
    }
}

/// Relies on serde_json::from_str and Value::get/as_u64: the integer at `key`
/// of the top-level object when it fits in u32, or None.
#[verifier::external_body]
pub(crate) fn json_get_u32(text: &str, key: &str) -> (r: Option<u32>)
    ensures
        r == json_u32_field(text@, key@),
{
    match serde_json::from_str::<serde_json::Value>(text) {
        Ok(v) => v.get(key).and_then(|x| x.as_u64()).and_then(|x| u32::try_from(x).ok()),
        Err(_) => None,
    }
}

/// Relies on serde_json::from_str and Value::get/as_bool: the boolean at `key`
/// of the top-level object, or None.
#[verifier::external_body]
pub(crate) fn json_get_bool(text: &str, key: &str) -> (r: Option<bool>)
    ensures
        r == json_bool_field(text@, key@),
{
    match serde_json::from_str::<serde_json::Value>(text) {
        Ok(v) => v.get(key).and_then(|x| x.as_bool()),
        Err(_) => None,
    }
}

/// Relies on serde_json::from_str and Value::get/as_array/as_str: the array of
/// strings at `key` of the top-level object, or None when anything in that
/// shape is missing or of another type.
#[verifier::external_body]
pub(crate) fn json_get_string_list(text: &str, key: &str) -> (r: Option<Vec<String>>)
    ensures
        r matches Some(v) ==> json_string_list_field(text@, key@) == Some(names_view(v@)),
        r is None ==> json_string_list_field(text@, key@) is None,
{
    let v: serde_json::Value = serde_json::from_str(text).ok()?;
    let arr = v.get(key)?.as_array()?;
    arr.iter().map(|x| x.as_str().map(|s| s.to_string())).collect::<Option<Vec<String>>>()
}

/// Relies on serde_json::to_string_pretty on a one-key object holding an array
/// of the given strings.
#[verifier::external_body]
pub(crate) fn json_render_string_list(key: &str, items: &Vec<String>) -> (r: String)
    ensures
        r@ == json_list_text(key@, names_view(items@)),
{
    let arr = serde_json::Value::Array(
        items.iter().map(|s| serde_json::Value::String(s.clone())).collect(),
    );
    let mut obj = serde_json::Map::new();
    obj.insert(key.to_string(), arr);
    serde_json::to_string_pretty(&serde_json::Value::Object(obj)).unwrap_or_default()
}

} // verus!
