//! The JSON Lines output of a lookup: one object per identifier, with the
//! identifier as a decimal string, the tract as a string or `null`, and the
//! vintage as a number, serialised by `serde_json`.

use vstd::prelude::*;
use crate::asset::opt_str;
use crate::prepare::opt_chars;
use crate::text::{decimal, decimal_string};

verus! {

/// What `serde_json::to_string` writes for the object with `s2_cell_id`
/// (the string `id`), `tract` (a string, or `null` when absent) and
/// `vintage` (a number). It depends on these values alone.
pub uninterp spec fn json_line(id: Seq<char>, vintage: u16, tract: Option<Seq<char>>) -> Seq<char>;

/// Builds a `serde_json::Map` with the three fields and calls
/// `serde_json::to_string` on the object. Serialising a `Value` whose keys
/// are strings does not fail; the empty fallback is never taken.
#[verifier::external_body]
fn serialize_line(id: &str, vintage: u16, tract: Option<&str>) -> (line: String)
    ensures
        line@ == json_line(id@, vintage, opt_chars(tract)),
{
    let mut object = serde_json::Map::new();
    object.insert("s2_cell_id".to_string(), serde_json::Value::String(id.to_string()));
    object.insert("vintage".to_string(), serde_json::Value::from(vintage));
    let tract = match tract {
        Some(t) => serde_json::Value::String(t.to_string()),
        None => serde_json::Value::Null,
    };
    object.insert("tract".to_string(), tract);
    serde_json::to_string(&serde_json::Value::Object(object)).unwrap_or_default()
}

/// The output line of one identifier: the identifier written in decimal
/// (so it reads back as the same number), the vintage, and the tract or
/// `null`.
pub fn output_line(id: u64, vintage: u16, tract: &Option<String>) -> (line: String)
    ensures
        line@ == json_line(decimal(id as nat), vintage, opt_str(*tract)),
{
    let digits = decimal_string(id);
    let t = match tract {
        Some(t) => Some(t.as_str()),
        None => None,
    };
    serialize_line(digits.as_str(), vintage, t)
}

} // verus!
