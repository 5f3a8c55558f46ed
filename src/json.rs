use vstd::prelude::*;

use serde_json::Value;

verus! {

/// A value of a JSON object's entry, kept only as deep as the options need.
pub enum JsonScalar {
    Null,
    Bool(bool),
    /// A number that is a non-negative integer.
    UInt(u64),
    Str(String),
    /// Any other number, an array or an object.
    Other,
}

/// The mathematical model of [`JsonScalar`].
pub enum ScalarView {
    Null,
    Bool(bool),
    UInt(u64),
    Str(Seq<char>),
    Other,
}

pub open spec fn scalar_view(s: JsonScalar) -> ScalarView {
    match s {
        JsonScalar::Null => ScalarView::Null,
        JsonScalar::Bool(b) => ScalarView::Bool(b),
        JsonScalar::UInt(u) => ScalarView::UInt(u),
        JsonScalar::Str(t) => ScalarView::Str(t@),
        JsonScalar::Other => ScalarView::Other,
    }
}

pub open spec fn entries_view(v: Seq<(String, JsonScalar)>) -> Seq<(Seq<char>, ScalarView)> {
    v.map_values(|e: (String, JsonScalar)| (e.0@, scalar_view(e.1)))
}

/// The entries of the JSON object that `text` holds, or `None` when `text`
/// is not JSON or holds something other than an object.
pub uninterp spec fn json_object_entries(text: Seq<char>) -> Option<Seq<(Seq<char>, ScalarView)>>;

pub open spec fn opt_entries_view(r: Option<Vec<(String, JsonScalar)>>) -> Option<
    Seq<(Seq<char>, ScalarView)>,
> {
    match r {
        Some(v) => Some(entries_view(v@)),
        None => None,
    }
}

/// Relies on serde_json::from_str::<serde_json::Value> to parse `text`, and
/// on serde_json::Number::as_u64 to read a number as a non-negative integer.
#[verifier::external_body]
pub(crate) fn parse_json_object(text: &str) -> (r: Option<Vec<(String, JsonScalar)>>)
    ensures
        opt_entries_view(r) == json_object_entries(text@),
{
    let Ok(Value::Object(m)) = serde_json::from_str::<Value>(text) else { return None };
    let mut out = Vec::new();
    for (k, v) in m {
        out.push((k, match v {
            Value::Null => JsonScalar::Null,
            Value::Bool(b) => JsonScalar::Bool(b),
            Value::Number(n) => n.as_u64().map_or(JsonScalar::Other, JsonScalar::UInt),
            Value::String(s) => JsonScalar::Str(s),
            _ => JsonScalar::Other,
        }));
    }
    Some(out)
}

} // verus!
