use vstd::prelude::*;

verus! {

/// A member value of a JSON object, as far as telemetry records need it.
#[derive(Debug, Clone, PartialEq, Eq)]
pub enum JsonLeaf {
    /// A number, in the decimal form in which serde_json prints it.
    Number(String),
    /// A string, unescaped.
    Text(String),
    /// Anything else: null, a boolean, an array or an object.
    Other,
}

/// The members of the JSON object that a text holds, in serde_json's map
/// order, or `None` when the text is not a JSON object.
pub uninterp spec fn json_object_of(text: Seq<char>) -> Option<Seq<(String, JsonLeaf)>>;

/// The source text of each element of the JSON array that a text holds, or
/// `None` when the text is not a JSON array.
pub uninterp spec fn json_array_items_of(text: Seq<char>) -> Option<Seq<Seq<char>>>;

/// The JSON string literal, quotes and escapes included, that stands for a
/// text.
pub uninterp spec fn json_quoted(s: Seq<char>) -> Seq<char>;

/// Relies on `serde_json::from_str` into a `serde_json::Map`, whose members
/// are then listed with numbers printed by `serde_json::Number`'s `Display`.
#[verifier::external_body]
pub(crate) fn parse_object(text: &str) -> (r: Option<Vec<(String, JsonLeaf)>>)
    ensures
        match r {
            Some(v) => json_object_of(text@) == Some(v@),
            None => json_object_of(text@) is None,
        },
{
    let m: serde_json::Map<String, serde_json::Value> = serde_json::from_str(text).ok()?;
    let mut out = Vec::new();
    for (k, v) in m {
        out.push((k, match v {
            serde_json::Value::Number(n) => JsonLeaf::Number(n.to_string()),
            serde_json::Value::String(s) => JsonLeaf::Text(s),
            _ => JsonLeaf::Other,
        }));
    }
    Some(out)
}

/// Relies on `serde_json::from_str` into a `Vec` of
/// `serde_json::value::RawValue`: the source text of each array element.
#[verifier::external_body]
pub(crate) fn parse_array_items(text: &str) -> (r: Option<Vec<String>>)
    ensures
        match r {
            Some(v) => json_array_items_of(text@) == Some(v@.map_values(|s: String| s@)),
            None => json_array_items_of(text@) is None,
        },
{
    let items: Vec<Box<serde_json::value::RawValue>> = serde_json::from_str(text).ok()?;
    Some(items.into_iter().map(|item| item.get().to_string()).collect())
}

/// Relies on `serde_json::to_string` of a `str`: its JSON string literal.
#[verifier::external_body]
pub(crate) fn quote(s: &str) -> (r: String)
    ensures
        r@ == json_quoted(s@),
{
    serde_json::to_string(s).unwrap_or_default()
}

/// The value of the last member of an object named `key`.
pub open spec fn last_field(fields: Seq<(String, JsonLeaf)>, key: Seq<char>) -> Option<JsonLeaf>
    decreases fields.len(),
{
    if fields.len() == 0 {
        None
    } else if fields.last().0@ == key {
        Some(fields.last().1)
    } else {
        last_field(fields.drop_last(), key)
    }
}

/// The last value of each of four members, distinct by name, of an object.
pub fn pick_fields(fields: Vec<(String, JsonLeaf)>, k1: &str, k2: &str, k3: &str, k4: &str) -> (r: (
    Option<JsonLeaf>,
    Option<JsonLeaf>,
    Option<JsonLeaf>,
    Option<JsonLeaf>,
))
    requires
        k1@ != k2@ && k1@ != k3@ && k1@ != k4@,
        k2@ != k3@ && k2@ != k4@ && k3@ != k4@,
    ensures
        r.0 == last_field(fields@, k1@),
        r.1 == last_field(fields@, k2@),
        r.2 == last_field(fields@, k3@),
        r.3 == last_field(fields@, k4@),
{
    let ghost all = fields@;
    let s1 = k1.to_owned();
    let s2 = k2.to_owned();
    let s3 = k3.to_owned();
    let s4 = k4.to_owned();
    let mut rest = fields;
    let mut v1: Option<JsonLeaf> = None;
    let mut v2: Option<JsonLeaf> = None;
    let mut v3: Option<JsonLeaf> = None;
    let mut v4: Option<JsonLeaf> = None;
    while rest.len() > 0
        invariant
            s1@ == k1@ && s2@ == k2@ && s3@ == k3@ && s4@ == k4@,
            k1@ != k2@ && k1@ != k3@ && k1@ != k4@,
            k2@ != k3@ && k2@ != k4@ && k3@ != k4@,
            last_field(all, k1@) == (if v1 is Some { v1 } else { last_field(rest@, k1@) }),
            last_field(all, k2@) == (if v2 is Some { v2 } else { last_field(rest@, k2@) }),
            last_field(all, k3@) == (if v3 is Some { v3 } else { last_field(rest@, k3@) }),
            last_field(all, k4@) == (if v4 is Some { v4 } else { last_field(rest@, k4@) }),
        decreases rest.len(),
    {
        let ghost before = rest@;
        let (k, v) = rest.pop().unwrap();
        assert(before.drop_last() == rest@);
        if k == s1 {
            if v1.is_none() {
                v1 = Some(v);
            }
        } else if k == s2 {
            if v2.is_none() {
                v2 = Some(v);
            }
        } else if k == s3 {
            if v3.is_none() {
                v3 = Some(v);
            }
        } else if k == s4 {
            if v4.is_none() {
                v4 = Some(v);
            }
        }
    }
    (v1, v2, v3, v4)
}

} // verus!
