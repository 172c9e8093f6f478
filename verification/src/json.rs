use vstd::prelude::*;

verus! {

/// What the composite serde_json lookup below returns for given bytes and
/// field name: `Err` when the bytes are not one valid JSON document,
/// `Ok(None)` when the document carries no string under that top-level key,
/// and `Ok(Some(text))` otherwise.
pub uninterp spec fn json_text_field(body: Seq<u8>, field: Seq<char>) -> Result<
    Option<Seq<char>>,
    (),
>;

/// Relies on `serde_json::from_slice::<Value>`, `Value::get` and
/// `Value::as_str`: parses the body as one JSON document and hands back the
/// string value of the named top-level field. The result depends on the bytes
/// and the field name alone, which `json_text_field` names.
#[verifier::external_body]
pub fn json_get_text_field(body: &[u8], field: &str) -> (r: Result<Option<String>, ()>)
    ensures
        match r {
            Ok(Some(s)) => json_text_field(body@, field@) == Ok::<Option<Seq<char>>, ()>(
                Some(s@),
            ),
            Ok(None) => json_text_field(body@, field@) == Ok::<Option<Seq<char>>, ()>(None),
            Err(_) => json_text_field(body@, field@) is Err,
        },
{
    match serde_json::from_slice::<serde_json::Value>(body) {
        Ok(v) => Ok(v.get(field).and_then(|m| m.as_str()).map(|s| s.to_owned())),
        Err(_) => Err(()),
    }
}

} // verus!
