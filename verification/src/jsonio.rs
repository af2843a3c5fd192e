use vstd::prelude::*;

verus! {

/// Whether a text is well-formed JSON: what serde_json::from_str answers on
/// it. The answer depends on the text alone.
pub uninterp spec fn json_text_wellformed(s: Seq<char>) -> bool;

/// The `labels` member inside element 0 of a discovery output text, when the
/// text is well-formed JSON, its element 0 exists, carries a `labels` member,
/// and that member is an array: each array element as its string content, or
/// `None` for an element that is not a string, in the array's order. `None`
/// when the text or its shape is anything else. The outcome depends on the
/// text alone.
pub uninterp spec fn discovery_labels_of(s: Seq<char>) -> Option<Seq<Option<Seq<char>>>>;

/// Relies on serde_json::from_str: whether the text parses as JSON.
#[verifier::external_body]
pub(crate) fn json_wellformed(s: &str) -> (r: bool)
    ensures
        r == json_text_wellformed(s@),
{
    serde_json::from_str::<serde_json::Value>(s).is_ok()
}

/// Relies on serde_json::from_str, Value::get (with index 0 and with the key
/// `labels`) and Value::as_array to reach the `labels` array, and on
/// Value::as_str to read each of its elements; every step answers `None` for
/// a value of another kind, and a missing step makes the whole result `None`.
#[verifier::external_body]
pub(crate) fn discovery_labels(s: &str) -> (r: Option<Vec<Option<String>>>)
    ensures
        match r {
            Some(elems) => discovery_labels_of(s@) == Some(elems.deep_view()),
            None => discovery_labels_of(s@) is None,
        },
        r is Some ==> json_text_wellformed(s@),
{
    let root: serde_json::Value = serde_json::from_str(s).ok()?;
    let labels = root.get(0)?.get("labels")?.as_array()?;
    Some(labels.iter().map(|v| v.as_str().map(str::to_string)).collect())
}

} // verus!
