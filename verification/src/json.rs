//! The JSON shape the pipeline reads, as a tree of plain values.
//!
//! Both the evaluator's output and the derivation metadata the build tool
//! prints are (possibly nested) JSON objects whose interesting leaves are
//! strings — attribute paths mapping to store paths, derivation names,
//! input-derivation keys. [`JsonTree`] keeps exactly that: objects and
//! string leaves, with every other JSON value collapsed into [`Other`].
//! Decoding the JSON text is delegated to serde_json behind a trusted
//! boundary; all reading of the decoded tree is verified logic.
//!
//! [`Other`]: JsonTree::Other

use vstd::prelude::*;

verus! {

/// One decoded JSON value, restricted to what the pipeline reads.
pub enum JsonTree {
    /// A JSON string.
    Leaf(String),
    /// A JSON number, boolean, null or array: present in the document but
    /// of no interest to the pipeline.
    Other,
    /// A JSON object, entries in the order the decoder yields them.
    Obj(Vec<JsonEntry>),
}

/// One key/value entry of a JSON object.
pub struct JsonEntry {
    pub key: String,
    pub value: JsonTree,
}

/// Names what serde_json's parser yields for a given text, converted into a
/// [`JsonTree`]: `None` when the text is not valid JSON. The JSON grammar
/// is serde_json's affair; the pipeline only depends on the result being a
/// function of the text alone.
pub uninterp spec fn parsed_json_of(s: Seq<char>) -> Option<JsonTree>;

#[verifier::external_type_specification]
#[verifier::external_body]
pub struct ExValue(serde_json::Value);

/// Relies on serde_json's `Value`: each variant is mapped to its
/// [`JsonTree`] counterpart, object entries in the order `Map` iteration
/// yields them and every non-object, non-string value collapsed to
/// [`JsonTree::Other`].
#[verifier::external_body]
fn value_to_tree(v: &serde_json::Value) -> JsonTree {
    match v {
        serde_json::Value::String(s) => JsonTree::Leaf(s.clone()),
        serde_json::Value::Object(map) => {
            let mut entries = Vec::new();
            for (key, value) in map {
                entries.push(JsonEntry { key: key.clone(), value: value_to_tree(value) });
            }
            JsonTree::Obj(entries)
        },
        _ => JsonTree::Other,
    }
}

/// Relies on serde_json's `from_str`: parses a JSON document, `None` on
/// invalid JSON. The same text always decodes to the same tree, which is
/// all [`parsed_json_of`] states.
#[verifier::external_body]
pub(crate) fn parse_json_tree(s: &str) -> (r: Option<JsonTree>)
    ensures
        r == parsed_json_of(s@),
{
    let v: serde_json::Value = serde_json::from_str(s).ok()?;
    Some(value_to_tree(&v))
}

} // verus!
