//! A structural model of the child's primary-stream output.
//!
//! The accumulated primary-stream text is handed to serde_json once, and the
//! parsed document comes back as a [`JsonTree`]: an ordinary datatype the
//! rest of the crate reads with verified code.  Numbers are kept as their
//! decimal text, so no caller ever depends on a float.

use vstd::prelude::*;

verus! {

/// A parsed JSON document.  Object entries carry unique keys (the parser
/// collapses duplicates); numbers are carried as decimal text.
pub enum JsonTree {
    Null,
    Bool(bool),
    Num(String),
    Str(String),
    Arr(Vec<JsonTree>),
    Obj(Vec<(String, JsonTree)>),
}

#[verifier::external_type_specification]
#[verifier::external_body]
pub struct ExValue(serde_json::Value);

/// The document a primary-stream text parses to, or `None` when the text is
/// not JSON.  Parsing is a function of the text alone.
pub uninterp spec fn json_doc_of(s: Seq<char>) -> Option<JsonTree>;

/// Relies on the variants of serde_json::Value: each is moved, one for one,
/// into the matching [`JsonTree`] variant, with serde_json::Number's decimal
/// text standing in for the number.
#[verifier::external_body]
fn tree_of_value(v: &serde_json::Value) -> JsonTree {
    match v {
        serde_json::Value::Null => JsonTree::Null,
        serde_json::Value::Bool(b) => JsonTree::Bool(*b),
        serde_json::Value::Number(n) => JsonTree::Num(n.to_string()),
        serde_json::Value::String(s) => JsonTree::Str(s.clone()),
        serde_json::Value::Array(a) => JsonTree::Arr(a.iter().map(tree_of_value).collect()),
        serde_json::Value::Object(m) => JsonTree::Obj(
            m.iter().map(|(k, x)| (k.clone(), tree_of_value(x))).collect(),
        ),
    }
}

/// Relies on serde_json::from_str::<serde_json::Value>: a deterministic
/// parse of the whole text as one JSON document, `Err` exactly when the text
/// is not JSON.  The converted document is named `json_doc_of`.
#[verifier::external_body]
pub(crate) fn parse_json_tree(s: &str) -> (r: Option<JsonTree>)
    ensures
        r == json_doc_of(s@),
{
    match serde_json::from_str::<serde_json::Value>(s) {
        Ok(v) => Some(tree_of_value(&v)),
        Err(_) => None,
    }
}

} // verus!
