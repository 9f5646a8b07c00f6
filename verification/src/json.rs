//! The decode step: from the document text to the pipeline's own tree.
//!
//! The raw document is JSON. Decoding it is the one piece of parsing this
//! crate does not do itself; the decoder's result, carried over into the
//! pipeline's `Node` tree, is named `json_doc_of` and everything after
//! the decode is specified against that name.

use vstd::prelude::*;

use crate::doc::Node;
use crate::Error;

verus! {

#[verifier::external_type_specification]
#[verifier::external_body]
pub struct ExJson(rustc_serialize::json::Json);

/// The tree a document text decodes to: a function of the text alone,
/// and nothing when the text is not well-formed JSON.
pub uninterp spec fn json_doc_of(s: Seq<char>) -> Option<Node>;

/// Relies on rustc_serialize's `json::Json` variants: each decoded value
/// is carried over one-to-one — strings as `Text`, arrays as `List`,
/// objects as `Object` field lists, everything else as `Other`.
#[verifier::external_body]
fn json_to_node(j: &rustc_serialize::json::Json) -> Node {
    match j {
        rustc_serialize::json::Json::String(s) => Node::Text(s.clone()),
        rustc_serialize::json::Json::Array(a) => Node::List(
            a.iter().map(json_to_node).collect(),
        ),
        rustc_serialize::json::Json::Object(o) => Node::Object(
            o.iter().map(|(k, v)| (k.clone(), json_to_node(v))).collect(),
        ),
        rustc_serialize::json::Json::I64(_) => Node::Other,
        rustc_serialize::json::Json::U64(_) => Node::Other,
        rustc_serialize::json::Json::F64(_) => Node::Other,
        rustc_serialize::json::Json::Boolean(_) => Node::Other,
        rustc_serialize::json::Json::Null => Node::Other,
    }
}

/// Relies on rustc_serialize's `json::Json::from_str`: decoding a text is
/// deterministic, so the tree it yields — carried over by `json_to_node`
/// — is the function of the text named `json_doc_of`; a text that is not
/// well-formed JSON yields an error instead.
#[verifier::external_body]
pub(crate) fn decode_document(text: &str) -> (r: Result<Node, Error>)
    ensures
        match r {
            Ok(n) => json_doc_of(text@) == Some(n),
            Err(e) => e == Error::FormatError && json_doc_of(text@) is None,
        },
{
    match rustc_serialize::json::Json::from_str(text) {
        Ok(j) => Ok(json_to_node(&j)),
        Err(_) => Err(Error::FormatError),
    }
}

} // verus!
