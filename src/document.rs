use std::collections::BTreeMap;
use vstd::prelude::*;

verus! {

/// A JSON object whose members are objects of string members: each name with
/// its list of `(field, value)` pairs.
pub type Document = Vec<(String, Vec<(String, String)>)>;

pub type DocumentView = Seq<(Seq<char>, Seq<(Seq<char>, Seq<char>)>)>;

/// The pretty-printed JSON text of a document.
pub uninterp spec fn pretty_json(doc: DocumentView) -> Seq<char>;

/// The document that a JSON text holds, if it is an object of objects of strings.
pub uninterp spec fn parsed_json(text: Seq<char>) -> Option<DocumentView>;

/// Relies on serde_json::to_string_pretty, applied to the document as a
/// `BTreeMap` of `BTreeMap`s of strings. serde_json fails only on non-string
/// keys or a failing `Serialize` impl, neither of which occurs here.
#[verifier::external_body]
pub(crate) fn render_document(doc: &Document) -> (r: String)
    ensures
        r@ == pretty_json(doc.deep_view()),
{
    let m: BTreeMap<&String, BTreeMap<&String, &String>> = doc.iter().map(
        |(k, fs)| (k, fs.iter().map(|(f, v)| (f, v)).collect()),
    ).collect();
    serde_json::to_string_pretty(&m).unwrap_or_default()
}

/// Relies on serde_json::from_str into a `BTreeMap` of `BTreeMap`s of strings:
/// it succeeds exactly when the text is a JSON object whose members are
/// objects of string members.
#[verifier::external_body]
pub(crate) fn parse_document(text: &str) -> (r: Option<Document>)
    ensures
        r is Some <==> parsed_json(text@) is Some,
        r matches Some(d) ==> d.deep_view() == parsed_json(text@)->0,
{
    let m: BTreeMap<String, BTreeMap<String, String>> = serde_json::from_str(text).ok()?;
    Some(m.into_iter().map(|(k, fs)| (k, fs.into_iter().collect())).collect())
}

} // verus!
