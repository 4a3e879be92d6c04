//! The persisted wire format: a window record travels through the store as
//! a JSON array of integers, written and read by serde_json.

use vstd::prelude::*;

verus! {

/// The JSON text serde_json writes for a list of timestamps. It depends on
/// the numbers alone, so it carries a name rather than a transcription of
/// the serializer.
pub uninterp spec fn json_of(h: Seq<u64>) -> Seq<char>;

/// What serde_json reads a stored text back as: the timestamp list it
/// parses to, or nothing for text it rejects. Parsing is a function of the
/// text alone; like `json_of`, it carries a name rather than a
/// transcription of the parser.
pub uninterp spec fn decoded_of(s: Seq<char>) -> Option<Seq<u64>>;

/// Relies on serde_json::to_string: the JSON text for a `Vec<u64>` is a
/// function of the numbers alone, and serializing a vector of integers
/// cannot fail (only a failing `Serialize` impl or a map with non-string
/// keys can).
#[verifier::external_body]
pub(crate) fn encode_record(h: &Vec<u64>) -> (r: String)
    ensures
        r@ == json_of(h@),
{
    serde_json::to_string(h).unwrap()
}

/// Relies on serde_json::from_str: text that serde_json::to_string wrote
/// for a `Vec<u64>` parses back to exactly those numbers; what any text
/// reads back as depends on the text alone and is named `decoded_of`.
#[verifier::external_body]
pub(crate) fn decode_record(s: &str) -> (r: Option<Vec<u64>>)
    ensures
        forall|h: Seq<u64>| s@ == #[trigger] json_of(h) ==> r is Some && r.unwrap()@ == h,
        r is Some <==> decoded_of(s@) is Some,
        r is Some ==> r.unwrap()@ == decoded_of(s@).unwrap(),
{
    serde_json::from_str::<Vec<u64>>(s).ok()
}

} // verus!
