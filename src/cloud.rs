use vstd::prelude::*;
use crate::error::OcrError;
use crate::text::{chars_of, string_from_chars};
use crate::extract::opt_text;

verus! {

/// The text of the JSON string at `pointer` in the JSON document `body`, if `body` is JSON
/// and holds a string there.
pub uninterp spec fn json_text_at(body: Seq<char>, pointer: Seq<char>) -> Option<Seq<char>>;

/// The standard, padded base64 text of some bytes.
pub uninterp spec fn base64_of(bytes: Seq<u8>) -> Seq<char>;

/// Length of the padded base64 text of `n` bytes.
pub open spec fn base64_len(n: nat) -> nat {
    4 * ((n + 2) / 3)
}

/// Relies on base64's standard engine `encode`: padded base64, four characters for
/// each started group of three bytes. It panics only when that length overflows.
#[verifier::external_body]
fn encode_base64(bytes: &[u8]) -> (r: String)
    requires
        base64_len(bytes@.len()) <= usize::MAX,
    ensures
        r@ == base64_of(bytes@),
        r@.len() == base64_len(bytes@.len()),
{
    base64::Engine::encode(&base64::engine::general_purpose::STANDARD, bytes)
}

/// Relies on serde_json: `from_str` parses the body into a `Value`, `Value::pointer` looks
/// the pointer up, and `Value::as_str` gives the text of a JSON string. The result
/// depends on the body and the pointer alone.
#[verifier::external_body]
fn json_string_at(body: &str, pointer: &str) -> (r: Option<String>)
    ensures
        opt_text(r) == json_text_at(body@, pointer@),
{
    let v: serde_json::Value = serde_json::from_str(body).ok()?;
    v.pointer(pointer)?.as_str().map(|t| t.to_string())
}

/// Where the request body puts the image, and what follows it.
pub const REQUEST_HEAD: &'static str = "{\"requests\":[{\"image\":{\"content\":\"";

pub const REQUEST_TAIL: &'static str = "\"},\"features\":[{\"type\":\"DOCUMENT_TEXT_DETECTION\"}]}]}";

/// The service's address, to which the key is appended.
pub const VISION_ENDPOINT: &'static str = "https://vision.googleapis.com/v1/images:annotate?key=";

/// Where the recognized text stands in the service's response.
pub const FULL_TEXT_POINTER: &'static str = "/responses/0/fullTextAnnotation/text";

/// The JSON body that asks the service for document text detection on an image, given
/// as base64 text.
pub open spec fn request_body(encoded: Seq<char>) -> Seq<char> {
    REQUEST_HEAD@ + encoded + REQUEST_TAIL@
}

/// `a` followed by `b`.
fn joined(a: &str, b: &str) -> (r: Vec<char>)
    ensures
        r@ == a@ + b@,
{
    let mut r = chars_of(a);
    let bc = chars_of(b);
    let ghost a0 = r@;
    let mut i: usize = 0;
    while i < bc.len()
        invariant
            a0 == a@,
            bc@ == b@,
            i <= bc@.len(),
            r@ == a0 + bc@.subrange(0, i as int),
        decreases bc@.len() - i,
    {
        r.push(bc[i]);
        i = i + 1;
        assert(r@ =~= a0 + bc@.subrange(0, i as int));
    }
    assert(bc@.subrange(0, bc@.len() as int) =~= bc@);
    r
}

/// The request body for an image's bytes: its base64 text between the fixed head and tail.
pub fn vision_request_body(image: &[u8]) -> (r: String)
    requires
        base64_len(image@.len()) <= usize::MAX,
    ensures
        r@ == request_body(base64_of(image@)),
{
    let encoded = encode_base64(image);
    let head_and_image = joined(REQUEST_HEAD, encoded.as_str());
    let body = string_from_chars(&head_and_image);
    let all = joined(body.as_str(), REQUEST_TAIL);
    assert(all@ =~= request_body(base64_of(image@)));
    string_from_chars(&all)
}

/// The address of the service with the key appended.
pub fn vision_url(api_key: &str) -> (r: String)
    ensures
        r@ == VISION_ENDPOINT@ + api_key@,
{
    string_from_chars(&joined(VISION_ENDPOINT, api_key))
}

/// The text that the service recognized: the full-text annotation of the first response.
/// A body that is not JSON, or that lacks that text, gives `CloudResponseParseError`.
pub fn cloud_text_from_response(body: &str) -> (r: Result<String, OcrError>)
    ensures
        match json_text_at(body@, FULL_TEXT_POINTER@) {
            Some(t) => r matches Ok(s) && s@ == t,
            None => r == Err::<String, OcrError>(OcrError::CloudResponseParseError),
        },
{
    match json_string_at(body, FULL_TEXT_POINTER) {
        Some(s) => Ok(s),
        None => Err(OcrError::CloudResponseParseError),
    }
}

} // verus!
