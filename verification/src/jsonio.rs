//! Reading a rejection payload.
//!
//! A rejection body is a JSON object with an error message and, when the
//! receiver reports a mismatch, `expected` and `received` position fields
//! carried as decimal strings. The JSON crate takes the document apart; the
//! bytes of a string field are a function of the document and the key
//! alone, named `json_str_field_of`, and what those bytes mean is decided
//! by the verified decimal parse in `sender::rejection_event`.

use vstd::prelude::*;

use crate::sender::{parsed_field, UploadEvent};

verus! {

/// The bytes of the string value under `key` in the JSON document `body`,
/// or nothing when the body is not a JSON object, lacks the key, or holds
/// no string there.
pub uninterp spec fn json_str_field_of(body: Seq<u8>, key: Seq<char>) -> Option<Seq<u8>>;

/// Relies on `serde_json::from_slice::<serde_json::Value>`,
/// `serde_json::Value::get` and `serde_json::Value::as_str`: parses the
/// body as a JSON document and hands out the bytes of the string field
/// under `key`, or nothing when any of the three steps has none. The
/// result depends on the document and the key alone.
#[verifier::external_body]
fn json_str_field(body: &Vec<u8>, key: &str) -> (r: Option<Vec<u8>>)
    ensures
        json_str_field_of(body@, key@) == (match r {
            Some(v) => Some(v@),
            None => None::<Seq<u8>>,
        }),
{
    match serde_json::from_slice::<serde_json::Value>(body.as_slice()) {
        Ok(doc) => match doc.get(key) {
            Some(field) => field.as_str().map(|s| s.as_bytes().to_vec()),
            None => None,
        },
        Err(_) => None,
    }
}

/// Reads a rejection body into the event that drives the sender's next
/// decision: the event carries the verified decimal parse of the
/// `expected` and `received` string fields of the document, and a field
/// that is missing or malformed stays unknown, which forbids the
/// duplicate-skip.
pub fn rejection_event_from_body(body: &Vec<u8>) -> (ev: UploadEvent)
    ensures
        ev == (UploadEvent::Rejected {
            expected: parsed_field(json_str_field_of(body@, "expected"@)),
            received: parsed_field(json_str_field_of(body@, "received"@)),
        }),
{
    let expected_raw = json_str_field(body, "expected");
    let received_raw = json_str_field(body, "received");
    crate::sender::rejection_event(expected_raw, received_raw)
}

} // verus!
