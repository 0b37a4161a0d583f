//! Decoding of fetched bodies: UTF-8 text and JSON documents.
//!
//! A decode failure converts the affected entry into a failure outcome;
//! the bytes are already known, so decode failures are never retried.

use crate::error::FetchError;
use crate::outcome::Outcome;
use vstd::prelude::*;

verus! {

#[verifier::external_type_specification]
#[verifier::external_body]
pub struct ExValue(serde_json::Value);

/// What decoding a body as UTF-8 yields: the decoded characters, or
/// nothing when the bytes are not valid UTF-8. The result depends on the
/// bytes alone.
pub uninterp spec fn utf8_decoding(b: Seq<u8>) -> Option<Seq<char>>;

/// Whether a body parses as a JSON document. Parsing is a function of the
/// bytes alone, so equal bodies parse alike.
pub uninterp spec fn json_decodes(b: Seq<u8>) -> bool;

/// Relies on String::from_utf8: returns the decoded string exactly when
/// the bytes are valid UTF-8, and the decoding depends on the bytes alone.
#[verifier::external_body]
fn utf8_to_string(bytes: Vec<u8>) -> (r: Result<String, String>)
    ensures
        r is Ok <==> utf8_decoding(bytes@) is Some,
        r matches Ok(s) ==> utf8_decoding(bytes@) == Some(s@),
{
    String::from_utf8(bytes).map_err(|e| e.to_string())
}

/// Relies on serde_json::from_slice: parses the bytes as one JSON document,
/// and whether they parse depends on the bytes alone.
#[verifier::external_body]
fn json_from_bytes(bytes: &Vec<u8>) -> (r: Result<serde_json::Value, String>)
    ensures
        r is Ok <==> json_decodes(bytes@),
{
    serde_json::from_slice::<serde_json::Value>(bytes.as_slice()).map_err(|e| e.to_string())
}

/// How one text entry relates to the fetched outcome it was decoded from:
/// failures pass through unchanged, a body that is valid UTF-8 becomes its
/// decoding, and any other body becomes a decode error.
pub open spec fn text_decoded(o: Outcome, d: Result<String, FetchError>) -> bool {
    match o {
        Ok(bytes) => match utf8_decoding(bytes@) {
            Some(cs) => d matches Ok(s) && s@ == cs,
            None => d matches Err(FetchError::DecodeError(_)),
        },
        Err(e) => d == Err::<String, FetchError>(e),
    }
}

/// How one JSON entry relates to the fetched outcome it was decoded from:
/// failures pass through unchanged, a body that parses becomes a JSON
/// value, and any other body becomes a decode error.
pub open spec fn json_decoded(o: Outcome, d: Result<serde_json::Value, FetchError>) -> bool {
    match o {
        Ok(bytes) => if json_decodes(bytes@) {
            d is Ok
        } else {
            d matches Err(FetchError::DecodeError(_))
        },
        Err(e) => d == Err::<serde_json::Value, FetchError>(e),
    }
}

/// Decodes every success payload of a batch as UTF-8 text, entry by entry,
/// keeping the batch order and every failure outcome.
pub fn decode_text(outcomes: Vec<Outcome>) -> (r: Vec<Result<String, FetchError>>)
    ensures
        r@.len() == outcomes@.len(),
        forall|i: int|
            #![trigger r@[i]]
            0 <= i < outcomes@.len() ==> text_decoded(outcomes@[i], r@[i]),
{
    let ghost original = outcomes@;
    let mut rest = outcomes;
    let bound = rest.len();
    proof {
        assert(original.len() == bound);
    }
    let mut decoded: Vec<Result<String, FetchError>> = Vec::new();
    let mut i: usize = 0;
    while rest.len() > 0
        invariant
            original.len() <= usize::MAX,
            i + rest@.len() == original.len(),
            rest@ =~= original.skip(i as int),
            decoded@.len() == i,
            forall|k: int|
                #![trigger decoded@[k]]
                0 <= k < i ==> text_decoded(original[k], decoded@[k]),
        decreases rest@.len(),
    {
        let entry = rest.remove(0);
        proof {
            assert(original.skip(i as int).remove(0) =~= original.skip(i as int + 1));
            assert(entry == original[i as int]);
        }
        match entry {
            Ok(bytes) => match utf8_to_string(bytes) {
                Ok(text) => decoded.push(Ok(text)),
                Err(description) => decoded.push(Err(FetchError::DecodeError(description))),
            },
            Err(failure) => decoded.push(Err(failure)),
        }
        i = i + 1;
    }
    decoded
}

/// Decodes every success payload of a batch as a JSON document, entry by
/// entry, keeping the batch order and every failure outcome.
pub fn decode_json(outcomes: Vec<Outcome>) -> (r: Vec<Result<serde_json::Value, FetchError>>)
    ensures
        r@.len() == outcomes@.len(),
        forall|i: int|
            #![trigger r@[i]]
            0 <= i < outcomes@.len() ==> json_decoded(outcomes@[i], r@[i]),
{
    let ghost original = outcomes@;
    let mut rest = outcomes;
    let bound = rest.len();
    proof {
        assert(original.len() == bound);
    }
    let mut decoded: Vec<Result<serde_json::Value, FetchError>> = Vec::new();
    let mut i: usize = 0;
    while rest.len() > 0
        invariant
            original.len() <= usize::MAX,
            i + rest@.len() == original.len(),
            rest@ =~= original.skip(i as int),
            decoded@.len() == i,
            forall|k: int|
                #![trigger decoded@[k]]
                0 <= k < i ==> json_decoded(original[k], decoded@[k]),
        decreases rest@.len(),
    {
        let entry = rest.remove(0);
        proof {
            assert(original.skip(i as int).remove(0) =~= original.skip(i as int + 1));
            assert(entry == original[i as int]);
        }
        match entry {
            Ok(bytes) => match json_from_bytes(&bytes) {
                Ok(value) => decoded.push(Ok(value)),
                Err(description) => decoded.push(Err(FetchError::DecodeError(description))),
            },
            Err(failure) => decoded.push(Err(failure)),
        }
        i = i + 1;
    }
    decoded
}

} // verus!
