//! The calls this library makes into outside crates.

use crypto::digest::Digest;
use vstd::prelude::*;

verus! {

/// The lowercase hexadecimal SHA-1 digest of a byte sequence.
pub uninterp spec fn sha1_hex_of(data: Seq<u8>) -> Seq<char>;

/// Relies on `crypto::sha1::Sha1` (`new`, `input`, `result_str`): the result is
/// the hex rendering of the 20-byte digest of `data`, two characters per byte.
#[verifier::external_body]
pub(crate) fn sha1_hex(data: &Vec<u8>) -> (r: String)
    ensures
        r@ == sha1_hex_of(data@),
        r@.len() == 40,
{
    let mut hasher = crypto::sha1::Sha1::new();
    hasher.input(data.as_slice());
    hasher.result_str()
}

/// The JSON string literal (quoted and escaped) for a text, or `None` where
/// the serializer refuses it.
pub uninterp spec fn json_string_of(s: Seq<char>) -> Option<Seq<char>>;

/// Relies on `serde_json::to_string` applied to a string slice: the outcome
/// depends on the characters alone.
#[verifier::external_body]
pub(crate) fn json_string(s: &String) -> (r: Option<String>)
    ensures
        match r {
            Some(j) => json_string_of(s@) == Some(j@),
            None => json_string_of(s@) is None,
        },
{
    match serde_json::to_string(s.as_str()) {
        Ok(j) => Some(j),
        Err(_) => None,
    }
}

} // verus!
