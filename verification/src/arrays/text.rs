//! Reading stored bytes as text.

use vstd::prelude::*;
use vstd::string::StringSliceAdditionalSpecFns;
use vstd::utf8::{decode_utf8, valid_utf8};

use crate::error::RayexecError;

verus! {

/// Wraps `core::str::from_utf8`: the bytes seen as text when they are valid
/// UTF-8, in which case the text encodes to exactly those bytes, and `None`
/// when they are not.
#[verifier::external_body]
fn str_from_utf8(bytes: &[u8]) -> (r: Option<&str>)
    ensures
        match r {
            Some(s) => valid_utf8(bytes@) && s.spec_bytes() == bytes@,
            None => !valid_utf8(bytes@),
        },
{
    match core::str::from_utf8(bytes) {
        Ok(s) => Some(s),
        Err(_) => None,
    }
}

/// The text that `bytes` encode, or `InvalidUtf8`.
pub fn decode_text(bytes: &[u8]) -> (r: Result<&str, RayexecError>)
    ensures
        match r {
            Ok(s) => valid_utf8(bytes@) && s@ == decode_utf8(bytes@),
            Err(e) => !valid_utf8(bytes@) && e == RayexecError::InvalidUtf8,
        },
{
    match str_from_utf8(bytes) {
        Some(s) => {
            proof {
                vstd::utf8::encode_utf8_decode_utf8(s@);
            }
            Ok(s)
        },
        None => Err(RayexecError::InvalidUtf8),
    }
}

} // verus!
