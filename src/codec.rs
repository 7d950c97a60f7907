use vstd::prelude::*;

verus! {

/// Standard base64 (with padding) of a byte string.
pub uninterp spec fn base64_encoded(b: Seq<u8>) -> Seq<char>;

/// The bytes that a string decodes to as standard base64, if it is valid.
pub uninterp spec fn base64_decoded(s: Seq<char>) -> Option<Seq<u8>>;

/// Length of padded base64 output: four characters per started group of three bytes.
pub open spec fn base64_len(n: nat) -> nat {
    4 * ((n + 2) / 3)
}

/// Relies on base64's STANDARD engine `encode`: padded output, whose length
/// is four characters per started group of three input bytes, and which the
/// same engine's `decode` turns back into the input.
#[verifier::external_body]
pub(crate) fn encode_base64(b: &[u8]) -> (r: String)
    ensures
        r@ == base64_encoded(b@),
        r@.len() == base64_len(b@.len()),
        base64_decoded(r@) == Some(b@),
{
    base64::Engine::encode(&base64::engine::general_purpose::STANDARD, b)
}

/// Relies on base64's STANDARD engine `decode`: the decoded bytes, or an
/// error for input that is not valid padded base64.
#[verifier::external_body]
pub(crate) fn decode_base64(s: &str) -> (r: Option<Vec<u8>>)
    ensures
        match r {
            Some(v) => base64_decoded(s@) == Some(v@),
            None => base64_decoded(s@) is None,
        },
{
    match base64::Engine::decode(&base64::engine::general_purpose::STANDARD, s) {
        Ok(v) => Some(v),
        Err(_) => None,
    }
}

} // verus!
