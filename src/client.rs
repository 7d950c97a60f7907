use vstd::prelude::*;
use crate::identifier::{is_hex_char, valid_client_identifier};
use vstd::string::{StrSliceExecFns, StringSliceAdditionalSpecFns};

verus! {

/// Errors of the client side of the handshake.
#[derive(Debug, PartialEq, Eq, Structural, Clone, Copy)]
pub enum OpaqueError {
    ProtocolError,
    InvalidInput,
    SerializationError,
}

impl OpaqueError {
    pub open spec fn spec_message(self) -> Seq<char> {
        match self {
            OpaqueError::ProtocolError => "Protocol error"@,
            OpaqueError::InvalidInput => "Invalid input"@,
            OpaqueError::SerializationError => "Serialization error"@,
        }
    }

    /// The short text shown for the error.
    pub fn message(&self) -> (r: &'static str)
        ensures
            r@ == self.spec_message(),
    {
        match self {
            OpaqueError::ProtocolError => "Protocol error",
            OpaqueError::InvalidInput => "Invalid input",
            OpaqueError::SerializationError => "Serialization error",
        }
    }
}

/// What the client keeps and sends after finishing registration.
pub struct RegistrationResult {
    pub registration_upload: Vec<u8>,
    pub export_key: Vec<u8>,
}

/// What the client keeps and sends after finishing login.
pub struct LoginResult {
    pub credential_finalization: Vec<u8>,
    pub session_key: Vec<u8>,
    pub export_key: Vec<u8>,
}

/// Salt mixed into the username before hashing, so identifiers of this
/// application differ from plain hashes of the name.
pub const APP_SALT: &'static str = "family-medical-app-opaque-v1";

pub open spec fn hex_digit_char(v: int) -> char {
    if v < 10 {
        (('0' as int) + v) as char
    } else {
        (('a' as int) + (v - 10)) as char
    }
}

/// Lowercase hex of a byte string, two digits per byte, high nibble first.
pub open spec fn hex_of(b: Seq<u8>) -> Seq<char>
    decreases b.len(),
{
    if b.len() == 0 {
        Seq::empty()
    } else {
        hex_of(b.drop_last()) + seq![
            hex_digit_char(b.last() as int / 16),
            hex_digit_char(b.last() as int % 16),
        ]
    }
}

/// The SHA-256 digest of a byte string.
pub uninterp spec fn sha256_of(data: Seq<u8>) -> Seq<u8>;

/// Relies on sha2::Sha256: the digest of the input, 32 bytes long.
#[verifier::external_body]
fn sha256(data: &Vec<u8>) -> (r: Vec<u8>)
    ensures
        r@ == sha256_of(data@),
        r@.len() == 32,
{
    <sha2::Sha256 as sha2::Digest>::digest(data.as_slice()).to_vec()
}

/// Relies on hex::encode: lowercase digits, two per byte, in byte order.
#[verifier::external_body]
fn hex_encode(b: &Vec<u8>) -> (r: String)
    ensures
        r@ == hex_of(b@),
{
    hex::encode(b)
}

proof fn lemma_hex_of_shape(b: Seq<u8>)
    ensures
        hex_of(b).len() == 2 * b.len(),
        forall|i: int| 0 <= i < hex_of(b).len() ==> is_hex_char(#[trigger] hex_of(b)[i]),
    decreases b.len(),
{
    if b.len() > 0 {
        lemma_hex_of_shape(b.drop_last());
        let hi = b.last() as int / 16;
        let lo = b.last() as int % 16;
        assert(is_hex_char(hex_digit_char(hi)));
        assert(is_hex_char(hex_digit_char(lo)));
        let p = hex_of(b.drop_last());
        assert forall|i: int| 0 <= i < hex_of(b).len() implies is_hex_char(#[trigger] hex_of(b)[i]) by {
            if i < p.len() {
                assert(hex_of(b)[i] == p[i]);
            }
        }
    }
}

/// The identifier of a username: lowercase hex of SHA-256 over the
/// username's bytes followed by the application salt.
pub open spec fn client_identifier_of(username: Seq<u8>) -> Seq<char> {
    hex_of(sha256_of(username + APP_SALT.spec_bytes()))
}

/// Derives the client identifier that the server partitions its state by.
pub fn generate_client_identifier(username: String) -> (r: Result<String, OpaqueError>)
    ensures
        r is Ok,
        r->Ok_0@ == client_identifier_of(vstd::utf8::encode_utf8(username@)),
        valid_client_identifier(r->Ok_0@),
{
    let mut input = username.as_str().as_bytes_vec();
    let mut salt = APP_SALT.as_bytes_vec();
    input.append(&mut salt);
    let digest = sha256(&input);
    let id = hex_encode(&digest);
    proof {
        lemma_hex_of_shape(digest@);
    }
    Ok(id)
}

} // verus!
