use vstd::prelude::*;

verus! {

/// What the server's registration-start step hands back: the serialized
/// registration response for the client.
pub struct RegistrationStartResult {
    pub response: Vec<u8>,
}

/// What the server's login-start step hands back: the credential response for
/// the client and the serialized server state to keep until login-finish.
pub struct LoginStartResult {
    pub response: Vec<u8>,
    pub state: Vec<u8>,
}

/// What the server's login-finish step hands back on success.
pub struct LoginFinishResult {
    pub session_key: Vec<u8>,
}

/// Length of a serialized registration response: an OPRF element and the
/// server's public key, 32 bytes each.
pub const REGISTRATION_RESPONSE_LEN: usize = 64;

/// Length of a serialized credential response: OPRF element, masking nonce,
/// masked response and the second key-exchange message.
pub const CREDENTIAL_RESPONSE_LEN: usize = 320;

/// Length of a session key: one SHA-512 output.
pub const SESSION_KEY_LEN: usize = 64;

} // verus!
