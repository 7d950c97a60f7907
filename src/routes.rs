use vstd::prelude::*;
use vstd::string::StringExecFns;
use crate::codec::{base64_decoded, base64_encoded, base64_len, decode_base64, encode_base64};
use crate::identifier::{is_valid_client_identifier, valid_client_identifier};
use crate::keys::{
    bundle_key_of, credential_key, credential_key_of, has_fake_tag, is_fake_state_key, state_key,
    state_key_belongs_to, state_key_of, token_belongs_to,
};
use crate::opaque::{LoginFinishResult, LoginStartResult, RegistrationStartResult};

verus! {

/// The coarse failure classes that cross the service boundary.
#[derive(Clone, Copy, Debug, PartialEq, Eq, Structural)]
pub enum AuthError {
    /// A malformed input; which one decides the text of the answer.
    InvalidInput(InputFault),
    /// The PAKE primitive refused the message, or a stored record is corrupt.
    /// Answered exactly as a malformed message, so the two cannot be told apart.
    ProtocolError,
    AuthenticationFailed,
    SessionExpired,
    RegistrationFailed,
    StoreUnavailable,
}

/// Which input of a request was malformed.
#[derive(Clone, Copy, Debug, PartialEq, Eq, Structural)]
pub enum InputFault {
    /// A client identifier that is not 64 hex characters.
    ClientIdentifier,
    /// A registration record that is not valid base64.
    RegistrationRecord,
    /// Any other malformed message: bad base64 or JSON.
    Message,
}

impl AuthError {
    pub open spec fn spec_status(self) -> u16 {
        match self {
            AuthError::InvalidInput(_) => 400,
            AuthError::ProtocolError => 400,
            AuthError::RegistrationFailed => 400,
            AuthError::AuthenticationFailed => 401,
            AuthError::SessionExpired => 401,
            AuthError::StoreUnavailable => 503,
        }
    }

    pub open spec fn spec_message(self) -> Seq<char> {
        match self {
            AuthError::InvalidInput(InputFault::ClientIdentifier) => "Invalid clientIdentifier"@,
            AuthError::InvalidInput(InputFault::RegistrationRecord) => "Invalid registration record format"@,
            AuthError::InvalidInput(InputFault::Message) => "Invalid request"@,
            AuthError::ProtocolError => "Invalid request"@,
            AuthError::RegistrationFailed => "Registration failed"@,
            AuthError::AuthenticationFailed => "Authentication failed"@,
            AuthError::SessionExpired => "Session expired"@,
            AuthError::StoreUnavailable => "Service unavailable"@,
        }
    }

    /// The HTTP status that the error is answered with.
    pub fn status_code(&self) -> (r: u16)
        ensures
            r == self.spec_status(),
    {
        match self {
            AuthError::InvalidInput(_) => 400,
            AuthError::ProtocolError => 400,
            AuthError::RegistrationFailed => 400,
            AuthError::AuthenticationFailed => 401,
            AuthError::SessionExpired => 401,
            AuthError::StoreUnavailable => 503,
        }
    }

    /// The generic text that the error is answered with.
    pub fn message(&self) -> (r: &'static str)
        ensures
            r@ == self.spec_message(),
    {
        match self {
            AuthError::InvalidInput(InputFault::ClientIdentifier) => "Invalid clientIdentifier",
            AuthError::InvalidInput(InputFault::RegistrationRecord) => "Invalid registration record format",
            AuthError::InvalidInput(InputFault::Message) => "Invalid request",
            AuthError::ProtocolError => "Invalid request",
            AuthError::RegistrationFailed => "Registration failed",
            AuthError::AuthenticationFailed => "Authentication failed",
            AuthError::SessionExpired => "Session expired",
            AuthError::StoreUnavailable => "Service unavailable",
        }
    }
}

pub struct RegisterStartRequest {
    pub client_identifier: String,
    /// base64
    pub registration_request: String,
}

pub struct RegisterStartResponse {
    /// base64
    pub registration_response: String,
}

pub struct RegisterFinishRequest {
    pub client_identifier: String,
    /// base64
    pub registration_record: String,
    pub encrypted_bundle: Option<String>,
}

pub struct SuccessResponse {
    pub success: bool,
}

pub struct LoginStartRequest {
    pub client_identifier: String,
    /// base64
    pub start_login_request: String,
}

pub struct LoginStartResponse {
    /// base64
    pub login_response: String,
    pub state_key: String,
}

pub struct LoginFinishRequest {
    pub client_identifier: String,
    pub state_key: String,
    /// base64
    pub finish_login_request: String,
}

pub struct LoginFinishResponse {
    pub success: bool,
    /// base64
    pub session_key: String,
    pub encrypted_bundle: Option<String>,
}

pub struct ErrorResponse {
    pub error: String,
}

/// The body of an error answer: the error's generic text and nothing else.
pub fn error_response(e: AuthError) -> (r: ErrorResponse)
    ensures
        r.error@ == e.spec_message(),
{
    ErrorResponse { error: String::from_str(e.message()) }
}

/// Time-to-live of a stored login state, in seconds.
pub const LOGIN_STATE_TTL_SECONDS: u64 = 60;

// ---------------------------------------------------------------------------
// Registration start: validate, decode, hand the request to the PAKE primitive.

/// What registration-start hands to the PAKE primitive.
pub struct RegistrationStartCall {
    pub client_identifier: String,
    pub registration_request: Vec<u8>,
}

/// The decoded request of a registration start, or why there is none.
pub open spec fn register_start_input(id: Seq<char>, request: Seq<char>) -> Result<Seq<u8>, AuthError> {
    if !valid_client_identifier(id) {
        Err(AuthError::InvalidInput(InputFault::ClientIdentifier))
    } else {
        match base64_decoded(request) {
            Some(b) => Ok(b),
            None => Err(AuthError::InvalidInput(InputFault::Message)),
        }
    }
}

pub fn begin_register_start(req: &RegisterStartRequest) -> (r: Result<RegistrationStartCall, AuthError>)
    ensures
        match r {
            Ok(c) => register_start_input(req.client_identifier@, req.registration_request@) == Ok::<
                Seq<u8>,
                AuthError,
            >(c.registration_request@) && c.client_identifier@ == req.client_identifier@,
            Err(e) => register_start_input(req.client_identifier@, req.registration_request@) == Err::<
                Seq<u8>,
                AuthError,
            >(e),
        },
{
    if !is_valid_client_identifier(req.client_identifier.as_str()) {
        return Err(AuthError::InvalidInput(InputFault::ClientIdentifier));
    }
    match decode_base64(req.registration_request.as_str()) {
        Some(bytes) => Ok(
            RegistrationStartCall {
                client_identifier: req.client_identifier.clone(),
                registration_request: bytes,
            },
        ),
        None => Err(AuthError::InvalidInput(InputFault::Message)),
    }
}

/// Turns the PAKE primitive's answer into the response to the client.
pub fn complete_register_start(result: Result<RegistrationStartResult, String>) -> (r: Result<
    RegisterStartResponse,
    AuthError,
>)
    ensures
        match result {
            Ok(s) => r is Ok && r->Ok_0.registration_response@ == base64_encoded(s.response@)
                && base64_decoded(r->Ok_0.registration_response@) == Some(s.response@),
            Err(_) => r == Err::<RegisterStartResponse, AuthError>(AuthError::ProtocolError),
        },
{
    match result {
        Ok(s) => Ok(RegisterStartResponse { registration_response: encode_base64(s.response.as_slice()) }),
        Err(_) => Err(AuthError::ProtocolError),
    }
}

// ---------------------------------------------------------------------------
// Registration finish: read the credential key, refuse an existing record,
// write record and bundle.

/// The key that registration-finish and login-start read first.
fn credential_lookup(id: &String) -> (r: Result<String, AuthError>)
    ensures
        valid_client_identifier(id@) ==> r is Ok && r->Ok_0@ == credential_key_of(id@),
        !valid_client_identifier(id@) ==> r == Err::<String, AuthError>(AuthError::InvalidInput(InputFault::ClientIdentifier)),
{
    if !is_valid_client_identifier(id.as_str()) {
        return Err(AuthError::InvalidInput(InputFault::ClientIdentifier));
    }
    Ok(credential_key(id.as_str()))
}

/// The credential key to read before a registration is finished.
pub fn begin_register_finish(req: &RegisterFinishRequest) -> (r: Result<String, AuthError>)
    ensures
        valid_client_identifier(req.client_identifier@) ==> r is Ok && r->Ok_0@ == credential_key_of(
            req.client_identifier@,
        ),
        !valid_client_identifier(req.client_identifier@) ==> r == Err::<String, AuthError>(
            AuthError::InvalidInput(InputFault::ClientIdentifier),
        ),
{
    credential_lookup(&req.client_identifier)
}

/// Whether a registration may be finished, given whether the identifier
/// already has a record.
pub open spec fn register_finish_outcome(id: Seq<char>, record: Seq<char>, exists: bool) -> Result<
    (),
    AuthError,
> {
    if !valid_client_identifier(id) {
        Err(AuthError::InvalidInput(InputFault::ClientIdentifier))
    } else if exists {
        Err(AuthError::RegistrationFailed)
    } else if base64_decoded(record) is None {
        Err(AuthError::InvalidInput(InputFault::RegistrationRecord))
    } else {
        Ok(())
    }
}

/// The stored records after a registration-finish: the record is written
/// only where the outcome allowed it.
pub open spec fn credentials_after(
    creds: Map<Seq<char>, Seq<char>>,
    id: Seq<char>,
    record: Seq<char>,
) -> Map<Seq<char>, Seq<char>> {
    if register_finish_outcome(id, record, creds.contains_key(credential_key_of(id))) is Ok {
        creds.insert(credential_key_of(id), record)
    } else {
        creds
    }
}

/// The writes that finish a registration.
pub struct RegistrationWrites {
    pub credential_key: String,
    pub registration_record: String,
    /// The bundle's write, when the client sent one.
    pub bundle: Option<BundleWrite>,
}

/// An encrypted bundle and the key it is stored under.
pub struct BundleWrite {
    pub key: String,
    pub value: String,
}

/// The stored records once the credential write of `r`, if any, is done.
pub open spec fn writes_applied(
    creds: Map<Seq<char>, Seq<char>>,
    r: Result<RegistrationWrites, AuthError>,
) -> Map<Seq<char>, Seq<char>> {
    match r {
        Ok(w) => creds.insert(w.credential_key@, w.registration_record@),
        Err(_) => creds,
    }
}

/// Decides a registration-finish from what the credential key held.
pub fn decide_register_finish(req: &RegisterFinishRequest, existing: Option<String>) -> (r: Result<
    RegistrationWrites,
    AuthError,
>)
    ensures
        match r {
            Ok(w) => {
                &&& register_finish_outcome(
                    req.client_identifier@,
                    req.registration_record@,
                    existing is Some,
                ) is Ok
                &&& w.credential_key@ == credential_key_of(req.client_identifier@)
                &&& w.registration_record@ == req.registration_record@
                &&& (w.bundle is Some <==> req.encrypted_bundle is Some)
                &&& w.bundle is Some ==> w.bundle->0.key@ == bundle_key_of(req.client_identifier@)
                    && w.bundle->0.value@ == req.encrypted_bundle->0@
            },
            Err(e) => register_finish_outcome(
                req.client_identifier@,
                req.registration_record@,
                existing is Some,
            ) == Err::<(), AuthError>(e),
        },
        forall|creds: Map<Seq<char>, Seq<char>>|
            creds.contains_key(credential_key_of(req.client_identifier@)) == (existing is Some)
                ==> #[trigger] credentials_after(creds, req.client_identifier@, req.registration_record@)
                == writes_applied(creds, r),
{
    let key = match credential_lookup(&req.client_identifier) {
        Ok(k) => k,
        Err(e) => return Err(e),
    };
    if existing.is_some() {
        return Err(AuthError::RegistrationFailed);
    }
    if decode_base64(req.registration_record.as_str()).is_none() {
        return Err(AuthError::InvalidInput(InputFault::RegistrationRecord));
    }
    let bundle = match &req.encrypted_bundle {
        Some(b) => Some(
            BundleWrite { key: crate::keys::bundle_key(req.client_identifier.as_str()), value: b.clone() },
        ),
        None => None,
    };
    Ok(RegistrationWrites { credential_key: key, registration_record: req.registration_record.clone(), bundle })
}

/// The answer to a finished registration.
pub fn register_finish_response() -> (r: SuccessResponse)
    ensures
        r.success,
{
    SuccessResponse { success: true }
}

/// A registration-finish for an identifier that already has a record fails
/// with `RegistrationFailed` and leaves the stored record as it was.
pub proof fn lemma_registration_keeps_existing_record(
    creds: Map<Seq<char>, Seq<char>>,
    id: Seq<char>,
    record: Seq<char>,
)
    requires
        valid_client_identifier(id),
        creds.contains_key(credential_key_of(id)),
    ensures
        register_finish_outcome(id, record, creds.contains_key(credential_key_of(id))) == Err::<
            (),
            AuthError,
        >(AuthError::RegistrationFailed),
        credentials_after(creds, id, record) == creds,
{
}


// ---------------------------------------------------------------------------
// Login start: read the record (or fall back to a fake one), run the PAKE
// primitive, store its state under a fresh token.

/// The key whose record a login-start reads.
pub fn begin_login_start(req: &LoginStartRequest) -> (r: Result<String, AuthError>)
    ensures
        valid_client_identifier(req.client_identifier@) ==> r is Ok && r->Ok_0@ == credential_key_of(
            req.client_identifier@,
        ),
        !valid_client_identifier(req.client_identifier@) ==> r == Err::<String, AuthError>(
            AuthError::InvalidInput(InputFault::ClientIdentifier),
        ),
{
    credential_lookup(&req.client_identifier)
}

/// What login-start hands to the PAKE primitive. With no password file the
/// primitive answers from a fake record, so the reply has the same shape.
pub struct LoginStartCall {
    pub client_identifier: String,
    pub password_file: Option<Vec<u8>>,
    pub credential_request: Vec<u8>,
    pub is_fake_record: bool,
}

/// The decoded inputs of a login start, given the stored record, or why
/// there are none. A malformed request is reported before the record is
/// looked at, so that bad input answers alike for known and unknown users.
pub open spec fn login_start_input(id: Seq<char>, request: Seq<char>, stored: Option<Seq<char>>) -> Result<
    (Option<Seq<u8>>, Seq<u8>),
    AuthError,
> {
    if !valid_client_identifier(id) {
        Err(AuthError::InvalidInput(InputFault::ClientIdentifier))
    } else if base64_decoded(request) is None {
        Err(AuthError::InvalidInput(InputFault::Message))
    } else {
        match stored {
            None => Ok((None, base64_decoded(request)->0)),
            Some(s) => match base64_decoded(s) {
                Some(f) => Ok((Some(f), base64_decoded(request)->0)),
                None => Err(AuthError::ProtocolError),
            },
        }
    }
}

pub open spec fn opt_bytes(v: Option<Vec<u8>>) -> Option<Seq<u8>> {
    match v {
        Some(b) => Some(b@),
        None => None,
    }
}

pub open spec fn opt_chars(v: Option<String>) -> Option<Seq<char>> {
    match v {
        Some(s) => Some(s@),
        None => None,
    }
}

/// Prepares the PAKE call of a login start from the record that was read.
pub fn prepare_login_start(req: &LoginStartRequest, stored: Option<String>) -> (r: Result<
    LoginStartCall,
    AuthError,
>)
    ensures
        match r {
            Ok(c) => {
                &&& login_start_input(
                    req.client_identifier@,
                    req.start_login_request@,
                    opt_chars(stored),
                ) == Ok::<(Option<Seq<u8>>, Seq<u8>), AuthError>(
                    (opt_bytes(c.password_file), c.credential_request@),
                )
                &&& c.client_identifier@ == req.client_identifier@
                &&& c.is_fake_record == (stored is None)
            },
            Err(e) => login_start_input(
                req.client_identifier@,
                req.start_login_request@,
                opt_chars(stored),
            ) == Err::<(Option<Seq<u8>>, Seq<u8>), AuthError>(e),
        },
{
    if !is_valid_client_identifier(req.client_identifier.as_str()) {
        return Err(AuthError::InvalidInput(InputFault::ClientIdentifier));
    }
    let request = match decode_base64(req.start_login_request.as_str()) {
        Some(b) => b,
        None => return Err(AuthError::InvalidInput(InputFault::Message)),
    };
    let is_fake_record = stored.is_none();
    let password_file = match &stored {
        Some(s) => match decode_base64(s.as_str()) {
            Some(f) => Some(f),
            None => return Err(AuthError::ProtocolError),
        },
        None => None,
    };
    Ok(
        LoginStartCall {
            client_identifier: req.client_identifier.clone(),
            password_file,
            credential_request: request,
            is_fake_record,
        },
    )
}

/// The response of a login start and the login state to store under its
/// token for `ttl_seconds`.
pub struct LoginStartPlan {
    pub response: LoginStartResponse,
    pub stored_state: String,
    pub ttl_seconds: u64,
}

/// Builds the token and the response of a login start from the PAKE
/// primitive's answer, at `now_millis`.
pub fn complete_login_start(
    call: &LoginStartCall,
    now_millis: u64,
    result: Result<LoginStartResult, String>,
) -> (r: Result<LoginStartPlan, AuthError>)
    ensures
        match result {
            Ok(s) => {
                &&& r is Ok
                &&& r->Ok_0.response.login_response@ == base64_encoded(s.response@)
                &&& r->Ok_0.response.login_response@.len() == base64_len(s.response@.len())
                &&& r->Ok_0.response.state_key@ == state_key_of(
                    call.client_identifier@,
                    now_millis as nat,
                    call.is_fake_record,
                )
                &&& r->Ok_0.stored_state@ == base64_encoded(s.state@)
                &&& r->Ok_0.stored_state@.len() == base64_len(s.state@.len())
                &&& base64_decoded(r->Ok_0.response.login_response@) == Some(s.response@)
                &&& base64_decoded(r->Ok_0.stored_state@) == Some(s.state@)
                &&& r->Ok_0.ttl_seconds == LOGIN_STATE_TTL_SECONDS
            },
            Err(_) => r == Err::<LoginStartPlan, AuthError>(AuthError::ProtocolError),
        },
{
    match result {
        Ok(s) => {
            let key = state_key(call.client_identifier.as_str(), now_millis, call.is_fake_record);
            Ok(
                LoginStartPlan {
                    response: LoginStartResponse {
                        login_response: encode_base64(s.response.as_slice()),
                        state_key: key,
                    },
                    stored_state: encode_base64(s.state.as_slice()),
                    ttl_seconds: LOGIN_STATE_TTL_SECONDS,
                },
            )
        },
        Err(_) => Err(AuthError::ProtocolError),
    }
}

/// Login-start answers an unknown identifier in the same shape as a known
/// one: given PAKE answers of one length, the two responses have one length,
/// the two tokens have one length, none of them is empty, and the two stored
/// states have one length.
pub proof fn lemma_unknown_identifier_same_shape(
    id: Seq<char>,
    millis: nat,
    real_response: Seq<u8>,
    fake_response: Seq<u8>,
    real_state: Seq<u8>,
    fake_state: Seq<u8>,
)
    requires
        real_response.len() == fake_response.len(),
        real_response.len() > 0,
        real_state.len() == fake_state.len(),
    ensures
        base64_len(real_response.len()) == base64_len(fake_response.len()),
        base64_len(fake_response.len()) > 0,
        base64_len(real_state.len()) == base64_len(fake_state.len()),
        state_key_of(id, millis, true).len() == state_key_of(id, millis, false).len(),
        state_key_of(id, millis, true).len() > 0,
        has_fake_tag(state_key_of(id, millis, true)),
        !has_fake_tag(state_key_of(id, millis, false)),
{
    crate::keys::lemma_state_key_len_hides_tag(id, millis);
    crate::keys::lemma_state_key_tag(id, millis, true);
    crate::keys::lemma_state_key_tag(id, millis, false);
}

// ---------------------------------------------------------------------------
// Login finish: claim the token, delete it, then verify.

/// The login state that a finish request asks for.
pub struct SessionClaim {
    pub client_identifier: String,
    pub state_key: String,
    pub is_fake_record: bool,
    /// Whether the token was issued for `client_identifier`.
    pub owned: bool,
}

/// Whether a finish request may look its token up, and if so whether the
/// token is tagged fake.
pub open spec fn login_finish_claim(id: Seq<char>, key: Seq<char>) -> Result<bool, AuthError> {
    if !valid_client_identifier(id) {
        Err(AuthError::InvalidInput(InputFault::ClientIdentifier))
    } else {
        Ok(has_fake_tag(key))
    }
}

/// The stored login state that a finish request consumes, or why it fails
/// before the state is decoded.
pub open spec fn session_lookup(id: Seq<char>, key: Seq<char>, stored: Option<Seq<char>>) -> Result<
    (bool, Seq<char>),
    AuthError,
> {
    match login_finish_claim(id, key) {
        Err(e) => Err(e),
        Ok(fake) => match stored {
            None => Err(AuthError::SessionExpired),
            Some(s) => Ok((fake, s)),
        },
    }
}

/// What the store holds under a key.
pub open spec fn stored_at(states: Map<Seq<char>, Seq<char>>, key: Seq<char>) -> Option<Seq<char>> {
    if states.contains_key(key) {
        Some(states[key])
    } else {
        None
    }
}

/// The stored login states after a finish request: an entry that a request
/// with a well-formed identifier reads is deleted at once, whatever comes
/// after, so no token is read twice.
pub open spec fn states_after_finish(
    states: Map<Seq<char>, Seq<char>>,
    id: Seq<char>,
    key: Seq<char>,
) -> Map<Seq<char>, Seq<char>> {
    if valid_client_identifier(id) && states.contains_key(key) {
        states.remove(key)
    } else {
        states
    }
}

pub fn begin_login_finish(req: &LoginFinishRequest) -> (r: Result<SessionClaim, AuthError>)
    ensures
        match r {
            Ok(c) => {
                &&& login_finish_claim(req.client_identifier@, req.state_key@) == Ok::<bool, AuthError>(
                    c.is_fake_record,
                )
                &&& c.client_identifier@ == req.client_identifier@
                &&& c.state_key@ == req.state_key@
                &&& c.owned == token_belongs_to(req.state_key@, req.client_identifier@)
            },
            Err(e) => login_finish_claim(req.client_identifier@, req.state_key@) == Err::<
                bool,
                AuthError,
            >(e),
        },
{
    if !is_valid_client_identifier(req.client_identifier.as_str()) {
        return Err(AuthError::InvalidInput(InputFault::ClientIdentifier));
    }
    Ok(
        SessionClaim {
            client_identifier: req.client_identifier.clone(),
            state_key: req.state_key.clone(),
            is_fake_record: is_fake_state_key(req.state_key.as_str()),
            owned: state_key_belongs_to(req.state_key.as_str(), req.client_identifier.as_str()),
        },
    )
}

/// A store deletion that must be carried out before the next step.
pub struct StoreDelete {
    pub key: String,
}

/// A claimed login state, with the deletion of its entry, which the caller
/// performs before the state goes on to `prepare_login_finish`.
pub struct ClaimedSession {
    pub client_identifier: String,
    pub delete: StoreDelete,
    pub server_state: String,
    pub is_fake_record: bool,
    pub owned: bool,
}

/// The login states once the deletions that a claim asks for are done.
pub open spec fn after_claim(
    states: Map<Seq<char>, Seq<char>>,
    r: Result<ClaimedSession, AuthError>,
) -> Map<Seq<char>, Seq<char>> {
    match r {
        Ok(c) => states.remove(c.delete.key@),
        Err(_) => states,
    }
}

/// Takes the login state that was read for the claim; an absent one means
/// the token never existed, expired or was used already. A state that was
/// found is claimed, and so deleted, even when the token turns out to belong
/// to another identifier.
pub fn claim_session(claim: SessionClaim, stored: Option<String>) -> (r: Result<
    ClaimedSession,
    AuthError,
>)
    ensures
        match r {
            Ok(c) => {
                &&& session_lookup(claim.client_identifier@, claim.state_key@, opt_chars(stored))
                    == Ok::<(bool, Seq<char>), AuthError>((has_fake_tag(claim.state_key@), c.server_state@))
                &&& c.delete.key@ == claim.state_key@
                &&& c.client_identifier@ == claim.client_identifier@
                &&& c.is_fake_record == claim.is_fake_record
                &&& c.owned == claim.owned
            },
            Err(e) => session_lookup(claim.client_identifier@, claim.state_key@, opt_chars(stored))
                == Err::<(bool, Seq<char>), AuthError>(e),
        },
        forall|states: Map<Seq<char>, Seq<char>>|
            stored_at(states, claim.state_key@) == opt_chars(stored) ==> #[trigger] states_after_finish(
                states,
                claim.client_identifier@,
                claim.state_key@,
            ) == after_claim(states, r),
{
    if !is_valid_client_identifier(claim.client_identifier.as_str()) {
        return Err(AuthError::InvalidInput(InputFault::ClientIdentifier));
    }
    match stored {
        Some(s) => Ok(
            ClaimedSession {
                client_identifier: claim.client_identifier,
                delete: StoreDelete { key: claim.state_key },
                server_state: s,
                is_fake_record: claim.is_fake_record,
                owned: claim.owned,
            },
        ),
        None => Err(AuthError::SessionExpired),
    }
}

/// What login-finish hands to the PAKE primitive.
pub struct LoginFinishCall {
    pub client_identifier: String,
    pub server_state: Vec<u8>,
    pub credential_finalization: Vec<u8>,
    pub is_fake_record: bool,
}

/// Checks that the claimed token was the identifier's own, then decodes the
/// stored state and the client's finalization. A token of another
/// identifier and a decoding failure are reported as a failed
/// authentication, like a failed verification.
pub fn prepare_login_finish(session: ClaimedSession, finalization: &str) -> (r: Result<
    LoginFinishCall,
    AuthError,
>)
    ensures
        !session.owned ==> r == Err::<LoginFinishCall, AuthError>(AuthError::AuthenticationFailed),
        match r {
            Ok(c) => {
                &&& session.owned
                &&& base64_decoded(session.server_state@) == Some(c.server_state@)
                &&& base64_decoded(finalization@) == Some(c.credential_finalization@)
                &&& c.client_identifier@ == session.client_identifier@
                &&& c.is_fake_record == session.is_fake_record
            },
            Err(e) => e == AuthError::AuthenticationFailed && (!session.owned || base64_decoded(
                session.server_state@,
            ) is None || base64_decoded(finalization@) is None),
        },
{
    if !session.owned {
        return Err(AuthError::AuthenticationFailed);
    }
    let server_state = match decode_base64(session.server_state.as_str()) {
        Some(b) => b,
        None => return Err(AuthError::AuthenticationFailed),
    };
    let credential_finalization = match decode_base64(finalization) {
        Some(b) => b,
        None => return Err(AuthError::AuthenticationFailed),
    };
    Ok(
        LoginFinishCall {
            client_identifier: session.client_identifier,
            server_state,
            credential_finalization,
            is_fake_record: session.is_fake_record,
        },
    )
}

/// The outcome of a login from the PAKE primitive's verdict (the session key
/// it derived, or `None` where it refused). A session on a fake record never
/// succeeds, even if the primitive accepted it.
pub open spec fn login_verdict(is_fake: bool, verdict: Option<Seq<u8>>) -> Result<Seq<u8>, AuthError> {
    if is_fake {
        Err(AuthError::AuthenticationFailed)
    } else {
        match verdict {
            Some(k) => Ok(k),
            None => Err(AuthError::AuthenticationFailed),
        }
    }
}

pub open spec fn verdict_of(result: Result<LoginFinishResult, String>) -> Option<Seq<u8>> {
    match result {
        Ok(s) => Some(s.session_key@),
        Err(_) => None,
    }
}

/// Decides a login from the PAKE primitive's answer.
pub fn complete_login_finish(call: &LoginFinishCall, result: Result<LoginFinishResult, String>) -> (r: Result<
    Vec<u8>,
    AuthError,
>)
    ensures
        match r {
            Ok(k) => login_verdict(call.is_fake_record, verdict_of(result)) == Ok::<Seq<u8>, AuthError>(
                k@,
            ),
            Err(e) => login_verdict(call.is_fake_record, verdict_of(result)) == Err::<
                Seq<u8>,
                AuthError,
            >(e),
        },
{
    match result {
        Ok(s) => {
            if call.is_fake_record {
                Err(AuthError::AuthenticationFailed)
            } else {
                Ok(s.session_key)
            }
        },
        Err(_) => Err(AuthError::AuthenticationFailed),
    }
}

/// The answer to a successful login: the session key and the stored bundle,
/// if there is one.
pub fn login_finish_response(session_key: &Vec<u8>, bundle: Option<String>) -> (r: LoginFinishResponse)
    ensures
        r.success,
        r.session_key@ == base64_encoded(session_key@),
        r.session_key@.len() == base64_len(session_key@.len()),
        base64_decoded(r.session_key@) == Some(session_key@),
        opt_chars(r.encrypted_bundle) == opt_chars(bundle),
{
    LoginFinishResponse { success: true, session_key: encode_base64(session_key.as_slice()), encrypted_bundle: bundle }
}

/// A session token is good for one finish request only: after a request
/// with a well-formed identifier, the store no longer holds it, and the same
/// token sent again fails with `SessionExpired`, whether the first request
/// succeeded or not.
pub proof fn lemma_session_token_single_use(
    states: Map<Seq<char>, Seq<char>>,
    id: Seq<char>,
    key: Seq<char>,
)
    requires
        valid_client_identifier(id),
    ensures
        !states_after_finish(states, id, key).contains_key(key),
        session_lookup(id, key, stored_at(states_after_finish(states, id, key), key)) == Err::<
            (bool, Seq<char>),
            AuthError,
        >(AuthError::SessionExpired),
{
}

/// A malformed client identifier gets the same `InvalidInput(ClientIdentifier)` answer from
/// every endpoint, whatever else the request or the store holds.
pub proof fn lemma_malformed_identifier_uniform(
    id: Seq<char>,
    registration_request: Seq<char>,
    record: Seq<char>,
    exists: bool,
    login_request: Seq<char>,
    stored: Option<Seq<char>>,
    key: Seq<char>,
)
    requires
        !valid_client_identifier(id),
    ensures
        register_start_input(id, registration_request) == Err::<Seq<u8>, AuthError>(
            AuthError::InvalidInput(InputFault::ClientIdentifier),
        ),
        register_finish_outcome(id, record, exists) == Err::<(), AuthError>(AuthError::InvalidInput(InputFault::ClientIdentifier)),
        login_start_input(id, login_request, stored) == Err::<(Option<Seq<u8>>, Seq<u8>), AuthError>(
            AuthError::InvalidInput(InputFault::ClientIdentifier),
        ),
        login_finish_claim(id, key) == Err::<bool, AuthError>(AuthError::InvalidInput(InputFault::ClientIdentifier)),
{
}

/// A login started for an unknown identifier never succeeds: its token is
/// tagged fake, and a fake session fails with `AuthenticationFailed` whatever
/// the PAKE primitive made of the client's finalization.
pub proof fn lemma_fake_session_rejected(id: Seq<char>, millis: nat, verdict: Option<Seq<u8>>)
    requires
        valid_client_identifier(id),
    ensures
        login_finish_claim(id, state_key_of(id, millis, true)) == Ok::<bool, AuthError>(true),
        login_verdict(true, verdict) == Err::<Seq<u8>, AuthError>(AuthError::AuthenticationFailed),
{
    crate::keys::lemma_state_key_tag(id, millis, true);
    crate::keys::lemma_state_key_owner(id, millis, true);
}


/// The readiness answer from the outcome of each dependency probe: 200 when
/// every probe passed, 503 (degraded) otherwise.
pub fn readiness_status(probes: &Vec<bool>) -> (r: u16)
    ensures
        r == (if forall|i: int| 0 <= i < probes@.len() ==> #[trigger] probes@[i] {
            200u16
        } else {
            503u16
        }),
{
    let mut i: usize = 0;
    while i < probes.len()
        invariant
            i <= probes@.len(),
            forall|j: int| 0 <= j < i ==> #[trigger] probes@[j],
        decreases probes@.len() - i,
    {
        if !probes[i] {
            return 503;
        }
        i += 1;
    }
    200
}

/// A token issued on a stored record, found in the store and verified by
/// the PAKE primitive, ends in success with the session key the primitive
/// derived.
pub proof fn lemma_real_session_succeeds(id: Seq<char>, millis: nat, state: Seq<char>, key: Seq<u8>)
    requires
        valid_client_identifier(id),
    ensures
        session_lookup(id, state_key_of(id, millis, false), Some(state)) == Ok::<
            (bool, Seq<char>),
            AuthError,
        >((false, state)),
        login_verdict(false, Some(key)) == Ok::<Seq<u8>, AuthError>(key),
{
    crate::keys::lemma_state_key_tag(id, millis, false);
    crate::keys::lemma_state_key_owner(id, millis, false);
}

/// The start steps do not tell a malformed message from one the PAKE
/// primitive refused: both are answered with one status and one text.
pub proof fn lemma_start_failures_alike()
    ensures
        AuthError::InvalidInput(InputFault::Message).spec_status() == AuthError::ProtocolError.spec_status(),
        AuthError::InvalidInput(InputFault::Message).spec_message() == AuthError::ProtocolError.spec_message(),
{
}

} // verus!
