use std::collections::HashMap;

use base64::engine::general_purpose::STANDARD as BASE64;
use base64::Engine;
use opaque_auth::keys::bundle_key;
use opaque_auth::opaque::{
    LoginFinishResult, LoginStartResult, RegistrationStartResult, CREDENTIAL_RESPONSE_LEN,
    REGISTRATION_RESPONSE_LEN, SESSION_KEY_LEN,
};
use opaque_auth::routes::{
    begin_login_finish, begin_login_start, begin_register_finish, begin_register_start,
    claim_session, complete_login_finish, complete_login_start, complete_register_start,
    decide_register_finish, login_finish_response, prepare_login_finish, prepare_login_start,
    register_finish_response, AuthError, InputFault, LoginFinishRequest, LoginFinishResponse, LoginStartRequest,
    LoginStartResponse, RegisterFinishRequest, RegisterStartRequest, RegisterStartResponse,
    SuccessResponse,
};
use opaque_ke::{
    CipherSuite, ClientLogin, ClientLoginFinishParameters, ClientRegistration,
    ClientRegistrationFinishParameters, CredentialFinalization, CredentialRequest,
    CredentialResponse, RegistrationRequest, RegistrationResponse, RegistrationUpload, Ristretto255,
    ServerLogin, ServerLoginParameters, ServerRegistration, ServerSetup,
};
use rand::rngs::OsRng;

// The service's suite with the identity key-stretching function, to keep
// the tests fast; the orchestration does not depend on it.
struct Suite;

impl CipherSuite for Suite {
    type OprfCs = Ristretto255;
    type KeyExchange = opaque_ke::TripleDh<Ristretto255, sha2::Sha512>;
    type Ksf = opaque_ke::ksf::Identity;
}

const A: &str = "aaaaaaaaaaaaaaaaaaaaaaaaaaaaaaaaaaaaaaaaaaaaaaaaaaaaaaaaaaaaaaaa";
const B: &str = "bbbbbbbbbbbbbbbbbbbbbbbbbbbbbbbbbbbbbbbbbbbbbbbbbbbbbbbbbbbbbbbb";

struct Server {
    setup: ServerSetup<Suite>,
    credentials: HashMap<String, String>,
    bundles: HashMap<String, String>,
    states: HashMap<String, String>,
    clock: u64,
}

impl Server {
    fn new() -> Self {
        Server {
            setup: ServerSetup::<Suite>::new(&mut OsRng),
            credentials: HashMap::new(),
            bundles: HashMap::new(),
            states: HashMap::new(),
            clock: 1_700_000_000_000,
        }
    }

    fn register_start(&self, req: &RegisterStartRequest) -> Result<RegisterStartResponse, AuthError> {
        let call = begin_register_start(req)?;
        let result = RegistrationRequest::<Suite>::deserialize(&call.registration_request)
            .and_then(|m| ServerRegistration::<Suite>::start(&self.setup, m, call.client_identifier.as_bytes()))
            .map(|r| RegistrationStartResult { response: r.message.serialize().to_vec() })
            .map_err(|e| e.to_string());
        complete_register_start(result)
    }

    fn register_finish(&mut self, req: &RegisterFinishRequest) -> Result<SuccessResponse, AuthError> {
        let key = begin_register_finish(req)?;
        let existing = self.credentials.get(&key).cloned();
        let writes = decide_register_finish(req, existing)?;
        self.credentials.insert(writes.credential_key, writes.registration_record);
        if let Some(b) = writes.bundle {
            self.bundles.insert(b.key, b.value);
        }
        Ok(register_finish_response())
    }

    fn login_start(&mut self, req: &LoginStartRequest) -> Result<LoginStartResponse, AuthError> {
        let key = begin_login_start(req)?;
        let stored = self.credentials.get(&key).cloned();
        let call = prepare_login_start(req, stored)?;
        let record = match &call.password_file {
            Some(f) => match RegistrationUpload::<Suite>::deserialize(f) {
                Ok(u) => Some(ServerRegistration::finish(u)),
                Err(_) => return Err(AuthError::ProtocolError),
            },
            None => None,
        };
        let result = CredentialRequest::<Suite>::deserialize(&call.credential_request)
            .and_then(|m| {
                ServerLogin::start(
                    &mut OsRng,
                    &self.setup,
                    record,
                    m,
                    call.client_identifier.as_bytes(),
                    ServerLoginParameters::default(),
                )
            })
            .map(|r| LoginStartResult {
                response: r.message.serialize().to_vec(),
                state: r.state.serialize().to_vec(),
            })
            .map_err(|e| e.to_string());
        self.clock += 1;
        let plan = complete_login_start(&call, self.clock, result)?;
        self.states.insert(plan.response.state_key.clone(), plan.stored_state);
        Ok(plan.response)
    }

    fn login_finish(&mut self, req: &LoginFinishRequest) -> Result<LoginFinishResponse, AuthError> {
        let claim = begin_login_finish(req)?;
        let stored = self.states.get(&claim.state_key).cloned();
        let session = claim_session(claim, stored)?;
        self.states.remove(&session.delete.key);
        let call = prepare_login_finish(session, &req.finish_login_request)?;
        let result = ServerLogin::<Suite>::deserialize(&call.server_state)
            .and_then(|s| {
                CredentialFinalization::<Suite>::deserialize(&call.credential_finalization)
                    .and_then(|f| s.finish(f, ServerLoginParameters::default()))
            })
            .map(|r| LoginFinishResult { session_key: r.session_key.to_vec() })
            .map_err(|e| e.to_string());
        let key = complete_login_finish(&call, result)?;
        let bundle = self.bundles.get(&bundle_key(&call.client_identifier)).cloned();
        Ok(login_finish_response(&key, bundle))
    }
}

fn register(server: &mut Server, id: &str, password: &[u8], bundle: Option<&str>) -> Result<SuccessResponse, AuthError> {
    let start = ClientRegistration::<Suite>::start(&mut OsRng, password).unwrap();
    let resp = server.register_start(&RegisterStartRequest {
        client_identifier: id.into(),
        registration_request: BASE64.encode(start.message.serialize()),
    })?;
    let bytes = BASE64.decode(&resp.registration_response).unwrap();
    assert_eq!(bytes.len(), REGISTRATION_RESPONSE_LEN);
    let finish = start
        .state
        .finish(
            &mut OsRng,
            password,
            RegistrationResponse::deserialize(&bytes).unwrap(),
            ClientRegistrationFinishParameters::default(),
        )
        .unwrap();
    server.register_finish(&RegisterFinishRequest {
        client_identifier: id.into(),
        registration_record: BASE64.encode(finish.message.serialize()),
        encrypted_bundle: bundle.map(|b| b.to_string()),
    })
}

/// Runs login-start, and returns the start response, the client's
/// finalization for `password` (if the client could open the response) and
/// the client's session key.
fn login_start(server: &mut Server, id: &str, password: &[u8]) -> (LoginStartResponse, Option<(String, Vec<u8>)>) {
    let start = ClientLogin::<Suite>::start(&mut OsRng, password).unwrap();
    let resp = server
        .login_start(&LoginStartRequest {
            client_identifier: id.into(),
            start_login_request: BASE64.encode(start.message.serialize()),
        })
        .unwrap();
    let bytes = BASE64.decode(&resp.login_response).unwrap();
    assert_eq!(bytes.len(), CREDENTIAL_RESPONSE_LEN);
    let fin = start
        .state
        .finish(
            &mut OsRng,
            password,
            CredentialResponse::deserialize(&bytes).unwrap(),
            ClientLoginFinishParameters::default(),
        )
        .ok()
        .map(|f| (BASE64.encode(f.message.serialize()), f.session_key.to_vec()));
    (resp, fin)
}

fn finish_request(id: &str, token: &str, finalization: &str) -> LoginFinishRequest {
    LoginFinishRequest {
        client_identifier: id.into(),
        state_key: token.into(),
        finish_login_request: finalization.into(),
    }
}

#[test]
fn register_then_login_returns_session_key_and_bundle() {
    let mut server = Server::new();
    assert!(register(&mut server, A, b"correct horse", Some("ciphertext1")).unwrap().success);
    let (start, fin) = login_start(&mut server, A, b"correct horse");
    assert!(start.state_key.ends_with(":r"));
    let (finalization, client_key) = fin.unwrap();
    let done = server.login_finish(&finish_request(A, &start.state_key, &finalization)).unwrap();
    assert!(done.success);
    let key = BASE64.decode(&done.session_key).unwrap();
    assert_eq!(key.len(), SESSION_KEY_LEN);
    assert_eq!(key, client_key);
    assert_eq!(done.encrypted_bundle.as_deref(), Some("ciphertext1"));
}

#[test]
fn unknown_identifier_gets_fake_session_and_fails() {
    let mut server = Server::new();
    let (start, fin) = login_start(&mut server, B, b"anything");
    assert!(start.state_key.ends_with(":f"));
    assert!(fin.is_none());
    let r = server.login_finish(&finish_request(B, &start.state_key, "AQID"));
    assert_eq!(r.err(), Some(AuthError::AuthenticationFailed));
}

#[test]
fn fake_session_rejects_crafted_finalization() {
    let mut server = Server::new();
    let (start, _) = login_start(&mut server, B, b"anything");
    let crafted = BASE64.encode([0u8; 64]);
    let r = server.login_finish(&finish_request(B, &start.state_key, &crafted));
    assert_eq!(r.err(), Some(AuthError::AuthenticationFailed));
}

#[test]
fn unknown_and_known_identifiers_answer_alike() {
    let mut server = Server::new();
    register(&mut server, A, b"pw", None).unwrap();
    let (real, _) = login_start(&mut server, A, b"pw");
    let (fake, _) = login_start(&mut server, B, b"pw");
    assert!(!real.login_response.is_empty());
    assert!(!fake.login_response.is_empty());
    assert_eq!(real.login_response.len(), fake.login_response.len());
    assert_eq!(real.state_key.len(), fake.state_key.len());
}

#[test]
fn token_is_single_use_after_success() {
    let mut server = Server::new();
    register(&mut server, A, b"pw", None).unwrap();
    let (start, fin) = login_start(&mut server, A, b"pw");
    let (finalization, _) = fin.unwrap();
    let req = finish_request(A, &start.state_key, &finalization);
    let first = server.login_finish(&req).unwrap();
    assert!(first.encrypted_bundle.is_none());
    assert_eq!(server.login_finish(&req).err(), Some(AuthError::SessionExpired));
}

#[test]
fn token_is_single_use_after_failure() {
    let mut server = Server::new();
    register(&mut server, A, b"right", None).unwrap();
    let (start, fin) = login_start(&mut server, A, b"wrong");
    assert!(fin.is_none());
    let req = finish_request(A, &start.state_key, &BASE64.encode([1u8; 64]));
    assert_eq!(server.login_finish(&req).err(), Some(AuthError::AuthenticationFailed));
    assert_eq!(server.login_finish(&req).err(), Some(AuthError::SessionExpired));
}

#[test]
fn second_registration_is_refused_and_keeps_record() {
    let mut server = Server::new();
    register(&mut server, A, b"first", Some("one")).unwrap();
    let before = server.credentials.clone();
    let r = register(&mut server, A, b"second", Some("two"));
    assert_eq!(r.err(), Some(AuthError::RegistrationFailed));
    assert_eq!(server.credentials, before);
    let (start, fin) = login_start(&mut server, A, b"first");
    let (finalization, _) = fin.unwrap();
    let done = server.login_finish(&finish_request(A, &start.state_key, &finalization)).unwrap();
    assert_eq!(done.encrypted_bundle.as_deref(), Some("one"));
}

#[test]
fn foreign_token_is_consumed() {
    let mut server = Server::new();
    register(&mut server, A, b"pw", None).unwrap();
    let (start, fin) = login_start(&mut server, A, b"pw");
    let (finalization, _) = fin.unwrap();
    let stolen = finish_request(B, &start.state_key, &finalization);
    assert_eq!(server.login_finish(&stolen).err(), Some(AuthError::AuthenticationFailed));
    assert!(server.states.is_empty());
    let own = finish_request(A, &start.state_key, &finalization);
    assert_eq!(server.login_finish(&own).err(), Some(AuthError::SessionExpired));
}

#[test]
fn malformed_identifier_leaves_token_in_store() {
    let mut server = Server::new();
    register(&mut server, A, b"pw", None).unwrap();
    let (start, _) = login_start(&mut server, A, b"pw");
    let bad = finish_request("xyz", &start.state_key, "AQID");
    assert_eq!(server.login_finish(&bad).err(), Some(AuthError::InvalidInput(InputFault::ClientIdentifier)));
    assert!(server.states.contains_key(&start.state_key));
}
