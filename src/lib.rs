//! Session orchestration for OPAQUE password authentication.
//!
//! The PAKE primitive and the key-value store stay outside: the flows in
//! `routes` take what they returned as plain values and say what to do next.
//! `identifier` checks client identifiers, `keys` builds store keys and
//! session tokens, `rate_limit` decides the sliding-window throttle, `codec`
//! is the base64 boundary, `client` derives identifiers on the client side.

pub mod client;
pub mod codec;
pub mod identifier;
pub mod keys;
pub mod opaque;
pub mod rate_limit;
pub mod routes;
