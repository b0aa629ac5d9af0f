//! The binary RPC protocol: wire trees, envelopes, methods and the session
//! state machine.

pub mod cbor;
pub mod codec;
pub mod dispatch;
pub mod envelope;
pub mod method;
pub mod session;
