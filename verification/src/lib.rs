//! Bridge between a dynamically typed host and an embedded database engine:
//! value conversion, resource addressing, patch pipelines, the binary RPC
//! envelope and the session state machine that routes each call.

pub mod convert;
pub mod engine;
pub mod err;
pub mod local;
pub mod opt;
pub mod remote;
pub mod resource;
pub mod rpc;
pub mod statement;
pub mod text;
pub mod value;
