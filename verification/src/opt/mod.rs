//! Options that a host hands over with a call or when it opens a connection.

pub mod auth;
pub mod endpoint;
pub mod patch;
pub mod resource;
pub mod to_value;
pub mod yuse;
