//! Errors that cross the boundary back to the host.

use vstd::prelude::*;
use vstd::string::StringExecFns;

verus! {

/// The family an [`Error`] belongs to.
#[derive(Clone, Copy, Debug, PartialEq, Eq, Structural)]
pub enum ErrorKind {
    /// The engine failed while it ran the call.
    Engine,
    /// The endpoint address could not be understood.
    InvalidUrl,
    /// The instance was used before it was given an endpoint.
    MustInstantiate,
    /// The wire bytes or the envelope in them were malformed.
    Protocol,
    /// The credentials do not permit the operation.
    Capability,
    /// A required setting was missing or unusable.
    Configuration,
    /// The resource of the call was missing or of the wrong shape.
    Resource,
}

/// A failure of one bridge call. Every variant has a message for people;
/// protocol failures also carry a number for programs.
#[derive(Debug)]
pub enum Error {
    /// The engine's own failure, with its message kept as it was.
    DBError(String),
    /// The endpoint address could not be understood.
    InvalidUrl,
    /// The instance was used before it was given an endpoint.
    MustInstantiate,
    /// Malformed wire bytes or envelope.
    Protocol { code: i64, message: String },
    /// The credentials do not permit the operation.
    Capability(String),
    /// A required setting was missing or unusable.
    Configuration(String),
    /// The resource of the call was missing or of the wrong shape.
    Resource(String),
}

/// Code of a buffer that is no well-formed binary value.
pub const PARSE_ERROR: i64 = -32700;

/// Code of a well-formed value that is no request envelope.
pub const INVALID_REQUEST: i64 = -32600;

/// Code of a request that names no known method.
pub const METHOD_NOT_FOUND: i64 = -32601;

/// Code of a request whose parameters do not fit its method.
pub const INVALID_PARAMS: i64 = -32602;

/// Code of a failure inside the bridge or the engine.
pub const INTERNAL_ERROR: i64 = -32000;

impl Error {
    /// The family of this error.
    pub open spec fn kind(self) -> ErrorKind {
        match self {
            Error::DBError(_) => ErrorKind::Engine,
            Error::InvalidUrl => ErrorKind::InvalidUrl,
            Error::MustInstantiate => ErrorKind::MustInstantiate,
            Error::Protocol { .. } => ErrorKind::Protocol,
            Error::Capability(_) => ErrorKind::Capability,
            Error::Configuration(_) => ErrorKind::Configuration,
            Error::Resource(_) => ErrorKind::Resource,
        }
    }

    /// The message shown to people.
    pub open spec fn text(self) -> Seq<char> {
        match self {
            Error::DBError(m) => m@,
            Error::InvalidUrl => "Invalid URL"@,
            Error::MustInstantiate =>
                "You need to instantiate this instance using the init(url) method"@,
            Error::Protocol { message, .. } => message@,
            Error::Capability(m) => m@,
            Error::Configuration(m) => m@,
            Error::Resource(m) => m@,
        }
    }

    /// The number sent on the wire with this error.
    pub open spec fn code(self) -> int {
        match self {
            Error::Protocol { code, .. } => code as int,
            _ => INTERNAL_ERROR as int,
        }
    }

    /// Computes [`Error::kind`].
    pub fn get_kind(&self) -> (k: ErrorKind)
        ensures
            k == self.kind(),
    {
        match self {
            Error::DBError(_) => ErrorKind::Engine,
            Error::InvalidUrl => ErrorKind::InvalidUrl,
            Error::MustInstantiate => ErrorKind::MustInstantiate,
            Error::Protocol { .. } => ErrorKind::Protocol,
            Error::Capability(_) => ErrorKind::Capability,
            Error::Configuration(_) => ErrorKind::Configuration,
            Error::Resource(_) => ErrorKind::Resource,
        }
    }

    /// Computes [`Error::code`].
    pub fn get_code(&self) -> (c: i64)
        ensures
            c == self.code(),
    {
        match self {
            Error::Protocol { code, .. } => *code,
            _ => INTERNAL_ERROR,
        }
    }

    /// The message shown to people, as an owned string.
    pub fn message(&self) -> (m: String)
        ensures
            m@ == self.text(),
    {
        match self {
            Error::DBError(m) => m.clone(),
            Error::InvalidUrl => String::from_str("Invalid URL"),
            Error::MustInstantiate => String::from_str(
                "You need to instantiate this instance using the init(url) method",
            ),
            Error::Protocol { message, .. } => message.clone(),
            Error::Capability(m) => m.clone(),
            Error::Configuration(m) => m.clone(),
            Error::Resource(m) => m.clone(),
        }
    }
}

/// The message that goes with a protocol code.
pub open spec fn protocol_text(code: int) -> Seq<char> {
    if code == PARSE_ERROR {
        "Parse error"@
    } else if code == INVALID_REQUEST {
        "Invalid request"@
    } else if code == METHOD_NOT_FOUND {
        "Method not found"@
    } else if code == INVALID_PARAMS {
        "Invalid params"@
    } else {
        "Internal error"@
    }
}

impl Error {
    /// The protocol error with the given code and the message that goes
    /// with it.
    pub fn protocol(code: i64) -> (e: Error)
        ensures
            e.kind() == ErrorKind::Protocol,
            e.code() == code,
            e.text() == protocol_text(code as int),
    {
        let message = if code == PARSE_ERROR {
            String::from_str("Parse error")
        } else if code == INVALID_REQUEST {
            String::from_str("Invalid request")
        } else if code == METHOD_NOT_FOUND {
            String::from_str("Method not found")
        } else if code == INVALID_PARAMS {
            String::from_str("Invalid params")
        } else {
            String::from_str("Internal error")
        };
        Error::Protocol { code, message }
    }
}

} // verus!
