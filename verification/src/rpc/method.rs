//! The methods of the protocol, by name.

use crate::text::str_same;
use vstd::prelude::*;

verus! {

/// A method that a request can name.
#[derive(Clone, Copy, Debug, PartialEq, Eq, Structural)]
pub enum Method {
    Unknown,
    Use,
    Signup,
    Signin,
    Authenticate,
    Let,
    Unset,
    Query,
    Select,
    Create,
    Update,
    Merge,
    Patch,
    Delete,
    Live,
    Version,
    Health,
}

/// The method that a name stands for; `Unknown` for any name that stands
/// for none. Names are matched letter for letter, in lower case.
pub open spec fn method_of(name: Seq<char>) -> Method {
    if name == "use"@ {
        Method::Use
    } else if name == "signup"@ {
        Method::Signup
    } else if name == "signin"@ {
        Method::Signin
    } else if name == "authenticate"@ {
        Method::Authenticate
    } else if name == "set"@ || name == "let"@ {
        Method::Let
    } else if name == "unset"@ {
        Method::Unset
    } else if name == "query"@ {
        Method::Query
    } else if name == "select"@ {
        Method::Select
    } else if name == "create"@ {
        Method::Create
    } else if name == "update"@ {
        Method::Update
    } else if name == "merge"@ {
        Method::Merge
    } else if name == "patch"@ {
        Method::Patch
    } else if name == "delete"@ {
        Method::Delete
    } else if name == "live"@ {
        Method::Live
    } else if name == "version"@ {
        Method::Version
    } else if name == "health"@ || name == "ping"@ {
        Method::Health
    } else {
        Method::Unknown
    }
}

impl Method {
    /// Finds the method that a name stands for.
    pub fn parse(name: &str) -> (m: Method)
        ensures
            m == method_of(name@),
    {
        if str_same(name, "use") {
            Method::Use
        } else if str_same(name, "signup") {
            Method::Signup
        } else if str_same(name, "signin") {
            Method::Signin
        } else if str_same(name, "authenticate") {
            Method::Authenticate
        } else if str_same(name, "set") || str_same(name, "let") {
            Method::Let
        } else if str_same(name, "unset") {
            Method::Unset
        } else if str_same(name, "query") {
            Method::Query
        } else if str_same(name, "select") {
            Method::Select
        } else if str_same(name, "create") {
            Method::Create
        } else if str_same(name, "update") {
            Method::Update
        } else if str_same(name, "merge") {
            Method::Merge
        } else if str_same(name, "patch") {
            Method::Patch
        } else if str_same(name, "delete") {
            Method::Delete
        } else if str_same(name, "live") {
            Method::Live
        } else if str_same(name, "version") {
            Method::Version
        } else if str_same(name, "health") || str_same(name, "ping") {
            Method::Health
        } else {
            Method::Unknown
        }
    }
}

} // verus!
