//! The namespace and the database to work in.

use vstd::prelude::*;

verus! {

/// A namespace, a database, or both, to select.
#[derive(Debug, PartialEq, Eq)]
pub struct Use {
    pub namespace: Option<String>,
    pub database: Option<String>,
}

} // verus!
