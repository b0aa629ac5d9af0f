//! An engine reached over the network.

use crate::rpc::session::Session;
use crate::rpc::session::SessionView;
use vstd::prelude::*;

verus! {

/// A remote engine as the host sees it: its address and the session of
/// the host.
#[derive(Debug, PartialEq, Eq)]
pub struct Remote {
    pub url: String,
    pub session: Session,
}

impl Remote {
    /// An engine at the given address, with a fresh session.
    pub fn new(url: String) -> (r: Remote)
        ensures
            r.url == url,
            r.session@ == SessionView::fresh(),
    {
        Remote { url, session: Session::new() }
    }
}

} // verus!
