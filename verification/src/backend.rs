//! The backend endpoint type: one downstream service eligible to receive
//! redirected traffic, identified by a host name and a port.

use vstd::prelude::*;

verus! {

/// The mathematical value of a backend endpoint: the host as a character
/// sequence, and the port number.
pub ghost struct BackendView {
    pub host: Seq<char>,
    pub port: u16,
}

/// One downstream service endpoint, a host:port pair. Immutable once built;
/// the distributor never mutates its backend set.
pub struct Backend {
    pub host: String,
    pub port: u16,
}

impl View for Backend {
    type V = BackendView;

    open spec fn view(&self) -> BackendView {
        BackendView { host: self.host@, port: self.port }
    }
}

impl Backend {
    /// Build a backend endpoint from its host name and port.
    pub fn new(host: String, port: u16) -> (b: Backend)
        ensures
            b@ == (BackendView { host: host@, port: port }),
    {
        Backend { host, port }
    }
}

impl Clone for Backend {
    fn clone(&self) -> (r: Self)
        ensures
            r@ == self@,
    {
        Backend { host: self.host.clone(), port: self.port }
    }
}

} // verus!
