use vstd::prelude::*;

use crate::addr::Addr;

verus! {

/// A backend server that the proxy forwards requests to: its address and
/// whether the connection to it is wrapped in TLS.
#[derive(Clone, Copy, Debug, PartialEq, Eq, Structural)]
pub struct Upstream {
    /// The network address of the upstream server.
    pub address: Addr,
    /// Whether to wrap the connection to the upstream server in TLS.
    pub use_ssl: bool,
}

} // verus!
