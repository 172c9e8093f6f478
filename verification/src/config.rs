use vstd::prelude::*;

use crate::addr::Addr;

verus! {

/// The whole configuration of the proxy: listening endpoints, routing
/// rules, and upstream server groups, each keyed by name.
pub struct Config {
    /// Entry points: the interfaces and ports the proxy listens on.
    pub entry_points: Vec<(String, EntryPoint)>,
    /// Routing rules: how requests are matched and where they go.
    pub http: Vec<(String, Http)>,
    /// Upstream server groups for forwarding.
    pub upstream: Vec<(String, Upstream)>,
}

/// One listening endpoint: its address, an optional domain pattern, and
/// optional TLS material.
pub struct EntryPoint {
    /// The address to listen on.
    pub address: Addr,
    /// An optional pattern for matching domain names.
    pub domain_name: Option<String>,
    /// TLS configuration for secure connections, if any.
    pub ssl: Option<SSL>,
}

/// TLS material for a secure entry point.
pub struct SSL {
    /// Path to the certificate file.
    pub certificate: String,
    /// Path to the private key file.
    pub private_key: String,
}

/// One routing rule: the entry point it applies to, the path pattern it
/// matches, the middleware it applies, and the upstream group it forwards
/// to.
pub struct Http {
    /// The name of the entry point this rule applies to.
    pub entry_point: String,
    /// The pattern for matching request paths.
    pub path: String,
    /// Names of middleware modules to apply, if any.
    pub middleware: Option<Vec<String>>,
    /// The name of the upstream group to forward to.
    pub pass_to: String,
}

/// One upstream server group and its balancing strategy.
pub struct Upstream {
    /// The addresses of the servers in this group.
    pub servers: Vec<String>,
    /// The name of the balancing strategy, if one was picked.
    pub loadbalancer_strategy: Option<String>,
}

} // verus!
