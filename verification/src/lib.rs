//! The request-dispatch engine of a reverse HTTP proxy: services match
//! requests by header filters, may reject them by body filters or a size
//! cap, rewrite them through middleware, and pick a backend round-robin.
//! Every decision the engine takes is specified and proved here; sockets,
//! TLS and the HTTP wire protocol stay outside.

pub mod addr;
pub mod config;
pub mod error;
pub mod filter;
pub mod headers;
pub mod json;
pub mod limits;
pub mod load_balancer;
pub mod message;
pub mod middleware;
pub mod pattern;
pub mod service;
pub mod upstream;
pub mod utils;
