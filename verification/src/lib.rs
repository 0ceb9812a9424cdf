//! A forward HTTP proxy core that authenticates clients with Basic
//! credentials and sends every proxied connection out from a pseudo-randomly
//! chosen address inside a configured IPv6 subnet.
//!
//! The crate holds the decisions of the proxy: how an egress address is
//! synthesised, when credentials are accepted, how a request is dispatched and
//! how a tunnel walks through the candidate addresses of its target. Sockets
//! and the HTTP transport are left to the program that embeds it.

pub mod allocator;
pub mod auth;
pub mod config;
pub mod credentials;
pub mod proxy;
pub mod subnet;
pub mod text;
pub mod tunnel;
