//! An intercepting HTTP/HTTPS forward proxy: host policy, certificate
//! profiles and caching, request framing and the decisions of each connection.
pub mod ca;
pub mod cache;
pub mod codec;
pub mod config;
pub mod proxy;
pub mod state;
pub mod stream;
pub mod target;
