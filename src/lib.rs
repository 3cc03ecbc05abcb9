//! Client-side core of a reverse-tunnel client: the proxy configuration
//! model with its loader, and the pre-shared-key channel cipher.

pub mod config;
pub mod crypto;
pub mod frpc;
