//! The decisions of an HTTP CONNECT proxy.

pub mod connect;
pub mod laws;
pub mod outside;
pub mod parse_req;
pub mod resp;
pub mod wire;
