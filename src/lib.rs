//! Request construction and client configuration for a browser-impersonating
//! HTTP client: header ordering, cookie overlay, body encoding and the plan
//! from which a client is built.

pub mod body;
pub mod client;
pub mod cookies;
pub mod header_map;
pub mod headers;
