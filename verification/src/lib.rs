//! The decisions of a transparent proxy.
//!
//! Connections reach the proxy without their clients knowing of it. Their first bytes tell
//! which protocol they speak ([`protocol`]), and that decides what is done with them
//! ([`server`]). Requests that come by HTTP/1 get an absolute target ([`request`], [`uri`]) and
//! lose the header fields that are meant for one connection only ([`headers`]) before the
//! proxy's own service sees them ([`service`]); requests to endpoints go out over either
//! protocol ([`client`], [`bind`]), and bodies of both are handled alike ([`body`]).
pub mod address;
pub mod bind;
pub mod body;
pub mod client;
pub mod headers;
pub mod protocol;
pub mod request;
pub mod server;
pub mod service;
pub mod text;
pub mod uri;
