//! PROXY protocol, versions 1 and 2: what a proxy in front of this server says
//! about the connection that it forwards.
//!
//! See <https://www.haproxy.org/download/1.8/doc/proxy-protocol.txt>. The
//! `proxy-header` crate decodes the header.

pub mod entry_laws;
pub mod error;
pub mod header;
pub mod laws;
pub mod line_laws;
pub mod parse;
pub mod read_laws;
pub mod reader;
pub mod tlv_types;
pub mod view_laws;
pub mod wire;

pub use error::ProxyProtocolError;
pub use header::{ProxyProtocolHeader, ProxyProtocolVersion, Tlv};
pub use parse::parse_proxy_protocol;
pub use reader::read_proxy_protocol;
