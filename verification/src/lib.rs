//! PROXY protocol parsing and TLS connector configuration, with contracts
//! checked by Verus.

pub mod connectors;
pub mod error;
pub mod octets;
pub mod proxy_protocol;
pub mod socket;
