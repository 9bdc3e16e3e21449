//! Connecting to upstream servers over TLS.

pub mod builder;
pub mod config;
pub mod connector;
pub mod error;
pub mod laws;
pub mod outcome_laws;

pub use connector::{Connector, ConnectorOptions, TlsConnector};
