//! What goes wrong while a connection is set up.

use crate::error::{joined, ErrorType};
use pingora_s2n::S2NError;
use vstd::prelude::*;

verus! {

/// A setting that s2n-tls can refuse.
#[derive(Debug, Clone, Copy, PartialEq, Eq, Structural)]
pub enum ConfigStep {
    /// The connector's certificate authority.
    CaCert,
    /// The connector's own certificate and key.
    ClientCert,
    /// That certificates are required.
    ClientKey,
    /// The security policy of the peer.
    SecurityPolicy,
    /// The certificate authority of the peer.
    PeerCa,
    /// The certificate and key for the peer.
    PeerClientCert,
    /// The application protocols.
    PeerAlpn,
    /// The configuration as a whole.
    Build,
}

impl ConfigStep {
    /// A refused setting is an internal error.
    pub fn etype(&self) -> (etype: ErrorType)
        ensures
            etype == ErrorType::InternalError,
    {
        ErrorType::InternalError
    }

    /// The refusal in words.
    pub fn explanation(&self) -> (text: &'static str)
        ensures
            text@ == match *self {
                ConfigStep::CaCert => "failed to load ca cert"@,
                ConfigStep::ClientCert => "failed to load client cert"@,
                ConfigStep::ClientKey => "failed to load client key"@,
                ConfigStep::SecurityPolicy => "invalid security policy"@,
                ConfigStep::PeerCa => "invalid peer ca cert"@,
                ConfigStep::PeerClientCert => "invalid peer client cert or key"@,
                ConfigStep::PeerAlpn => "failed to set peer alpn"@,
                ConfigStep::Build => "failed to create s2n config"@,
            },
    {
        match self {
            ConfigStep::CaCert => "failed to load ca cert",
            ConfigStep::ClientCert => "failed to load client cert",
            ConfigStep::ClientKey => "failed to load client key",
            ConfigStep::SecurityPolicy => "invalid security policy",
            ConfigStep::PeerCa => "invalid peer ca cert",
            ConfigStep::PeerClientCert => "invalid peer client cert or key",
            ConfigStep::PeerAlpn => "failed to set peer alpn",
            ConfigStep::Build => "failed to create s2n config",
        }
    }
}

/// Why there is no configuration. `E` is the error of reading a file.
#[derive(Debug)]
pub enum ConfigError<E> {
    /// A file could not be read.
    Load(E),
    /// s2n-tls refused a setting.
    Rejected(ConfigStep, S2NError),
}

/// What a [`ConfigError`] says; what s2n-tls says of its refusal is left out.
pub enum ConfigErrorView<E> {
    Load(E),
    Rejected(ConfigStep),
}

impl<E> View for ConfigError<E> {
    type V = ConfigErrorView<E>;

    open spec fn view(&self) -> ConfigErrorView<E> {
        match *self {
            ConfigError::Load(e) => ConfigErrorView::Load(e),
            ConfigError::Rejected(step, _) => ConfigErrorView::Rejected(step),
        }
    }
}

/// What becomes of the answer of s2n-tls to a setting.
pub fn accepted<T, E>(answer: Result<T, S2NError>, step: ConfigStep) -> (res: Result<
    T,
    ConfigError<E>,
>)
    ensures
        res == match answer {
            Ok(value) => Ok::<T, ConfigError<E>>(value),
            Err(cause) => Err(ConfigError::Rejected(step, cause)),
        },
{
    match answer {
        Ok(value) => Ok(value),
        Err(cause) => Err(ConfigError::Rejected(step, cause)),
    }
}

/// The error of a handshake that took too long, in words.
pub fn timeout_explanation(peer: &str, timeout: &str) -> (res: (ErrorType, String))
    ensures
        res.0 == ErrorType::ConnectTimedout,
        res.1@ == "connecting to server "@ + peer@ + ", timeout "@ + timeout@,
{
    let server = joined("connecting to server ", peer);
    let limit = joined(", timeout ", timeout);
    let text = joined(server.as_str(), limit.as_str());
    assert(text@ =~= "connecting to server "@ + peer@ + ", timeout "@ + timeout@);
    (ErrorType::ConnectTimedout, text)
}

} // verus!
