//! The configuration of a connection to one peer.

use crate::connectors::builder;
use crate::connectors::builder::ConfigView;
use crate::connectors::connector;
use crate::connectors::connector::{create_config_builder, FileReads, SetupView, TlsConnector};
use crate::connectors::error::{accepted, ConfigError, ConfigErrorView, ConfigStep};
use pingora_s2n::{Config, ConfigBuilder, S2NPolicy};
use vstd::prelude::*;

verus! {

/// What a peer asks of the TLS connection to it.
#[derive(Debug)]
pub struct PeerTls {
    /// The longest delay that errors are answered with, in seconds.
    pub max_blinding_delay: Option<u32>,
    /// The security policy to use in place of the default one.
    pub security_policy: Option<S2NPolicy>,
    /// The PEM text of a certificate authority to trust.
    pub ca: Option<Vec<u8>>,
    /// The PEM texts of the own certificate and its key.
    pub client_cert_key: Option<(Vec<u8>, Vec<u8>)>,
    /// The application protocols to offer.
    pub alpn: Option<Vec<Vec<u8>>>,
    /// Whether the certificate of the peer is verified.
    pub verify_cert: bool,
    /// Whether the host name in that certificate is checked.
    pub verify_hostname: bool,
    /// The name to connect to in place of the SNI.
    pub alternative_cn: Option<String>,
    /// The server name.
    pub sni: String,
}

/// The application protocols to offer: those that override the peer's, if
/// given.
pub open spec fn offered(
    alpn_override: Option<Vec<Vec<u8>>>,
    peer_alpn: Option<Vec<Vec<u8>>>,
) -> Option<Seq<Seq<u8>>> {
    match (alpn_override, peer_alpn) {
        (Some(protocols), _) => Some(builder::bytes_view(protocols@)),
        (None, Some(protocols)) => Some(builder::bytes_view(protocols@)),
        (None, None) => None,
    }
}

/// What a configuration is set to once the wishes of a peer are added.
pub open spec fn peer_settings(
    config: ConfigView,
    peer: PeerTls,
    alpn: Option<Seq<Seq<u8>>>,
) -> ConfigView {
    ConfigView {
        security_policy: policy_in_force(config, peer),
        max_blinding_delay: match peer.max_blinding_delay {
            Some(seconds) => Some(seconds),
            None => config.max_blinding_delay,
        },
        trusted: match peer.ca {
            Some(pem) => config.trusted.push(pem@),
            None => config.trusted,
        },
        chain: match peer.client_cert_key {
            Some((cert, key)) => Some((cert@, key@)),
            None => config.chain,
        },
        client_auth: config.client_auth,
        protocols: match alpn {
            Some(protocols) => protocols,
            None => config.protocols,
        },
        verify_hostname: config.verify_hostname,
    }
}

/// The policy in force once that of the peer, if any, is set.
pub open spec fn policy_in_force(config: ConfigView, peer: PeerTls) -> Seq<char> {
    match peer.security_policy {
        Some(policy) => builder::policy_version(policy),
        None => config.security_policy,
    }
}

/// The policy of the peer, if any, is accepted.
pub open spec fn policy_fits(config: ConfigView, peer: PeerTls) -> bool {
    peer.security_policy matches Some(policy) ==> builder::policy_accepted(
        builder::policy_version(policy),
        config.chain,
    )
}

/// The certificate authority of the peer, if any, is accepted.
pub open spec fn ca_fits(peer: PeerTls) -> bool {
    peer.ca matches Some(pem) ==> builder::pem_trusted(pem@)
}

/// The certificate for the peer, if any, is the only one, and is accepted with
/// its key.
pub open spec fn client_cert_fits(config: ConfigView, peer: PeerTls) -> bool {
    peer.client_cert_key matches Some((cert, key)) ==> {
        &&& config.chain is None
        &&& builder::chain_accepted(policy_in_force(config, peer), cert@, key@)
    }
}

/// The application protocols, if any, can be sent.
pub open spec fn alpn_fits(alpn: Option<Seq<Seq<u8>>>) -> bool {
    alpn matches Some(protocols) ==> builder::sendable(protocols)
}

/// What adding the wishes of a peer comes to: the first that is refused decides,
/// and with none it succeeds.
pub open spec fn peer_outcome<E>(
    config: ConfigView,
    peer: PeerTls,
    alpn: Option<Seq<Seq<u8>>>,
) -> SetupView<E> {
    if !policy_fits(config, peer) {
        Err(ConfigErrorView::Rejected(ConfigStep::SecurityPolicy))
    } else if !ca_fits(peer) {
        Err(ConfigErrorView::Rejected(ConfigStep::PeerCa))
    } else if !client_cert_fits(config, peer) {
        Err(ConfigErrorView::Rejected(ConfigStep::PeerClientCert))
    } else if !alpn_fits(alpn) {
        Err(ConfigErrorView::Rejected(ConfigStep::PeerAlpn))
    } else {
        Ok(peer_settings(config, peer, alpn))
    }
}

/// What a setup comes to once the wishes of a peer are added; an error stays as
/// it is.
pub open spec fn connection_outcome<E>(
    setup: SetupView<E>,
    peer: PeerTls,
    alpn: Option<Seq<Seq<u8>>>,
) -> SetupView<E> {
    match setup {
        Ok(config) => peer_outcome(config, peer, alpn),
        Err(e) => Err(e),
    }
}

/// Add the wishes of a peer to a configuration, all but whether to verify the
/// peer's certificate and host name: its delay, policy, certificate authority
/// and client certificate, and the application protocols.
pub fn configure_for_peer<E>(
    builder: ConfigBuilder,
    peer: &PeerTls,
    alpn_override: &Option<Vec<Vec<u8>>>,
) -> (res: Result<ConfigBuilder, ConfigError<E>>)
    ensures
        connector::setup_view(res) == peer_outcome::<E>(
            builder::settings(builder),
            *peer,
            offered(*alpn_override, peer.alpn),
        ),
        res matches Ok(after) ==> builder::nul_free(builder::settings(builder))
            ==> builder::nul_free(builder::settings(after)),
        res matches Ok(after) ==> {
            let config = builder::settings(builder);
            let now = builder::settings(after);
            &&& match peer.max_blinding_delay {
                Some(seconds) => now.max_blinding_delay == Some(seconds),
                None => now.max_blinding_delay == config.max_blinding_delay,
            }
            &&& match peer.security_policy {
                Some(policy) => now.security_policy == builder::policy_version(policy),
                None => now.security_policy == config.security_policy,
            }
            &&& match peer.ca {
                Some(pem) => now.trusted == config.trusted.push(pem@),
                None => now.trusted == config.trusted,
            }
            &&& match peer.client_cert_key {
                Some((cert, key)) => now.chain == Some((cert@, key@)),
                None => now.chain == config.chain,
            }
            &&& match (*alpn_override, peer.alpn) {
                (Some(list), _) => now.protocols == builder::bytes_view(list@),
                (None, Some(list)) => now.protocols == builder::bytes_view(list@),
                (None, None) => now.protocols == config.protocols,
            }
            &&& now.client_auth == config.client_auth
            &&& now.verify_hostname == config.verify_hostname
        },
{
    let mut b = builder;

    if let Some(max_blinding_delay) = peer.max_blinding_delay {
        builder::set_max_blinding_delay(&mut b, max_blinding_delay).unwrap();
    }
    if let Some(security_policy) = &peer.security_policy {
        match accepted(
            builder::set_security_policy(&mut b, security_policy),
            ConfigStep::SecurityPolicy,
        ) {
            Ok(_) => {},
            Err(e) => return Err(e),
        }
    }
    if let Some(ca) = &peer.ca {
        match accepted(builder::trust_pem(&mut b, ca.as_slice()), ConfigStep::PeerCa) {
            Ok(_) => {},
            Err(e) => return Err(e),
        }
    }
    if let Some((cert, key)) = &peer.client_cert_key {
        match accepted(
            builder::load_pem(&mut b, cert.as_slice(), key.as_slice()),
            ConfigStep::PeerClientCert,
        ) {
            Ok(_) => {},
            Err(e) => return Err(e),
        }
    }
    let alpn = match alpn_override {
        Some(protocols) => Some(protocols),
        None => match &peer.alpn {
            Some(protocols) => Some(protocols),
            None => None,
        },
    };
    if let Some(protocols) = alpn {
        match accepted(
            builder::set_application_protocol_preference(&mut b, protocols),
            ConfigStep::PeerAlpn,
        ) {
            Ok(_) => {},
            Err(e) => return Err(e),
        }
    }
    Ok(b)
}

/// Add the wishes of a peer to a setup that succeeded, and hand on the error of
/// one that did not.
pub fn peer_config<E>(
    setup: Result<ConfigBuilder, ConfigError<E>>,
    peer: &PeerTls,
    alpn_override: &Option<Vec<Vec<u8>>>,
) -> (res: Result<ConfigBuilder, ConfigError<E>>)
    ensures
        setup matches Err(e) ==> res == Err::<ConfigBuilder, ConfigError<E>>(e),
        connector::setup_view(res) == connection_outcome(
            connector::setup_view(setup),
            *peer,
            offered(*alpn_override, peer.alpn),
        ),
        setup matches Ok(b) ==> builder::nul_free(builder::settings(b)) ==> (res matches Ok(after)
            ==> builder::nul_free(builder::settings(after))),
{
    match setup {
        Ok(b) => configure_for_peer(b, peer, alpn_override),
        Err(e) => Err(e),
    }
}

/// The configuration of a connector, whose files `load` reads, with the wishes
/// of a peer added. What remains is to turn off the verification of the peer's
/// certificate, where the peer asks for that, and [`finish_config`].
pub fn connection_config<E, F: Fn(&String) -> Result<Vec<u8>, E>>(
    tls_ctx: &TlsConnector,
    load: F,
    peer: &PeerTls,
    alpn_override: &Option<Vec<Vec<u8>>>,
) -> (res: Result<ConfigBuilder, ConfigError<E>>)
    requires
        connector::readable::<E, F>(load, tls_ctx.spec_options()),
    ensures
        exists|reads: FileReads<E>| #[trigger]
            connector::reads_of(load, tls_ctx.spec_options(), reads) && connector::setup_view(res)
                == connection_outcome(
                connector::setup_outcome(reads),
                *peer,
                offered(*alpn_override, peer.alpn),
            ),
        res matches Ok(after) ==> builder::nul_free(builder::settings(after)),
        res matches Ok(after) ==> {
            let now = builder::settings(after);
            &&& connector::ca_file(tls_ctx.spec_options()) matches Some(path) ==> {
                &&& now.trusted.len() > 0
                &&& connector::loaded_from::<E, F>(load, path, now.trusted[0])
            }
            &&& peer.ca matches Some(pem) ==> now.trusted.len() > 0 && now.trusted.last() == pem@
            &&& match (*alpn_override, peer.alpn) {
                (Some(list), _) => now.protocols == builder::bytes_view(list@),
                (None, Some(list)) => now.protocols == builder::bytes_view(list@),
                (None, None) => now.protocols.len() == 0,
            }
        },
{
    peer_config(create_config_builder(tls_ctx.options(), load), peer, alpn_override)
}

/// Finish the configuration of a connection: leave the host name unchecked,
/// where the peer asks for that, and build it.
pub fn finish_config<E>(builder: ConfigBuilder, peer: &PeerTls) -> (res: Result<
    Config,
    ConfigError<E>,
>)
    ensures
        res matches Ok(config) && builder::final_settings(config) == (ConfigView {
            verify_hostname: peer.verify_hostname && builder::settings(builder).verify_hostname,
            ..builder::settings(builder)
        }),
{
    let mut b = builder;
    if !peer.verify_hostname {
        builder::ignore_hostname(&mut b).unwrap();
    }
    accepted(builder::build(b), ConfigStep::Build)
}

impl PeerTls {
    /// Whether to turn off the verification of the peer's certificate.
    pub fn skips_cert_verification(&self) -> (skip: bool)
        ensures
            skip == !self.verify_cert,
    {
        !self.verify_cert
    }

    /// The name to connect to.
    pub fn domain(&self) -> (name: &str)
        ensures
            name@ == match self.alternative_cn {
                Some(cn) => cn@,
                None => self.sni@,
            },
    {
        match &self.alternative_cn {
            Some(cn) => cn.as_str(),
            None => self.sni.as_str(),
        }
    }
}

} // verus!
