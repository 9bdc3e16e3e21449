//! What a configuration is set to, and what a refusal comes to, setting by
//! setting.

use crate::connectors::builder;
use crate::connectors::builder::{ClientAuth, ConfigView};
use crate::connectors::config;
use crate::connectors::config::PeerTls;
use crate::connectors::connector;
use crate::connectors::connector::{ConnectorOptions, FileReads, SetupView, TlsConnector};
use crate::connectors::error::{ConfigError, ConfigErrorView, ConfigStep};
use pingora_s2n::ConfigBuilder;
use vstd::prelude::*;

verus! {

/// A setup that succeeds trusts the authority of its file, and no other; has the
/// certificate and the key of their files, and then requires certificates, or
/// none; and leaves all else as it is by default.
pub proof fn law_setup_is_made_of_its_files<E>(reads: FileReads<E>)
    ensures
        connector::setup_outcome(reads) matches Ok(config) ==> {
            &&& reads.ca matches Some(Ok(pem)) ==> config.trusted.contains(pem)
            &&& forall|pem: Seq<u8>| #[trigger]
                config.trusted.contains(pem) ==> (reads.ca matches Some(Ok(p)) && p == pem)
            &&& config.trusted.len() <= 1
            &&& reads.ca is None ==> config.trusted.len() == 0
            &&& reads.cert_key matches Some((Ok(certificate), Ok(key))) ==> {
                &&& config.chain == Some((certificate, key))
                &&& config.client_auth == Some(ClientAuth::Required)
            }
            &&& reads.cert_key is None ==> config.chain is None && config.client_auth is None
            &&& config.security_policy == "default_tls13"@
            &&& config.max_blinding_delay is None
            &&& config.protocols.len() == 0
            &&& config.verify_hostname
        },
{
    if let Ok(config) = connector::setup_outcome(reads) {
        if let Some(Ok(pem)) = reads.ca {
            assert(config.trusted[0] == pem);
        }
    }
}

/// The authority of a connector is trusted on its connections, whatever the peer
/// asks for; so is that of the peer.
pub proof fn law_authorities_are_trusted<E>(
    reads: FileReads<E>,
    peer: PeerTls,
    alpn: Option<Seq<Seq<u8>>>,
)
    ensures
        config::connection_outcome(connector::setup_outcome(reads), peer, alpn) matches Ok(config)
            ==> {
            &&& reads.ca matches Some(Ok(pem)) ==> config.trusted.contains(pem)
            &&& peer.ca matches Some(pem) ==> config.trusted.contains(pem@)
        },
{
    if let Ok(after) = config::connection_outcome(connector::setup_outcome(reads), peer, alpn) {
        if let Some(Ok(pem)) = reads.ca {
            assert(after.trusted[0] == pem);
        }
        if let Some(pem) = peer.ca {
            assert(after.trusted.last() == pem@);
        }
    }
}

/// What is read is what `load` gave for the very files that are named: the
/// authority from its file, the certificate from its own and the key from its
/// own.
pub proof fn law_reads_are_of_the_named_files<E, F: Fn(&String) -> Result<Vec<u8>, E>>(
    load: F,
    conf: ConnectorOptions,
    reads: FileReads<E>,
)
    requires
        connector::reads_of(load, Some(conf), reads),
    ensures
        conf.ca_file is None <==> reads.ca is None,
        conf.ca_file matches Some(path) ==> (reads.ca matches Some(read) && connector::read_from(
            load,
            path,
            read,
        )),
        connector::setup_outcome(reads) is Ok ==> {
            &&& conf.cert_key_file is None <==> reads.cert_key is None
            &&& conf.cert_key_file matches Some((cert, key)) ==> {
                &&& reads.cert_key matches Some((cert_read, key_read))
                &&& connector::read_from(load, cert, cert_read)
                &&& connector::read_from(load, key, key_read)
            }
        },
{
}

/// What is read of a file is what `load` gave when it was called with its name.
pub proof fn law_read_is_what_load_gave<E, F: Fn(&String) -> Result<Vec<u8>, E>>(
    load: F,
    path: String,
    read: Result<Seq<u8>, E>,
)
    ensures
        connector::read_from(load, path, read) ==> exists|given: Result<Vec<u8>, E>| #[trigger]
            call_ensures(load, (&path,), given) && match given {
                Ok(bytes) => read matches Ok(pem) && pem == bytes@,
                Err(e) => read matches Err(error) && error == e,
            },
{
    if connector::read_from(load, path, read) {
        match read {
            Ok(pem) => {
                let bytes = choose|bytes: Vec<u8>|
                    bytes@ == pem && #[trigger] connector::gives::<E, F>(load, path, bytes);
                assert(connector::gives::<E, F>(load, path, bytes));
                assert(call_ensures(load, (&path,), Ok::<Vec<u8>, E>(bytes)));
            },
            Err(e) => {
                assert(call_ensures(load, (&path,), Err::<Vec<u8>, E>(e)));
            },
        }
    }
}

/// Without options no file is read, and the setup has no certificates.
pub proof fn law_no_options<E, F: Fn(&String) -> Result<Vec<u8>, E>>(load: F, reads: FileReads<E>)
    requires
        connector::reads_of(load, None, reads),
    ensures
        connector::setup_outcome(reads) matches Ok(config) && config.trusted.len() == 0
            && config.chain is None && config.client_auth is None,
{
}

/// Once the authority is settled, the first of these decides: a certificate that
/// cannot be read, a key that cannot be read, and a pair that is refused.
pub proof fn law_certificate_decides_next<E>(reads: FileReads<E>)
    requires
        reads.ca matches Some(ca) ==> (ca matches Ok(pem) && builder::pem_trusted(pem)),
    ensures
        reads.cert_key matches Some((Err(e), _)) ==> connector::setup_outcome(reads) == SetupView::<
            E,
        >::Err(ConfigErrorView::Load(e)),
        reads.cert_key matches Some((Ok(_), Err(e))) ==> connector::setup_outcome(reads)
            == SetupView::<E>::Err(ConfigErrorView::Load(e)),
        reads.cert_key matches Some((Ok(certificate), Ok(key))) ==> {
            !builder::chain_accepted("default_tls13"@, certificate, key)
                ==> connector::setup_outcome(reads) == SetupView::<E>::Err(
                ConfigErrorView::Rejected(ConfigStep::ClientCert),
            )
        },
{
}

/// Without an override, the protocols that are offered are the peer's own, in
/// the peer's own order; without either, those of the connector stay.
pub proof fn law_peer_protocols_are_offered<E>(
    config: ConfigView,
    peer: PeerTls,
    alpn_override: Option<Vec<Vec<u8>>>,
)
    ensures
        config::peer_outcome::<E>(
            config,
            peer,
            config::offered(alpn_override, peer.alpn),
        ) matches Ok(after) ==> {
            &&& alpn_override is None ==> {
                &&& peer.alpn matches Some(list) ==> {
                    &&& after.protocols.len() == list@.len()
                    &&& forall|i: int|
                        0 <= i < list@.len() ==> #[trigger] after.protocols[i] == list@[i]@
                }
                &&& peer.alpn is None ==> after.protocols == config.protocols
            }
            &&& alpn_override matches Some(list) ==> {
                &&& after.protocols.len() == list@.len()
                &&& forall|i: int|
                    0 <= i < list@.len() ==> #[trigger] after.protocols[i] == list@[i]@
            }
        },
{
}

/// A peer's wishes are set as they are, and what the peer does not ask for stays
/// as it was.
pub proof fn law_wishes_are_granted<E>(
    config: ConfigView,
    peer: PeerTls,
    alpn: Option<Seq<Seq<u8>>>,
)
    ensures
        config::peer_outcome::<E>(config, peer, alpn) matches Ok(after) ==> {
            &&& peer.max_blinding_delay matches Some(seconds) ==> after.max_blinding_delay == Some(
                seconds,
            )
            &&& peer.max_blinding_delay is None ==> after.max_blinding_delay
                == config.max_blinding_delay
            &&& peer.security_policy matches Some(policy) ==> after.security_policy
                == builder::policy_version(policy)
            &&& peer.security_policy is None ==> after.security_policy == config.security_policy
            &&& peer.ca matches Some(pem) ==> after.trusted == config.trusted.push(pem@)
            &&& peer.ca is None ==> after.trusted == config.trusted
            &&& peer.client_cert_key matches Some((certificate, key)) ==> after.chain == Some(
                (certificate@, key@),
            )
            &&& peer.client_cert_key is None ==> after.chain == config.chain
            &&& alpn matches Some(protocols) ==> after.protocols == protocols
            &&& alpn is None ==> after.protocols == config.protocols
            &&& after.client_auth == config.client_auth
            &&& after.verify_hostname == config.verify_hostname
        },
{
}

/// The wishes of a peer are granted exactly where s2n-tls takes the policy, the
/// authority, the certificate and the protocols; else the first of these that it
/// refuses is named.
pub proof fn law_first_refusal_decides<E>(
    config: ConfigView,
    peer: PeerTls,
    alpn: Option<Seq<Seq<u8>>>,
)
    ensures
        ({
            let outcome = config::peer_outcome::<E>(config, peer, alpn);
            let policy_taken = match peer.security_policy {
                Some(policy) => builder::policy_accepted(
                    builder::policy_version(policy),
                    config.chain,
                ),
                None => true,
            };
            let ca_taken = match peer.ca {
                Some(pem) => builder::pem_trusted(pem@),
                None => true,
            };
            let in_force = match peer.security_policy {
                Some(policy) => builder::policy_version(policy),
                None => config.security_policy,
            };
            let chain_taken = match peer.client_cert_key {
                Some((certificate, key)) => config.chain is None && builder::chain_accepted(
                    in_force,
                    certificate@,
                    key@,
                ),
                None => true,
            };
            let alpn_taken = match alpn {
                Some(protocols) => builder::sendable(protocols),
                None => true,
            };
            &&& outcome is Ok <==> policy_taken && ca_taken && chain_taken && alpn_taken
            &&& !policy_taken ==> outcome == SetupView::<E>::Err(
                ConfigErrorView::Rejected(ConfigStep::SecurityPolicy),
            )
            &&& policy_taken && !ca_taken ==> outcome == SetupView::<E>::Err(
                ConfigErrorView::Rejected(ConfigStep::PeerCa),
            )
            &&& policy_taken && ca_taken && !chain_taken ==> outcome == SetupView::<E>::Err(
                ConfigErrorView::Rejected(ConfigStep::PeerClientCert),
            )
            &&& policy_taken && ca_taken && chain_taken && !alpn_taken ==> outcome
                == SetupView::<E>::Err(ConfigErrorView::Rejected(ConfigStep::PeerAlpn))
        }),
{
}

/// A connection goes on from the configuration of the connector: a peer that asks
/// for nothing gets all of it.
pub proof fn law_connection_starts_from_the_setup<E>(
    config: ConfigView,
    peer: PeerTls,
    alpn: Option<Seq<Seq<u8>>>,
)
    requires
        peer.max_blinding_delay is None,
        peer.security_policy is None,
        peer.ca is None,
        peer.client_cert_key is None,
        alpn is None,
    ensures
        config::connection_outcome(SetupView::<E>::Ok(config), peer, alpn) == SetupView::<E>::Ok(
            config,
        ),
{
}

/// Nothing else about a peer shows in the configuration: peers that ask for the
/// same delay, policy, authority and certificate, under any names, get the same.
pub proof fn law_only_wishes_count<E>(
    setup: SetupView<E>,
    peer: PeerTls,
    other: PeerTls,
    alpn: Option<Seq<Seq<u8>>>,
)
    requires
        peer.max_blinding_delay == other.max_blinding_delay,
        peer.security_policy == other.security_policy,
        peer.ca == other.ca,
        peer.client_cert_key == other.client_cert_key,
    ensures
        config::connection_outcome(setup, peer, alpn) == config::connection_outcome(
            setup,
            other,
            alpn,
        ),
{
}

/// Protocols, one by one and byte by byte.
pub proof fn law_protocols_view(list: Seq<Vec<u8>>)
    ensures
        builder::bytes_view(list).len() == list.len(),
        forall|i: int|
            0 <= i < list.len() ==> #[trigger] builder::bytes_view(list)[i] == list[i]@,
{
}

/// The outcome of a setup, by what it is set to or by the error.
pub proof fn law_setup_view<E>(res: Result<ConfigBuilder, ConfigError<E>>)
    ensures
        res matches Ok(b) ==> connector::setup_view(res) == SetupView::<E>::Ok(
            builder::settings(b),
        ),
        res matches Err(ConfigError::Load(e)) ==> connector::setup_view(res) == SetupView::<E>::Err(
            ConfigErrorView::Load(e),
        ),
        res matches Err(ConfigError::Rejected(step, _)) ==> connector::setup_view(res)
            == SetupView::<E>::Err(ConfigErrorView::Rejected(step)),
{
}

/// Options, by the names that they hold.
pub proof fn law_options_view(conf: ConnectorOptions)
    ensures
        conf@.ca_file is None <==> conf.ca_file is None,
        conf.ca_file matches Some(path) ==> conf@.ca_file == Some(path@),
        conf@.cert_key_file is None <==> conf.cert_key_file is None,
        conf.cert_key_file matches Some((cert, key)) ==> conf@.cert_key_file == Some(
            (cert@, key@),
        ),
        connector::named(Some(conf)) == conf@,
        connector::named(None).ca_file is None,
        connector::named(None).cert_key_file is None,
{
}

/// A connector, by its options.
pub proof fn law_connector_view(ctx: TlsConnector)
    ensures
        ctx@ is None <==> ctx.spec_options() is None,
        ctx.spec_options() matches Some(conf) ==> ctx@ == Some(conf@),
{
}

} // verus!
