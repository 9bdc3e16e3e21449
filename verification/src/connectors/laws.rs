//! What holds of the configuration of a connection.

use crate::connectors::builder;
use crate::connectors::builder::{ClientAuth, ConfigView};
use crate::connectors::config;
use crate::connectors::config::PeerTls;
use crate::connectors::connector;
use crate::connectors::connector::{ConnectorOptions, FileReads, SetupView};
use crate::connectors::error::{ConfigErrorView, ConfigStep};
use vstd::prelude::*;

verus! {

/// What a connector trusts stays trusted, whatever a peer asks for: the
/// authority of the peer comes on top.
pub proof fn law_trust_is_kept(config: ConfigView, peer: PeerTls, alpn: Option<Seq<Seq<u8>>>)
    ensures
        config.trusted.is_prefix_of(config::peer_settings(config, peer, alpn).trusted),
{
    let after = config::peer_settings(config, peer, alpn).trusted;
    assert(config.trusted =~= after.subrange(0, config.trusted.len() as int));
}

/// A peer that asks for nothing gets the configuration of the connector.
pub proof fn law_no_wish_no_change(config: ConfigView, peer: PeerTls)
    requires
        peer.max_blinding_delay is None,
        peer.security_policy is None,
        peer.ca is None,
        peer.client_cert_key is None,
    ensures
        config::peer_settings(config, peer, None) == config,
{
}

/// Protocols that override those of the peer are the ones that are offered.
pub proof fn law_override_wins(
    config: ConfigView,
    peer: PeerTls,
    alpn_override: Vec<Vec<u8>>,
)
    ensures
        config::peer_settings(
            config,
            peer,
            config::offered(Some(alpn_override), peer.alpn),
        ).protocols == builder::bytes_view(alpn_override@),
{
}

/// Certificates are required exactly where the connector has one of its own,
/// and a peer does not change that.
pub proof fn law_client_auth(
    ca: Option<Seq<u8>>,
    cert_key: Option<(Seq<u8>, Seq<u8>)>,
    peer: PeerTls,
    alpn: Option<Seq<Seq<u8>>>,
)
    ensures
        config::peer_settings(
            connector::connector_settings(ca, cert_key),
            peer,
            alpn,
        ).client_auth == (if cert_key is Some {
            Some(ClientAuth::Required)
        } else {
            None
        }),
{
}

/// A connector with a certificate of its own cannot serve a peer that comes
/// with another.
pub proof fn law_one_certificate<E>(
    config: ConfigView,
    peer: PeerTls,
    alpn: Option<Seq<Seq<u8>>>,
)
    requires
        config.chain is Some,
        peer.client_cert_key is Some,
    ensures
        config::peer_outcome::<E>(config, peer, alpn) is Err,
{
}

/// `load` gives the same for a name whenever it is called.
pub open spec fn steady<E, F: Fn(&String) -> Result<Vec<u8>, E>>(load: F) -> bool {
    forall|path: String, read: Result<Seq<u8>, E>, other_path: String, other: Result<Seq<u8>, E>|
        #[trigger] connector::read_from(load, path, read) && #[trigger] connector::read_from(
            load,
            other_path,
            other,
        ) && path@ == other_path@ ==> read == other
}

/// Connectors that name the same files, which hold the same whenever they are
/// read, come to the same setup; so do a connector and its clone. No options
/// count as options that name no file.
pub proof fn law_same_files_same_setup<E, F: Fn(&String) -> Result<Vec<u8>, E>>(
    load: F,
    options: Option<ConnectorOptions>,
    reads: FileReads<E>,
    other_options: Option<ConnectorOptions>,
    other_reads: FileReads<E>,
)
    requires
        steady(load),
        connector::named(options) == connector::named(other_options),
        connector::reads_of(load, options, reads),
        connector::reads_of(load, other_options, other_reads),
    ensures
        connector::setup_outcome(reads) == connector::setup_outcome(other_reads),
{
}

/// A `load` that can be called for any file can be called for those of a
/// connector.
pub proof fn law_any_file_readable<E, F: Fn(&String) -> Result<Vec<u8>, E>>(
    load: F,
    options: Option<ConnectorOptions>,
)
    requires
        forall|path: &String| #[trigger] call_requires(load, (path,)),
    ensures
        connector::readable::<E, F>(load, options),
{
}

/// A `load` need not be callable for any file where none is named.
pub proof fn law_no_file_needed<E, F: Fn(&String) -> Result<Vec<u8>, E>>(load: F)
    ensures
        connector::readable::<E, F>(load, None),
{
}

/// An authority that cannot be read or is refused decides the setup, whatever
/// the other files hold.
pub proof fn law_authority_comes_first<E>(
    ca: Result<Seq<u8>, E>,
    cert_key: Option<(Result<Seq<u8>, E>, Result<Seq<u8>, E>)>,
)
    requires
        ca matches Ok(pem) ==> !builder::pem_trusted(pem),
    ensures
        connector::setup_outcome(FileReads { ca: Some(ca), cert_key }) == (match ca {
            Ok(_) => SetupView::<E>::Err(ConfigErrorView::Rejected(ConfigStep::CaCert)),
            Err(e) => SetupView::<E>::Err(ConfigErrorView::Load(e)),
        }),
{
}

/// A setup succeeds exactly when all the files that are named can be read and
/// are accepted.
pub proof fn law_setup_succeeds<E>(reads: FileReads<E>)
    ensures
        connector::setup_outcome(reads) is Ok <==> {
            &&& reads.ca matches Some(ca) ==> (ca matches Ok(pem) && builder::pem_trusted(pem))
            &&& reads.cert_key matches Some((cert, key)) ==> (cert matches Ok(c) && (
            key matches Ok(k) && builder::chain_accepted("default_tls13"@, c, k)))
        },
{
}

/// The error of a setup is that of the connection, whatever the peer asks for.
pub proof fn law_setup_error_handed_on<E>(
    error: ConfigErrorView<E>,
    peer: PeerTls,
    alpn: Option<Seq<Seq<u8>>>,
)
    ensures
        config::connection_outcome(SetupView::<E>::Err(error), peer, alpn) == SetupView::<E>::Err(
            error,
        ),
{
}

/// A peer that asks for none of the settings that can be refused is never
/// refused.
pub proof fn law_nothing_to_refuse<E>(config: ConfigView, peer: PeerTls)
    requires
        peer.security_policy is None,
        peer.ca is None,
        peer.client_cert_key is None,
    ensures
        config::peer_outcome::<E>(config, peer, None) is Ok,
{
}

} // verus!
