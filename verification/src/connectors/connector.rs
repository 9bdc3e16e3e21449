//! Connectors and the files that they take certificates from.

use crate::connectors::builder;
use crate::connectors::builder::{ClientAuth, ConfigView};
use crate::connectors::error::{accepted, ConfigError, ConfigErrorView, ConfigStep};
use pingora_s2n::ConfigBuilder;
use vstd::prelude::*;

verus! {

/// The files that a connector takes its certificates from.
#[derive(Debug, PartialEq, Eq)]
pub struct ConnectorOptions {
    /// The certificate authority to trust.
    pub ca_file: Option<String>,
    /// The own certificate and its key.
    pub cert_key_file: Option<(String, String)>,
}

/// The names of the files of a connector.
pub struct OptionsView {
    pub ca_file: Option<Seq<char>>,
    pub cert_key_file: Option<(Seq<char>, Seq<char>)>,
}

impl View for ConnectorOptions {
    type V = OptionsView;

    open spec fn view(&self) -> OptionsView {
        OptionsView {
            ca_file: match self.ca_file {
                Some(file) => Some(file@),
                None => None,
            },
            cert_key_file: match self.cert_key_file {
                Some((cert, key)) => Some((cert@, key@)),
                None => None,
            },
        }
    }
}

impl Clone for ConnectorOptions {
    fn clone(&self) -> (copy: Self)
        ensures
            copy@ == self@,
            copy.ca_file is Some <==> self.ca_file is Some,
            self.ca_file matches Some(file) ==> copy.ca_file->0@ == file@,
            copy.cert_key_file is Some <==> self.cert_key_file is Some,
            self.cert_key_file matches Some((cert, key)) ==> (copy.cert_key_file matches Some(
                (cert_copy, key_copy),
            ) && cert_copy@ == cert@ && key_copy@ == key@),
    {
        ConnectorOptions {
            ca_file: match &self.ca_file {
                Some(file) => Some(file.clone()),
                None => None,
            },
            cert_key_file: match &self.cert_key_file {
                Some((cert, key)) => Some((cert.clone(), key.clone())),
                None => None,
            },
        }
    }
}

/// What a TLS connection is made from.
#[derive(Debug)]
pub struct TlsConnector {
    options: Option<ConnectorOptions>,
}

impl TlsConnector {
    /// The files to take certificates from, if any.
    pub closed spec fn spec_options(&self) -> Option<ConnectorOptions> {
        self.options
    }

    /// The files to take certificates from, if any.
    pub fn options(&self) -> (options: &Option<ConnectorOptions>)
        ensures
            *options == self.spec_options(),
    {
        &self.options
    }
}

impl View for TlsConnector {
    type V = Option<OptionsView>;

    open spec fn view(&self) -> Option<OptionsView> {
        match self.spec_options() {
            Some(options) => Some(options@),
            None => None,
        }
    }
}

impl Clone for TlsConnector {
    fn clone(&self) -> (copy: Self)
        ensures
            copy@ == self@,
            copy.spec_options() is Some <==> self.spec_options() is Some,
            self.spec_options() matches Some(conf) ==> copy.spec_options()->0@ == conf@,
    {
        TlsConnector {
            options: match &self.options {
                Some(options) => Some(options.clone()),
                None => None,
            },
        }
    }
}

/// A connector to upstream servers.
#[derive(Debug)]
pub struct Connector {
    pub ctx: TlsConnector,
}

impl Clone for Connector {
    fn clone(&self) -> (copy: Self)
        ensures
            copy.ctx@ == self.ctx@,
    {
        Connector { ctx: self.ctx.clone() }
    }
}

impl Connector {
    /// Create a new connector based on the optional configurations. If no
    /// configurations are provided, no customized certificates or keys will be
    /// used.
    pub fn new(options: Option<ConnectorOptions>) -> (connector: Self)
        ensures
            connector.ctx.spec_options() == options,
    {
        Connector { ctx: TlsConnector { options } }
    }
}

/// What a builder with the default policy is set to once the given PEM texts
/// have been added: an authority to trust, and an own certificate with its key,
/// with which certificates are required.
pub open spec fn connector_settings(
    ca: Option<Seq<u8>>,
    cert_key: Option<(Seq<u8>, Seq<u8>)>,
) -> ConfigView {
    ConfigView {
        security_policy: "default_tls13"@,
        max_blinding_delay: None,
        trusted: match ca {
            Some(pem) => seq![pem],
            None => Seq::empty(),
        },
        chain: cert_key,
        client_auth: match cert_key {
            Some(_) => Some(ClientAuth::Required),
            None => None,
        },
        protocols: Seq::empty(),
        verify_hostname: true,
    }
}

/// `load` can give these bytes for the file.
pub open spec fn gives<E, F: Fn(&String) -> Result<Vec<u8>, E>>(
    load: F,
    path: String,
    bytes: Vec<u8>,
) -> bool {
    call_ensures(load, (&path,), Ok::<Vec<u8>, E>(bytes))
}

/// `pem` is what `load` gave for the file.
pub open spec fn loaded_from<E, F: Fn(&String) -> Result<Vec<u8>, E>>(
    load: F,
    path: String,
    pem: Seq<u8>,
) -> bool {
    exists|bytes: Vec<u8>| bytes@ == pem && #[trigger] gives(load, path, bytes)
}

/// `read` is what `load` gave for the file.
pub open spec fn read_from<E, F: Fn(&String) -> Result<Vec<u8>, E>>(
    load: F,
    path: String,
    read: Result<Seq<u8>, E>,
) -> bool {
    match read {
        Ok(pem) => loaded_from(load, path, pem),
        Err(e) => call_ensures(load, (&path,), Err::<Vec<u8>, E>(e)),
    }
}

/// What the files of a connector hold, or why they cannot be read.
pub struct FileReads<E> {
    /// The authority to trust, if a file is named.
    pub ca: Option<Result<Seq<u8>, E>>,
    /// The own certificate and its key, if files are named.
    pub cert_key: Option<(Result<Seq<u8>, E>, Result<Seq<u8>, E>)>,
}

/// The file of the authority that is named, if any.
pub open spec fn ca_file(options: Option<ConnectorOptions>) -> Option<String> {
    match options {
        Some(conf) => conf.ca_file,
        None => None,
    }
}

/// The files of the own certificate and its key that are named, if any.
pub open spec fn cert_key_file(options: Option<ConnectorOptions>) -> Option<(String, String)> {
    match options {
        Some(conf) => conf.cert_key_file,
        None => None,
    }
}

/// The names of the files that are named.
pub open spec fn named(options: Option<ConnectorOptions>) -> OptionsView {
    match options {
        Some(conf) => conf@,
        None => OptionsView { ca_file: None, cert_key_file: None },
    }
}

/// The authority, if a file is named, was read and is trusted.
pub open spec fn ca_settled<E>(reads: FileReads<E>) -> bool {
    match reads.ca {
        Some(Ok(pem)) => builder::pem_trusted(pem),
        Some(Err(_)) => false,
        None => true,
    }
}

/// `load` gave what `reads` holds for the file of the authority.
pub open spec fn ca_read<E, F: Fn(&String) -> Result<Vec<u8>, E>>(
    load: F,
    options: Option<ConnectorOptions>,
    reads: FileReads<E>,
) -> bool {
    match (ca_file(options), reads.ca) {
        (Some(path), Some(read)) => read_from(load, path, read),
        (None, None) => true,
        _ => false,
    }
}

/// `load` gave what `reads` holds for the file of the own certificate and, where
/// that could be read, for the file of its key.
pub open spec fn cert_key_read<E, F: Fn(&String) -> Result<Vec<u8>, E>>(
    load: F,
    options: Option<ConnectorOptions>,
    reads: FileReads<E>,
) -> bool {
    match (cert_key_file(options), reads.cert_key) {
        (Some((cert, key)), Some((cert_read, key_read))) => {
            &&& read_from(load, cert, cert_read)
            &&& cert_read is Ok ==> read_from(load, key, key_read)
        },
        (None, None) => true,
        _ => false,
    }
}

/// `load` gave what `reads` holds for the named files, as far as they are looked
/// at: those of the own certificate only once the authority is trusted, and its
/// key only once the certificate is read.
pub open spec fn reads_of<E, F: Fn(&String) -> Result<Vec<u8>, E>>(
    load: F,
    options: Option<ConnectorOptions>,
    reads: FileReads<E>,
) -> bool {
    &&& ca_read(load, options, reads)
    &&& ca_settled(reads) ==> cert_key_read(load, options, reads)
}

/// `load` can be called for the named files, as far as they are looked at: for
/// the own certificate once the authority is trusted, and for its key once the
/// certificate is read.
pub open spec fn readable<E, F: Fn(&String) -> Result<Vec<u8>, E>>(
    load: F,
    options: Option<ConnectorOptions>,
) -> bool {
    &&& ca_file(options) matches Some(path) ==> call_requires(load, (&path,))
    &&& forall|reads: FileReads<E>| #[trigger]
        ca_read(load, options, reads) && ca_settled(reads) ==> (cert_key_file(options) matches Some(
            (cert, key),
        ) ==> {
            &&& call_requires(load, (&cert,))
            &&& forall|pem: Seq<u8>| #[trigger]
                loaded_from::<E, F>(load, cert, pem) ==> call_requires(load, (&key,))
        })
}

/// What a setup comes to.
pub type SetupView<E> = Result<ConfigView, ConfigErrorView<E>>;

/// What an executed setup came to.
pub open spec fn setup_view<E>(res: Result<ConfigBuilder, ConfigError<E>>) -> SetupView<E> {
    match res {
        Ok(b) => Ok(builder::settings(b)),
        Err(e) => Err(e@),
    }
}

/// The authority that `reads` holds, if any.
pub open spec fn ca_pem<E>(reads: FileReads<E>) -> Option<Seq<u8>> {
    match reads.ca {
        Some(Ok(pem)) => Some(pem),
        _ => None,
    }
}

/// What the setup of a connector comes to, given what its files hold: the first
/// file that cannot be read or is refused decides, and with none the setup
/// succeeds.
pub open spec fn setup_outcome<E>(reads: FileReads<E>) -> SetupView<E> {
    match reads.ca {
        Some(Err(e)) => Err(ConfigErrorView::Load(e)),
        _ => if !ca_settled(reads) {
            Err(ConfigErrorView::Rejected(ConfigStep::CaCert))
        } else {
            match reads.cert_key {
                None => Ok(connector_settings(ca_pem(reads), None)),
                Some((Err(e), _)) => Err(ConfigErrorView::Load(e)),
                Some((Ok(_), Err(e))) => Err(ConfigErrorView::Load(e)),
                Some((Ok(cert), Ok(key))) => if builder::chain_accepted(
                    "default_tls13"@,
                    cert,
                    key,
                ) {
                    Ok(connector_settings(ca_pem(reads), Some((cert, key))))
                } else {
                    Err(ConfigErrorView::Rejected(ConfigStep::ClientCert))
                },
            }
        },
    }
}

/// Read a file.
fn read_pem<E, F: Fn(&String) -> Result<Vec<u8>, E>>(load: &F, path: &String) -> (res: Result<
    Vec<u8>,
    E,
>)
    requires
        call_requires(*load, (path,)),
    ensures
        match res {
            Ok(pem) => read_from(*load, *path, Ok(pem@)),
            Err(e) => read_from(*load, *path, Err(e)),
        },
{
    match load(path) {
        Ok(pem) => {
            assert(gives::<E, F>(*load, *path, pem));
            assert(loaded_from::<E, F>(*load, *path, pem@));
            Ok(pem)
        },
        Err(e) => Err(e),
    }
}

/// Start a configuration with the certificates of a connector, whose files
/// `load` reads: the authority first, then the own certificate, then its key.
/// No other file is read, and none after the first that cannot be read or is
/// refused.
///
/// The security policy is the default one with TLS 1.3 support. With no files
/// there is nothing to fail.
pub fn create_config_builder<E, F: Fn(&String) -> Result<Vec<u8>, E>>(
    options: &Option<ConnectorOptions>,
    load: F,
) -> (res: Result<ConfigBuilder, ConfigError<E>>)
    requires
        readable::<E, F>(load, *options),
    ensures
        exists|reads: FileReads<E>| #[trigger]
            reads_of(load, *options, reads) && setup_view(res) == setup_outcome(reads),
        res matches Ok(b) ==> builder::nul_free(builder::settings(b)),
        res matches Ok(b) ==> {
            let config = builder::settings(b);
            &&& match ca_file(*options) {
                Some(path) => config.trusted.len() == 1 && loaded_from::<E, F>(
                    load,
                    path,
                    config.trusted[0],
                ),
                None => config.trusted.len() == 0,
            }
            &&& match cert_key_file(*options) {
                Some((cert, key)) => {
                    &&& config.chain matches Some((certificate, own_key))
                    &&& loaded_from::<E, F>(load, cert, certificate)
                    &&& loaded_from::<E, F>(load, key, own_key)
                    &&& config.client_auth == Some(ClientAuth::Required)
                },
                None => config.chain is None && config.client_auth is None,
            }
            &&& config.security_policy == "default_tls13"@
            &&& config.max_blinding_delay is None
            &&& config.protocols.len() == 0
            &&& config.verify_hostname
        },
{
    let mut b = builder::new_builder();

    // Default security policy with TLS 1.3 support
    // https://aws.github.io/s2n-tls/usage-guide/ch06-security-policies.html
    builder::set_security_policy(&mut b, &builder::default_tls13()).unwrap();

    let ghost mut reads = FileReads::<E> { ca: None, cert_key: None };

    if let Some(conf) = options {
        if let Some(ca_path) = &conf.ca_file {
            let ca_pem = match read_pem(&load, ca_path) {
                Ok(pem) => pem,
                Err(e) => {
                    proof {
                        reads.ca = Some(Err(e));
                        assert(reads_of(load, *options, reads));
                    }
                    return Err(ConfigError::Load(e));
                },
            };
            proof {
                reads.ca = Some(Ok(ca_pem@));
                assert(ca_read(load, *options, reads));
            }
            match accepted(builder::trust_pem(&mut b, ca_pem.as_slice()), ConfigStep::CaCert) {
                Ok(_) => {},
                Err(e) => {
                    assert(reads_of(load, *options, reads));
                    return Err(e);
                },
            }
        }
        assert(ca_read(load, *options, reads) && ca_settled(reads));
        if let Some((cert_path, key_path)) = &conf.cert_key_file {
            assert(cert_key_file(*options) == Some((*cert_path, *key_path)));
            let cert_pem = match read_pem(&load, cert_path) {
                Ok(pem) => pem,
                Err(e) => {
                    proof {
                        reads.cert_key = Some((Err(e), Err(e)));
                        assert(cert_key_read(load, *options, reads));
                        assert(reads_of(load, *options, reads));
                    }
                    return Err(ConfigError::Load(e));
                },
            };
            let key_pem = match read_pem(&load, key_path) {
                Ok(pem) => pem,
                Err(e) => {
                    proof {
                        reads.cert_key = Some((Ok(cert_pem@), Err(e)));
                        assert(cert_key_read(load, *options, reads));
                        assert(reads_of(load, *options, reads));
                    }
                    return Err(ConfigError::Load(e));
                },
            };
            proof {
                reads.cert_key = Some((Ok(cert_pem@), Ok(key_pem@)));
                assert(cert_key_read(load, *options, reads));
                assert(reads_of(load, *options, reads));
            }
            match accepted(
                builder::load_pem(&mut b, cert_pem.as_slice(), key_pem.as_slice()),
                ConfigStep::ClientCert,
            ) {
                Ok(_) => {},
                Err(e) => return Err(e),
            }
            match accepted(
                builder::set_client_auth_type(&mut b, ClientAuth::Required),
                ConfigStep::ClientKey,
            ) {
                Ok(_) => {},
                Err(e) => return Err(e),
            }
        }
    }
    proof {
        assert(reads_of(load, *options, reads));
        assert(builder::settings(b).trusted =~= (setup_outcome(reads)->Ok_0).trusted);
        assert(setup_view(Ok::<ConfigBuilder, ConfigError<E>>(b)) == setup_outcome(reads));
    }
    Ok(b)
}

} // verus!
