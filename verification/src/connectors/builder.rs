//! The configuration builder of `pingora-s2n` (that of s2n-tls), one call at a
//! time.

use pingora_s2n::{Config, ConfigBuilder, IgnoreVerifyHostnameCallback, S2NError, S2NPolicy};
use vstd::prelude::*;

verus! {

/// Whether a certificate is asked of the other side.
#[derive(Debug, Clone, Copy, PartialEq, Eq, Structural)]
pub enum ClientAuth {
    Required,
    Optional,
    Never,
}

/// What a configuration is set to.
pub struct ConfigView {
    /// The security policy, by its version.
    pub security_policy: Seq<char>,
    /// The longest delay that errors are answered with, in seconds, where it is
    /// not the default.
    pub max_blinding_delay: Option<u32>,
    /// The PEM texts added to the trust store, in order.
    pub trusted: Seq<Seq<u8>>,
    /// The PEM texts of the own certificate chain and its key.
    pub chain: Option<(Seq<u8>, Seq<u8>)>,
    /// Whether a certificate is asked of the other side, where it is not the
    /// default.
    pub client_auth: Option<ClientAuth>,
    /// The application protocols offered, the preferred one first.
    pub protocols: Seq<Seq<u8>>,
    /// Whether the host name in a certificate is checked.
    pub verify_hostname: bool,
}

/// PEM text with a NUL byte in it cannot be handed to s2n-tls.
pub open spec fn has_nul(pem: Seq<u8>) -> bool {
    pem.contains(0)
}

/// No certificate or key that was set holds a NUL byte.
pub open spec fn nul_free(config: ConfigView) -> bool {
    &&& forall|i: int| 0 <= i < config.trusted.len() ==> !has_nul(#[trigger] config.trusted[i])
    &&& config.chain matches Some((certificate, key)) ==> !has_nul(certificate) && !has_nul(key)
}

/// The names of application protocols have between 1 and 255 bytes.
pub open spec fn protocols_fit(protocols: Seq<Seq<u8>>) -> bool {
    forall|i: int| 0 <= i < protocols.len() ==> 1 <= (#[trigger] protocols[i]).len() <= 255
}

/// The number of bytes that a list of application protocols is sent in: a length
/// byte and the name for each.
pub open spec fn sent_len(protocols: Seq<Seq<u8>>) -> nat
    decreases protocols.len(),
{
    if protocols.len() == 0 {
        0
    } else {
        sent_len(protocols.drop_last()) + 1 + protocols.last().len()
    }
}

/// A list of application protocols can be sent: each name fits, and so does the
/// list, whose length is sent in 16 bits.
pub open spec fn sendable(protocols: Seq<Seq<u8>>) -> bool {
    protocols_fit(protocols) && sent_len(protocols) <= 65535
}

/// A list of byte strings, by their bytes.
pub open spec fn bytes_view(list: Seq<Vec<u8>>) -> Seq<Seq<u8>> {
    list.map_values(|bytes: Vec<u8>| bytes@)
}

/// A configuration under construction.
#[verifier::external_type_specification]
#[verifier::external_body]
pub struct ExConfigBuilder(ConfigBuilder);

/// A finished configuration.
#[verifier::external_type_specification]
#[verifier::external_body]
pub struct ExConfig(Config);

/// A security policy.
#[verifier::external_type_specification]
#[verifier::external_body]
pub struct ExS2NPolicy(S2NPolicy);

/// An error of s2n-tls.
#[verifier::external_type_specification]
#[verifier::external_body]
pub struct ExS2NError(S2NError);

/// What a builder has been set to.
pub uninterp spec fn settings(builder: ConfigBuilder) -> ConfigView;

/// What a finished configuration is set to.
pub uninterp spec fn final_settings(config: Config) -> ConfigView;

/// The version that a security policy holds.
pub uninterp spec fn policy_version(policy: S2NPolicy) -> Seq<char>;

/// Whether s2n-tls, with the libcrypto that it comes with, takes the policy with
/// this version for a configuration with this own certificate chain and key.
pub uninterp spec fn policy_accepted(
    version: Seq<char>,
    chain: Option<(Seq<u8>, Seq<u8>)>,
) -> bool;

/// Whether s2n-tls takes the PEM text for certificates to trust.
pub uninterp spec fn pem_trusted(pem: Seq<u8>) -> bool;

/// Whether s2n-tls takes the PEM texts for a certificate chain and its key under
/// the policy with this version.
pub uninterp spec fn chain_accepted(
    policy: Seq<char>,
    certificate: Seq<u8>,
    key: Seq<u8>,
) -> bool;

/// `DEFAULT_TLS13` is the policy with the version `default_tls13`.
#[verifier::external_body]
pub(crate) fn default_tls13() -> (policy: S2NPolicy)
    ensures
        policy_version(policy) == "default_tls13"@,
{
    pingora_s2n::DEFAULT_TLS13
}

/// `Config::builder` starts from s2n-tls's minimal configuration: nothing is
/// trusted beyond what the build adds, there is no own certificate and no
/// application protocol, and host names are checked. Which security policy it
/// starts with is left open.
#[verifier::external_body]
pub(crate) fn new_builder() -> (builder: ConfigBuilder)
    ensures
        settings(builder) == (ConfigView {
            security_policy: settings(builder).security_policy,
            max_blinding_delay: None,
            trusted: Seq::empty(),
            chain: None,
            client_auth: None,
            protocols: Seq::empty(),
            verify_hostname: true,
        }),
{
    Config::builder()
}

/// `Builder::set_security_policy` sets the policy and nothing else. Whether it is
/// accepted depends on its version and, as certificates that are already there
/// are checked against it, on the own certificate chain. The default policy with
/// TLS 1.3 is accepted as long as there is none.
#[verifier::external_body]
pub(crate) fn set_security_policy(builder: &mut ConfigBuilder, policy: &S2NPolicy) -> (res: Result<
    (),
    S2NError,
>)
    ensures
        res is Ok ==> settings(*final(builder)) == (ConfigView {
            security_policy: policy_version(*policy),
            ..settings(*old(builder))
        }),
        res is Ok <==> policy_accepted(policy_version(*policy), settings(*old(builder)).chain),
        policy_version(*policy) == "default_tls13"@ && settings(*old(builder)).chain is None
            ==> res is Ok,
{
    builder.set_security_policy(policy).map(|_| ())
}

/// `Builder::set_max_blinding_delay` sets the delay and nothing else. It never
/// fails: s2n-tls only stores the number.
#[verifier::external_body]
pub(crate) fn set_max_blinding_delay(builder: &mut ConfigBuilder, seconds: u32) -> (res: Result<
    (),
    S2NError,
>)
    ensures
        res is Ok,
        settings(*final(builder)) == (ConfigView {
            max_blinding_delay: Some(seconds),
            ..settings(*old(builder))
        }),
{
    builder.set_max_blinding_delay(seconds).map(|_| ())
}

/// `Builder::trust_pem` adds the certificates of a PEM text to the trust store,
/// and changes nothing else. Whether they are accepted depends on the text alone:
/// a certificate that is trusted already is no error. A text with a NUL byte is
/// refused.
#[verifier::external_body]
pub(crate) fn trust_pem(builder: &mut ConfigBuilder, pem: &[u8]) -> (res: Result<(), S2NError>)
    ensures
        res is Ok <==> pem_trusted(pem@),
        res is Ok ==> {
            &&& !has_nul(pem@)
            &&& settings(*final(builder)) == (ConfigView {
                trusted: settings(*old(builder)).trusted.push(pem@),
                ..settings(*old(builder))
            })
        },
{
    builder.trust_pem(pem).map(|_| ())
}

/// `Builder::load_pem` sets the own certificate chain and its key, once, and
/// changes nothing else. A second chain is refused; whether a first one is
/// accepted depends on the policy that is set and on the two texts. Texts with a
/// NUL byte are refused.
#[verifier::external_body]
pub(crate) fn load_pem(builder: &mut ConfigBuilder, certificate: &[u8], key: &[u8]) -> (res: Result<
    (),
    S2NError,
>)
    ensures
        res is Ok <==> settings(*old(builder)).chain is None && chain_accepted(
            settings(*old(builder)).security_policy,
            certificate@,
            key@,
        ),
        res is Ok ==> {
            &&& !has_nul(certificate@)
            &&& !has_nul(key@)
            &&& settings(*final(builder)) == (ConfigView {
                chain: Some((certificate@, key@)),
                ..settings(*old(builder))
            })
        },
{
    builder.load_pem(certificate, key).map(|_| ())
}

/// `Builder::set_client_auth_type` sets whether a certificate is asked of the
/// other side and nothing else. It never fails: s2n-tls only stores the value.
#[verifier::external_body]
pub(crate) fn set_client_auth_type(builder: &mut ConfigBuilder, auth: ClientAuth) -> (res: Result<
    (),
    S2NError,
>)
    ensures
        res is Ok,
        settings(*final(builder)) == (ConfigView {
            client_auth: Some(auth),
            ..settings(*old(builder))
        }),
{
    let auth_type = match auth {
        ClientAuth::Required => pingora_s2n::ClientAuthType::Required,
        ClientAuth::Optional => pingora_s2n::ClientAuthType::Optional,
        ClientAuth::Never => pingora_s2n::ClientAuthType::None,
    };
    builder.set_client_auth_type(auth_type).map(|_| ())
}

/// `Builder::set_application_protocol_preference` replaces the list of
/// application protocols and changes nothing else. It accepts exactly the lists
/// that can be sent.
#[verifier::external_body]
pub(crate) fn set_application_protocol_preference(
    builder: &mut ConfigBuilder,
    protocols: &Vec<Vec<u8>>,
) -> (res: Result<(), S2NError>)
    ensures
        res is Ok <==> sendable(bytes_view(protocols@)),
        res is Ok ==> settings(*final(builder)) == (ConfigView {
            protocols: bytes_view(protocols@),
            ..settings(*old(builder))
        }),
{
    builder.set_application_protocol_preference(protocols).map(|_| ())
}

/// `Builder::set_verify_host_callback` with `IgnoreVerifyHostnameCallback`,
/// which accepts every name: host names are no longer checked, and nothing else
/// changes. It never fails: s2n-tls only stores the callback.
#[verifier::external_body]
pub(crate) fn ignore_hostname(builder: &mut ConfigBuilder) -> (res: Result<(), S2NError>)
    ensures
        res is Ok,
        settings(*final(builder)) == (ConfigView {
            verify_hostname: false,
            ..settings(*old(builder))
        }),
{
    builder.set_verify_host_callback(IgnoreVerifyHostnameCallback::new()).map(|_| ())
}

/// `Builder::build` adds the certificates of the system to the trust store, as
/// far as there are any, and gives the configuration as it was set. It never
/// fails: files of the system that are missing or malformed are passed over.
#[verifier::external_body]
pub(crate) fn build(builder: ConfigBuilder) -> (res: Result<Config, S2NError>)
    ensures
        res is Ok,
        res matches Ok(config) ==> final_settings(config) == settings(builder),
{
    builder.build()
}

} // verus!
