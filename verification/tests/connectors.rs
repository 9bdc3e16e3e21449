use pingora_core::connectors::config::{configure_for_peer, connection_config, finish_config};
use pingora_core::connectors::config::{peer_config, PeerTls};
use pingora_core::connectors::connector::create_config_builder;
use pingora_core::connectors::error::{timeout_explanation, ConfigError, ConfigStep};
use pingora_core::connectors::{Connector, ConnectorOptions};
use pingora_core::error::ErrorType;
use pingora_s2n::{ConfigBuilder, S2NPolicy};
use std::cell::RefCell;

/// A self-signed certificate.
const CERT: &str = "\
-----BEGIN CERTIFICATE-----\n\
MIIBhDCCASugAwIBAgIUNQCSXR2M5zBjkA16nW6/tDt8+cswCgYIKoZIzj0EAwIw\n\
FzEVMBMGA1UEAwwMdGVzdC5leGFtcGxlMCAXDTI2MTExNjA4NDUzOVoYDzIxMjYx\n\
MDIzMDg0NTM5WjAXMRUwEwYDVQQDDAx0ZXN0LmV4YW1wbGUwWTATBgcqhkjOPQIB\n\
BggqhkjOPQMBBwNCAAT3HpZH9fhcBWZ/ZDQxecEi6+NVc9tvcNaVIxmJip6EJhF1\n\
UwfhUgvsWh581ykdLsuczJqo2eRxJMylIdM0i9sFo1MwUTAdBgNVHQ4EFgQUMzwt\n\
EsGZHwKRwoql5N6Z3/HQdUgwHwYDVR0jBBgwFoAUMzwtEsGZHwKRwoql5N6Z3/HQ\n\
dUgwDwYDVR0TAQH/BAUwAwEB/zAKBggqhkjOPQQDAgNHADBEAiBnslgtXhfNwYYw\n\
hwvRGSHSDnu5AnpAhNhPI2DGcpjmiwIgGIetghCr7lb9AIW+lM9g82E7KfwDp2Ag\n\
AkdpFNWzY54=\n\
-----END CERTIFICATE-----\n\
";

/// The body of its key.
const KEY: &str = "\
MIGHAgEAMBMGByqGSM49AgEGCCqGSM49AwEHBG0wawIBAQQgsraOihjHPKNNhmI1\n\
FsnxCc3AmMXOqBJxEoxeg3IDFmehRANCAAT3HpZH9fhcBWZ/ZDQxecEi6+NVc9tv\n\
cNaVIxmJip6EJhF1UwfhUgvsWh581ykdLsuczJqo2eRxJMylIdM0i9sF\n\
";

fn key_pem() -> Vec<u8> {
    let label = "PRIVATE KEY";
    format!("-----BEGIN {}-----\n{}-----END {}-----\n", label, KEY, label).into_bytes()
}

/// Files by name.
fn load(path: &String) -> Result<Vec<u8>, String> {
    match path.as_str() {
        "cert" => Ok(CERT.as_bytes().to_vec()),
        "key" => Ok(key_pem()),
        "junk" => Ok(b"junk".to_vec()),
        "nul" => Ok(format!("{}\0", CERT).into_bytes()),
        other => Err(format!("no {}", other)),
    }
}

fn options(ca: Option<&str>, cert_key: Option<(&str, &str)>) -> Option<ConnectorOptions> {
    Some(ConnectorOptions {
        ca_file: ca.map(|s| s.to_string()),
        cert_key_file: cert_key.map(|(c, k)| (c.to_string(), k.to_string())),
    })
}

fn peer() -> PeerTls {
    PeerTls {
        max_blinding_delay: None,
        security_policy: None,
        ca: None,
        client_cert_key: None,
        alpn: None,
        verify_cert: true,
        verify_hostname: true,
        alternative_cn: None,
        sni: "example.com".to_string(),
    }
}

fn rejected<T>(res: Result<T, ConfigError<String>>) -> ConfigStep {
    match res {
        Err(ConfigError::Rejected(step, _)) => step,
        _ => panic!("not rejected"),
    }
}

fn unreadable<T>(res: Result<T, ConfigError<String>>) -> String {
    match res {
        Err(ConfigError::Load(e)) => e,
        _ => panic!("not unreadable"),
    }
}

fn for_peer(peer: &PeerTls) -> Result<ConfigBuilder, ConfigError<String>> {
    connection_config(&Connector::new(None).ctx, load, peer, &None)
}

#[test]
fn a_connector_keeps_its_options() {
    let opts = options(Some("ca"), Some(("cert", "key")));
    let connector = Connector::new(opts.clone());
    assert_eq!(*connector.ctx.options(), opts);
    assert_eq!(*connector.clone().ctx.options(), opts);
    assert_eq!(*Connector::new(None).ctx.options(), None);
}

#[test]
fn no_files_never_fail() {
    assert!(create_config_builder(&None, load).is_ok());
    assert!(create_config_builder(&options(None, None), load).is_ok());
}

#[test]
fn files_are_used() {
    assert!(create_config_builder(&options(Some("cert"), None), load).is_ok());
    assert!(create_config_builder(&options(None, Some(("cert", "key"))), load).is_ok());
    assert!(create_config_builder(&options(Some("cert"), Some(("cert", "key"))), load).is_ok());
}

#[test]
fn unreadable_files() {
    let none = |ca, ck| unreadable(create_config_builder(&options(ca, ck), load));
    assert_eq!(none(Some("a"), Some(("b", "c"))), "no a");
    assert_eq!(none(None, Some(("b", "c"))), "no b");
    assert_eq!(none(Some("cert"), Some(("cert", "c"))), "no c");
}

#[test]
fn refused_files() {
    let step = |ca, ck| rejected(create_config_builder(&options(ca, ck), load));
    assert_eq!(step(Some("junk"), None), ConfigStep::CaCert);
    assert_eq!(step(Some("nul"), None), ConfigStep::CaCert);
    // The authority is refused before the other files are looked at.
    assert_eq!(step(Some("junk"), Some(("b", "c"))), ConfigStep::CaCert);
    assert_eq!(step(None, Some(("junk", "key"))), ConfigStep::ClientCert);
    assert_eq!(step(None, Some(("cert", "junk"))), ConfigStep::ClientCert);
    assert_eq!(step(None, Some(("nul", "key"))), ConfigStep::ClientCert);
}

/// The files that a setup reads, in order.
fn files_read(ca: Option<&str>, cert_key: Option<(&str, &str)>) -> Vec<String> {
    let read = RefCell::new(Vec::new());
    let logged = |path: &String| {
        read.borrow_mut().push(path.clone());
        load(path)
    };
    let built = create_config_builder(&options(ca, cert_key), &logged).is_ok();
    let seen = read.borrow().clone();
    read.borrow_mut().clear();
    let ctx = Connector::new(options(ca, cert_key)).ctx;
    assert_eq!(connection_config(&ctx, &logged, &peer(), &None).is_ok(), built);
    assert_eq!(*read.borrow(), seen);
    seen
}

#[test]
fn files_are_read_in_order_and_only_as_far_as_needed() {
    assert!(files_read(None, None).is_empty());
    assert_eq!(files_read(Some("cert"), None), ["cert"]);
    assert_eq!(files_read(None, Some(("cert", "key"))), ["cert", "key"]);
    assert_eq!(
        files_read(Some("cert"), Some(("cert", "key"))),
        ["cert", "cert", "key"]
    );
    // An authority that cannot be read or is refused.
    assert_eq!(files_read(Some("a"), Some(("cert", "key"))), ["a"]);
    assert_eq!(files_read(Some("junk"), Some(("cert", "key"))), ["junk"]);
    // A certificate that cannot be read, and one that is refused with its key.
    assert_eq!(files_read(Some("cert"), Some(("b", "key"))), ["cert", "b"]);
    assert_eq!(files_read(None, Some(("junk", "key"))), ["junk", "key"]);
}

#[test]
fn no_options_read_no_file() {
    let never = |path: &String| -> Result<Vec<u8>, String> { panic!("read {}", path) };
    assert!(create_config_builder(&None, never).is_ok());
    assert!(connection_config(&Connector::new(None).ctx, never, &peer(), &None).is_ok());
}

#[test]
fn certificates_are_verified_unless_the_peer_says_otherwise() {
    let mut p = peer();
    assert!(!p.skips_cert_verification());
    p.verify_cert = false;
    assert!(p.skips_cert_verification());
}

#[test]
fn a_peer_without_wishes_is_never_refused() {
    let builder = match for_peer(&peer()) {
        Ok(builder) => builder,
        Err(_) => panic!("refused"),
    };
    assert!(finish_config::<String>(builder, &peer()).is_ok());
}

#[test]
fn a_peer_with_all_wishes() {
    let mut p = peer();
    p.max_blinding_delay = Some(3);
    p.security_policy = Some(S2NPolicy::from_version("20240501").unwrap());
    p.ca = Some(CERT.as_bytes().to_vec());
    p.client_cert_key = Some((CERT.as_bytes().to_vec(), key_pem()));
    p.alpn = Some(vec![b"h2".to_vec(), b"http/1.1".to_vec()]);
    p.verify_hostname = false;
    let ctx = Connector::new(options(Some("cert"), None)).ctx;
    let builder = match connection_config(&ctx, load, &p, &None) {
        Ok(builder) => builder,
        Err(_) => panic!("refused"),
    };
    assert!(finish_config::<String>(builder, &p).is_ok());
}

#[test]
fn refused_wishes() {
    let mut p = peer();
    p.security_policy = Some(S2NPolicy::from_version("no such policy").unwrap());
    assert_eq!(rejected(for_peer(&p)), ConfigStep::SecurityPolicy);

    let mut p = peer();
    p.ca = Some(b"junk".to_vec());
    assert_eq!(rejected(for_peer(&p)), ConfigStep::PeerCa);

    let mut p = peer();
    p.client_cert_key = Some((CERT.as_bytes().to_vec(), b"junk".to_vec()));
    assert_eq!(rejected(for_peer(&p)), ConfigStep::PeerClientCert);

    let mut p = peer();
    p.alpn = Some(vec![Vec::new()]);
    assert_eq!(rejected(for_peer(&p)), ConfigStep::PeerAlpn);
    p.alpn = Some(vec![vec![b'a'; 256]]);
    assert_eq!(rejected(for_peer(&p)), ConfigStep::PeerAlpn);
    p.alpn = Some(vec![vec![b'a'; 255]]);
    assert!(for_peer(&p).is_ok());
}

#[test]
fn protocols_must_fit_together() {
    // A name of 255 bytes takes 256, so 255 of them leave 255 of 65535.
    let mut p = peer();
    let mut list = vec![vec![b'a'; 255]; 255];
    list.push(vec![b'b'; 254]);
    p.alpn = Some(list.clone());
    assert!(for_peer(&p).is_ok());
    list[255].push(b'b');
    p.alpn = Some(list);
    assert_eq!(rejected(for_peer(&p)), ConfigStep::PeerAlpn);
    p.alpn = Some(Vec::new());
    assert!(for_peer(&p).is_ok());
}

#[test]
fn an_authority_may_be_trusted_twice() {
    let mut p = peer();
    p.ca = Some(CERT.as_bytes().to_vec());
    let ctx = Connector::new(options(Some("cert"), None)).ctx;
    assert!(connection_config(&ctx, load, &p, &None).is_ok());
}

#[test]
fn the_error_of_the_setup_is_handed_on() {
    let mut p = peer();
    p.ca = Some(b"junk".to_vec());
    for (ca, cert_key) in [(Some("a"), None), (None, Some(("b", "c"))), (None, Some(("cert", "c")))] {
        let setup = unreadable(create_config_builder(&options(ca, cert_key), load));
        let ctx = Connector::new(options(ca, cert_key)).ctx;
        assert_eq!(unreadable(connection_config(&ctx, load, &p, &None)), setup);
    }
    let ctx = Connector::new(options(Some("junk"), None)).ctx;
    assert_eq!(rejected(connection_config(&ctx, load, &p, &None)), ConfigStep::CaCert);
    let failed = Err(ConfigError::Load("gone".to_string()));
    assert_eq!(unreadable(peer_config(failed, &p, &None)), "gone");
    let setup = create_config_builder(&None, load);
    assert_eq!(rejected(peer_config(setup, &p, &None)), ConfigStep::PeerCa);
    let setup = create_config_builder(&None, load);
    assert!(peer_config(setup, &peer(), &None).is_ok());
}

#[test]
fn the_same_files_come_to_the_same() {
    for (ca, cert_key) in [
        (None, None),
        (Some("cert"), Some(("cert", "key"))),
        (Some("junk"), Some(("b", "c"))),
        (Some("cert"), Some(("b", "c"))),
        (Some("cert"), Some(("cert", "junk"))),
    ] {
        let connector = Connector::new(options(ca, cert_key));
        let outcome = |c: &Connector| match create_config_builder(c.ctx.options(), load) {
            Ok(_) => "accepted".to_string(),
            Err(ConfigError::Load(e)) => e,
            Err(ConfigError::Rejected(step, _)) => step.explanation().to_string(),
        };
        assert_eq!(outcome(&connector), outcome(&connector));
        assert_eq!(outcome(&connector), outcome(&connector.clone()));
    }
}

#[test]
fn wishes_are_taken_in_order() {
    let mut p = peer();
    p.ca = Some(b"junk".to_vec());
    p.alpn = Some(vec![Vec::new()]);
    assert_eq!(rejected(for_peer(&p)), ConfigStep::PeerCa);
    p.security_policy = Some(S2NPolicy::from_version("no such policy").unwrap());
    assert_eq!(rejected(for_peer(&p)), ConfigStep::SecurityPolicy);
}

#[test]
fn overriding_protocols_win() {
    let mut p = peer();
    p.alpn = Some(vec![Vec::new()]);
    let ctx = Connector::new(None).ctx;
    let good = Some(vec![b"h2".to_vec()]);
    assert!(connection_config(&ctx, load, &p, &good).is_ok());
    p.alpn = good;
    let bad = Some(vec![Vec::new()]);
    assert_eq!(rejected(connection_config(&ctx, load, &p, &bad)), ConfigStep::PeerAlpn);
}

#[test]
fn there_is_one_certificate() {
    let mut p = peer();
    p.client_cert_key = Some((CERT.as_bytes().to_vec(), key_pem()));
    assert!(for_peer(&p).is_ok());
    let ctx = Connector::new(options(None, Some(("cert", "key")))).ctx;
    assert_eq!(
        rejected(connection_config(&ctx, load, &p, &None)),
        ConfigStep::PeerClientCert
    );
    let builder = match create_config_builder(&options(None, Some(("cert", "key"))), load) {
        Ok(builder) => builder,
        Err(_) => panic!("refused"),
    };
    assert_eq!(
        rejected(configure_for_peer::<String>(builder, &p, &None)),
        ConfigStep::PeerClientCert
    );
}

#[test]
fn the_alternative_name_goes_first() {
    let mut p = peer();
    assert_eq!(p.domain(), "example.com");
    p.alternative_cn = Some("other.example".to_string());
    assert_eq!(p.domain(), "other.example");
}

#[test]
fn refusals_in_words() {
    let words = [
        (ConfigStep::CaCert, "failed to load ca cert"),
        (ConfigStep::ClientCert, "failed to load client cert"),
        (ConfigStep::ClientKey, "failed to load client key"),
        (ConfigStep::SecurityPolicy, "invalid security policy"),
        (ConfigStep::PeerCa, "invalid peer ca cert"),
        (ConfigStep::PeerClientCert, "invalid peer client cert or key"),
        (ConfigStep::PeerAlpn, "failed to set peer alpn"),
        (ConfigStep::Build, "failed to create s2n config"),
    ];
    for (step, text) in words {
        assert_eq!(step.explanation(), text);
        assert_eq!(step.etype(), ErrorType::InternalError);
    }
}

#[test]
fn timeouts_in_words() {
    let (etype, text) = timeout_explanation("peer-1", "5s");
    assert_eq!(etype, ErrorType::ConnectTimedout);
    assert_eq!(text, "connecting to server peer-1, timeout 5s");
}
