use bytes::Bytes;
use pingora_core::error::ErrorType;
use pingora_core::proxy_protocol::parse::{convert_header, interpret, DecodedHeader};
use pingora_core::proxy_protocol::reader::{after_parse, HeaderReader, ReadStep};
use pingora_core::proxy_protocol::reader::{DETECT_LEN, MAX_BUFFERED, READ_LEN};
use pingora_core::proxy_protocol::wire::{DecodeError, MalformedTlv, TlvField};
use pingora_core::proxy_protocol::{parse_proxy_protocol, read_proxy_protocol, tlv_types};
use pingora_core::proxy_protocol::{ProxyProtocolError, ProxyProtocolHeader, ProxyProtocolVersion};
use pingora_core::socket::{InetAddr, SocketAddr};

const V2_SIGNATURE: [u8; 12] = [
    0x0D, 0x0A, 0x0D, 0x0A, 0x00, 0x0D, 0x0A, 0x51, 0x55, 0x49, 0x54, 0x0A,
];

fn inet(ip: &str, port: u16) -> SocketAddr {
    SocketAddr::Inet(InetAddr { ip: ip.to_string(), port })
}

/// A version 2 header from 192.168.1.1:12345 to 192.168.1.2:80 with the given
/// TLV section.
fn v2_tcp4(section: &[u8]) -> Vec<u8> {
    let mut header = V2_SIGNATURE.to_vec();
    header.push(0x21);
    header.push(0x11);
    header.extend_from_slice(&((12 + section.len()) as u16).to_be_bytes());
    header.extend_from_slice(&[192, 168, 1, 1, 192, 168, 1, 2]);
    header.extend_from_slice(&12345u16.to_be_bytes());
    header.extend_from_slice(&80u16.to_be_bytes());
    header.extend_from_slice(section);
    header
}

fn tlv(typ: u8, value: &[u8]) -> Vec<u8> {
    let mut entry = vec![typ];
    entry.extend_from_slice(&(value.len() as u16).to_be_bytes());
    entry.extend_from_slice(value);
    entry
}

fn parse_one(buf: &[u8]) -> (ProxyProtocolHeader, usize) {
    parse_proxy_protocol(buf).unwrap().unwrap()
}

#[test]
fn test_parse_v1_tcp4() {
    let header = b"PROXY TCP4 192.168.1.1 192.168.1.2 12345 80\r\n";

    let (result, len) = parse_proxy_protocol(header).unwrap().unwrap();

    assert_eq!(result.version, ProxyProtocolVersion::V1);
    assert!(!result.is_local);
    assert_eq!(result.source_addr, Some(inet("192.168.1.1", 12345)));
    assert_eq!(result.dest_addr, Some(inet("192.168.1.2", 80)));
    assert_eq!(len, header.len());
}

#[test]
fn test_parse_v1_tcp6() {
    let header = b"PROXY TCP6 2001:db8::1 2001:db8::2 12345 80\r\n";

    let (result, len) = parse_proxy_protocol(header).unwrap().unwrap();

    assert_eq!(result.version, ProxyProtocolVersion::V1);
    assert!(!result.is_local);
    assert_eq!(result.source_addr, Some(inet("2001:db8::1", 12345)));
    assert_eq!(result.dest_addr, Some(inet("2001:db8::2", 80)));
    assert_eq!(len, header.len());
}

#[test]
fn test_parse_v1_unknown() {
    let header = b"PROXY UNKNOWN\r\n";

    let (result, len) = parse_proxy_protocol(header).unwrap().unwrap();

    assert_eq!(result.version, ProxyProtocolVersion::V1);
    assert!(result.is_local);
    assert!(result.source_addr.is_none());
    assert_eq!(len, header.len());
}

#[test]
fn test_parse_v2_tcp4() {
    // V2 header for TCP4 192.168.1.1:12345 -> 192.168.1.2:80
    let mut header = Vec::new();
    // V2 signature
    header.extend_from_slice(&[
        0x0D, 0x0A, 0x0D, 0x0A, 0x00, 0x0D, 0x0A, 0x51, 0x55, 0x49, 0x54, 0x0A,
    ]);
    header.push(0x21); // version 2, PROXY command
    header.push(0x11); // AF_INET, STREAM
    header.extend_from_slice(&12u16.to_be_bytes()); // address length
    header.extend_from_slice(&[192, 168, 1, 1]); // src IP
    header.extend_from_slice(&[192, 168, 1, 2]); // dst IP
    header.extend_from_slice(&12345u16.to_be_bytes()); // src port
    header.extend_from_slice(&80u16.to_be_bytes()); // dst port

    let (result, len) = parse_proxy_protocol(&header).unwrap().unwrap();

    assert_eq!(result.version, ProxyProtocolVersion::V2);
    assert!(!result.is_local);
    assert_eq!(result.source_addr, Some(inet("192.168.1.1", 12345)));
    assert_eq!(result.dest_addr, Some(inet("192.168.1.2", 80)));
    assert_eq!(len, header.len());
}

#[test]
fn test_parse_v2_tcp6() {
    // V2 header for TCP6 [2001:db8::1]:12345 -> [2001:db8::2]:80
    let mut header = Vec::new();
    // V2 signature
    header.extend_from_slice(&[
        0x0D, 0x0A, 0x0D, 0x0A, 0x00, 0x0D, 0x0A, 0x51, 0x55, 0x49, 0x54, 0x0A,
    ]);
    header.push(0x21); // version 2, PROXY command
    header.push(0x21); // AF_INET6, STREAM
    header.extend_from_slice(&36u16.to_be_bytes()); // address length (16+16+2+2)

    // 2001:db8::1
    header.extend_from_slice(&[0x20, 0x01, 0x0d, 0xb8, 0, 0, 0, 0, 0, 0, 0, 0, 0, 0, 0, 1]);
    // 2001:db8::2
    header.extend_from_slice(&[0x20, 0x01, 0x0d, 0xb8, 0, 0, 0, 0, 0, 0, 0, 0, 0, 0, 0, 2]);
    header.extend_from_slice(&12345u16.to_be_bytes()); // src port
    header.extend_from_slice(&80u16.to_be_bytes()); // dst port

    let (result, len) = parse_proxy_protocol(&header).unwrap().unwrap();

    assert_eq!(result.version, ProxyProtocolVersion::V2);
    assert!(!result.is_local);
    assert_eq!(result.source_addr, Some(inet("2001:db8::1", 12345)));
    assert_eq!(result.dest_addr, Some(inet("2001:db8::2", 80)));
    assert_eq!(len, header.len());
}

#[test]
fn test_parse_v2_local() {
    // V2 header for LOCAL command
    let mut header = Vec::new();
    // V2 signature
    header.extend_from_slice(&[
        0x0D, 0x0A, 0x0D, 0x0A, 0x00, 0x0D, 0x0A, 0x51, 0x55, 0x49, 0x54, 0x0A,
    ]);
    header.push(0x20); // version 2, LOCAL command
    header.push(0x00); // UNSPEC
    header.extend_from_slice(&0u16.to_be_bytes()); // address length

    let (result, len) = parse_proxy_protocol(&header).unwrap().unwrap();

    assert_eq!(result.version, ProxyProtocolVersion::V2);
    assert!(result.is_local);
    assert!(result.source_addr.is_none());
    assert_eq!(len, header.len());
}

#[test]
fn test_parse_v2_with_tlv() {
    // V2 header with TLVs
    let mut header = Vec::new();
    // V2 signature
    header.extend_from_slice(&[
        0x0D, 0x0A, 0x0D, 0x0A, 0x00, 0x0D, 0x0A, 0x51, 0x55, 0x49, 0x54, 0x0A,
    ]);
    header.push(0x21); // version 2, PROXY command
    header.push(0x11); // AF_INET, STREAM

    // TLVs: authority "example.com" and a custom TLV (type 0xE0)
    let authority = b"example.com";
    let custom_value = b"custom-data";
    let tlv1_len = 3 + authority.len(); // type(1) + len(2) + value
    let tlv2_len = 3 + custom_value.len();
    let addr_len = 12 + tlv1_len + tlv2_len;

    header.extend_from_slice(&(addr_len as u16).to_be_bytes());
    header.extend_from_slice(&[192, 168, 1, 1]); // src IP
    header.extend_from_slice(&[192, 168, 1, 2]); // dst IP
    header.extend_from_slice(&12345u16.to_be_bytes()); // src port
    header.extend_from_slice(&80u16.to_be_bytes()); // dst port

    // TLV 1: authority
    header.push(tlv_types::AUTHORITY);
    header.extend_from_slice(&(authority.len() as u16).to_be_bytes());
    header.extend_from_slice(authority);

    // TLV 2: custom (0xE0 is in the reserved range for custom use)
    header.push(0xE0);
    header.extend_from_slice(&(custom_value.len() as u16).to_be_bytes());
    header.extend_from_slice(custom_value);

    let (result, _) = parse_proxy_protocol(&header).unwrap().unwrap();

    assert_eq!(result.authority(), Some("example.com"));
    assert_eq!(result.tlvs.len(), 2);

    let custom_tlv = result.get_tlv(0xE0).unwrap();
    assert_eq!(custom_tlv.value.as_ref(), b"custom-data");
}

#[test]
fn test_no_proxy_protocol() {
    let data = b"GET / HTTP/1.1\r\n";

    // This should return an error since it's not a valid PROXY protocol header
    let result = parse_proxy_protocol(data);
    assert!(result.is_err() || result.unwrap().is_none());
}

#[test]
fn test_incomplete_buffer() {
    // Incomplete V1 header
    let data = b"PROXY TCP4 192.168";

    let result = parse_proxy_protocol(data).unwrap();
    assert!(result.is_none()); // BufferTooShort
}

#[test]
fn malformed_input_is_explained() {
    let error = parse_proxy_protocol(b"GET / HTTP/1.1\r\n").unwrap_err();
    assert_eq!(error, ProxyProtocolError::Malformed("invalid PROXY header".to_string()));
    assert_eq!(error.etype(), ErrorType::AcceptError);
    assert_eq!(
        error.explanation(),
        "Failed to parse PROXY protocol: invalid PROXY header"
    );
}

#[test]
fn empty_input_is_incomplete() {
    assert!(parse_proxy_protocol(b"").unwrap().is_none());
}

#[test]
fn every_prefix_of_a_header_is_incomplete() {
    let header = v2_tcp4(&tlv(tlv_types::ALPN, b"h2"));
    for n in 0..header.len() {
        assert!(parse_proxy_protocol(&header[..n]).unwrap().is_none());
    }
    assert!(parse_proxy_protocol(&header).unwrap().is_some());
}

/// A version 2 header with the given parts.
fn v2(command: u8, kind: u8, addresses: &[u8], section: &[u8]) -> Vec<u8> {
    let mut buf = V2_SIGNATURE.to_vec();
    buf.push(command);
    buf.push(kind);
    buf.extend_from_slice(&((addresses.len() + section.len()) as u16).to_be_bytes());
    buf.extend_from_slice(addresses);
    buf.extend_from_slice(section);
    buf
}

#[test]
fn the_section_follows_the_addresses() {
    let section = tlv(tlv_types::ALPN, b"h2");
    for (kind, len) in [(0x00, 0), (0x11, 12), (0x12, 12), (0x21, 36), (0x22, 36), (0x31, 216), (0x32, 216)] {
        for command in [0x20, 0x21] {
            let mut addresses = vec![0; len];
            if len > 0 {
                addresses[len - 4..].copy_from_slice(&[0x01, 0x02, 0x03, 0x04]);
            }
            let mut buf = v2(command, kind, &addresses, &section);
            let whole = buf.len();
            buf.extend_from_slice(b"payload");
            let (header, n) = parse_one(&buf);
            assert_eq!(n, whole);
            assert_eq!(header.alpn(), Some(&b"h2"[..]));
            assert_eq!(header.tlvs.len(), 1);
            let proxied = command == 0x21 && (len == 12 || len == 36);
            assert_eq!(header.is_local, !proxied);
            let ip = if len == 12 { "0.0.0.0" } else { "::" };
            assert_eq!(header.source_addr, if proxied { Some(inet(ip, 0x0102)) } else { None });
            assert_eq!(header.dest_addr, if proxied { Some(inet(ip, 0x0304)) } else { None });
        }
    }
}

#[test]
fn version_2_headers_are_checked() {
    // An unknown command, an unknown kind, and too few bytes for the addresses.
    let section = [0; 216];
    assert!(parse_proxy_protocol(&v2(0x22, 0x11, &[0; 12], &section)).is_err());
    assert!(parse_proxy_protocol(&v2(0x21, 0x13, &[0; 12], &section)).is_err());
    assert!(parse_proxy_protocol(&v2(0x21, 0x31, &[0; 215], &[])).is_err());
    let mut short = v2(0x21, 0x11, &[0; 11], &[]);
    short.push(0);
    assert!(parse_proxy_protocol(&short).is_err());
}

#[test]
fn well_known_entries() {
    let mut section = tlv(tlv_types::ALPN, b"h2");
    section.extend(tlv(tlv_types::NOOP, &[0, 0, 0]));
    section.extend(tlv(tlv_types::CRC32C, &[1, 2, 3, 4]));
    section.extend(tlv(tlv_types::UNIQUE_ID, b"id-1"));
    section.extend(tlv(tlv_types::SSL, &[1, 0, 0, 0, 0]));
    section.extend(tlv(tlv_types::SSL_VERSION, b"TLSv1.3"));
    section.extend(tlv(tlv_types::SSL_CN, b"cn"));
    section.extend(tlv(tlv_types::SSL_CIPHER, b"cipher"));
    section.extend(tlv(tlv_types::SSL_SIG_ALG, b"SHA256"));
    section.extend(tlv(tlv_types::SSL_KEY_ALG, b"RSA2048"));
    section.extend(tlv(tlv_types::NETNS, b"ns"));
    let buf = v2_tcp4(&section);
    let (header, len) = parse_one(&buf);

    assert_eq!(len, buf.len());
    let kept: Vec<(u8, Vec<u8>)> =
        header.tlvs.iter().map(|t| (t.typ, t.value.to_vec())).collect();
    assert_eq!(
        kept,
        vec![
            (0x01, b"h2".to_vec()),
            (0x03, b"".to_vec()),
            (0x05, b"id-1".to_vec()),
            (0x20, b"".to_vec()),
            (0x21, b"TLSv1.3".to_vec()),
            (0x22, b"cn".to_vec()),
            (0x23, b"cipher".to_vec()),
            (0x24, b"SHA256".to_vec()),
            (0x25, b"RSA2048".to_vec()),
            (0x30, b"ns".to_vec()),
        ]
    );
    assert_eq!(header.alpn(), Some(&b"h2"[..]));
    assert_eq!(header.unique_id(), Some(&b"id-1"[..]));
    assert_eq!(header.authority(), None);
    assert_eq!(header.client_addr(), Some(&inet("192.168.1.1", 12345)));
    assert!(header.get_tlv(tlv_types::NOOP).is_none());
    assert_eq!(header.get_tlv(tlv_types::SSL_CN).unwrap().value.as_ref(), b"cn");
}

#[test]
fn missing_entries() {
    let (header, _) = parse_one(b"PROXY UNKNOWN\r\n");
    assert_eq!(header.alpn(), None);
    assert_eq!(header.authority(), None);
    assert_eq!(header.unique_id(), None);
    assert_eq!(header.client_addr(), None);
    assert_eq!(header.dest_addr, None);
    assert!(header.tlvs.is_empty());
}

#[test]
fn malformed_entries_are_skipped() {
    // A text that is not UTF-8, a checksum of three bytes and TLS information
    // of four are complete, so the entries behind them are read.
    let mut section = tlv(tlv_types::AUTHORITY, &[0xff]);
    section.extend(tlv(tlv_types::CRC32C, &[1, 2, 3]));
    section.extend(tlv(tlv_types::SSL, &[1, 0, 0, 0]));
    section.extend(tlv(0xE0, b"x"));
    // This one is cut short, so nothing behind it is.
    section.extend_from_slice(&[0xE1, 0, 9, 1]);
    let (header, _) = parse_one(&v2_tcp4(&section));
    assert_eq!(header.tlvs.len(), 1);
    assert_eq!(header.tlvs[0].typ, 0xE0);
}

#[test]
fn the_first_entry_of_a_type_counts() {
    let mut section = tlv(0xE0, b"one");
    section.extend(tlv(0xE0, b"two"));
    let (header, _) = parse_one(&v2_tcp4(&section));
    assert_eq!(header.tlvs.len(), 2);
    assert_eq!(header.get_tlv(0xE0).unwrap().value.as_ref(), b"one");
    assert_eq!(header.tlvs[1].value.as_ref(), b"two");
}

#[test]
fn a_local_command_hides_addresses_and_keeps_entries() {
    let mut buf = v2_tcp4(&tlv(tlv_types::UNIQUE_ID, b"id"));
    buf[12] = 0x20;
    let (header, _) = parse_one(&buf);
    assert!(header.is_local);
    assert_eq!(header.source_addr, None);
    assert_eq!(header.dest_addr, None);
    assert_eq!(header.unique_id(), Some(&b"id"[..]));
}

#[test]
fn the_version_goes_by_the_first_six_bytes() {
    let (header, _) = parse_one(b"PROXY UNKNOWN\r\n");
    assert_eq!(header.version, ProxyProtocolVersion::V1);
    // The decoder does not look at the sixth byte.
    let (header, _) = parse_one(b"PROXY-UNKNOWN\r\n");
    assert_eq!(header.version, ProxyProtocolVersion::V2);
}

#[test]
fn a_header_can_be_forwarded() {
    let mut buf = v2_tcp4(&tlv(tlv_types::AUTHORITY, b"example.com"));
    let whole = buf.len();
    buf.extend_from_slice(b"GET /");
    let (header, len) = parse_one(&buf);
    assert_eq!(len, whole);
    assert_eq!(header.raw_header.as_ref(), &buf[..len]);

    let mut forwarded = header.raw_header.to_vec();
    forwarded.extend_from_slice(b"another payload");
    let (again, len_again) = parse_one(&forwarded);
    assert_eq!(len_again, len);
    assert_eq!(again.raw_header, header.raw_header);
    assert_eq!(again.source_addr, header.source_addr);
    assert_eq!(again.authority(), Some("example.com"));
}

#[test]
fn clones_are_alike() {
    let (header, _) = parse_one(&v2_tcp4(&tlv(0xE0, b"x")));
    let copy = header.clone();
    assert_eq!(copy.version, header.version);
    assert_eq!(copy.is_local, header.is_local);
    assert_eq!(copy.source_addr, header.source_addr);
    assert_eq!(copy.dest_addr, header.dest_addr);
    assert_eq!(copy.raw_header, header.raw_header);
    assert_eq!(copy.tlvs.len(), 1);
    assert_eq!(copy.tlvs[0].typ, 0xE0);
    assert_eq!(copy.tlvs[0].value, header.tlvs[0].value);
}

#[test]
fn decoded_headers_are_converted() {
    let decoded = DecodedHeader {
        address: None,
        fields: vec![
            Ok(TlvField::Noop),
            Ok(TlvField::Custom(0xE0, vec![1, 2])),
            Err(MalformedTlv),
            Ok(TlvField::Unknown),
            Ok(TlvField::Crc32c),
            Ok(TlvField::Ssl),
        ],
        len: 6,
    };
    let header = convert_header(decoded, Bytes::copy_from_slice(b"PROXY "));
    assert_eq!(header.version, ProxyProtocolVersion::V1);
    assert!(header.is_local);
    let types: Vec<u8> = header.tlvs.iter().map(|t| t.typ).collect();
    assert_eq!(types, vec![0xE0, 0x03, 0x20]);
    assert_eq!(header.tlvs[0].value.as_ref(), &[1, 2]);
}

#[test]
fn outcomes_of_the_decoder_are_interpreted() {
    let decoded = DecodedHeader { address: None, fields: Vec::new(), len: 2 };
    let (header, len) = interpret(Ok(decoded), b"abcd").unwrap().unwrap();
    assert_eq!(len, 2);
    assert_eq!(header.raw_header.as_ref(), b"ab");
    assert!(interpret(Err(DecodeError::BufferTooShort), b"abcd").unwrap().is_none());
    assert_eq!(
        interpret(Err(DecodeError::Malformed("why".to_string())), b"abcd").unwrap_err(),
        ProxyProtocolError::Malformed("why".to_string())
    );
}

fn finished(step: ReadStep) -> (Option<ProxyProtocolHeader>, Vec<u8>) {
    match step {
        ReadStep::Finished(header, rest) => (header, rest),
        other => panic!("not finished: {:?}", other),
    }
}

fn failed(step: ReadStep) -> ProxyProtocolError<String> {
    match step {
        ReadStep::Failed(error) => error,
        other => panic!("not failed: {:?}", other),
    }
}

fn needs_more(step: ReadStep) -> HeaderReader {
    match step {
        ReadStep::NeedMore(reader) => reader,
        other => panic!("no more needed: {:?}", other),
    }
}

#[test]
fn limits() {
    assert_eq!(READ_LEN, 256);
    assert_eq!(DETECT_LEN, 8);
    assert_eq!(MAX_BUFFERED, 1024);
}

#[test]
fn read_in_one_piece() {
    let reads = vec![Ok(b"PROXY TCP4 1.2.3.4 5.6.7.8 9 10\r\nhello".to_vec())];
    let (header, rest) = finished(read_proxy_protocol(&reads));
    assert_eq!(header.unwrap().source_addr, Some(inet("1.2.3.4", 9)));
    assert_eq!(rest, b"hello");
}

#[test]
fn read_in_pieces() {
    let reads = vec![
        Ok(b"PROXY TCP4 1.2.3.4 5".to_vec()),
        Ok(b".6.7.8 9 10\r\nhel".to_vec()),
        Ok(b"lo".to_vec()),
    ];
    let (header, rest) = finished(read_proxy_protocol(&reads));
    assert_eq!(header.unwrap().dest_addr, Some(inet("5.6.7.8", 10)));
    assert_eq!(rest, b"hel");
}

#[test]
fn reads_that_run_out_leave_a_reader() {
    let reader = needs_more(read_proxy_protocol(&vec![Ok(b"PROXY UNK".to_vec())]));
    let (header, rest) = finished(reader.on_read(Ok(b"NOWN\r\n")));
    assert!(header.unwrap().is_local);
    assert!(rest.is_empty());
}

#[test]
fn an_empty_stream_has_no_header() {
    let (header, rest) = finished(HeaderReader::new().on_read(Ok(b"")));
    assert!(header.is_none());
    assert!(rest.is_empty());
}

#[test]
fn a_stream_that_ends_early_is_an_error() {
    let reads = vec![Ok(b"PROXY".to_vec()), Ok(Vec::new())];
    let error = failed(read_proxy_protocol(&reads));
    assert_eq!(error, ProxyProtocolError::ConnectionClosed);
    assert_eq!(error.etype(), ErrorType::AcceptError);
    assert_eq!(
        error.explanation(),
        "Connection closed while reading PROXY protocol header"
    );
}

#[test]
fn a_failed_read_is_an_error() {
    let error = failed(HeaderReader::new().on_read(Err("broken pipe".to_string())));
    assert_eq!(error, ProxyProtocolError::ReadFailed("broken pipe".to_string()));
    assert_eq!(error.etype(), ErrorType::ReadError);
    assert_eq!(
        error.explanation(),
        "Failed to read PROXY protocol header: broken pipe"
    );
}

#[test]
fn a_malformed_stream_is_an_error() {
    let error = failed(HeaderReader::new().on_read(Ok(b"PROXY TCP4 x y 1 2\r\n")));
    assert_eq!(error, ProxyProtocolError::Malformed("invalid PROXY header".to_string()));
    let mut bad_version = V2_SIGNATURE.to_vec();
    bad_version.extend_from_slice(&[0x11, 0x11, 0, 0]);
    let error = failed(HeaderReader::new().on_read(Ok(&bad_version)));
    assert_eq!(error.etype(), ErrorType::AcceptError);
}

#[test]
fn a_stream_without_a_header_is_handed_back() {
    for stream in [
        &b"GET / HTTP/1.1\r\n"[..],
        &b"POST / HTTP/1.1\r\n"[..],
        &b"G"[..],
        &[0x16, 0x03, 0x01, 0x02, 0x00][..],
        &b"\r\nGET / HTTP/1.1\r\n"[..],
    ] {
        let (header, rest) = finished(read_proxy_protocol(&vec![Ok(stream.to_vec())]));
        assert!(header.is_none());
        assert_eq!(rest, stream);
    }
}

#[test]
fn eight_bytes_without_a_greeting_are_no_header() {
    let reader = needs_more(HeaderReader::new().on_read(Ok(b"POST / ")));
    let (header, rest) = finished(reader.on_read(Ok(b"H")));
    assert!(header.is_none());
    assert_eq!(rest, b"POST / H");
}

#[test]
fn a_signature_is_waited_for() {
    for n in 1..=12 {
        needs_more(HeaderReader::new().on_read(Ok(&V2_SIGNATURE[..n])));
    }
    // Eight bytes that turn out to begin no signature.
    let reader = needs_more(HeaderReader::new().on_read(Ok(&V2_SIGNATURE[..8])));
    let (header, rest) = finished(reader.on_read(Ok(b"x")));
    assert!(header.is_none());
    assert_eq!(rest, [&V2_SIGNATURE[..8], &b"x"[..]].concat());
}

#[test]
fn a_local_header_in_two_halves() {
    let mut local = V2_SIGNATURE.to_vec();
    local.extend_from_slice(&[0x20, 0x00, 0, 0]);
    let reads = vec![Ok(local[..8].to_vec()), Ok(local[8..].to_vec())];
    let (header, rest) = finished(read_proxy_protocol(&reads));
    let header = header.unwrap();
    assert_eq!(header.version, ProxyProtocolVersion::V2);
    assert!(header.is_local);
    assert_eq!(header.source_addr, None);
    assert_eq!(header.dest_addr, None);
    assert_eq!(header.raw_header.as_ref(), &local[..]);
    assert!(rest.is_empty());
}

#[test]
fn headers_that_never_end_are_given_up() {
    let mut start = V2_SIGNATURE.to_vec();
    start.extend_from_slice(&[0x21, 0x11, 0xff, 0xff]);
    let mut chunk = start.clone();
    chunk.resize(MAX_BUFFERED, 0);
    let reader = needs_more(HeaderReader::new().on_read(Ok(&chunk)));
    let error = failed(reader.on_read(Ok(&[0])));
    assert_eq!(error, ProxyProtocolError::HeaderTooLarge);
    assert_eq!(error.etype(), ErrorType::AcceptError);
    assert_eq!(error.explanation(), "PROXY protocol header too large");
}

#[test]
fn a_complete_header_may_exceed_the_limit() {
    let buf = v2_tcp4(&tlv(0xE0, &[7; 2000]));
    let (header, rest) = finished(HeaderReader::new().on_read(Ok(&buf)));
    assert_eq!(header.unwrap().get_tlv(0xE0).unwrap().value.len(), 2000);
    assert!(rest.is_empty());
}

#[test]
fn the_cut_does_not_matter() {
    let mut stream = v2_tcp4(&tlv(tlv_types::AUTHORITY, b"example.com"));
    stream.extend_from_slice(b"payload");
    let whole = finished(read_proxy_protocol(&vec![Ok(stream.clone())]));
    for cut in 1..stream.len() {
        let reads = vec![Ok(stream[..cut].to_vec()), Ok(stream[cut..].to_vec())];
        let (header, rest) = finished(read_proxy_protocol(&reads));
        let header = header.unwrap();
        assert_eq!(header.raw_header, whole.0.as_ref().unwrap().raw_header);
        assert_eq!(header.authority(), Some("example.com"));
        let mut read = header.raw_header.to_vec();
        read.extend_from_slice(&rest);
        assert!(stream.starts_with(&read));
    }
}

#[test]
fn a_header_is_found_byte_by_byte() {
    let line = b"PROXY TCP6 2001:db8::1 2001:db8::2 12345 80\r\n";
    let mut reads: Vec<Result<Vec<u8>, String>> = line.iter().map(|b| Ok(vec![*b])).collect();
    reads.push(Ok(b"rest".to_vec()));
    let (header, rest) = finished(read_proxy_protocol(&reads));
    assert_eq!(header.unwrap().raw_header.as_ref(), &line[..]);
    assert!(rest.is_empty());
}

#[test]
fn version_1_headers_must_be_complete_in_time() {
    let mut line = b"PROXY UNKNOWN ".to_vec();
    line.resize(106, b'x');
    assert!(parse_proxy_protocol(&line).unwrap().is_none());
    line.push(b'x');
    assert!(parse_proxy_protocol(&line).is_err());
    line.extend_from_slice(b"\r\n");
    assert!(parse_proxy_protocol(&line).unwrap().is_some());
}

#[test]
fn what_comes_after_the_end_is_ignored() {
    let mut reads = vec![Ok(b"PROXY UNKNOWN\r\n".to_vec())];
    let first = finished(read_proxy_protocol(&reads));
    reads.push(Err("late".to_string()));
    reads.push(Ok(b"more".to_vec()));
    let second = finished(read_proxy_protocol(&reads));
    assert_eq!(first.0.unwrap().raw_header, second.0.unwrap().raw_header);
    assert_eq!(first.1, second.1);
}

#[test]
fn reading_is_bounded() {
    let mut reads = vec![Ok(b"PROXY UNKNOWN ".to_vec())];
    for _ in 0..2000 {
        reads.push(Ok(b"x".to_vec()));
    }
    failed(read_proxy_protocol(&reads));
}

#[test]
fn the_parse_decides_the_step() {
    let incomplete = after_parse(b"PROXY ".to_vec(), Ok(None));
    needs_more(incomplete);
    let malformed = || Err(ProxyProtocolError::Malformed("y".to_string()));
    let error = failed(after_parse(b"PROXY x".to_vec(), malformed()));
    assert_eq!(error, ProxyProtocolError::Malformed("y".to_string()));
    let (header, rest) = finished(after_parse(b"x".to_vec(), malformed()));
    assert!(header.is_none());
    assert_eq!(rest, b"x");
    let (header, len) = parse_one(b"PROXY UNKNOWN\r\n");
    let (_, rest) = finished(after_parse(
        b"PROXY UNKNOWN\r\nabc".to_vec(),
        Ok(Some((header, len))),
    ));
    assert_eq!(rest, b"abc");
}
