//! From bytes to a header.

use crate::octets;
use crate::proxy_protocol::error::ProxyProtocolError;
use crate::proxy_protocol::header;
use crate::proxy_protocol::header::{HeaderView, ProxyProtocolHeader, ProxyProtocolVersion};
use crate::proxy_protocol::header::{Tlv, TlvView};
use crate::proxy_protocol::tlv_types;
use crate::proxy_protocol::wire;
use crate::proxy_protocol::wire::{AddressView, DecodeError, DecodedView, TlvField, TlvItem};
use crate::socket::{InetAddr, SocketAddr};
use bytes::Bytes;
use vstd::prelude::*;

verus! {

/// A header as it came off the wire.
#[derive(Debug, PartialEq, Eq)]
pub struct DecodedHeader {
    /// The source and the destination of the proxied connection.
    pub address: Option<(InetAddr, InetAddr)>,
    /// The TLV entries, in order.
    pub fields: Vec<TlvItem<Vec<u8>>>,
    /// The number of bytes that the header takes.
    pub len: usize,
}

/// The text that version 1 headers begin with: `PROXY` and a space.
pub open spec fn v1_greeting() -> Seq<u8> {
    seq![0x50, 0x52, 0x4F, 0x58, 0x59, 0x20]
}

/// The version of a header, by its bytes.
pub open spec fn version_of(raw_header: Seq<u8>) -> ProxyProtocolVersion {
    if v1_greeting().is_prefix_of(raw_header) {
        ProxyProtocolVersion::V1
    } else {
        ProxyProtocolVersion::V2
    }
}

/// What is kept of a TLV entry: padding is dropped, and so is the content of
/// checksums and of TLS information.
pub open spec fn kept(item: TlvItem<Seq<u8>>) -> Seq<TlvView> {
    match item {
        Ok(TlvField::Alpn(value)) => seq![TlvView { typ: tlv_types::ALPN, value }],
        Ok(TlvField::Authority(value)) => seq![TlvView { typ: tlv_types::AUTHORITY, value }],
        Ok(TlvField::UniqueId(value)) => seq![TlvView { typ: tlv_types::UNIQUE_ID, value }],
        Ok(TlvField::Netns(value)) => seq![TlvView { typ: tlv_types::NETNS, value }],
        Ok(TlvField::SslVersion(value)) => seq![TlvView { typ: tlv_types::SSL_VERSION, value }],
        Ok(TlvField::SslCn(value)) => seq![TlvView { typ: tlv_types::SSL_CN, value }],
        Ok(TlvField::SslCipher(value)) => seq![TlvView { typ: tlv_types::SSL_CIPHER, value }],
        Ok(TlvField::SslSigAlg(value)) => seq![TlvView { typ: tlv_types::SSL_SIG_ALG, value }],
        Ok(TlvField::SslKeyAlg(value)) => seq![TlvView { typ: tlv_types::SSL_KEY_ALG, value }],
        Ok(TlvField::Custom(typ, value)) => seq![TlvView { typ, value }],
        Ok(TlvField::Crc32c) => seq![TlvView { typ: tlv_types::CRC32C, value: Seq::empty() }],
        Ok(TlvField::Ssl) => seq![TlvView { typ: tlv_types::SSL, value: Seq::empty() }],
        Ok(TlvField::Noop) => Seq::empty(),
        Ok(TlvField::Unknown) => Seq::empty(),
        Err(_) => Seq::empty(),
    }
}

/// What is kept of a list of TLV entries, in order.
pub open spec fn all_kept(items: Seq<TlvItem<Seq<u8>>>) -> Seq<TlvView>
    decreases items.len(),
{
    if items.len() == 0 {
        Seq::empty()
    } else {
        all_kept(items.drop_last()) + kept(items.last())
    }
}

/// The header with the given address, TLV entries and bytes.
pub open spec fn header_of(
    address: Option<AddressView>,
    items: Seq<TlvItem<Seq<u8>>>,
    raw_header: Seq<u8>,
) -> HeaderView {
    HeaderView {
        version: version_of(raw_header),
        is_local: address is None,
        source_addr: match address {
            Some((source, _)) => Some(source),
            None => None,
        },
        dest_addr: match address {
            Some((_, destination)) => Some(destination),
            None => None,
        },
        tlvs: all_kept(items),
        raw_header,
    }
}

/// The source and the destination that a header holds, where it holds both.
pub open spec fn address_in(header: HeaderView) -> Option<AddressView> {
    match (header.source_addr, header.dest_addr) {
        (Some(source), Some(destination)) => Some((source, destination)),
        _ => None,
    }
}

/// What is kept of one TLV entry, if anything is.
fn keep(item: &TlvItem<Vec<u8>>) -> (tlv: Option<Tlv>)
    ensures
        kept(wire::item_view(*item)) == (match tlv {
            Some(t) => seq![t@],
            None => Seq::empty(),
        }),
{
    match item {
        Ok(TlvField::Alpn(value)) => Some(Tlv::new(tlv_types::ALPN, value.as_slice())),
        Ok(TlvField::Authority(value)) => Some(Tlv::new(tlv_types::AUTHORITY, value.as_slice())),
        Ok(TlvField::UniqueId(value)) => Some(Tlv::new(tlv_types::UNIQUE_ID, value.as_slice())),
        Ok(TlvField::Netns(value)) => Some(Tlv::new(tlv_types::NETNS, value.as_slice())),
        Ok(TlvField::SslVersion(value)) => Some(Tlv::new(tlv_types::SSL_VERSION, value.as_slice())),
        Ok(TlvField::SslCn(value)) => Some(Tlv::new(tlv_types::SSL_CN, value.as_slice())),
        Ok(TlvField::SslCipher(value)) => Some(Tlv::new(tlv_types::SSL_CIPHER, value.as_slice())),
        Ok(TlvField::SslSigAlg(value)) => Some(Tlv::new(tlv_types::SSL_SIG_ALG, value.as_slice())),
        Ok(TlvField::SslKeyAlg(value)) => Some(Tlv::new(tlv_types::SSL_KEY_ALG, value.as_slice())),
        Ok(TlvField::Custom(typ, value)) => Some(Tlv::new(*typ, value.as_slice())),
        // The checksum is not stored.
        Ok(TlvField::Crc32c) => Some(Tlv { typ: tlv_types::CRC32C, value: Bytes::new() }),
        // Nor are the entries inside of TLS information.
        Ok(TlvField::Ssl) => Some(Tlv { typ: tlv_types::SSL, value: Bytes::new() }),
        Ok(TlvField::Noop) => None,
        Ok(TlvField::Unknown) => None,
        Err(_) => None,
    }
}

/// Convert a decoded header, together with its bytes.
///
/// The version is inferred from the bytes: version 1 headers begin with
/// `PROXY` and a space.
pub fn convert_header(decoded: DecodedHeader, raw_header: Bytes) -> (header: ProxyProtocolHeader)
    ensures
        header@ == header_of(
            wire::address_view(decoded.address),
            wire::items_view(decoded.fields@),
            octets::contents(raw_header),
        ),
        header@.well_formed(),
        decoded.address matches Some((source, destination)) ==> {
            &&& header.source_addr matches Some(SocketAddr::Inet(client))
            &&& client.ip@ == source.ip@ && client.port == source.port
            &&& header.dest_addr matches Some(SocketAddr::Inet(server))
            &&& server.ip@ == destination.ip@ && server.port == destination.port
        },
        octets::contents(header.raw_header) == octets::contents(raw_header),
{
    let version = if octets::starts_with(octets::as_slice(&raw_header), &[
        0x50,
        0x52,
        0x4F,
        0x58,
        0x59,
        0x20,
    ]) {
        ProxyProtocolVersion::V1
    } else {
        ProxyProtocolVersion::V2
    };
    let is_local = decoded.address.is_none();
    let ghost address = wire::address_view(decoded.address);
    let (source_addr, dest_addr) = match decoded.address {
        Some((source, destination)) => (
            Some(SocketAddr::Inet(source)),
            Some(SocketAddr::Inet(destination)),
        ),
        None => (None, None),
    };

    let fields = decoded.fields;
    let ghost items = wire::items_view(fields@);
    let mut tlvs: Vec<Tlv> = Vec::new();
    let mut i: usize = 0;
    assert(header::tlvs_view(tlvs@) =~= all_kept(items.take(0)));
    while i < fields.len()
        invariant
            i <= fields.len(),
            items == wire::items_view(fields@),
            header::tlvs_view(tlvs@) =~= all_kept(items.take(i as int)),
        decreases fields.len() - i,
    {
        let ghost before = tlvs@;
        match keep(&fields[i]) {
            Some(tlv) => {
                tlvs.push(tlv);
            },
            None => {},
        }
        proof {
            assert(items.take(i + 1).drop_last() =~= items.take(i as int));
            assert(items.take(i + 1).last() == wire::item_view(fields@[i as int]));
            assert(header::tlvs_view(tlvs@) =~= header::tlvs_view(before) + kept(
                wire::item_view(fields@[i as int]),
            ));
        }
        i += 1;
    }
    assert(items.take(items.len() as int) =~= items);

    ProxyProtocolHeader { version, is_local, source_addr, dest_addr, tlvs, raw_header }
}

/// The outcome of decoding a buffer, with the TLV entries still in their
/// section.
pub open spec fn decoded_matches(
    res: Result<DecodedHeader, DecodeError<String>>,
    view: Result<DecodedView, DecodeError<Seq<char>>>,
) -> bool {
    match res {
        Ok(decoded) => {
            &&& view matches Ok((address, section, len))
            &&& wire::address_view(decoded.address) == address
            &&& wire::items_view(decoded.fields@) == wire::section_items(section)
            &&& decoded.len == len
        },
        Err(e) => view == Err::<DecodedView, DecodeError<Seq<char>>>(e@),
    }
}

/// Decode the header at the start of a buffer, down to the last TLV entry.
pub fn decode_header(buf: &[u8]) -> (res: Result<DecodedHeader, DecodeError<String>>)
    ensures
        decoded_matches(res, wire::decoded(buf@)),
        res matches Ok(decoded) ==> {
            &&& 0 < decoded.len <= buf@.len()
            &&& forall|more: Seq<u8>| #[trigger]
                wire::decoded(buf@.take(decoded.len as int) + more) == wire::decoded(buf@)
            &&& forall|n: int|
                0 <= n < decoded.len && wire::waits_at(buf@[0], n) ==> wire::decoded(
                    #[trigger] buf@.take(n),
                ) == Err::<DecodedView, DecodeError<Seq<char>>>(DecodeError::BufferTooShort)
            &&& buf@[0] == 0x0D ==> {
                &&& decoded.len == wire::v2_len(buf@)
                &&& wire::v2_address(buf@, wire::address_view(decoded.address))
                &&& wire::items_view(decoded.fields@) == wire::section_items(
                    wire::v2_section(buf@),
                )
            }
            &&& decoded.fields@.len() > 0 ==> buf@[0] == 0x0D
            &&& buf@[0] == 0x50 ==> {
                &&& decoded.len >= 15
                &&& buf@.subrange(0, 5) == wire::ascii("PROXY"@)
                &&& decoded.len == wire::v1_len(buf@)
                &&& buf@[decoded.len - 2] == 0x0D
                &&& buf@[decoded.len - 1] == 0x0A
                &&& wire::v1_address(buf@, wire::address_view(decoded.address))
            }
        },
        buf@.len() > 0 && buf@[0] == 0x0D ==> (res is Ok <==> wire::v2_complete(buf@)),
        res matches Err(DecodeError::Malformed(reason)) ==> reason@ == "invalid PROXY header"@,
        buf@.len() == 0 ==> res matches Err(DecodeError::BufferTooShort),
        buf@.len() > 0 && buf@[0] != 0x50 && buf@[0] != 0x0D ==> res matches Err(
            DecodeError::Malformed(_),
        ),
{
    let (header, len) = match wire::parse_header(buf) {
        Ok(parsed) => parsed,
        Err(e) => return Err(e),
    };
    let address = wire::proxied_address(&header);
    let ghost section = wire::section_of(header);
    let mut fields: Vec<TlvItem<Vec<u8>>> = Vec::new();
    let mut walk = wire::tlvs(&header);
    assert(wire::items_view(fields@) + wire::section_items(wire::unread(walk))
        =~= wire::section_items(section));
    loop
        invariant_except_break
            wire::items_view(fields@) + wire::section_items(wire::unread(walk))
                == wire::section_items(section),
            fields@.len() > 0 ==> section.len() > 0,
            wire::unread(walk).len() > 0 ==> section.len() > 0,
        ensures
            wire::items_view(fields@) == wire::section_items(section),
            fields@.len() > 0 ==> section.len() > 0,
        decreases wire::unread(walk).len(),
    {
        let ghost before = fields@;
        let ghost left = wire::unread(walk);
        match wire::next_tlv(&mut walk) {
            Some(item) => {
                fields.push(item);
                proof {
                    assert(wire::items_view(fields@) =~= wire::items_view(before).push(
                        wire::first_item(left),
                    ));
                    assert(wire::items_view(fields@) + wire::section_items(wire::unread(walk))
                        =~= wire::items_view(before) + wire::section_items(left));
                }
            },
            None => {
                assert(wire::items_view(fields@) + wire::section_items(left) =~= wire::items_view(
                    fields@,
                ));
                break;
            },
        }
    }
    Ok(DecodedHeader { address, fields, len })
}

/// What a parse says: a header and the number of bytes it takes, nothing as
/// long as the header is incomplete, or an error.
pub type ParseView = Result<Option<(HeaderView, nat)>, ProxyProtocolError<Seq<char>>>;

/// What an executed parse says.
pub open spec fn parse_view(
    res: Result<Option<(ProxyProtocolHeader, usize)>, ProxyProtocolError<String>>,
) -> ParseView {
    match res {
        Ok(Some((header, len))) => Ok(Some((header@, len as nat))),
        Ok(None) => Ok(None),
        Err(e) => Err(e@),
    }
}

/// What a parse of `buf` says, given what the decoder makes of `buf`.
pub open spec fn parse_of(
    decoded: Result<DecodedView, DecodeError<Seq<char>>>,
    buf: Seq<u8>,
) -> ParseView {
    match decoded {
        Ok((address, section, len)) => Ok(
            Some(
                (header_of(address, wire::section_items(section), buf.take(len as int)), len),
            ),
        ),
        Err(DecodeError::BufferTooShort) => Ok(None),
        Err(DecodeError::Malformed(reason)) => Err(ProxyProtocolError::Malformed(reason)),
    }
}

/// What a parse of `buf` says.
pub open spec fn parsed(buf: Seq<u8>) -> ParseView {
    parse_of(wire::decoded(buf), buf)
}

/// Turn what the decoder made of `buf` into a header with its bytes.
pub fn interpret(
    decoded: Result<DecodedHeader, DecodeError<String>>,
    buf: &[u8],
) -> (res: Result<Option<(ProxyProtocolHeader, usize)>, ProxyProtocolError<String>>)
    requires
        decoded matches Ok(d) ==> d.len <= buf@.len(),
    ensures
        match decoded {
            Ok(d) => {
                &&& res matches Ok(Some((header, len)))
                &&& len == d.len
                &&& header@ == header_of(
                    wire::address_view(d.address),
                    wire::items_view(d.fields@),
                    buf@.take(d.len as int),
                )
                &&& header@.well_formed()
            },
            Err(DecodeError::BufferTooShort) => res matches Ok(None),
            Err(DecodeError::Malformed(reason)) => res matches Err(e) && e
                == ProxyProtocolError::Malformed(reason),
        },
{
    match decoded {
        Ok(decoded) => {
            let len = decoded.len;
            let raw_header = Bytes::copy_from_slice(&buf[0..len]);
            Ok(Some((convert_header(decoded, raw_header), len)))
        },
        Err(DecodeError::BufferTooShort) => Ok(None),
        Err(DecodeError::Malformed(reason)) => Err(ProxyProtocolError::Malformed(reason)),
    }
}

/// Parse a PROXY protocol header from a buffer.
///
/// Returns the parsed header and the number of bytes consumed, or nothing as
/// long as the buffer does not hold the whole header.
///
/// A header that is found takes up the start of the buffer, and is found again,
/// the same, in its own bytes followed by anything: they can be forwarded. With
/// only some of these bytes it is incomplete, except that a version 1 header
/// must be complete in time.
/// Version 1 headers carry no TLV entries. A buffer that begins with a carriage
/// return holds a header exactly where all of a version 2 header is there; it is
/// then as long as it says, holds the addresses that its command and their kind
/// call for, and the TLV entries behind them. A header that begins with `P` is a
/// line, and holds the ports that are written there.
pub fn parse_proxy_protocol(buf: &[u8]) -> (res: Result<
    Option<(ProxyProtocolHeader, usize)>,
    ProxyProtocolError<String>,
>)
    ensures
        parse_view(res) == parsed(buf@),
        res matches Ok(Some((header, len))) ==> {
            &&& 0 < len <= buf@.len()
            &&& octets::contents(header.raw_header) == buf@.take(len as int)
            &&& header@.well_formed()
            &&& header.version is V1 ==> header.tlvs@.len() == 0
            &&& buf@[0] == 0x0D ==> {
                &&& header.version is V2
                &&& len == wire::v2_len(buf@)
                &&& wire::v2_address(buf@, address_in(header@))
                &&& header.is_local == (address_in(header@) is None)
                &&& header@.tlvs == all_kept(wire::section_items(wire::v2_section(buf@)))
            }
            &&& buf@[0] == 0x50 ==> {
                &&& len >= 15
                &&& buf@.subrange(0, 5) == wire::ascii("PROXY"@)
                &&& len == wire::v1_len(buf@)
                &&& buf@[len - 2] == 0x0D
                &&& buf@[len - 1] == 0x0A
                &&& wire::v1_address(buf@, address_in(header@))
                &&& header.is_local == (address_in(header@) is None)
                &&& header.source_addr matches Some(SocketAddr::Inet(client))
                    ==> wire::is_port_text(wire::v1_field(buf@, 3), client.port)
                &&& header.dest_addr matches Some(SocketAddr::Inet(server))
                    ==> wire::is_port_text(wire::v1_field(buf@, 4), server.port)
            }
            &&& forall|more: Seq<u8>|
                parsed(#[trigger] (octets::contents(header.raw_header) + more)) == parsed(buf@)
            &&& forall|n: int|
                0 <= n < len && wire::waits_at(buf@[0], n) ==> parsed(#[trigger] buf@.take(n))
                    == ParseView::Ok(None)
        },
        buf@.len() > 0 && buf@[0] == 0x0D ==> (res matches Ok(Some(_)) <==> wire::v2_complete(
            buf@,
        )),
        res matches Err(e) ==> e@ == ProxyProtocolError::Malformed("invalid PROXY header"@),
        buf@.len() == 0 ==> res matches Ok(None),
        buf@.len() > 0 && buf@[0] != 0x50 && buf@[0] != 0x0D ==> res is Err,
{
    let decoded = decode_header(buf);
    let ghost view = decoded;
    let res = interpret(decoded, buf);
    proof {
        if let Ok(d) = view {
            let raw = buf@.take(d.len as int);
            assert forall|more: Seq<u8>| parsed(#[trigger] (raw + more)) == parsed(buf@) by {
                assert((raw + more).take(d.len as int) =~= raw);
            }
            if version_of(raw) is V1 && d.fields@.len() > 0 {
                assert(v1_greeting()[0] == raw[0]);
            }
        }
    }
    res
}

} // verus!
