//! The header as the `proxy-header` crate reads it off the wire.

use crate::proxy_protocol::tlv_types;
use crate::socket::InetAddr;
use proxy_header::{ParseConfig, ProxyHeader, Tlv as WireTlv, Tlvs};
use vstd::prelude::*;

verus! {

/// A TLV entry that cannot be decoded.
#[derive(Debug, Clone, Copy, PartialEq, Eq, Structural)]
pub struct MalformedTlv;

/// A decoded TLV entry, with its byte strings and texts held as `B`.
#[derive(Debug, PartialEq, Eq)]
pub enum TlvField<B> {
    Alpn(B),
    Authority(B),
    /// A checksum of the header.
    Crc32c,
    /// Padding.
    Noop,
    UniqueId(B),
    /// TLS information, itself a list of entries.
    Ssl,
    Netns(B),
    SslVersion(B),
    SslCn(B),
    SslCipher(B),
    SslSigAlg(B),
    SslKeyAlg(B),
    /// An entry of another type.
    Custom(u8, B),
    /// An entry of a type that the decoder knows and this library does not.
    Unknown,
}

/// Why no header could be decoded, with texts held as `S`.
#[derive(Debug, PartialEq, Eq)]
pub enum DecodeError<S> {
    /// The header is not complete yet.
    BufferTooShort,
    /// The bytes are no header.
    Malformed(S),
}

/// One step of the walk over the TLV entries of a header.
pub type TlvItem<B> = Result<TlvField<B>, MalformedTlv>;

/// The proxied connection's source and destination.
pub type AddressView = ((Seq<char>, u16), (Seq<char>, u16));

/// What the decoder finds: the proxied address, the bytes of the TLV section
/// and the length of the header.
pub type DecodedView = (Option<AddressView>, Seq<u8>, nat);

/// The first 12 bytes of every version 2 header.
pub open spec fn v2_signature() -> Seq<u8> {
    seq![0x0D, 0x0A, 0x0D, 0x0A, 0x00, 0x0D, 0x0A, 0x51, 0x55, 0x49, 0x54, 0x0A]
}

/// The number of bytes from which on an incomplete version 1 header is
/// malformed.
pub const V1_MAX_LEN: usize = 107;

/// `n` bytes are too few to be malformed, where they are the start of a header
/// that begins with `first`.
pub open spec fn waits_at(first: u8, n: int) -> bool {
    n < V1_MAX_LEN || first == 0x0D
}

/// A 16-bit number in network byte order.
pub open spec fn be16(high: u8, low: u8) -> int {
    high * 256 + low
}

/// The number of bytes that addresses of a kind take in a version 2 header, if
/// the kind is known: none, IPv4, IPv6 or local sockets.
pub open spec fn v2_addresses_len(kind: u8) -> Option<int> {
    if kind == 0x00 {
        Some(0)
    } else if kind == 0x11 || kind == 0x12 {
        Some(12)
    } else if kind == 0x21 || kind == 0x22 {
        Some(36)
    } else if kind == 0x31 || kind == 0x32 {
        Some(216)
    } else {
        None
    }
}

/// Addresses of the kind are IP addresses with their ports.
pub open spec fn v2_is_inet(kind: u8) -> bool {
    kind == 0x11 || kind == 0x12 || kind == 0x21 || kind == 0x22
}

/// `buf` begins with a whole version 2 header: the signature, the command (local
/// or proxied), the kind of addresses, the 16-bit length of what follows, and
/// that, which holds at least the addresses.
pub open spec fn v2_complete(buf: Seq<u8>) -> bool {
    &&& buf.len() >= 16
    &&& v2_signature().is_prefix_of(buf)
    &&& buf[12] == 0x20 || buf[12] == 0x21
    &&& v2_addresses_len(buf[13]) matches Some(n)
    &&& n <= be16(buf[14], buf[15]) <= buf.len() - 16
}

/// The length of the whole version 2 header at the start of `buf`.
pub open spec fn v2_len(buf: Seq<u8>) -> int {
    16 + be16(buf[14], buf[15])
}

/// The TLV section of the whole version 2 header at the start of `buf`: what
/// follows the addresses.
pub open spec fn v2_section(buf: Seq<u8>) -> Seq<u8> {
    buf.subrange(16 + v2_addresses_len(buf[13])->0, v2_len(buf))
}

/// `address` is what the whole version 2 header at the start of `buf` holds: a
/// proxied command comes with the IP addresses, if there are any, and a local
/// one without. The ports of source and destination end the addresses.
pub open spec fn v2_address(buf: Seq<u8>, address: Option<AddressView>) -> bool {
    &&& address is Some <==> buf[12] == 0x21 && v2_is_inet(buf[13])
    &&& address matches Some(((_, source_port), (_, destination_port))) ==> {
        let ports = 16 + v2_addresses_len(buf[13])->0 - 4;
        &&& source_port == be16(buf[ports], buf[ports + 1])
        &&& destination_port == be16(buf[ports + 2], buf[ports + 3])
    }
}

/// The bytes of a text, where it is ASCII.
pub open spec fn ascii(text: Seq<char>) -> Seq<u8> {
    text.map_values(|c: char| c as u8)
}

/// The position of the first `end` in `buf` at or after `from`; the end of `buf`
/// if there is none.
pub open spec fn until(buf: Seq<u8>, from: int, end: u8) -> int
    decreases buf.len() - from,
{
    if 0 <= from < buf.len() && buf[from] != end {
        until(buf, from + 1, end)
    } else {
        from
    }
}

/// Where field `k` of a version 1 line ends: the source address, the destination
/// address and the source port at a space, and the destination port, the fourth,
/// at a carriage return. The line begins with `PROXY`, one byte, and the family
/// with a space.
pub open spec fn v1_end(buf: Seq<u8>, k: nat) -> int
    decreases k,
{
    if k == 0 {
        10
    } else {
        let end: u8 = if k == 4 {
            0x0D
        } else {
            0x20
        };
        until(buf, v1_end(buf, (k - 1) as nat) + 1, end)
    }
}

/// Field `k` of a version 1 line.
pub open spec fn v1_field(buf: Seq<u8>, k: nat) -> Seq<u8> {
    buf.subrange(v1_end(buf, (k - 1) as nat) + 1, v1_end(buf, k))
}

/// The number that decimal digits stand for.
pub open spec fn decimal(digits: Seq<u8>) -> int
    decreases digits.len(),
{
    if digits.len() == 0 {
        0
    } else {
        10 * decimal(digits.drop_last()) + (digits.last() - 0x30)
    }
}

/// `text` without the plus sign that it may begin with.
pub open spec fn without_sign(text: Seq<u8>) -> Seq<u8> {
    if text.len() > 0 && text[0] == 0x2B {
        text.skip(1)
    } else {
        text
    }
}

/// Decimal digits, at least one.
pub open spec fn all_digits(text: Seq<u8>) -> bool {
    &&& text.len() > 0
    &&& forall|i: int| 0 <= i < text.len() ==> 0x30 <= #[trigger] text[i] <= 0x39
}

/// `text` is the port in decimal digits, with or without a plus sign.
pub open spec fn is_port_text(text: Seq<u8>, port: u16) -> bool {
    &&& all_digits(without_sign(text))
    &&& decimal(without_sign(text)) == port
}

/// `buf` begins as a version 1 line of an unknown connection does.
pub open spec fn v1_unknown(buf: Seq<u8>) -> bool {
    buf.subrange(6, 13) == ascii("UNKNOWN"@)
}

/// The length of the whole version 1 line at the start of `buf`, up to its
/// carriage return and line feed.
pub open spec fn v1_len(buf: Seq<u8>) -> int {
    if v1_unknown(buf) {
        until(buf, 6, 0x0D) + 2
    } else {
        v1_end(buf, 4) + 2
    }
}

/// `address` is what the whole version 1 line at the start of `buf` holds: for
/// TCP over IPv4 or IPv6 the source and the destination with the ports that are
/// written there, and nothing for an unknown connection.
pub open spec fn v1_address(buf: Seq<u8>, address: Option<AddressView>) -> bool {
    &&& address is Some <==> !v1_unknown(buf)
    &&& address is Some ==> buf.subrange(6, 11) == ascii("TCP4 "@) || buf.subrange(6, 11) == ascii(
        "TCP6 "@,
    )
    &&& address matches Some(((_, source_port), (_, destination_port))) ==> {
        &&& is_port_text(v1_field(buf, 3), source_port)
        &&& is_port_text(v1_field(buf, 4), destination_port)
    }
    &&& buf.subrange(6, 11) == ascii("TCP4 "@) ==> {
        address matches Some(((source, _), (destination, _))) ==> {
            &&& ascii(source) == v1_field(buf, 1)
            &&& ascii(destination) == v1_field(buf, 2)
        }
    }
}

/// The entry types whose value is a text.
pub open spec fn is_text_type(kind: u8) -> bool {
    ||| kind == tlv_types::AUTHORITY
    ||| kind == tlv_types::SSL_VERSION
    ||| kind == tlv_types::SSL_CN
    ||| kind == tlv_types::SSL_CIPHER
    ||| kind == tlv_types::SSL_SIG_ALG
    ||| kind == tlv_types::SSL_KEY_ALG
    ||| kind == tlv_types::NETNS
}

/// The entry of type `kind` with the value `data`: texts are UTF-8, a checksum
/// has four bytes and TLS information has at least five.
pub open spec fn decode_field(kind: u8, data: Seq<u8>) -> TlvItem<Seq<u8>> {
    if kind == tlv_types::CRC32C {
        if data.len() == 4 {
            Ok(TlvField::Crc32c)
        } else {
            Err(MalformedTlv)
        }
    } else if kind == tlv_types::NOOP {
        Ok(TlvField::Noop)
    } else if kind == tlv_types::SSL {
        if data.len() >= 5 {
            Ok(TlvField::Ssl)
        } else {
            Err(MalformedTlv)
        }
    } else if is_text_type(kind) && !vstd::utf8::valid_utf8(data) {
        Err(MalformedTlv)
    } else if kind == tlv_types::ALPN {
        Ok(TlvField::Alpn(data))
    } else if kind == tlv_types::AUTHORITY {
        Ok(TlvField::Authority(data))
    } else if kind == tlv_types::UNIQUE_ID {
        Ok(TlvField::UniqueId(data))
    } else if kind == tlv_types::NETNS {
        Ok(TlvField::Netns(data))
    } else if kind == tlv_types::SSL_VERSION {
        Ok(TlvField::SslVersion(data))
    } else if kind == tlv_types::SSL_CN {
        Ok(TlvField::SslCn(data))
    } else if kind == tlv_types::SSL_CIPHER {
        Ok(TlvField::SslCipher(data))
    } else if kind == tlv_types::SSL_SIG_ALG {
        Ok(TlvField::SslSigAlg(data))
    } else if kind == tlv_types::SSL_KEY_ALG {
        Ok(TlvField::SslKeyAlg(data))
    } else {
        Ok(TlvField::Custom(kind, data))
    }
}

/// `section` begins with a complete entry: a type, a 16-bit length and that
/// many bytes.
pub open spec fn framed(section: Seq<u8>) -> bool {
    section.len() >= 3 && 3 + be16(section[1], section[2]) <= section.len()
}

/// The length of the first entry of a section.
pub open spec fn entry_len(section: Seq<u8>) -> int {
    3 + be16(section[1], section[2])
}

/// The first entry of a section.
pub open spec fn first_item(section: Seq<u8>) -> TlvItem<Seq<u8>> {
    if framed(section) {
        decode_field(section[0], section.subrange(3, entry_len(section)))
    } else {
        Err(MalformedTlv)
    }
}

/// What follows the first entry of a section; nothing, where that entry is cut
/// short.
pub open spec fn after_first(section: Seq<u8>) -> Seq<u8> {
    if framed(section) {
        section.skip(entry_len(section))
    } else {
        Seq::empty()
    }
}

/// The entries of a TLV section, in order. The walk ends at an entry that is
/// cut short; an entry that is complete but malformed does not end it.
pub open spec fn section_items(section: Seq<u8>) -> Seq<TlvItem<Seq<u8>>>
    decreases section.len(),
{
    if section.len() == 0 {
        Seq::empty()
    } else {
        seq![first_item(section)] + section_items(after_first(section))
    }
}

impl View for TlvField<Vec<u8>> {
    type V = TlvField<Seq<u8>>;

    open spec fn view(&self) -> TlvField<Seq<u8>> {
        match *self {
            TlvField::Alpn(value) => TlvField::Alpn(value@),
            TlvField::Authority(value) => TlvField::Authority(value@),
            TlvField::Crc32c => TlvField::Crc32c,
            TlvField::Noop => TlvField::Noop,
            TlvField::UniqueId(value) => TlvField::UniqueId(value@),
            TlvField::Ssl => TlvField::Ssl,
            TlvField::Netns(value) => TlvField::Netns(value@),
            TlvField::SslVersion(value) => TlvField::SslVersion(value@),
            TlvField::SslCn(value) => TlvField::SslCn(value@),
            TlvField::SslCipher(value) => TlvField::SslCipher(value@),
            TlvField::SslSigAlg(value) => TlvField::SslSigAlg(value@),
            TlvField::SslKeyAlg(value) => TlvField::SslKeyAlg(value@),
            TlvField::Custom(kind, value) => TlvField::Custom(kind, value@),
            TlvField::Unknown => TlvField::Unknown,
        }
    }
}

impl View for DecodeError<String> {
    type V = DecodeError<Seq<char>>;

    open spec fn view(&self) -> DecodeError<Seq<char>> {
        match *self {
            DecodeError::BufferTooShort => DecodeError::BufferTooShort,
            DecodeError::Malformed(reason) => DecodeError::Malformed(reason@),
        }
    }
}

/// The entry holds a text.
pub open spec fn is_text<B>(field: TlvField<B>) -> bool {
    ||| field is Authority
    ||| field is Netns
    ||| field is SslVersion
    ||| field is SslCn
    ||| field is SslCipher
    ||| field is SslSigAlg
    ||| field is SslKeyAlg
}

/// An item of the walk, by the bytes it holds.
pub open spec fn item_view(item: TlvItem<Vec<u8>>) -> TlvItem<Seq<u8>> {
    match item {
        Ok(field) => Ok(field@),
        Err(e) => Err(e),
    }
}

/// The items of a walk, in order.
pub open spec fn items_view(items: Seq<TlvItem<Vec<u8>>>) -> Seq<TlvItem<Seq<u8>>> {
    items.map_values(|item: TlvItem<Vec<u8>>| item_view(item))
}

/// A pair of addresses, by their parts.
pub open spec fn address_view(address: Option<(InetAddr, InetAddr)>) -> Option<AddressView> {
    match address {
        Some((source, destination)) => Some((source@, destination@)),
        None => None,
    }
}

/// The header type of the `proxy-header` crate.
#[verifier::external_type_specification]
#[verifier::external_body]
pub struct ExProxyHeader<'a>(ProxyHeader<'a>);

/// The walk over TLV entries of the `proxy-header` crate.
#[verifier::external_type_specification]
#[verifier::external_body]
pub struct ExTlvs<'a>(Tlvs<'a>);

/// A TLV entry of the `proxy-header` crate.
#[verifier::external_type_specification]
#[verifier::external_body]
pub struct ExTlv<'a>(WireTlv<'a>);

/// The error type of the `proxy-header` crate.
#[verifier::external_type_specification]
#[verifier::external_body]
pub struct ExError(proxy_header::Error);

/// The bytes of the TLV section that a header holds.
pub uninterp spec fn section_of(header: ProxyHeader<'_>) -> Seq<u8>;

/// The proxied address that a header holds.
pub uninterp spec fn address_of(header: ProxyHeader<'_>) -> Option<AddressView>;

/// The bytes that a walk over TLV entries has not consumed yet.
pub uninterp spec fn unread(tlvs: Tlvs<'_>) -> Seq<u8>;

/// What a decoded entry holds.
pub uninterp spec fn field_of(tlv: WireTlv<'_>) -> TlvField<Seq<u8>>;

/// What `ProxyHeader::parse` makes of a buffer in its default configuration.
pub uninterp spec fn decoded(buf: Seq<u8>) -> Result<DecodedView, DecodeError<Seq<char>>>;

/// `ProxyHeader::parse` in its default configuration (both versions, with
/// TLVs). The outcome is a function of the buffer. A header that is found has
/// at least one byte, lies within the buffer, and does not depend on the bytes
/// behind it; with fewer bytes of it the buffer is too short, except that a
/// version 1 header is malformed if it is not complete in [`V1_MAX_LEN`] bytes.
/// A buffer that begins with a carriage return is decoded exactly where
/// [`v2_complete`] holds, to a header with the length, the ports and the TLV
/// section that [`v2_len`], [`v2_address`] and [`v2_section`] give. A header that
/// begins with `P` begins with `PROXY` and has the length, the ports and, for
/// IPv4, the addresses that [`v1_len`] and [`v1_address`] give; it has no TLV
/// section. How other IP addresses read as texts is left to the name. An empty buffer is too short, one that begins with neither `P` nor a
/// carriage return is malformed, and malformed buffers are all explained alike.
#[verifier::external_body]
pub(crate) fn parse_header<'a>(buf: &'a [u8]) -> (res: Result<
    (ProxyHeader<'a>, usize),
    DecodeError<String>,
>)
    ensures
        match res {
            Ok((header, len)) => decoded(buf@) == Ok::<DecodedView, DecodeError<Seq<char>>>(
                (address_of(header), section_of(header), len as nat),
            ),
            Err(e) => decoded(buf@) == Err::<DecodedView, DecodeError<Seq<char>>>(e@),
        },
        res matches Ok((header, len)) ==> {
            &&& 0 < len <= buf@.len()
            &&& forall|more: Seq<u8>| #[trigger]
                decoded(buf@.take(len as int) + more) == decoded(buf@)
            &&& forall|n: int|
                0 <= n < len && waits_at(buf@[0], n) ==> decoded(#[trigger] buf@.take(n)) == Err::<
                    DecodedView,
                    DecodeError<Seq<char>>,
                >(DecodeError::BufferTooShort)
            &&& buf@[0] == 0x0D ==> {
                &&& len == v2_len(buf@)
                &&& v2_address(buf@, address_of(header))
                &&& section_of(header) == v2_section(buf@)
            }
            &&& section_of(header).len() > 0 ==> buf@[0] == 0x0D
            &&& buf@[0] == 0x50 ==> {
                &&& len >= 15
                &&& buf@.subrange(0, 5) == ascii("PROXY"@)
                &&& len == v1_len(buf@)
                &&& buf@[len - 2] == 0x0D
                &&& buf@[len - 1] == 0x0A
                &&& v1_address(buf@, address_of(header))
            }
        },
        buf@.len() > 0 && buf@[0] == 0x0D ==> (res is Ok <==> v2_complete(buf@)),
        res matches Err(DecodeError::Malformed(reason)) ==> reason@ == "invalid PROXY header"@,
        buf@.len() == 0 ==> res matches Err(DecodeError::BufferTooShort),
        buf@.len() > 0 && buf@[0] != 0x50 && buf@[0] != 0x0D ==> res matches Err(
            DecodeError::Malformed(_),
        ),
{
    match ProxyHeader::parse(buf, ParseConfig::default()) {
        Ok(parsed) => Ok(parsed),
        Err(proxy_header::Error::BufferTooShort) => Err(DecodeError::BufferTooShort),
        Err(e) => Err(DecodeError::Malformed(e.to_string())),
    }
}

/// `ProxyHeader::proxied_address`: the addresses that the header holds, each
/// as the text of its IP address and its port.
#[verifier::external_body]
pub(crate) fn proxied_address(header: &ProxyHeader<'_>) -> (address: Option<(InetAddr, InetAddr)>)
    ensures
        address_view(address) == address_of(*header),
{
    header.proxied_address().map(
        |addr|
            (
                InetAddr { ip: addr.source.ip().to_string(), port: addr.source.port() },
                InetAddr { ip: addr.destination.ip().to_string(), port: addr.destination.port() },
            ),
    )
}

/// `ProxyHeader::tlvs` starts a walk over the header's whole TLV section.
#[verifier::external_body]
pub(crate) fn tlvs<'h>(header: &'h ProxyHeader<'_>) -> (walk: Tlvs<'h>)
    ensures
        unread(walk) == section_of(*header),
{
    header.tlvs()
}

/// `Tlvs::next`: nothing at the end of the section, else its first entry, as
/// [`first_item`] decodes it. The walk goes on behind that entry, or ends where
/// the entry is cut short.
#[verifier::external_body]
fn step<'a>(walk: &mut Tlvs<'a>) -> (item: Option<Result<WireTlv<'a>, proxy_header::Error>>)
    ensures
        match item {
            Some(decoded) => {
                &&& unread(*old(walk)).len() > 0
                &&& unread(*final(walk)) == after_first(unread(*old(walk)))
                &&& first_item(unread(*old(walk))) == match decoded {
                    Ok(tlv) => Ok::<TlvField<Seq<u8>>, MalformedTlv>(field_of(tlv)),
                    Err(_) => Err(MalformedTlv),
                }
            },
            None => unread(*old(walk)).len() == 0 && unread(*final(walk)) == unread(*old(walk)),
        },
{
    walk.next()
}

/// The variants of `proxy_header::Tlv` that hold a text, with the bytes of the
/// text; nothing for the others.
#[verifier::external_body]
fn text_field(tlv: &WireTlv<'_>) -> (field: Option<TlvField<Vec<u8>>>)
    ensures
        match field {
            Some(f) => f@ == field_of(*tlv),
            None => !is_text(field_of(*tlv)),
        },
{
    Some(match tlv {
        WireTlv::Authority(v) => TlvField::Authority(v.as_bytes().into()),
        WireTlv::Netns(v) => TlvField::Netns(v.as_bytes().into()),
        WireTlv::SslVersion(v) => TlvField::SslVersion(v.as_bytes().into()),
        WireTlv::SslCn(v) => TlvField::SslCn(v.as_bytes().into()),
        WireTlv::SslCipher(v) => TlvField::SslCipher(v.as_bytes().into()),
        WireTlv::SslSigAlg(v) => TlvField::SslSigAlg(v.as_bytes().into()),
        WireTlv::SslKeyAlg(v) => TlvField::SslKeyAlg(v.as_bytes().into()),
        _ => return None,
    })
}

/// The variants of `proxy_header::Tlv` that hold no text, with the bytes that
/// they hold, if any, except for checksums, padding and TLS information;
/// nothing for the others.
#[verifier::external_body]
fn other_field(tlv: &WireTlv<'_>) -> (field: Option<TlvField<Vec<u8>>>)
    ensures
        match field {
            Some(f) => f@ == field_of(*tlv),
            None => is_text(field_of(*tlv)) || field_of(*tlv) is Unknown,
        },
{
    Some(match tlv {
        WireTlv::Alpn(v) => TlvField::Alpn(v.to_vec()),
        WireTlv::Crc32c(_) => TlvField::Crc32c,
        WireTlv::Noop(_) => TlvField::Noop,
        WireTlv::UniqueId(v) => TlvField::UniqueId(v.to_vec()),
        WireTlv::Ssl(_) => TlvField::Ssl,
        WireTlv::Custom(kind, v) => TlvField::Custom(*kind, v.to_vec()),
        _ => return None,
    })
}

/// The next entry of a walk; nothing at the end of the section.
pub(crate) fn next_tlv(walk: &mut Tlvs<'_>) -> (item: Option<TlvItem<Vec<u8>>>)
    ensures
        match item {
            Some(i) => {
                &&& unread(*old(walk)).len() > 0
                &&& item_view(i) == first_item(unread(*old(walk)))
                &&& unread(*final(walk)) == after_first(unread(*old(walk)))
            },
            None => unread(*old(walk)).len() == 0 && unread(*final(walk)) == unread(*old(walk)),
        },
{
    match step(walk) {
        Some(Ok(tlv)) => {
            let field = match text_field(&tlv) {
                Some(field) => field,
                None => match other_field(&tlv) {
                    Some(field) => field,
                    None => TlvField::Unknown,
                },
            };
            Some(Ok(field))
        },
        Some(Err(_)) => Some(Err(MalformedTlv)),
        None => None,
    }
}

} // verus!
