//! What is said of a value is what the value holds.

use crate::octets;
use crate::proxy_protocol::error::ProxyProtocolError;
use crate::proxy_protocol::header::{ProxyProtocolHeader, Tlv};
use crate::proxy_protocol::parse;
use crate::proxy_protocol::parse::{DecodedHeader, ParseView};
use crate::proxy_protocol::reader;
use crate::proxy_protocol::reader::{ReadStep, ReadStepView, ReadView};
use crate::proxy_protocol::wire;
use crate::proxy_protocol::wire::{DecodeError, DecodedView, MalformedTlv, TlvField, TlvItem};
use crate::socket::{InetAddr, SocketAddr};
use vstd::prelude::*;

verus! {

/// An entry, by its type and the bytes of its value.
pub proof fn law_tlv_view(tlv: Tlv)
    ensures
        tlv@.typ == tlv.typ,
        tlv@.value == octets::contents(tlv.value),
{
}

/// An address, by the text and the port that it holds.
pub proof fn law_address_view(addr: InetAddr)
    ensures
        addr@ == (addr.ip@, addr.port),
        SocketAddr::Inet(addr)@ == (addr.ip@, addr.port),
{
}

/// A header, by the fields that it holds.
pub proof fn law_header_view(header: ProxyProtocolHeader)
    ensures
        header@.version == header.version,
        header@.is_local == header.is_local,
        header@.source_addr is Some <==> header.source_addr is Some,
        header@.dest_addr is Some <==> header.dest_addr is Some,
        header.source_addr matches Some(SocketAddr::Inet(addr)) ==> header@.source_addr == Some(
            (addr.ip@, addr.port),
        ),
        header.dest_addr matches Some(SocketAddr::Inet(addr)) ==> header@.dest_addr == Some(
            (addr.ip@, addr.port),
        ),
        header@.tlvs.len() == header.tlvs@.len(),
        forall|i: int|
            0 <= i < header.tlvs@.len() ==> {
                &&& (#[trigger] header@.tlvs[i]).typ == header.tlvs@[i].typ
                &&& header@.tlvs[i].value == octets::contents(header.tlvs@[i].value)
            },
        header@.raw_header == octets::contents(header.raw_header),
{
}

/// An error, by its kind and its reason.
pub proof fn law_error_view(error: ProxyProtocolError<String>)
    ensures
        error matches ProxyProtocolError::Malformed(reason) ==> error@
            == ProxyProtocolError::Malformed(reason@),
        error matches ProxyProtocolError::ReadFailed(reason) ==> error@
            == ProxyProtocolError::ReadFailed(reason@),
        error is ConnectionClosed ==> error@ == ProxyProtocolError::<Seq<char>>::ConnectionClosed,
        error is HeaderTooLarge ==> error@ == ProxyProtocolError::<Seq<char>>::HeaderTooLarge,
{
}

/// The items of a walk, one by one, malformed ones included.
pub proof fn law_items_view(items: Seq<TlvItem<Vec<u8>>>)
    ensures
        wire::items_view(items).len() == items.len(),
        forall|i: int|
            0 <= i < items.len() ==> #[trigger] wire::items_view(items)[i] == match items[i] {
                Ok(field) => Ok::<TlvField<Seq<u8>>, MalformedTlv>(field@),
                Err(e) => Err(e),
            },
{
}

/// A pair of addresses, by the texts and the ports of both.
pub proof fn law_address_pair_view(source: InetAddr, destination: InetAddr)
    ensures
        wire::address_view(Some((source, destination))) == Some(
            ((source.ip@, source.port), (destination.ip@, destination.port)),
        ),
        wire::address_view(None) is None,
{
}

/// A decoded header that matches what the decoder makes of a buffer has its
/// address, its length and every entry of its section; an error is the same
/// error.
pub proof fn law_decoded_header_matches(
    res: Result<DecodedHeader, DecodeError<String>>,
    view: Result<DecodedView, DecodeError<Seq<char>>>,
)
    requires
        parse::decoded_matches(res, view),
    ensures
        res is Ok <==> view is Ok,
        res matches Ok(header) ==> (view matches Ok((address, section, len)) && {
            &&& wire::address_view(header.address) == address
            &&& header.len == len
            &&& wire::items_view(header.fields@) == wire::section_items(section)
        }),
        res matches Err(DecodeError::BufferTooShort) <==> view matches Err(
            DecodeError::BufferTooShort,
        ),
        res matches Err(DecodeError::Malformed(reason)) ==> (view matches Err(
            DecodeError::Malformed(why),
        ) && why == reason@),
{
}

/// The outcome of a parse, by the header, its length or the error.
pub proof fn law_parse_view(
    res: Result<Option<(ProxyProtocolHeader, usize)>, ProxyProtocolError<String>>,
)
    ensures
        res matches Ok(Some((header, len))) ==> parse::parse_view(res) == ParseView::Ok(
            Some((header@, len as nat)),
        ),
        res matches Ok(None) ==> parse::parse_view(res) == ParseView::Ok(None),
        res matches Err(e) ==> parse::parse_view(res) == ParseView::Err(e@),
{
}

/// A step, by what it hands on.
pub proof fn law_step_view(step: ReadStep)
    ensures
        step matches ReadStep::NeedMore(held) ==> step@ == ReadStepView::NeedMore(held@),
        step matches ReadStep::Finished(Some(header), rest) ==> step@ == ReadStepView::Finished(
            Some(header@),
            rest@,
        ),
        step matches ReadStep::Finished(None, rest) ==> step@ == ReadStepView::Finished(None, rest@),
        step matches ReadStep::Failed(e) ==> step@ == ReadStepView::Failed(e@),
{
}

/// Reads, each with all the bytes that it brought or with its reason, none left
/// out.
pub proof fn law_reads_view(reads: Seq<Result<Vec<u8>, String>>)
    ensures
        reader::reads_view(reads).len() == reads.len(),
        forall|i: int|
            0 <= i < reads.len() ==> #[trigger] reader::reads_view(reads)[i] == match reads[i] {
                Ok(chunk) => ReadView::Ok(chunk@),
                Err(reason) => ReadView::Err(reason@),
            },
{
}

} // verus!
