//! A parsed header and its accessors.

use crate::octets;
use crate::proxy_protocol::tlv_types;
use crate::socket::SocketAddr;
use bytes::Bytes;
use vstd::prelude::*;

verus! {

/// Version of the PROXY protocol.
#[derive(Debug, Clone, Copy, PartialEq, Eq, Structural)]
pub enum ProxyProtocolVersion {
    V1,
    V2,
}

/// A TLV entry (type, length, value) of a version 2 header.
#[derive(Debug)]
pub struct Tlv {
    pub typ: u8,
    pub value: Bytes,
}

/// What a [`Tlv`] holds.
pub struct TlvView {
    pub typ: u8,
    pub value: Seq<u8>,
}

impl View for Tlv {
    type V = TlvView;

    open spec fn view(&self) -> TlvView {
        TlvView { typ: self.typ, value: octets::contents(self.value) }
    }
}

impl Tlv {
    /// The entry of a type with a value.
    pub fn new(typ: u8, value: &[u8]) -> (tlv: Tlv)
        ensures
            tlv@ == (TlvView { typ, value: value@ }),
            tlv.typ == typ,
            octets::contents(tlv.value) == value@,
    {
        Tlv { typ, value: Bytes::copy_from_slice(value) }
    }
}

impl Clone for Tlv {
    fn clone(&self) -> (copy: Self)
        ensures
            copy@ == self@,
            copy.typ == self.typ,
            octets::contents(copy.value) == octets::contents(self.value),
    {
        Tlv { typ: self.typ, value: self.value.clone() }
    }
}

/// The entries of a list of TLVs, in order.
pub open spec fn tlvs_view(tlvs: Seq<Tlv>) -> Seq<TlvView> {
    tlvs.map_values(|tlv: Tlv| tlv@)
}

/// Parsed PROXY protocol header information.
#[derive(Debug)]
pub struct ProxyProtocolHeader {
    /// Version of the PROXY protocol used.
    pub version: ProxyProtocolVersion,
    /// Whether this is a LOCAL command (health check) or a PROXY command.
    pub is_local: bool,
    /// Source address (client).
    pub source_addr: Option<SocketAddr>,
    /// Destination address (the proxy's receiving address).
    pub dest_addr: Option<SocketAddr>,
    /// TLV entries (only for V2).
    pub tlvs: Vec<Tlv>,
    /// Raw header bytes (useful for forwarding).
    pub raw_header: Bytes,
}

/// What a [`ProxyProtocolHeader`] says.
pub struct HeaderView {
    pub version: ProxyProtocolVersion,
    pub is_local: bool,
    pub source_addr: Option<(Seq<char>, u16)>,
    pub dest_addr: Option<(Seq<char>, u16)>,
    pub tlvs: Seq<TlvView>,
    pub raw_header: Seq<u8>,
}

/// An optional address, by its parts.
pub open spec fn addr_view(addr: Option<SocketAddr>) -> Option<(Seq<char>, u16)> {
    match addr {
        Some(a) => Some(a@),
        None => None,
    }
}

impl View for ProxyProtocolHeader {
    type V = HeaderView;

    open spec fn view(&self) -> HeaderView {
        HeaderView {
            version: self.version,
            is_local: self.is_local,
            source_addr: addr_view(self.source_addr),
            dest_addr: addr_view(self.dest_addr),
            tlvs: tlvs_view(self.tlvs@),
            raw_header: octets::contents(self.raw_header),
        }
    }
}

impl Clone for ProxyProtocolHeader {
    fn clone(&self) -> (copy: Self)
        ensures
            copy@ == self@,
            copy.version == self.version,
            copy.is_local == self.is_local,
            copy.source_addr is Some <==> self.source_addr is Some,
            copy.dest_addr is Some <==> self.dest_addr is Some,
            copy.tlvs@.len() == self.tlvs@.len(),
            octets::contents(copy.raw_header) == octets::contents(self.raw_header),
    {
        let copy = ProxyProtocolHeader {
            version: self.version,
            is_local: self.is_local,
            source_addr: self.source_addr.clone(),
            dest_addr: self.dest_addr.clone(),
            tlvs: self.tlvs.clone(),
            raw_header: self.raw_header.clone(),
        };
        assert(copy@.tlvs =~= self@.tlvs);
        copy
    }
}

impl HeaderView {
    /// Both addresses are known or neither is, and they are unknown exactly on
    /// local connections.
    pub open spec fn well_formed(self) -> bool {
        &&& self.source_addr is Some <==> !self.is_local
        &&& self.dest_addr is Some <==> !self.is_local
    }

    /// `i` is the position of the first entry of type `typ`.
    pub open spec fn first_of_type(self, typ: u8, i: int) -> bool {
        &&& 0 <= i < self.tlvs.len()
        &&& self.tlvs[i].typ == typ
        &&& forall|j: int| 0 <= j < i ==> (#[trigger] self.tlvs[j]).typ != typ
    }

    /// Some entry has type `typ`.
    pub open spec fn has_type(self, typ: u8) -> bool {
        exists|i: int| 0 <= i < self.tlvs.len() && (#[trigger] self.tlvs[i]).typ == typ
    }

    /// The value of the first entry of type `typ`, if there is one.
    pub open spec fn value_of(self, typ: u8) -> Option<Seq<u8>> {
        if self.has_type(typ) {
            Some(self.tlvs[choose|i: int| self.first_of_type(typ, i)].value)
        } else {
            None
        }
    }
}

/// At most one position is that of the first entry of a type.
proof fn lemma_first_of_type_unique(header: HeaderView, typ: u8, i: int, j: int)
    requires
        header.first_of_type(typ, i),
        header.first_of_type(typ, j),
    ensures
        i == j,
{
}

impl ProxyProtocolHeader {
    /// Get the original client IP address.
    pub fn client_addr(&self) -> (addr: Option<&SocketAddr>)
        ensures
            match addr {
                Some(a) => self.source_addr == Some(*a),
                None => self.source_addr is None,
            },
    {
        self.source_addr.as_ref()
    }

    /// Get a TLV by type: the first entry of that type, in the order of the
    /// header.
    pub fn get_tlv(&self, typ: u8) -> (found: Option<&Tlv>)
        ensures
            match found {
                Some(tlv) => {
                    &&& exists|i: int| #[trigger]
                        self@.first_of_type(typ, i) && *tlv == self.tlvs@[i]
                    &&& tlv.typ == typ
                    &&& self@.value_of(typ) == Some(octets::contents(tlv.value))
                },
                None => !self@.has_type(typ),
            },
            found matches Some(tlv) ==> exists|i: int|
                0 <= i < self.tlvs@.len() && *tlv == #[trigger] self.tlvs@[i] && (forall|j: int|
                    0 <= j < i ==> (#[trigger] self.tlvs@[j]).typ != typ),
            found is None <==> forall|i: int|
                0 <= i < self.tlvs@.len() ==> (#[trigger] self.tlvs@[i]).typ != typ,
    {
        let mut i: usize = 0;
        while i < self.tlvs.len()
            invariant
                i <= self.tlvs@.len(),
                forall|j: int| 0 <= j < i ==> (#[trigger] self@.tlvs[j]).typ != typ,
                forall|j: int| 0 <= j < i ==> (#[trigger] self.tlvs@[j]).typ != typ,
            decreases self.tlvs@.len() - i,
        {
            let tlv = &self.tlvs[i];
            if tlv.typ == typ {
                proof {
                    assert(self@.tlvs[i as int] == tlv@);
                    assert(self@.first_of_type(typ, i as int));
                    let k = choose|k: int| self@.first_of_type(typ, k);
                    lemma_first_of_type_unique(self@, typ, i as int, k);
                }
                return Some(tlv);
            }
            assert(self@.tlvs[i as int].typ != typ);
            i += 1;
        }
        None
    }

    /// Get the ALPN TLV value if present.
    pub fn alpn(&self) -> (value: Option<&[u8]>)
        ensures
            match value {
                Some(v) => self@.value_of(tlv_types::ALPN) == Some(v@),
                None => !self@.has_type(tlv_types::ALPN),
            },
            value matches Some(v) ==> exists|i: int|
                0 <= i < self.tlvs@.len() && (#[trigger] self.tlvs@[i]).typ == tlv_types::ALPN
                    && octets::contents(self.tlvs@[i].value) == v@ && (forall|j: int|
                    0 <= j < i ==> (#[trigger] self.tlvs@[j]).typ != tlv_types::ALPN),
            value is None <==> forall|i: int|
                0 <= i < self.tlvs@.len() ==> (#[trigger] self.tlvs@[i]).typ != tlv_types::ALPN,
    {
        match self.get_tlv(tlv_types::ALPN) {
            Some(tlv) => Some(octets::as_slice(&tlv.value)),
            None => None,
        }
    }

    /// Get the authority (SNI) TLV value if present, where it is UTF-8 text.
    pub fn authority(&self) -> (value: Option<&str>)
        ensures
            match self@.value_of(tlv_types::AUTHORITY) {
                Some(bytes) => if vstd::utf8::valid_utf8(bytes) {
                    value matches Some(s) && s@ == vstd::utf8::decode_utf8(bytes)
                } else {
                    value is None
                },
                None => value is None,
            },
            forall|i: int|
                #![trigger self.tlvs@[i]]
                0 <= i < self.tlvs@.len() && self.tlvs@[i].typ == tlv_types::AUTHORITY && (forall|
                    j: int,
                |
                    0 <= j < i ==> (#[trigger] self.tlvs@[j]).typ != tlv_types::AUTHORITY) ==> {
                    let bytes = octets::contents(self.tlvs@[i].value);
                    if vstd::utf8::valid_utf8(bytes) {
                        value matches Some(s) && s@ == vstd::utf8::decode_utf8(bytes)
                    } else {
                        value is None
                    }
                },
            (forall|i: int|
                0 <= i < self.tlvs@.len() ==> (#[trigger] self.tlvs@[i]).typ
                    != tlv_types::AUTHORITY) ==> value is None,
    {
        match self.get_tlv(tlv_types::AUTHORITY) {
            Some(tlv) => octets::text(octets::as_slice(&tlv.value)),
            None => None,
        }
    }

    /// Get the unique ID TLV value if present.
    pub fn unique_id(&self) -> (value: Option<&[u8]>)
        ensures
            match value {
                Some(v) => self@.value_of(tlv_types::UNIQUE_ID) == Some(v@),
                None => !self@.has_type(tlv_types::UNIQUE_ID),
            },
            value matches Some(v) ==> exists|i: int|
                0 <= i < self.tlvs@.len() && (#[trigger] self.tlvs@[i]).typ == tlv_types::UNIQUE_ID
                    && octets::contents(self.tlvs@[i].value) == v@ && (forall|j: int|
                    0 <= j < i ==> (#[trigger] self.tlvs@[j]).typ != tlv_types::UNIQUE_ID),
            value is None <==> forall|i: int|
                0 <= i < self.tlvs@.len() ==> (#[trigger] self.tlvs@[i]).typ != tlv_types::UNIQUE_ID,
    {
        match self.get_tlv(tlv_types::UNIQUE_ID) {
            Some(tlv) => Some(octets::as_slice(&tlv.value)),
            None => None,
        }
    }
}

} // verus!
