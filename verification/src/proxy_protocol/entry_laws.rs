//! What becomes of the TLV entries and of the addresses of a header.

use crate::proxy_protocol::header::{HeaderView, TlvView};
use crate::proxy_protocol::laws;
use crate::proxy_protocol::parse;
use crate::proxy_protocol::tlv_types;
use crate::proxy_protocol::wire;
use crate::proxy_protocol::wire::{AddressView, MalformedTlv, TlvField, TlvItem};
use vstd::prelude::*;

verus! {

/// The numbers of the well-known types.
pub proof fn law_well_known_types()
    ensures
        tlv_types::ALPN == 0x01,
        tlv_types::AUTHORITY == 0x02,
        tlv_types::CRC32C == 0x03,
        tlv_types::NOOP == 0x04,
        tlv_types::UNIQUE_ID == 0x05,
        tlv_types::SSL == 0x20,
        tlv_types::SSL_VERSION == 0x21,
        tlv_types::SSL_CN == 0x22,
        tlv_types::SSL_CIPHER == 0x23,
        tlv_types::SSL_SIG_ALG == 0x24,
        tlv_types::SSL_KEY_ALG == 0x25,
        tlv_types::NETNS == 0x30,
{
}

/// What is kept of the first of several items comes first.
proof fn lemma_first_kept(item: TlvItem<Seq<u8>>, items: Seq<TlvItem<Seq<u8>>>)
    ensures
        parse::all_kept(seq![item] + items) == parse::kept(item) + parse::all_kept(items),
{
    let one = seq![item];
    laws::law_order_kept(one, items);
    assert(one.drop_last() =~= Seq::<TlvItem<Seq<u8>>>::empty());
    assert(parse::all_kept(one) =~= parse::kept(item)) by {
        reveal_with_fuel(parse::all_kept, 2);
    }
}

/// The entry is complete in itself, and of a type that is kept with its value:
/// any but padding, checksums and TLS information. Texts must be UTF-8.
pub open spec fn kept_whole(kind: u8, data: Seq<u8>) -> bool {
    &&& data.len() <= 65535
    &&& kind != 0x03 && kind != 0x04 && kind != 0x20
    &&& wire::is_text_type(kind) ==> vstd::utf8::valid_utf8(data)
}

/// An entry of the section is kept, type and value, whatever its length, and the
/// rest of the section is not touched by it.
pub proof fn law_entry_is_kept(kind: u8, data: Seq<u8>, rest: Seq<u8>)
    requires
        kept_whole(kind, data),
    ensures
        parse::all_kept(wire::section_items(laws::entry(kind, data) + rest)) == seq![
            TlvView { typ: kind, value: data },
        ] + parse::all_kept(wire::section_items(rest)),
{
    laws::law_entry_read_back(kind, data, rest);
    lemma_first_kept(wire::decode_field(kind, data), wire::section_items(rest));
}

/// Of a checksum of four bytes, and of TLS information of at least five, the type
/// is kept, without the value.
pub proof fn law_type_alone_is_kept(kind: u8, data: Seq<u8>, rest: Seq<u8>)
    requires
        data.len() <= 65535,
        (kind == 0x03 && data.len() == 4) || (kind == 0x20 && data.len() >= 5),
    ensures
        parse::all_kept(wire::section_items(laws::entry(kind, data) + rest)) == seq![
            TlvView { typ: kind, value: Seq::empty() },
        ] + parse::all_kept(wire::section_items(rest)),
{
    laws::law_entry_read_back(kind, data, rest);
    lemma_first_kept(wire::decode_field(kind, data), wire::section_items(rest));
}

/// Padding is dropped, and so is a checksum or TLS information of another length
/// and a text that is not UTF-8. The rest of the section is kept all the same.
pub proof fn law_entry_is_dropped(kind: u8, data: Seq<u8>, rest: Seq<u8>)
    requires
        data.len() <= 65535,
        ({
            ||| kind == 0x04
            ||| kind == 0x03 && data.len() != 4
            ||| kind == 0x20 && data.len() < 5
            ||| wire::is_text_type(kind) && !vstd::utf8::valid_utf8(data)
        }),
    ensures
        parse::all_kept(wire::section_items(laws::entry(kind, data) + rest)) == parse::all_kept(
            wire::section_items(rest),
        ),
{
    laws::law_entry_read_back(kind, data, rest);
    lemma_first_kept(wire::decode_field(kind, data), wire::section_items(rest));
    assert(parse::kept(wire::decode_field(kind, data)) =~= Seq::<TlvView>::empty());
    assert(Seq::<TlvView>::empty() + parse::all_kept(wire::section_items(rest))
        =~= parse::all_kept(wire::section_items(rest)));
}

/// Nothing is kept of an entry that is cut short, nor of what follows it: there
/// is no telling where that begins.
pub proof fn law_cut_short_entry_ends(section: Seq<u8>)
    requires
        section.len() < 3 || section.len() < 3 + section[1] * 256 + section[2],
    ensures
        parse::all_kept(wire::section_items(section)) == Seq::<TlvView>::empty(),
{
    reveal_with_fuel(wire::section_items, 2);
    if section.len() > 0 {
        lemma_first_kept(wire::first_item(section), Seq::empty());
        assert(parse::kept(wire::first_item(section)) =~= Seq::<TlvView>::empty());
        assert(wire::section_items(section) =~= seq![wire::first_item(section)] + Seq::empty());
    }
}

/// The wire form of a list of entries.
pub open spec fn written(entries: Seq<(u8, Seq<u8>)>) -> Seq<u8>
    decreases entries.len(),
{
    if entries.len() == 0 {
        Seq::empty()
    } else {
        laws::entry(entries[0].0, entries[0].1) + written(entries.drop_first())
    }
}

/// A section of entries that are kept whole is read back entry by entry, in
/// order, with nothing added and nothing lost.
pub proof fn law_entries_read_back(entries: Seq<(u8, Seq<u8>)>)
    requires
        forall|i: int|
            0 <= i < entries.len() ==> kept_whole((#[trigger] entries[i]).0, entries[i].1),
    ensures
        parse::all_kept(wire::section_items(written(entries))) == entries.map_values(
            |e: (u8, Seq<u8>)| TlvView { typ: e.0, value: e.1 },
        ),
    decreases entries.len(),
{
    let views = entries.map_values(|e: (u8, Seq<u8>)| TlvView { typ: e.0, value: e.1 });
    if entries.len() == 0 {
        assert(parse::all_kept(wire::section_items(written(entries))) =~= views);
    } else {
        let later = entries.drop_first();
        assert forall|i: int| 0 <= i < later.len() implies kept_whole(
            (#[trigger] later[i]).0,
            later[i].1,
        ) by {
            assert(later[i] == entries[i + 1]);
        }
        law_entries_read_back(later);
        law_entry_is_kept(entries[0].0, entries[0].1, written(later));
        assert(views =~= seq![TlvView { typ: entries[0].0, value: entries[0].1 }]
            + later.map_values(|e: (u8, Seq<u8>)| TlvView { typ: e.0, value: e.1 }));
    }
}

/// What is kept of an entry has its type.
proof fn lemma_kept_type(kind: u8, data: Seq<u8>)
    ensures
        forall|i: int|
            0 <= i < parse::kept(wire::decode_field(kind, data)).len() ==> (
            #[trigger] parse::kept(wire::decode_field(kind, data))[i]).typ == kind,
{
}

/// Whatever entries stand before it, well-formed or not, an entry that is kept
/// whole can be looked up by its type; and where none before it has that type,
/// the value that is found is its own.
pub proof fn law_entry_is_found(
    header: HeaderView,
    before: Seq<(u8, Seq<u8>)>,
    kind: u8,
    data: Seq<u8>,
    rest: Seq<u8>,
)
    requires
        header.tlvs == parse::all_kept(
            wire::section_items(written(before) + (laws::entry(kind, data) + rest)),
        ),
        kept_whole(kind, data),
        forall|i: int| 0 <= i < before.len() ==> (#[trigger] before[i]).1.len() <= 65535,
    ensures
        header.has_type(kind),
        header.tlvs.contains(TlvView { typ: kind, value: data }),
        (forall|i: int| 0 <= i < before.len() ==> (#[trigger] before[i]).0 != kind)
            ==> header.value_of(kind) == Some(data),
{
    let i = lemma_found_at(header.tlvs, before, kind, data, rest);
    if forall|j: int| 0 <= j < before.len() ==> (#[trigger] before[j]).0 != kind {
        law_first_entry_counts(header, kind, i);
    }
}

/// The position of the entry of [`law_entry_is_found`].
proof fn lemma_found_at(
    tlvs: Seq<TlvView>,
    before: Seq<(u8, Seq<u8>)>,
    kind: u8,
    data: Seq<u8>,
    rest: Seq<u8>,
) -> (at: int)
    requires
        tlvs == parse::all_kept(
            wire::section_items(written(before) + (laws::entry(kind, data) + rest)),
        ),
        kept_whole(kind, data),
        forall|i: int| 0 <= i < before.len() ==> (#[trigger] before[i]).1.len() <= 65535,
    ensures
        0 <= at < tlvs.len(),
        tlvs[at] == (TlvView { typ: kind, value: data }),
        (forall|i: int| 0 <= i < before.len() ==> (#[trigger] before[i]).0 != kind) ==> (forall|
            j: int,
        |
            0 <= j < at ==> (#[trigger] tlvs[j]).typ != kind),
    decreases before.len(),
{
    let tail = laws::entry(kind, data) + rest;
    if before.len() == 0 {
        assert(written(before) + tail =~= tail);
        law_entry_is_kept(kind, data, rest);
        0
    } else {
        let later = before.drop_first();
        let (k, d) = before[0];
        assert(before[0].1.len() <= 65535);
        assert forall|i: int| 0 <= i < later.len() implies (#[trigger] later[i]).1.len()
            <= 65535 by {
            assert(later[i] == before[i + 1]);
        }
        let inner = parse::all_kept(wire::section_items(written(later) + tail));
        let at = lemma_found_at(inner, later, kind, data, rest);
        assert(written(before) + tail =~= laws::entry(k, d) + (written(later) + tail));
        laws::law_entry_read_back(k, d, written(later) + tail);
        lemma_first_kept(
            wire::decode_field(k, d),
            wire::section_items(written(later) + tail),
        );
        lemma_kept_type(k, d);
        let first = parse::kept(wire::decode_field(k, d));
        assert(tlvs =~= first + inner);
        assert(tlvs[first.len() + at] == inner[at]);
        if forall|i: int| 0 <= i < before.len() ==> (#[trigger] before[i]).0 != kind {
            assert forall|i: int| 0 <= i < later.len() implies (#[trigger] later[i]).0 != kind by {
                assert(later[i] == before[i + 1]);
            }
            assert(before[0].0 != kind);
            assert forall|j: int| 0 <= j < first.len() + at implies (#[trigger] tlvs[j]).typ
                != kind by {
                if j < first.len() {
                    assert(tlvs[j] == first[j]);
                } else {
                    assert(tlvs[j] == inner[j - first.len()]);
                }
            }
        }
        first.len() + at
    }
}

/// The value of a type is that of the first entry of the type.
pub proof fn law_first_entry_counts(header: HeaderView, typ: u8, i: int)
    requires
        0 <= i < header.tlvs.len(),
        header.tlvs[i].typ == typ,
        forall|j: int| 0 <= j < i ==> (#[trigger] header.tlvs[j]).typ != typ,
    ensures
        header.value_of(typ) == Some(header.tlvs[i].value),
{
    assert(header.first_of_type(typ, i));
    let k = choose|k: int| header.first_of_type(typ, k);
    assert(header.first_of_type(typ, k));
    if k < i {
        assert(header.tlvs[k].typ == typ);
    } else if i < k {
        assert(header.tlvs[i].typ == typ);
    }
}

/// A type that no entry has, has no value.
pub proof fn law_missing_type(header: HeaderView, typ: u8)
    requires
        forall|j: int| 0 <= j < header.tlvs.len() ==> (#[trigger] header.tlvs[j]).typ != typ,
    ensures
        header.value_of(typ) is None,
        !header.has_type(typ),
{
}

/// A header holds the source and the destination as they were decoded, text and
/// port, in either version, and is then not local; where there are none it is
/// local and holds none. Its bytes are those it was decoded from.
pub proof fn law_header_holds_what_was_decoded(
    address: Option<AddressView>,
    items: Seq<TlvItem<Seq<u8>>>,
    raw_header: Seq<u8>,
)
    ensures
        ({
            let header = parse::header_of(address, items, raw_header);
            &&& address matches Some((source, destination)) ==> {
                &&& header.source_addr == Some((source.0, source.1))
                &&& header.dest_addr == Some((destination.0, destination.1))
                &&& !header.is_local
                &&& parse::address_in(header) == address
            }
            &&& address is None ==> {
                &&& header.source_addr is None
                &&& header.dest_addr is None
                &&& header.is_local
            }
            &&& header.raw_header == raw_header
            &&& header.tlvs == parse::all_kept(items)
        }),
{
}

/// A header is one of version 1 exactly where it begins with the text `PROXY`
/// and a space.
pub proof fn law_version_by_greeting(
    address: Option<AddressView>,
    items: Seq<TlvItem<Seq<u8>>>,
    raw_header: Seq<u8>,
)
    ensures
        parse::header_of(address, items, raw_header).version is V1 <==> {
            &&& raw_header.len() >= 6
            &&& forall|i: int| 0 <= i < 6 ==> raw_header[i] as char == #[trigger] "PROXY "@[i]
        },
        !(parse::header_of(address, items, raw_header).version is V1) ==> parse::header_of(
            address,
            items,
            raw_header,
        ).version is V2,
{
    reveal_strlit("PROXY ");
    let greeting = parse::v1_greeting();
    let text = "PROXY "@;
    assert(text.len() == 6);
    assert(greeting.len() == 6);
    assert forall|i: int| 0 <= i < 6 implies (#[trigger] greeting[i]) as char == text[i] by {}
    if raw_header.len() >= 6 {
        if forall|i: int| 0 <= i < 6 ==> raw_header[i] as char == #[trigger] text[i] {
            assert forall|i: int| 0 <= i < 6 implies greeting[i] == raw_header[i] by {
                assert(greeting[i] as char == text[i]);
                assert(raw_header[i] as char == text[i]);
            }
            assert(greeting =~= raw_header.subrange(0, 6));
        }
        if greeting.is_prefix_of(raw_header) {
            assert forall|i: int| 0 <= i < 6 implies raw_header[i] as char
                == #[trigger] text[i] by {
                assert(greeting[i] == raw_header.subrange(0, 6)[i]);
                assert(greeting[i] as char == text[i]);
            }
        }
    }
}

/// What a malformed item leaves behind: nothing.
pub proof fn law_malformed_item_is_skipped(items: Seq<TlvItem<Seq<u8>>>)
    ensures
        parse::all_kept(items.push(Err(MalformedTlv))) == parse::all_kept(items),
        parse::all_kept(items.push(Ok(TlvField::Noop))) == parse::all_kept(items),
{
    let bad = items.push(Err(MalformedTlv));
    let pad = items.push(Ok(TlvField::Noop));
    assert(bad.drop_last() =~= items);
    assert(pad.drop_last() =~= items);
    assert(parse::all_kept(bad) =~= parse::all_kept(items));
    assert(parse::all_kept(pad) =~= parse::all_kept(items));
}

} // verus!
