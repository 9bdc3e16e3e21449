//! What holds of headers and of whole reads.

use crate::proxy_protocol::header::HeaderView;
use crate::proxy_protocol::parse;
use crate::proxy_protocol::parse::ParseView;
use crate::proxy_protocol::reader;
use crate::proxy_protocol::reader::{ReadStepView, ReadView};
use crate::proxy_protocol::tlv_types;
use crate::proxy_protocol::wire;
use crate::proxy_protocol::wire::{AddressView, TlvItem};
use vstd::prelude::*;

verus! {

/// An item that decoding an entry can bring about.
spec fn is_decoded(item: TlvItem<Seq<u8>>) -> bool {
    item is Err || exists|kind: u8, data: Seq<u8>| #[trigger] wire::decode_field(kind, data) == item
}

/// Every item of a section is a decoded entry.
proof fn lemma_section_items_decoded(section: Seq<u8>, i: int)
    requires
        0 <= i < wire::section_items(section).len(),
    ensures
        is_decoded(wire::section_items(section)[i]),
    decreases section.len(),
{
    let rest = wire::after_first(section);
    if i == 0 {
        assert(wire::section_items(section)[0] == wire::first_item(section));
    } else {
        assert(wire::section_items(section)[i] == wire::section_items(rest)[i - 1]);
        lemma_section_items_decoded(rest, i - 1);
    }
}

/// Every entry that is kept is what is kept of some item.
proof fn lemma_kept_from(items: Seq<TlvItem<Seq<u8>>>, i: int) -> (j: int)
    requires
        0 <= i < parse::all_kept(items).len(),
    ensures
        0 <= j < items.len(),
        parse::kept(items[j]) == seq![parse::all_kept(items)[i]],
    decreases items.len(),
{
    let front = parse::all_kept(items.drop_last());
    if i < front.len() {
        assert(parse::all_kept(items)[i] == front[i]);
        lemma_kept_from(items.drop_last(), i)
    } else {
        assert(parse::all_kept(items)[i] == parse::kept(items.last())[i - front.len()]);
        assert(parse::kept(items.last()) =~= seq![parse::all_kept(items)[i]]);
        items.len() - 1
    }
}

/// The TLV entries of a header off the wire hold no padding; checksums and TLS
/// information are held without content; texts are UTF-8.
pub proof fn law_entries_kept(address: Option<AddressView>, section: Seq<u8>, raw_header: Seq<u8>)
    ensures
        ({
            let header = parse::header_of(address, wire::section_items(section), raw_header);
            &&& !header.has_type(tlv_types::NOOP)
            &&& forall|i: int|
                0 <= i < header.tlvs.len() ==> {
                    let tlv = #[trigger] header.tlvs[i];
                    &&& tlv.typ == tlv_types::CRC32C ==> tlv.value.len() == 0
                    &&& tlv.typ == tlv_types::SSL ==> tlv.value.len() == 0
                    &&& wire::is_text_type(tlv.typ) ==> vstd::utf8::valid_utf8(tlv.value)
                }
        }),
{
    let items = wire::section_items(section);
    let header = parse::header_of(address, items, raw_header);
    assert forall|i: int| 0 <= i < header.tlvs.len() implies {
        let tlv = #[trigger] header.tlvs[i];
        &&& tlv.typ != tlv_types::NOOP
        &&& tlv.typ == tlv_types::CRC32C ==> tlv.value.len() == 0
        &&& tlv.typ == tlv_types::SSL ==> tlv.value.len() == 0
        &&& wire::is_text_type(tlv.typ) ==> vstd::utf8::valid_utf8(tlv.value)
    } by {
        let j = lemma_kept_from(items, i);
        lemma_section_items_decoded(section, j);
        assert(parse::kept(items[j])[0] == header.tlvs[i]);
    }
}

/// The authority of a header off the wire is missing only where the header has
/// no such entry.
pub proof fn law_authority_is_text(
    address: Option<AddressView>,
    section: Seq<u8>,
    raw_header: Seq<u8>,
)
    ensures
        parse::header_of(address, wire::section_items(section), raw_header).value_of(
            tlv_types::AUTHORITY,
        ) matches Some(value) ==> vstd::utf8::valid_utf8(value),
{
    law_entries_kept(address, section, raw_header);
    let header = parse::header_of(address, wire::section_items(section), raw_header);
    if header.has_type(tlv_types::AUTHORITY) {
        lemma_first_exists(header, tlv_types::AUTHORITY);
        let k = choose|k: int| header.first_of_type(tlv_types::AUTHORITY, k);
        assert(header.first_of_type(tlv_types::AUTHORITY, k));
    }
}

/// Where some entry has a type, a first one has.
proof fn lemma_first_exists(header: HeaderView, typ: u8) -> (i: int)
    requires
        header.has_type(typ),
    ensures
        header.first_of_type(typ, i),
{
    let n = choose|n: int| 0 <= n < header.tlvs.len() && (#[trigger] header.tlvs[n]).typ == typ;
    lemma_first_below(header, typ, n)
}

/// The first entry of a type is at or before any entry of that type.
proof fn lemma_first_below(header: HeaderView, typ: u8, n: int) -> (i: int)
    requires
        0 <= n < header.tlvs.len(),
        header.tlvs[n].typ == typ,
    ensures
        header.first_of_type(typ, i),
    decreases n,
{
    if exists|j: int| 0 <= j < n && (#[trigger] header.tlvs[j]).typ == typ {
        let j = choose|j: int| 0 <= j < n && (#[trigger] header.tlvs[j]).typ == typ;
        lemma_first_below(header, typ, j)
    } else {
        n
    }
}

/// The wire form of an entry: its type, its length and its value.
pub open spec fn entry(kind: u8, data: Seq<u8>) -> Seq<u8> {
    seq![kind, (data.len() / 256) as u8, (data.len() % 256) as u8] + data
}

/// An entry that is put in front of a section is read back first, and the rest
/// of the section as before.
pub proof fn law_entry_read_back(kind: u8, data: Seq<u8>, rest: Seq<u8>)
    requires
        data.len() <= 65535,
    ensures
        wire::section_items(entry(kind, data) + rest) == seq![wire::decode_field(kind, data)]
            + wire::section_items(rest),
{
    let section = entry(kind, data) + rest;
    assert(section[1] == (data.len() / 256) as u8);
    assert(section[2] == (data.len() % 256) as u8);
    assert(wire::be16(section[1], section[2]) == data.len());
    assert(section.subrange(3, wire::entry_len(section)) =~= data);
    assert(section.skip(wire::entry_len(section)) =~= rest);
}

/// The wire form of a version 2 header.
pub open spec fn v2_header(
    command: u8,
    kind: u8,
    addresses: Seq<u8>,
    section: Seq<u8>,
) -> Seq<u8> {
    let len = addresses.len() + section.len();
    wire::v2_signature() + seq![command, kind, (len / 256) as u8, (len % 256) as u8] + addresses
        + section
}

/// A version 2 header that is put in front of other bytes is whole, ends where
/// these begin, and its TLV section is read back.
pub proof fn law_section_read_back(
    command: u8,
    kind: u8,
    addresses: Seq<u8>,
    section: Seq<u8>,
    payload: Seq<u8>,
)
    requires
        command == 0x20 || command == 0x21,
        wire::v2_addresses_len(kind) == Some(addresses.len() as int),
        addresses.len() + section.len() <= 65535,
    ensures
        ({
            let header = v2_header(command, kind, addresses, section);
            &&& wire::v2_complete(header + payload)
            &&& wire::v2_len(header + payload) == header.len()
            &&& wire::v2_section(header + payload) == section
        }),
{
    let header = v2_header(command, kind, addresses, section);
    let buf = header + payload;
    let len = addresses.len() + section.len();
    let signature = wire::v2_signature();
    assert(signature =~= buf.subrange(0, signature.len() as int));
    assert(buf[12] == command);
    assert(buf[13] == kind);
    assert(buf[14] == (len / 256) as u8);
    assert(buf[15] == (len % 256) as u8);
    assert(wire::be16(buf[14], buf[15]) == len);
    assert(wire::v2_section(buf) =~= section);
}

/// Entries are kept in the order in which they came.
pub proof fn law_order_kept(first: Seq<TlvItem<Seq<u8>>>, second: Seq<TlvItem<Seq<u8>>>)
    ensures
        parse::all_kept(first + second) == parse::all_kept(first) + parse::all_kept(second),
    decreases second.len(),
{
    if second.len() == 0 {
        assert(first + second =~= first);
        assert(parse::all_kept(first) + parse::all_kept(second) =~= parse::all_kept(first));
    } else {
        law_order_kept(first, second.drop_last());
        assert((first + second).drop_last() =~= first + second.drop_last());
        assert((first + second).last() == second.last());
        assert(parse::all_kept(first + second) =~= parse::all_kept(first) + parse::all_kept(
            second,
        ));
    }
}

/// A read that goes on has taken no more reads than it holds bytes, and holds
/// no more bytes than the limit.
proof fn lemma_read_bounded(buf: Seq<u8>, reads: Seq<ReadView>)
    ensures
        reader::read_all(buf, reads) matches ReadStepView::NeedMore(held) ==> {
            &&& buf.len() + reads.len() <= held.len()
            &&& reads.len() > 0 ==> held.len() <= reader::MAX_BUFFERED
        },
    decreases reads.len(),
{
    if reads.len() > 0 {
        if let ReadStepView::NeedMore(held) = reader::step_on_read(buf, reads.first()) {
            lemma_read_bounded(held, reads.drop_first());
        }
    }
}

/// Reading ends after a bounded number of reads: a reader that still asks for
/// more holds no more bytes than the limit, and has had no more reads than
/// that.
pub proof fn law_read_bounded(reads: Seq<ReadView>)
    ensures
        reader::read_all(Seq::empty(), reads) matches ReadStepView::NeedMore(held) ==> {
            &&& reads.len() <= held.len()
            &&& held.len() <= reader::MAX_BUFFERED
        },
{
    lemma_read_bounded(Seq::empty(), reads);
}

/// A read that has ended is not changed by what the stream would bring later.
pub proof fn law_end_is_final(reads: Seq<ReadView>, later: Seq<ReadView>)
    ensures
        !(reader::read_all(Seq::empty(), reads) is NeedMore) ==> reader::read_all(
            Seq::empty(),
            reads + later,
        ) == reader::read_all(Seq::empty(), reads),
{
    lemma_end_is_final(Seq::empty(), reads, later);
}

/// As [`law_end_is_final`], from a reader that holds `buf`.
proof fn lemma_end_is_final(buf: Seq<u8>, reads: Seq<ReadView>, later: Seq<ReadView>)
    ensures
        !(reader::read_all(buf, reads) is NeedMore) ==> reader::read_all(buf, reads + later)
            == reader::read_all(buf, reads),
    decreases reads.len(),
{
    if reads.len() > 0 {
        assert((reads + later).first() == reads.first());
        assert((reads + later).drop_first() =~= reads.drop_first() + later);
        if let ReadStepView::NeedMore(held) = reader::step_on_read(buf, reads.first()) {
            lemma_end_is_final(held, reads.drop_first(), later);
        }
    }
}

/// The header does not depend on how a stream is cut into reads: of two headers
/// found at the start of the same stream, each after some of its bytes, both
/// are the same.
pub proof fn law_cut_does_not_matter(
    stream: Seq<u8>,
    one: HeaderView,
    rest_of_one: Seq<u8>,
    seen_by_one: Seq<u8>,
    other: HeaderView,
    rest_of_other: Seq<u8>,
    seen_by_other: Seq<u8>,
)
    requires
        seen_by_one.is_prefix_of(stream),
        seen_by_other.is_prefix_of(stream),
        reader::found(one, rest_of_one, seen_by_one),
        reader::found(other, rest_of_other, seen_by_other),
    ensures
        one == other,
{
    let after_one = stream.skip(one.raw_header.len() as int);
    let after_other = stream.skip(other.raw_header.len() as int);
    assert(one.raw_header + after_one =~= stream);
    assert(other.raw_header + after_other =~= stream);
}

/// The bytes of the first read come first.
proof fn lemma_bytes_read_first(reads: Seq<ReadView>)
    requires
        reads.len() > 0,
    ensures
        reader::bytes_read(reads) == (match reads.first() {
            Ok(chunk) => chunk,
            Err(_) => Seq::empty(),
        }) + reader::bytes_read(reads.drop_first()),
    decreases reads.len(),
{
    reveal_with_fuel(reader::bytes_read, 2);
    if reads.len() == 1 {
        assert(reads.drop_last() =~= Seq::<ReadView>::empty());
        assert(reads.drop_first() =~= Seq::<ReadView>::empty());
        assert(reads.first() == reads.last());
    } else {
        lemma_bytes_read_first(reads.drop_last());
        assert(reads.drop_last().drop_first() =~= reads.drop_first().drop_last());
        assert(reads.drop_last().first() == reads.first());
        assert(reads.drop_first().last() == reads.last());
    }
    let first = match reads.first() {
        Ok(chunk) => chunk,
        Err(_) => Seq::<u8>::empty(),
    };
    assert(reader::bytes_read(reads) =~= first + reader::bytes_read(reads.drop_first()));
}

/// A reader that holds `held`, the start of a header, waits for the rest: it
/// holds no more than the limits, and nothing that no greeting begins with.
pub open spec fn waits(held: Seq<u8>) -> bool {
    &&& held.len() < reader::DETECT_LEN || reader::may_greet(held)
    &&& held.len() <= reader::MAX_BUFFERED
    &&& held.len() > 0 ==> wire::waits_at(held[0], held.len() as int)
}

/// All reads bring bytes.
pub open spec fn all_bring_bytes(reads: Seq<ReadView>) -> bool {
    forall|i: int| 0 <= i < reads.len() ==> (#[trigger] reads[i] matches Ok(chunk) && chunk.len() > 0)
}

/// At every end of a read before the end of the header, the reader waits.
pub open spec fn waits_at_cuts(held: Seq<u8>, reads: Seq<ReadView>, header_len: nat) -> bool {
    forall|k: int|
        0 <= k <= reads.len() && (held + #[trigger] reader::bytes_read(reads.take(k))).len()
            < header_len ==> waits(held + reader::bytes_read(reads.take(k)))
}

/// As [`law_found_in_pieces`], from a reader that holds `held`.
proof fn lemma_pieces(
    header: HeaderView,
    rest: Seq<u8>,
    seen: Seq<u8>,
    held: Seq<u8>,
    reads: Seq<ReadView>,
)
    requires
        reader::found(header, rest, seen),
        held.len() < header.raw_header.len(),
        header.raw_header.is_prefix_of(held + reader::bytes_read(reads)),
        all_bring_bytes(reads),
        waits_at_cuts(held, reads, header.raw_header.len()),
    ensures
        reader::read_all(held, reads) matches ReadStepView::Finished(Some(h), _) && h == header,
    decreases reads.len(),
{
    let raw = header.raw_header;
    if reads.len() == 0 {
        assert(held + reader::bytes_read(reads) =~= held);
        assert(raw.len() <= held.len());
    } else {
        let later = reads.drop_first();
        assert(reads[0] is Ok);
        let chunk = reads.first()->Ok_0;
        let next = held + chunk;
        lemma_bytes_read_first(reads);
        assert(next + reader::bytes_read(later) =~= held + reader::bytes_read(reads));
        assert(reads.take(1).drop_last() =~= Seq::<ReadView>::empty());
        assert(reads.take(1).last() == reads[0]);
        assert(held + reader::bytes_read(reads.take(1)) =~= next) by {
            reveal_with_fuel(reader::bytes_read, 2);
        }
        if next.len() < raw.len() {
            assert(waits(next));
            let whole = next + reader::bytes_read(later);
            assert(raw =~= whole.subrange(0, raw.len() as int));
            assert(next =~= raw.take(next.len() as int));
            assert(next[0] == raw[0]);
            assert(all_bring_bytes(later)) by {
                assert forall|i: int| 0 <= i < later.len() implies (#[trigger] later[i] matches Ok(
                    c,
                ) && c.len() > 0) by {
                    assert(later[i] == reads[i + 1]);
                }
            }
            assert(waits_at_cuts(next, later, raw.len())) by {
                assert forall|k: int|
                    0 <= k <= later.len() && (next + #[trigger] reader::bytes_read(
                        later.take(k),
                    )).len() < raw.len() implies waits(
                    next + reader::bytes_read(later.take(k)),
                ) by {
                    let more = reads.take(k + 1);
                    lemma_bytes_read_first(more);
                    assert(more.drop_first() =~= later.take(k));
                    assert(more.first() == reads[0]);
                    assert(held + reader::bytes_read(more) =~= next + reader::bytes_read(
                        later.take(k),
                    ));
                }
            }
            lemma_pieces(header, rest, seen, next, later);
        } else {
            let whole = next + reader::bytes_read(later);
            assert(raw =~= whole.subrange(0, raw.len() as int));
            assert(raw + next.skip(raw.len() as int) =~= next);
        }
    }
}

/// A header is found in whatever pieces it arrives, as long as the reader waits
/// at the end of each of them.
pub proof fn law_found_in_pieces(
    header: HeaderView,
    rest: Seq<u8>,
    seen: Seq<u8>,
    reads: Seq<ReadView>,
)
    requires
        reader::found(header, rest, seen),
        header.raw_header.is_prefix_of(reader::bytes_read(reads)),
        all_bring_bytes(reads),
        waits_at_cuts(Seq::empty(), reads, header.raw_header.len()),
    ensures
        reader::read_all(Seq::empty(), reads) matches ReadStepView::Finished(Some(h), _) && h
            == header,
{
    assert(Seq::<u8>::empty() + reader::bytes_read(reads) =~= reader::bytes_read(reads));
    lemma_pieces(header, rest, seen, Seq::empty(), reads);
}

/// All the bytes of some reads begin with the bytes of the first of them.
proof fn lemma_bytes_read_take(reads: Seq<ReadView>, k: int)
    requires
        0 <= k <= reads.len(),
    ensures
        reader::bytes_read(reads.take(k)).is_prefix_of(reader::bytes_read(reads)),
    decreases reads.len(),
{
    let all = reader::bytes_read(reads);
    let some = reader::bytes_read(reads.take(k));
    if k == reads.len() {
        assert(reads.take(k) =~= reads);
        assert(all =~= all.subrange(0, all.len() as int));
    } else {
        let front = reads.drop_last();
        lemma_bytes_read_take(front, k);
        assert(front.take(k) =~= reads.take(k));
        assert(some =~= reader::bytes_read(front).subrange(0, some.len() as int));
        assert(some =~= all.subrange(0, some.len() as int));
    }
}

/// The start of what begins as a header does is the start of such a beginning,
/// or begins so itself.
proof fn lemma_start_may_greet(start: Seq<u8>, whole: Seq<u8>)
    requires
        start.is_prefix_of(whole),
        reader::greets(whole),
    ensures
        reader::may_greet(start),
{
    let greeting = if parse::v1_greeting().is_prefix_of(whole) {
        parse::v1_greeting()
    } else {
        wire::v2_signature()
    };
    assert(greeting =~= whole.subrange(0, greeting.len() as int));
    assert(start =~= whole.subrange(0, start.len() as int));
    if start.len() <= greeting.len() {
        assert(start =~= greeting.subrange(0, start.len() as int));
    } else {
        assert(greeting =~= start.subrange(0, greeting.len() as int));
    }
}

/// How a stream is cut into reads does not matter: a header that begins with a
/// greeting and keeps to the limits, that of version 1 headers too, is found in
/// whatever pieces it arrives.
pub proof fn law_found_however_cut(
    header: HeaderView,
    rest: Seq<u8>,
    seen: Seq<u8>,
    reads: Seq<ReadView>,
)
    requires
        reader::found(header, rest, seen),
        reader::greets(header.raw_header),
        header.raw_header.len() <= reader::MAX_BUFFERED + 1,
        header.version is V1 ==> header.raw_header.len() <= wire::V1_MAX_LEN,
        header.raw_header.is_prefix_of(reader::bytes_read(reads)),
        all_bring_bytes(reads),
    ensures
        reader::read_all(Seq::empty(), reads) matches ReadStepView::Finished(Some(h), _) && h
            == header,
{
    let raw = header.raw_header;
    let all = reader::bytes_read(reads);
    let none = Seq::<u8>::empty();
    assert(raw + none =~= raw);
    assert(parse::parsed(raw + none) == ParseView::Ok(Some((header, raw.len()))));
    assert(header.version == parse::version_of(raw)) by {
        assert(raw.take(raw.len() as int) =~= raw);
    }
    assert(raw =~= all.subrange(0, raw.len() as int));
    assert forall|k: int|
        0 <= k <= reads.len() && (none + #[trigger] reader::bytes_read(reads.take(k))).len()
            < raw.len() implies waits(none + reader::bytes_read(reads.take(k))) by {
        let held = reader::bytes_read(reads.take(k));
        assert(none + held =~= held);
        lemma_bytes_read_take(reads, k);
        assert(held =~= all.subrange(0, held.len() as int));
        assert(held =~= raw.subrange(0, held.len() as int));
        lemma_start_may_greet(held, raw);
        if held.len() > 0 && !(header.version is V1) {
            assert(wire::v2_signature().is_prefix_of(raw));
            assert(raw[0] == wire::v2_signature()[0]);
        }
    }
    law_found_in_pieces(header, rest, seen, reads);
}

/// What cannot become a header is handed back whole, once there is enough of it
/// or the parse has failed.
pub proof fn law_no_header_handed_back(buf: Seq<u8>, parse: ParseView)
    requires
        !reader::may_greet(buf),
        !(parse matches Ok(Some(_))),
        buf.len() >= reader::DETECT_LEN || parse is Err,
    ensures
        reader::step_after_parse(buf, parse) == ReadStepView::Finished(None, buf),
{
}

/// Bytes that were read are refused only where they begin as a header does.
pub proof fn law_only_headers_are_refused(buf: Seq<u8>, parse: ParseView)
    ensures
        reader::step_after_parse(buf, parse) is Failed ==> reader::may_greet(buf),
{
}

/// A header that was found is found again in its own bytes, with nothing left
/// over, and in these followed by any other bytes.
pub proof fn law_header_can_be_forwarded(header: HeaderView, rest: Seq<u8>, seen: Seq<u8>)
    requires
        reader::found(header, rest, seen),
    ensures
        parse::parsed(header.raw_header) == ParseView::Ok(
            Some((header, header.raw_header.len())),
        ),
        forall|payload: Seq<u8>|
            reader::step_after_parse(
                header.raw_header + payload,
                parse::parsed(#[trigger] (header.raw_header + payload)),
            ) == ReadStepView::Finished(Some(header), payload),
{
    assert(header.raw_header + Seq::<u8>::empty() =~= header.raw_header);
    assert forall|payload: Seq<u8>|
        reader::step_after_parse(
            header.raw_header + payload,
            parse::parsed(#[trigger] (header.raw_header + payload)),
        ) == ReadStepView::Finished(Some(header), payload) by {
        assert((header.raw_header + payload).skip(header.raw_header.len() as int) =~= payload);
    }
}

} // verus!
