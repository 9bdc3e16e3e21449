//! What a version 1 line says, and that it is read back as it was written.

use crate::proxy_protocol::laws;
use crate::proxy_protocol::parse;
use crate::proxy_protocol::wire;
use crate::proxy_protocol::wire::{AddressView, TlvItem};
use vstd::prelude::*;

verus! {

/// A number in decimal digits, without leading zeros.
pub open spec fn digits(n: nat) -> Seq<u8>
    decreases n,
{
    if n < 10 {
        seq![(0x30 + n) as u8]
    } else {
        digits(n / 10).push((0x30 + n % 10) as u8)
    }
}

/// Digits are read back as the number they were written for.
proof fn lemma_digits_read_back(n: nat)
    ensures
        wire::decimal(digits(n)) == n,
        digits(n).len() > 0,
        forall|i: int| 0 <= i < digits(n).len() ==> 0x30 <= #[trigger] digits(n)[i] <= 0x39,
    decreases n,
{
    if n < 10 {
        let one = digits(n);
        assert(one.drop_last() =~= Seq::<u8>::empty());
        assert(wire::decimal(one) == n) by {
            reveal_with_fuel(wire::decimal, 2);
        }
    } else {
        lemma_digits_read_back(n / 10);
        assert(digits(n).drop_last() =~= digits(n / 10));
    }
}

/// Every port is read back from its decimal digits.
pub proof fn law_port_read_back(port: u16)
    ensures
        wire::is_port_text(digits(port as nat), port),
{
    lemma_digits_read_back(port as nat);
    let text = digits(port as nat);
    assert(0x30 <= text[0] <= 0x39);
}

/// A text stands for at most one port.
pub proof fn law_port_is_unique(text: Seq<u8>, one: u16, other: u16)
    requires
        wire::is_port_text(text, one),
        wire::is_port_text(text, other),
    ensures
        one == other,
{
}

/// The search for the end of a field stops at the first such byte.
proof fn lemma_until(buf: Seq<u8>, from: int, at: int, end: u8)
    requires
        0 <= from <= at < buf.len(),
        buf[at] == end,
        forall|i: int| from <= i < at ==> #[trigger] buf[i] != end,
    ensures
        wire::until(buf, from, end) == at,
    decreases at - from,
{
    if from < at {
        assert(buf[from] != end);
        lemma_until(buf, from + 1, at, end);
    }
}

/// A version 1 line of TCP over IPv4 or IPv6.
pub open spec fn v1_line(
    family: Seq<u8>,
    source: Seq<u8>,
    destination: Seq<u8>,
    source_port: Seq<u8>,
    destination_port: Seq<u8>,
) -> Seq<u8> {
    wire::ascii("PROXY "@) + family + source + seq![0x20u8] + destination + seq![0x20u8]
        + source_port + seq![0x20u8] + destination_port + seq![0x0Du8, 0x0Au8]
}

/// The fields of a version 1 line in front of other bytes are those that were
/// written there, and the line ends where these bytes begin.
pub proof fn law_fields_read_back(
    family: Seq<u8>,
    source: Seq<u8>,
    destination: Seq<u8>,
    source_port: Seq<u8>,
    destination_port: Seq<u8>,
    payload: Seq<u8>,
)
    requires
        family == wire::ascii("TCP4 "@) || family == wire::ascii("TCP6 "@),
        !source.contains(0x20),
        !destination.contains(0x20),
        !source_port.contains(0x20),
        !destination_port.contains(0x0D),
    ensures
        ({
            let line = v1_line(family, source, destination, source_port, destination_port);
            let buf = line + payload;
            &&& wire::v1_field(buf, 1) == source
            &&& wire::v1_field(buf, 2) == destination
            &&& wire::v1_field(buf, 3) == source_port
            &&& wire::v1_field(buf, 4) == destination_port
            &&& !wire::v1_unknown(buf)
            &&& wire::v1_len(buf) == line.len()
            &&& buf.subrange(6, 11) == family
        }),
{
    reveal_strlit("PROXY ");
    reveal_strlit("TCP4 ");
    reveal_strlit("TCP6 ");
    reveal_strlit("UNKNOWN");
    let line = v1_line(family, source, destination, source_port, destination_port);
    let buf = line + payload;
    assert(family.len() == 5);
    assert(wire::ascii("PROXY "@).len() == 6);
    let e1: int = 11 + source.len() as int;
    let e2: int = e1 + 1 + destination.len() as int;
    let e3: int = e2 + 1 + source_port.len() as int;
    let e4: int = e3 + 1 + destination_port.len() as int;
    assert(line.len() == e4 + 2);
    assert(buf.subrange(6, 11) =~= family);
    assert(buf.subrange(11, e1) =~= source);
    assert(buf.subrange(e1 + 1, e2) =~= destination);
    assert(buf.subrange(e2 + 1, e3) =~= source_port);
    assert(buf.subrange(e3 + 1, e4) =~= destination_port);
    assert forall|i: int| 11 <= i < e1 implies #[trigger] buf[i] != 0x20 by {
        assert(buf[i] == source[i - 11]);
    }
    assert forall|i: int| e1 + 1 <= i < e2 implies #[trigger] buf[i] != 0x20 by {
        assert(buf[i] == destination[i - e1 - 1]);
    }
    assert forall|i: int| e2 + 1 <= i < e3 implies #[trigger] buf[i] != 0x20 by {
        assert(buf[i] == source_port[i - e2 - 1]);
    }
    assert forall|i: int| e3 + 1 <= i < e4 implies #[trigger] buf[i] != 0x0D by {
        assert(buf[i] == destination_port[i - e3 - 1]);
    }
    lemma_until(buf, 11, e1, 0x20);
    lemma_until(buf, e1 + 1, e2, 0x20);
    lemma_until(buf, e2 + 1, e3, 0x20);
    lemma_until(buf, e3 + 1, e4, 0x0D);
    assert(wire::v1_end(buf, 0) == 10);
    assert(wire::v1_end(buf, 1) == e1);
    assert(wire::v1_end(buf, 2) == e2);
    assert(wire::v1_end(buf, 3) == e3);
    assert(wire::v1_end(buf, 4) == e4);
    let unknown = wire::ascii("UNKNOWN"@);
    assert(unknown[0] == 0x55);
    assert(family[0] == 0x54);
    assert(buf.subrange(6, 11)[0] == buf[6]);
    if wire::v1_unknown(buf) {
        assert(buf.subrange(6, 13)[0] == buf[6]);
    }
}

/// The header of a version 1 line holds the ports that are written in it, for
/// every pair of ports, and for IPv4 the addresses too. `address` is what was
/// decoded from the line, whatever bytes follow it.
pub proof fn law_line_addresses_kept(
    family: Seq<u8>,
    source: Seq<u8>,
    destination: Seq<u8>,
    source_port: u16,
    destination_port: u16,
    payload: Seq<u8>,
    address: Option<AddressView>,
    items: Seq<TlvItem<Seq<u8>>>,
)
    requires
        family == wire::ascii("TCP4 "@) || family == wire::ascii("TCP6 "@),
        !source.contains(0x20),
        !destination.contains(0x20),
        wire::v1_address(
            v1_line(
                family,
                source,
                destination,
                digits(source_port as nat),
                digits(destination_port as nat),
            ) + payload,
            address,
        ),
    ensures
        ({
            let line = v1_line(
                family,
                source,
                destination,
                digits(source_port as nat),
                digits(destination_port as nat),
            );
            let header = parse::header_of(address, items, line);
            &&& header.version is V1
            &&& !header.is_local
            &&& header.source_addr matches Some((client, port))
            &&& port == source_port
            &&& family == wire::ascii("TCP4 "@) ==> wire::ascii(client) == source
            &&& header.dest_addr matches Some((server, port))
            &&& port == destination_port
            &&& family == wire::ascii("TCP4 "@) ==> wire::ascii(server) == destination
        }),
{
    let from = digits(source_port as nat);
    let to = digits(destination_port as nat);
    lemma_digits_read_back(source_port as nat);
    lemma_digits_read_back(destination_port as nat);
    assert(!from.contains(0x20));
    assert(!to.contains(0x0D));
    let line = v1_line(family, source, destination, from, to);
    law_fields_read_back(family, source, destination, from, to, payload);
    law_port_read_back(source_port);
    law_port_read_back(destination_port);
    reveal_strlit("PROXY ");
    assert(parse::v1_greeting() =~= line.subrange(0, 6));
}

/// The header of a version 2 header's bytes holds the ports that these hold in
/// network byte order.
pub proof fn law_v2_ports_kept(
    command: u8,
    kind: u8,
    addresses: Seq<u8>,
    section: Seq<u8>,
    payload: Seq<u8>,
    address: Option<AddressView>,
    items: Seq<TlvItem<Seq<u8>>>,
)
    requires
        command == 0x20 || command == 0x21,
        wire::v2_addresses_len(kind) == Some(addresses.len() as int),
        addresses.len() + section.len() <= 65535,
        wire::v2_address(laws::v2_header(command, kind, addresses, section) + payload, address),
    ensures
        ({
            let raw = laws::v2_header(command, kind, addresses, section);
            let header = parse::header_of(address, items, raw);
            let n = addresses.len() as int;
            &&& header.version is V2
            &&& header.is_local <==> command == 0x20 || n == 0 || n == 216
            &&& header.source_addr is Some <==> !header.is_local
            &&& header.dest_addr is Some <==> !header.is_local
            &&& header.source_addr matches Some((_, port)) ==> port == addresses[n - 4] * 256
                + addresses[n - 3]
            &&& header.dest_addr matches Some((_, port)) ==> port == addresses[n - 2] * 256
                + addresses[n - 1]
        }),
{
    let raw = laws::v2_header(command, kind, addresses, section);
    let buf = raw + payload;
    let n = addresses.len() as int;
    assert(buf[12] == command);
    assert(buf[13] == kind);
    if n > 0 {
        assert(buf[12 + n] == addresses[n - 4]);
        assert(buf[13 + n] == addresses[n - 3]);
        assert(buf[14 + n] == addresses[n - 2]);
        assert(buf[15 + n] == addresses[n - 1]);
    }
    assert(raw[0] == 0x0D);
    if parse::v1_greeting().is_prefix_of(raw) {
        assert(parse::v1_greeting()[0] == raw.subrange(0, 6)[0]);
    }
}

} // verus!
