//! What every read of a stream leads to, and what a parse says.

use crate::proxy_protocol::error::ProxyProtocolError;
use crate::proxy_protocol::laws;
use crate::proxy_protocol::parse;
use crate::proxy_protocol::parse::ParseView;
use crate::proxy_protocol::reader;
use crate::proxy_protocol::reader::{ReadStepView, ReadView};
use crate::proxy_protocol::wire;
use crate::proxy_protocol::wire::DecodeError;
use vstd::prelude::*;

verus! {

/// `buf` begins with the text `PROXY` and a space, or with the signature of
/// version 2.
pub open spec fn begins_as_header(buf: Seq<u8>) -> bool {
    ||| wire::ascii("PROXY "@).is_prefix_of(buf)
    ||| wire::v2_signature().is_prefix_of(buf)
}

/// `buf` agrees with one of these beginnings as far as both go.
pub open spec fn could_become_header(buf: Seq<u8>) -> bool {
    ||| forall|i: int|
        0 <= i < buf.len() && i < 6 ==> #[trigger] buf[i] == wire::ascii("PROXY "@)[i]
    ||| forall|i: int| 0 <= i < buf.len() && i < 12 ==> #[trigger] buf[i] == wire::v2_signature()[i]
}

/// The two ways to say that one sequence begins as another, as far as both go.
proof fn lemma_common(buf: Seq<u8>, greeting: Seq<u8>)
    ensures
        (greeting.is_prefix_of(buf) || buf.is_prefix_of(greeting)) <==> (forall|i: int|
            0 <= i < buf.len() && i < greeting.len() ==> #[trigger] buf[i] == greeting[i]),
{
    if greeting.is_prefix_of(buf) {
        assert forall|i: int| 0 <= i < buf.len() && i < greeting.len() implies #[trigger] buf[i]
            == greeting[i] by {
            assert(buf.subrange(0, greeting.len() as int)[i] == greeting[i]);
        }
    }
    if buf.is_prefix_of(greeting) {
        assert forall|i: int| 0 <= i < buf.len() && i < greeting.len() implies #[trigger] buf[i]
            == greeting[i] by {
            assert(greeting.subrange(0, buf.len() as int)[i] == buf[i]);
        }
    }
    if forall|i: int| 0 <= i < buf.len() && i < greeting.len() ==> #[trigger] buf[i]
        == greeting[i] {
        if buf.len() <= greeting.len() {
            assert(buf =~= greeting.subrange(0, buf.len() as int));
        } else {
            assert(greeting =~= buf.subrange(0, greeting.len() as int));
        }
    }
}

/// What begins as a header does, and what could become one, byte by byte.
pub proof fn law_greetings(buf: Seq<u8>)
    ensures
        reader::greets(buf) <==> begins_as_header(buf),
        reader::may_greet(buf) <==> could_become_header(buf),
        begins_as_header(buf) ==> could_become_header(buf),
{
    reveal_strlit("PROXY ");
    assert(parse::v1_greeting() =~= wire::ascii("PROXY "@));
    lemma_common(buf, parse::v1_greeting());
    lemma_common(buf, wire::v2_signature());
}

/// A stream that ends before it brought anything has no header, and one that ends
/// later has been cut off: that is an error, whatever was read and however much.
pub proof fn law_end_of_stream(held: Seq<u8>)
    ensures
        held.len() == 0 ==> reader::step_on_read(held, Ok(Seq::empty())) == ReadStepView::Finished(
            None,
            Seq::empty(),
        ),
        held.len() > 0 ==> reader::step_on_read(held, Ok(Seq::empty())) == ReadStepView::Failed(
            ProxyProtocolError::ConnectionClosed,
        ),
{
}

/// A failed read is an error with the same reason, whatever was read before.
pub proof fn law_failed_read(held: Seq<u8>, reason: Seq<char>)
    ensures
        reader::step_on_read(held, Err(reason)) == ReadStepView::Failed(
            ProxyProtocolError::ReadFailed(reason),
        ),
{
}

/// A read that brings bytes is settled by what a parse of all the bytes so far
/// says: a header ends it with the bytes behind it; bytes that could not become
/// one, eight of them or malformed, are handed back whole; a header that is
/// malformed, or longer than 1024 bytes and not complete, is an error; and all
/// else is kept to read on.
pub proof fn law_bytes_read(held: Seq<u8>, chunk: Seq<u8>)
    requires
        chunk.len() > 0,
    ensures
        ({
            let all = held + chunk;
            let step = reader::step_on_read(held, Ok(chunk));
            let says = parse::parsed(all);
            &&& says matches Ok(Some((header, n))) ==> step == ReadStepView::Finished(
                Some(header),
                all.skip(n as int),
            )
            &&& says matches Err(e) ==> step == (if could_become_header(all) {
                ReadStepView::Failed(e)
            } else {
                ReadStepView::Finished(None, all)
            })
            &&& says == ParseView::Ok(None) ==> step == (if all.len() >= 8 && !could_become_header(
                all,
            ) {
                ReadStepView::Finished(None, all)
            } else if all.len() > 1024 {
                ReadStepView::Failed(ProxyProtocolError::HeaderTooLarge)
            } else {
                ReadStepView::NeedMore(all)
            })
        }),
{
    law_greetings(held + chunk);
}

/// Without a read nothing changes, and one read does what it does by itself.
pub proof fn law_one_read(held: Seq<u8>, read: ReadView)
    ensures
        reader::read_all(held, Seq::<ReadView>::empty()) == ReadStepView::NeedMore(held),
        reader::read_all(held, seq![read]) == reader::step_on_read(held, read),
{
    reveal_with_fuel(reader::read_all, 2);
    assert(seq![read].first() == read);
}

/// Reads can be taken in two lots: the second goes on with what the first holds.
pub proof fn law_reads_in_two_lots(buf: Seq<u8>, first: Seq<ReadView>, second: Seq<ReadView>)
    ensures
        reader::read_all(buf, first + second) == match reader::read_all(buf, first) {
            ReadStepView::NeedMore(held) => reader::read_all(held, second),
            done => done,
        },
    decreases first.len(),
{
    if first.len() == 0 {
        assert(first + second =~= second);
    } else {
        assert((first + second).first() == first.first());
        assert((first + second).drop_first() =~= first.drop_first() + second);
        if let ReadStepView::NeedMore(held) = reader::step_on_read(buf, first.first()) {
            law_reads_in_two_lots(held, first.drop_first(), second);
        }
    }
}

/// The bytes of reads are those of the earlier ones followed by those of the
/// last.
pub proof fn law_bytes_in_order(reads: Seq<ReadView>, chunk: Seq<u8>, reason: Seq<char>)
    ensures
        reader::bytes_read(Seq::<ReadView>::empty()) == Seq::<u8>::empty(),
        reader::bytes_read(reads.push(Ok(chunk))) == reader::bytes_read(reads) + chunk,
        reader::bytes_read(reads.push(Err(reason))) == reader::bytes_read(reads),
{
    assert(reads.push(Ok(chunk)).drop_last() =~= reads);
    assert(reads.push(Err(reason)).drop_last() =~= reads);
    assert(reader::bytes_read(reads.push(Err(reason))) =~= reader::bytes_read(reads));
}

/// As [`law_nothing_is_lost`], from a reader that holds `buf`.
proof fn lemma_held(buf: Seq<u8>, reads: Seq<ReadView>)
    ensures
        reader::read_all(buf, reads) matches ReadStepView::NeedMore(held) ==> held == buf
            + reader::bytes_read(reads),
    decreases reads.len(),
{
    if reads.len() == 0 {
        assert(buf + reader::bytes_read(reads) =~= buf);
    } else {
        let front = reads.drop_last();
        let one = seq![reads.last()];
        assert(front + one =~= reads);
        law_reads_in_two_lots(buf, front, one);
        lemma_held(buf, front);
        if let ReadStepView::NeedMore(held) = reader::read_all(buf, front) {
            assert(one.first() == reads.last());
            reveal_with_fuel(reader::read_all, 2);
            if let ReadStepView::NeedMore(now) = reader::step_on_read(held, reads.last()) {
                assert(reads.last() is Ok);
                assert(now =~= buf + reader::bytes_read(reads));
            }
        }
    }
}

/// A reader that asks for more holds all the bytes that came, in order.
pub proof fn law_nothing_is_lost(reads: Seq<ReadView>)
    ensures
        reader::read_all(Seq::empty(), reads) matches ReadStepView::NeedMore(held) ==> held
            == reader::bytes_read(reads),
{
    lemma_held(Seq::empty(), reads);
    assert(Seq::<u8>::empty() + reader::bytes_read(reads) =~= reader::bytes_read(reads));
}

/// A stream that ends while more is asked for: no header where nothing came, and
/// a connection that was closed too early where anything did. However the bytes
/// were cut into reads, the start of a header is never taken for payload.
pub proof fn law_stream_cut_off(reads: Seq<ReadView>)
    requires
        reader::read_all(Seq::empty(), reads) is NeedMore,
    ensures
        reader::bytes_read(reads).len() == 0 ==> reader::read_all(
            Seq::empty(),
            reads.push(Ok(Seq::empty())),
        ) == ReadStepView::Finished(None, Seq::empty()),
        reader::bytes_read(reads).len() > 0 ==> reader::read_all(
            Seq::empty(),
            reads.push(Ok(Seq::empty())),
        ) == ReadStepView::Failed(ProxyProtocolError::ConnectionClosed),
{
    law_nothing_is_lost(reads);
    let end = seq![ReadView::Ok(Seq::<u8>::empty())];
    assert(reads + end =~= reads.push(Ok(Seq::empty())));
    law_reads_in_two_lots(Seq::empty(), reads, end);
    assert(end.first() == ReadView::Ok(Seq::<u8>::empty()));
    law_end_of_stream(reader::bytes_read(reads));
}

/// A read that fails while more is asked for ends with its reason.
pub proof fn law_stream_breaks(reads: Seq<ReadView>, reason: Seq<char>)
    requires
        reader::read_all(Seq::empty(), reads) is NeedMore,
    ensures
        reader::read_all(Seq::empty(), reads.push(Err(reason))) == ReadStepView::Failed(
            ProxyProtocolError::ReadFailed(reason),
        ),
{
    let end = seq![ReadView::Err(reason)];
    assert(reads + end =~= reads.push(Err(reason)));
    law_reads_in_two_lots(Seq::empty(), reads, end);
    assert(end.first() == ReadView::Err(reason));
}

/// As [`law_headers_are_not_payload`], from a reader that holds `buf`.
proof fn lemma_not_payload(buf: Seq<u8>, reads: Seq<ReadView>)
    ensures
        reader::read_all(buf, reads) matches ReadStepView::Finished(None, rest)
            ==> !begins_as_header(rest),
    decreases reads.len(),
{
    if reads.len() > 0 {
        if let Ok(chunk) = reads.first() {
            law_greetings(buf + chunk);
            law_greetings(Seq::empty());
        }
        if let ReadStepView::NeedMore(held) = reader::step_on_read(buf, reads.first()) {
            lemma_not_payload(held, reads.drop_first());
        }
    }
}

/// A read that finishes without a header never hands back bytes that begin as a
/// header does.
pub proof fn law_headers_are_not_payload(reads: Seq<ReadView>)
    ensures
        reader::read_all(Seq::empty(), reads) matches ReadStepView::Finished(None, rest)
            ==> !begins_as_header(rest),
{
    lemma_not_payload(Seq::empty(), reads);
}

/// As [`law_handed_back_whole`], from a reader that holds `buf`.
proof fn lemma_handed_back(buf: Seq<u8>, reads: Seq<ReadView>) -> (k: int)
    requires
        reader::read_all(buf, reads) is Finished,
    ensures
        0 < k <= reads.len(),
        reader::read_all(buf, reads) matches ReadStepView::Finished(None, rest) ==> rest == buf
            + reader::bytes_read(reads.take(k)),
        reader::read_all(buf, reads) matches ReadStepView::Finished(Some(header), rest) ==> exists|
            n: nat,
        |
            parse::parsed(buf + reader::bytes_read(reads.take(k))) == ParseView::Ok(
                Some((header, n)),
            ) && rest == #[trigger] (buf + reader::bytes_read(reads.take(k))).skip(n as int),
    decreases reads.len(),
{
    let first = reads.first();
    let one = reads.take(1);
    assert(one.drop_last() =~= Seq::<ReadView>::empty());
    assert(one.last() == first);
    reveal_with_fuel(reader::bytes_read, 2);
    match reader::step_on_read(buf, first) {
        ReadStepView::NeedMore(held) => {
            let later = reads.drop_first();
            let j = lemma_handed_back(held, later);
            let lot = reads.take(j + 1);
            assert(lot =~= one + later.take(j));
            lemma_bytes_of_two_lots(one, later.take(j));
            assert(reader::bytes_read(one) =~= first->Ok_0);
            assert(held + reader::bytes_read(later.take(j)) =~= buf + reader::bytes_read(lot));
            j + 1
        },
        _ => {
            assert(reader::bytes_read(one) =~= first->Ok_0);
            if first->Ok_0.len() == 0 {
                assert(buf + reader::bytes_read(one) =~= Seq::<u8>::empty());
            }
            1
        },
    }
}

/// The bytes of two lots of reads follow each other.
proof fn lemma_bytes_of_two_lots(first: Seq<ReadView>, second: Seq<ReadView>)
    ensures
        reader::bytes_read(first + second) == reader::bytes_read(first) + reader::bytes_read(
            second,
        ),
    decreases second.len(),
{
    if second.len() == 0 {
        assert(first + second =~= first);
        assert(reader::bytes_read(first) + reader::bytes_read(second) =~= reader::bytes_read(
            first,
        ));
    } else {
        lemma_bytes_of_two_lots(first, second.drop_last());
        assert((first + second).drop_last() =~= first + second.drop_last());
        assert((first + second).last() == second.last());
        assert(reader::bytes_read(first + second) =~= reader::bytes_read(first)
            + reader::bytes_read(second));
    }
}

/// A read that finishes hands back every byte that came by then: all of them
/// where there is no header, and those behind the header where there is one,
/// which is the one that a parse of them finds.
pub proof fn law_handed_back_whole(reads: Seq<ReadView>) -> (k: int)
    requires
        reader::read_all(Seq::empty(), reads) is Finished,
    ensures
        0 < k <= reads.len(),
        reader::read_all(Seq::empty(), reads) matches ReadStepView::Finished(None, rest) ==> rest
            == reader::bytes_read(reads.take(k)),
        reader::read_all(Seq::empty(), reads) matches ReadStepView::Finished(Some(header), rest)
            ==> exists|n: nat|
            parse::parsed(reader::bytes_read(reads.take(k))) == ParseView::Ok(Some((header, n)))
                && rest == #[trigger] reader::bytes_read(reads.take(k)).skip(n as int),
{
    let k = lemma_handed_back(Seq::empty(), reads);
    assert(Seq::<u8>::empty() + reader::bytes_read(reads.take(k)) =~= reader::bytes_read(
        reads.take(k),
    ));
    k
}

/// A parse says nothing exactly while the decoder asks for more, and fails
/// exactly where the decoder does, with its reason; else it gives a header of
/// the decoded length, with the bytes and the addresses that were decoded.
pub proof fn law_parse_follows_the_decoder(buf: Seq<u8>)
    ensures
        parse::parsed(buf) == ParseView::Ok(None) <==> wire::decoded(buf) matches Err(
            DecodeError::BufferTooShort,
        ),
        parse::parsed(buf) is Err <==> wire::decoded(buf) matches Err(DecodeError::Malformed(_)),
        wire::decoded(buf) matches Err(DecodeError::Malformed(reason)) ==> parse::parsed(buf)
            == ParseView::Err(ProxyProtocolError::Malformed(reason)),
        wire::decoded(buf) matches Ok((address, section, len)) ==> (parse::parsed(buf) matches Ok(
            Some((header, n)),
        ) && {
            &&& n == len
            &&& header.raw_header == buf.take(len as int)
            &&& address matches Some((source, destination)) ==> header.source_addr == Some(source)
                && header.dest_addr == Some(destination)
            &&& header.is_local <==> address is None
            &&& header.tlvs == parse::all_kept(wire::section_items(section))
        }),
{
}

/// Bytes that are no header are handed back by one read or by two alike: where
/// the first of two lots could not become a header and is long enough to tell,
/// what comes after it is not looked at.
pub proof fn law_payload_is_left_alone(chunk: Seq<u8>, later: Seq<ReadView>)
    requires
        chunk.len() >= 8,
        !could_become_header(chunk),
        !(parse::parsed(chunk) matches Ok(Some(_))),
    ensures
        reader::read_all(Seq::empty(), seq![ReadView::Ok(chunk)] + later) == ReadStepView::Finished(
            None,
            chunk,
        ),
{
    let one = seq![ReadView::Ok(chunk)];
    assert(one.first() == ReadView::Ok(chunk));
    assert(Seq::<u8>::empty() + chunk =~= chunk);
    law_bytes_read(Seq::empty(), chunk);
    laws::law_end_is_final(one, later);
}

} // verus!
