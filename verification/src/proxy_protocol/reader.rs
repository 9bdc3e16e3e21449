//! Reading a header off a stream, one read at a time.

use crate::octets;
use crate::proxy_protocol::error::ProxyProtocolError;
use crate::proxy_protocol::header::{HeaderView, ProxyProtocolHeader};
use crate::proxy_protocol::parse;
use crate::proxy_protocol::parse::{parse_proxy_protocol, ParseView};
use crate::proxy_protocol::wire;
use vstd::prelude::*;

verus! {

/// The number of bytes to ask a stream for at a time.
pub const READ_LEN: usize = 256;

/// The number of bytes from which on a stream that has shown the start of
/// neither greeting is taken to carry no header.
pub const DETECT_LEN: usize = 8;

/// The number of bytes above which an incomplete header is given up.
pub const MAX_BUFFERED: usize = 1024;

/// What a read brings: bytes, none of them at the end of the stream, or the
/// reason of a failure.
pub type ReadView = Result<Seq<u8>, Seq<char>>;

/// What to do next.
#[derive(Debug)]
pub enum ReadStep {
    /// Read on, and hand the outcome to this reader.
    NeedMore(HeaderReader),
    /// Stop: here is the header, or none, and what was read of the stream
    /// besides it.
    Finished(Option<ProxyProtocolHeader>, Vec<u8>),
    /// Stop with an error.
    Failed(ProxyProtocolError<String>),
}

/// What a [`ReadStep`] says.
pub enum ReadStepView {
    NeedMore(Seq<u8>),
    Finished(Option<HeaderView>, Seq<u8>),
    Failed(ProxyProtocolError<Seq<char>>),
}

/// What has been read so far.
#[derive(Debug)]
pub struct HeaderReader {
    buf: Vec<u8>,
}

impl View for HeaderReader {
    type V = Seq<u8>;

    closed spec fn view(&self) -> Seq<u8> {
        self.buf@
    }
}

impl View for ReadStep {
    type V = ReadStepView;

    open spec fn view(&self) -> ReadStepView {
        match *self {
            ReadStep::NeedMore(reader) => ReadStepView::NeedMore(reader@),
            ReadStep::Finished(Some(header), rest) => ReadStepView::Finished(
                Some(header@),
                rest@,
            ),
            ReadStep::Finished(None, rest) => ReadStepView::Finished(None, rest@),
            ReadStep::Failed(e) => ReadStepView::Failed(e@),
        }
    }
}

/// `buf` begins as a version 1 or a version 2 header does.
pub open spec fn greets(buf: Seq<u8>) -> bool {
    parse::v1_greeting().is_prefix_of(buf) || wire::v2_signature().is_prefix_of(buf)
}

/// `buf` begins as a header does, or is the start of such a beginning.
pub open spec fn may_greet(buf: Seq<u8>) -> bool {
    ||| greets(buf)
    ||| buf.is_prefix_of(parse::v1_greeting())
    ||| buf.is_prefix_of(wire::v2_signature())
}

/// `buf` begins as no header can: with neither `P` nor a carriage return.
pub open spec fn no_header(buf: Seq<u8>) -> bool {
    buf.len() > 0 && buf[0] != 0x50 && buf[0] != 0x0D
}

/// What to do once `buf` has been read, given what a parse of it says. What
/// cannot become a header is handed back; only a header can be malformed or too
/// large.
pub open spec fn step_after_parse(buf: Seq<u8>, parse: ParseView) -> ReadStepView {
    match parse {
        Err(e) => if may_greet(buf) {
            ReadStepView::Failed(e)
        } else {
            ReadStepView::Finished(None, buf)
        },
        Ok(Some((header, len))) => ReadStepView::Finished(Some(header), buf.skip(len as int)),
        Ok(None) => if buf.len() >= DETECT_LEN && !may_greet(buf) {
            ReadStepView::Finished(None, buf)
        } else if buf.len() > MAX_BUFFERED {
            ReadStepView::Failed(ProxyProtocolError::HeaderTooLarge)
        } else {
            ReadStepView::NeedMore(buf)
        },
    }
}

/// What to do when a read comes back after `buf`.
pub open spec fn step_on_read(buf: Seq<u8>, read: ReadView) -> ReadStepView {
    match read {
        Err(reason) => ReadStepView::Failed(ProxyProtocolError::ReadFailed(reason)),
        Ok(chunk) => if chunk.len() == 0 {
            if buf.len() == 0 {
                ReadStepView::Finished(None, Seq::empty())
            } else {
                ReadStepView::Failed(ProxyProtocolError::ConnectionClosed)
            }
        } else {
            step_after_parse(buf + chunk, parse::parsed(buf + chunk))
        },
    }
}

/// The outcome of `reads`, one after the other, by a reader that holds `buf`.
pub open spec fn read_all(buf: Seq<u8>, reads: Seq<ReadView>) -> ReadStepView
    decreases reads.len(),
{
    if reads.len() == 0 {
        ReadStepView::NeedMore(buf)
    } else {
        match step_on_read(buf, reads.first()) {
            ReadStepView::NeedMore(held) => read_all(held, reads.drop_first()),
            done => done,
        }
    }
}

/// All the bytes that `reads` brought.
pub open spec fn bytes_read(reads: Seq<ReadView>) -> Seq<u8>
    decreases reads.len(),
{
    if reads.len() == 0 {
        Seq::empty()
    } else {
        bytes_read(reads.drop_last()) + match reads.last() {
            Ok(chunk) => chunk,
            Err(_) => Seq::empty(),
        }
    }
}

/// An executed read, by what it brings.
pub open spec fn read_view(read: Result<Vec<u8>, String>) -> ReadView {
    match read {
        Ok(chunk) => Ok(chunk@),
        Err(reason) => Err(reason@),
    }
}

/// Executed reads, by what they bring.
pub open spec fn reads_view(reads: Seq<Result<Vec<u8>, String>>) -> Seq<ReadView> {
    reads.map_values(|read: Result<Vec<u8>, String>| read_view(read))
}

/// `header` is what the bytes `seen` begin with, and `rest` is what follows it.
/// The header is found wherever its bytes appear, and is incomplete with fewer
/// of them.
pub open spec fn found(header: HeaderView, rest: Seq<u8>, seen: Seq<u8>) -> bool {
    &&& header.raw_header + rest == seen
    &&& header.raw_header.len() > 0
    &&& header.raw_header[0] == 0x0D ==> wire::v2_signature().is_prefix_of(header.raw_header)
    &&& forall|more: Seq<u8>|
        parse::parsed(#[trigger] (header.raw_header + more)) == ParseView::Ok(
            Some((header, header.raw_header.len())),
        )
    &&& forall|n: int|
        0 <= n < header.raw_header.len() && wire::waits_at(header.raw_header[0], n)
            ==> parse::parsed(#[trigger] header.raw_header.take(n)) == ParseView::Ok(None)
}

/// A step accounts for all the bytes `seen` so far.
pub open spec fn accounts_for(step: ReadStepView, seen: Seq<u8>) -> bool {
    match step {
        ReadStepView::NeedMore(held) => held == seen && held.len() <= MAX_BUFFERED,
        ReadStepView::Finished(Some(header), rest) => found(header, rest, seen),
        ReadStepView::Finished(None, rest) => rest == seen,
        ReadStepView::Failed(_) => true,
    }
}

/// Whether `buf` begins as a header does, or is the start of such a beginning.
fn looks_like_header(buf: &[u8]) -> (found: bool)
    ensures
        found == may_greet(buf@),
{
    let v1: [u8; 6] = [0x50, 0x52, 0x4F, 0x58, 0x59, 0x20];
    let v2: [u8; 12] = [
        0x0D,
        0x0A,
        0x0D,
        0x0A,
        0x00,
        0x0D,
        0x0A,
        0x51,
        0x55,
        0x49,
        0x54,
        0x0A,
    ];
    assert(v1@ =~= parse::v1_greeting());
    assert(v2@ =~= wire::v2_signature());
    octets::starts_with(buf, &v1) || octets::starts_with(buf, &v2) || octets::starts_with(&v1, buf)
        || octets::starts_with(&v2, buf)
}

/// Decide how to go on, given what a parse of all that was read says.
pub fn after_parse(
    buf: Vec<u8>,
    parse: Result<Option<(ProxyProtocolHeader, usize)>, ProxyProtocolError<String>>,
) -> (step: ReadStep)
    requires
        parse matches Ok(Some((_, len))) ==> len <= buf@.len(),
    ensures
        step@ == step_after_parse(buf@, parse::parse_view(parse)),
        step matches ReadStep::NeedMore(reader) ==> reader@.len() <= MAX_BUFFERED,
        match parse {
            Err(e) => {
                ||| step == ReadStep::Failed(e) && may_greet(buf@)
                ||| step == ReadStep::Finished(None, buf) && !may_greet(buf@)
            },
            Ok(Some((header, len))) => {
                &&& step matches ReadStep::Finished(Some(found), rest)
                &&& found == header
                &&& rest@ == buf@.skip(len as int)
            },
            Ok(None) => {
                ||| step matches ReadStep::NeedMore(reader) && reader@ == buf@
                ||| step == ReadStep::Finished(None, buf) && !may_greet(buf@)
                ||| step == ReadStep::Failed(ProxyProtocolError::HeaderTooLarge) && buf@.len()
                    > MAX_BUFFERED
            },
        },
{
    match parse {
        Err(e) => {
            if looks_like_header(buf.as_slice()) {
                ReadStep::Failed(e)
            } else {
                ReadStep::Finished(None, buf)
            }
        },
        Ok(Some((header, len))) => {
            let remaining = octets::copied(&buf[len..buf.len()]);
            assert(remaining@ =~= buf@.skip(len as int));
            ReadStep::Finished(Some(header), remaining)
        },
        Ok(None) => {
            // More data is needed, unless this is no PROXY protocol connection.
            if buf.len() >= DETECT_LEN && !looks_like_header(buf.as_slice()) {
                return ReadStep::Finished(None, buf);
            }
            if buf.len() > MAX_BUFFERED {
                return ReadStep::Failed(ProxyProtocolError::HeaderTooLarge);
            }
            ReadStep::NeedMore(HeaderReader { buf })
        },
    }
}

impl HeaderReader {
    /// Nothing has been read yet.
    pub fn new() -> (reader: HeaderReader)
        ensures
            reader@ == Seq::<u8>::empty(),
    {
        HeaderReader { buf: Vec::new() }
    }

    /// Take in the outcome of a read: the bytes it brought, none of them at the
    /// end of the stream, or the reason why it failed.
    ///
    /// A stream that ends before anything came has no header; one that ends
    /// later has been cut off. Bytes that begin as a header does are never handed
    /// back as if there were none.
    pub fn on_read(self, read: Result<&[u8], String>) -> (step: ReadStep)
        ensures
            match read {
                Ok(chunk) => {
                    &&& step@ == step_on_read(self@, Ok(chunk@))
                    &&& accounts_for(step@, self@ + chunk@)
                    &&& chunk@.len() > 0 && no_header(self@ + chunk@) ==> step@
                        == ReadStepView::Finished(None, self@ + chunk@)
                    &&& chunk@.len() > 0 && wire::v2_complete(self@ + chunk@) ==> (
                    step@ matches ReadStepView::Finished(Some(_), _))
                },
                Err(reason) => step@ == step_on_read(self@, Err(reason@)),
            },
            read matches Err(reason) ==> (step matches ReadStep::Failed(
                ProxyProtocolError::ReadFailed(why),
            ) && why == reason),
            read matches Ok(chunk) ==> {
                let seen = self@ + chunk@;
                &&& chunk@.len() == 0 && self@.len() == 0 ==> (step matches ReadStep::Finished(
                    None,
                    rest,
                ) && rest@.len() == 0)
                &&& chunk@.len() == 0 && self@.len() > 0 ==> step == ReadStep::Failed(
                    ProxyProtocolError::ConnectionClosed,
                )
                &&& match step {
                    ReadStep::NeedMore(reader) => reader@ == seen && 0 < seen.len() <= MAX_BUFFERED,
                    ReadStep::Finished(Some(header), rest) => octets::contents(header.raw_header)
                        + rest@ == seen && chunk@.len() > 0,
                    ReadStep::Finished(None, rest) => rest@ == seen && !greets(seen),
                    ReadStep::Failed(ProxyProtocolError::ConnectionClosed) => chunk@.len() == 0
                        && seen.len() > 0,
                    ReadStep::Failed(ProxyProtocolError::HeaderTooLarge) => seen.len()
                        > MAX_BUFFERED && may_greet(seen) && chunk@.len() > 0,
                    ReadStep::Failed(ProxyProtocolError::Malformed(_)) => may_greet(seen)
                        && chunk@.len() > 0,
                    ReadStep::Failed(ProxyProtocolError::ReadFailed(_)) => false,
                }
            },
    {
        let chunk = match read {
            Ok(chunk) => chunk,
            Err(reason) => {
                return ReadStep::Failed(ProxyProtocolError::ReadFailed(reason));
            },
        };
        if chunk.len() == 0 {
            if self.buf.len() == 0 {
                assert(self@ + chunk@ =~= Seq::<u8>::empty());
                return ReadStep::Finished(None, Vec::new());
            }
            return ReadStep::Failed(ProxyProtocolError::ConnectionClosed);
        }
        let mut buf = self.buf;
        buf.extend_from_slice(chunk);
        assert(buf@ =~= self@ + chunk@);
        let parse = parse_proxy_protocol(buf.as_slice());
        proof {
            if let Ok(Some((_, len))) = parse {
                let raw = buf@.take(len as int);
                assert(raw + buf@.skip(len as int) =~= buf@);
                if buf@[0] == 0x0D {
                    let signature = wire::v2_signature();
                    assert(signature =~= raw.subrange(0, signature.len() as int));
                }
                assert forall|n: int| 0 <= n < raw.len() implies #[trigger] raw.take(n) == buf@.take(
                    n,
                ) by {
                    assert(raw.take(n) =~= buf@.take(n));
                }
            }
        }
        assert(no_header(buf@) ==> !may_greet(buf@)) by {
            assert(parse::v1_greeting()[0] == 0x50);
            assert(wire::v2_signature()[0] == 0x0D);
            assert(parse::v1_greeting().is_prefix_of(buf@) ==> buf@[0] == parse::v1_greeting()[0]);
            assert(wire::v2_signature().is_prefix_of(buf@) ==> buf@[0] == wire::v2_signature()[0]);
        }
        assert(wire::v2_complete(buf@) ==> buf@[0] == wire::v2_signature()[0]);
        after_parse(buf, parse)
    }
}

/// Read a header off a stream, given what the successive reads of the stream
/// bring.
///
/// Ends with the header and the remaining bytes that were read but are not part
/// of it; with no header and all the bytes that were read, where the stream
/// carries none; or with an error. Where the reads run out before that, the
/// reader that waits for the next one is returned.
pub fn read_proxy_protocol(reads: &Vec<Result<Vec<u8>, String>>) -> (step: ReadStep)
    ensures
        step@ == read_all(Seq::empty(), reads_view(reads@)),
        exists|k: int|
            0 <= k <= reads@.len() && accounts_for(
                step@,
                bytes_read(#[trigger] reads_view(reads@).take(k)),
            ),
        step matches ReadStep::NeedMore(reader) ==> reader@ == bytes_read(reads_view(reads@)),
        step matches ReadStep::Finished(None, rest) ==> !greets(rest@),
        !(step is NeedMore) ==> exists|k: int|
            0 <= k < reads@.len() && {
                let held = bytes_read(#[trigger] reads_view(reads@).take(k));
                match reads@[k] {
                    Ok(chunk) => {
                        &&& chunk@.len() == 0 && held.len() == 0 ==> (
                        step matches ReadStep::Finished(None, rest) && rest@.len() == 0)
                        &&& chunk@.len() == 0 && held.len() > 0 ==> step == ReadStep::Failed(
                            ProxyProtocolError::ConnectionClosed,
                        )
                        &&& step matches ReadStep::Finished(Some(header), rest)
                            ==> octets::contents(header.raw_header) + rest@ == held + chunk@
                        &&& step matches ReadStep::Finished(None, rest) ==> rest@ == held + chunk@
                        &&& step == ReadStep::Failed(ProxyProtocolError::ConnectionClosed)
                            ==> chunk@.len() == 0 && held.len() > 0
                    },
                    Err(reason) => step matches ReadStep::Failed(
                        ProxyProtocolError::ReadFailed(why),
                    ) && why@ == reason@,
                }
            },
{
    let ghost views = reads_view(reads@);
    let mut reader = HeaderReader::new();
    let mut i: usize = 0;
    assert(views.skip(0) =~= views);
    assert(accounts_for(ReadStepView::NeedMore(reader@), bytes_read(views.take(0))));
    while i < reads.len()
        invariant
            i <= reads.len(),
            views == reads_view(reads@),
            read_all(reader@, views.skip(i as int)) == read_all(Seq::empty(), views),
            accounts_for(ReadStepView::NeedMore(reader@), bytes_read(views.take(i as int))),
        decreases reads.len() - i,
    {
        let read = match &reads[i] {
            Ok(chunk) => Ok(chunk.as_slice()),
            Err(reason) => Err(reason.clone()),
        };
        let step = reader.on_read(read);
        proof {
            assert(views.skip(i as int).first() == views[i as int]);
            assert(views.skip(i as int).drop_first() =~= views.skip(i + 1));
            assert(views.take(i + 1).drop_last() =~= views.take(i as int));
            assert(accounts_for(step@, bytes_read(views.take(i + 1))));
        }
        match step {
            ReadStep::NeedMore(next) => {
                reader = next;
            },
            done => {
                assert(views.take(i as int) == reads_view(reads@).take(i as int));
                return done;
            },
        }
        i += 1;
    }
    assert(views.take(i as int) =~= views);
    ReadStep::NeedMore(reader)
}

} // verus!
