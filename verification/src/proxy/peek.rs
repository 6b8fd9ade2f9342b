//! Peeking at the guest's first flight for the server name of a TLS ClientHello.

use bytes::Bytes;
use vstd::prelude::*;

use crate::proxy::chunk::{chunk_bytes, held};
use crate::text::{
    ascii_lower_text, lemma_lower_case, lemma_trailing_dots, lower_without_trailing_dots,
    without_trailing_dots,
};

verus! {

/// Max bytes to buffer while peeking for the ClientHello's server name.
pub const PEEK_BUF_SIZE: usize = 16384;

/// Upper bound, in milliseconds, on the time spent buffering the first flight
/// before the egress decision falls back to the cache.
pub const PEEK_BUDGET_MS: u64 = 5000;

/// The content type of a TLS handshake record, the first byte of a ClientHello.
pub const TLS_HANDSHAKE: u8 = 0x16;

/// A peek in progress: the first flight as far as it was received.
pub struct SniPeek {
    buf: Vec<u8>,
    max: usize,
}

/// What a peek waits for, and what came of it.
pub enum PeekEvent {
    /// The next chunk of the guest's channel.
    Data(Bytes),
    /// The server name that the buffered bytes carry, if they do.
    Extracted(Option<String>),
    /// The channel was closed.
    Closed,
    /// The time budget ran out.
    Expired,
}

/// What a peek does next.
pub enum PeekStep {
    /// Wait for more data.
    Recv(SniPeek),
    /// Look for a server name in the buffered bytes.
    Extract(SniPeek),
    /// The peek is over. The buffer is to be replayed verbatim.
    Done {
        /// Everything that was received.
        buf: Vec<u8>,
        /// The server name in canonical form, if there was one.
        sni: Option<String>,
    },
}

/// The canonical form of a server name, which rules are matched against byte by
/// byte: lower case, without dots at the end.
pub open spec fn canonical_name(name: Seq<char>) -> Seq<char> {
    ascii_lower_text(without_trailing_dots(name))
}

impl SniPeek {
    /// The bytes that were received.
    pub closed spec fn received(self) -> Seq<u8> {
        self.buf@
    }

    /// The number of bytes at which the peek gives up.
    pub closed spec fn cap(self) -> usize {
        self.max
    }

    /// A peek that gives up once `max` bytes are buffered.
    pub fn new(max: usize) -> (peek: SniPeek)
        ensures
            peek.received() == Seq::<u8>::empty(),
            peek.cap() == max,
    {
        SniPeek { buf: Vec::new(), max }
    }

    /// The bytes that were received.
    pub fn buffered(&self) -> (bytes: &[u8])
        ensures
            bytes@ == self.received(),
    {
        self.buf.as_slice()
    }
}

/// Append a chunk to a buffer.
fn append(buf: &mut Vec<u8>, chunk: &Bytes)
    ensures
        final(buf)@ == old(buf)@ + held(*chunk),
{
    let bytes = chunk_bytes(chunk);
    for i in 0..bytes.len()
        invariant
            buf@ =~= old(buf)@ + bytes@.take(i as int),
    {
        buf.push(bytes[i]);
    }
    assert(bytes@.take(bytes@.len() as int) =~= bytes@);
}

/// Buffer the first flight until a server name can be extracted, or until one of
/// the bail-out conditions hits: data that starts no TLS handshake, the buffer
/// cap, the channel's end, or the end of the time budget.
///
/// There is no error: input that is slow, malformed or not TLS ends without a
/// name.
pub fn peek_for_sni(peek: SniPeek, event: PeekEvent) -> (step: PeekStep)
    ensures
        match event {
            PeekEvent::Data(chunk) => {
                let buf = peek.received() + held(chunk);
                if buf.len() > 0 && buf[0] == TLS_HANDSHAKE {
                    step matches PeekStep::Extract(next) && next.received() == buf && next.cap()
                        == peek.cap()
                } else {
                    step matches PeekStep::Done { buf: b, sni } && b@ == buf && sni is None
                }
            },
            PeekEvent::Extracted(Some(name)) => step matches PeekStep::Done { buf, sni: Some(s) }
                && buf@ == peek.received() && s@ == canonical_name(name@),
            PeekEvent::Extracted(None) => if peek.received().len() >= peek.cap() {
                step matches PeekStep::Done { buf, sni } && buf@ == peek.received() && sni is None
            } else {
                step == PeekStep::Recv(peek)
            },
            PeekEvent::Closed | PeekEvent::Expired => step matches PeekStep::Done { buf, sni }
                && buf@ == peek.received() && sni is None,
        },
        step matches PeekStep::Done { sni: Some(_), .. } <==> event matches PeekEvent::Extracted(
            Some(_),
        ),
        step matches PeekStep::Recv(next) ==> next.received().len() < peek.cap(),
        step matches PeekStep::Extract(next) ==> next.received()[0] == 0x16,
{
    let mut peek = peek;
    match event {
        PeekEvent::Data(chunk) => {
            append(&mut peek.buf, &chunk);
            if peek.buf.len() > 0 && peek.buf[0] == TLS_HANDSHAKE {
                PeekStep::Extract(peek)
            } else {
                PeekStep::Done { buf: peek.buf, sni: None }
            }
        },
        PeekEvent::Extracted(Some(name)) => {
            PeekStep::Done {
                buf: peek.buf,
                sni: Some(lower_without_trailing_dots(name.as_str())),
            }
        },
        PeekEvent::Extracted(None) => {
            if peek.buf.len() >= peek.max {
                PeekStep::Done { buf: peek.buf, sni: None }
            } else {
                PeekStep::Recv(peek)
            }
        },
        PeekEvent::Closed | PeekEvent::Expired => PeekStep::Done { buf: peek.buf, sni: None },
    }
}

/// A canonical name is what the name says up to its last character that is no dot, with the
/// letters from `A` to `Z` in lower case. It has no dot at its end and no such letter.
pub proof fn lemma_canonical_names(name: Seq<char>)
    ensures
        ({
            let canonical = canonical_name(name);
            &&& canonical.len() <= name.len()
            &&& forall|i: int| canonical.len() <= i < name.len() ==> name[i] == '.'
            &&& canonical.len() > 0 ==> canonical[canonical.len() - 1] != '.'
            &&& forall|i: int|
                0 <= i < canonical.len() ==> if 65 <= name[i] as u32 && name[i] as u32 <= 90 {
                    (#[trigger] canonical[i]) as u32 == name[i] as u32 + 32
                } else {
                    canonical[i] == name[i]
                }
        }),
{
    lemma_trailing_dots(name);
    lemma_lower_case(without_trailing_dots(name));
}

} // verus!
