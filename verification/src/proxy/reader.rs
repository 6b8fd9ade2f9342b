//! The byte reader of the handshakes, fed with the chunks of the guest's channel.

use bytes::Bytes;
use vstd::prelude::*;

use crate::proxy::chunk::{chunk_bytes, chunk_from, empty_chunk, held};

verus! {

/// Index of the first NUL byte, or the length where there is none.
pub open spec fn nul_index(bytes: Seq<u8>) -> int
    decreases bytes.len(),
{
    if bytes.len() == 0 || bytes[0] == 0 {
        0
    } else {
        1 + nul_index(bytes.skip(1))
    }
}

/// Where the first NUL byte is: nothing before it is one, and it is one itself.
pub proof fn lemma_nul_index(bytes: Seq<u8>)
    ensures
        0 <= nul_index(bytes) <= bytes.len(),
        nul_index(bytes) < bytes.len() ==> bytes[nul_index(bytes)] == 0,
        forall|i: int| 0 <= i < nul_index(bytes) ==> bytes[i] != 0,
    decreases bytes.len(),
{
    if bytes.len() > 0 && bytes[0] != 0 {
        lemma_nul_index(bytes.skip(1));
        assert forall|i: int| 0 <= i < nul_index(bytes) implies bytes[i] != 0 by {
            if i > 0 {
                assert(bytes.skip(1)[i - 1] == bytes[i]);
            }
        }
    }
}

/// The first NUL byte is the only index of a NUL byte with none before it.
pub proof fn lemma_nul_index_is(bytes: Seq<u8>, at: int)
    requires
        0 <= at <= bytes.len(),
        at < bytes.len() ==> bytes[at] == 0,
        forall|i: int| 0 <= i < at ==> bytes[i] != 0,
    ensures
        nul_index(bytes) == at,
{
    lemma_nul_index(bytes);
}

/// Reader over the chunks of a channel.
///
/// Holds what was received and not read yet. Where it runs dry before a read is
/// complete, the caller receives the next chunk, supplies it and reads on; after
/// the handshake [`into_parts`](ChannelReader::into_parts) gives back the bytes
/// that belong to the inner stream.
pub struct ChannelReader {
    leftover: Bytes,
}

impl View for ChannelReader {
    type V = Seq<u8>;

    closed spec fn view(&self) -> Seq<u8> {
        held(self.leftover)
    }
}

impl ChannelReader {
    /// A reader that has received nothing.
    pub fn new() -> (reader: ChannelReader)
        ensures
            reader@ == Seq::<u8>::empty(),
    {
        ChannelReader { leftover: empty_chunk() }
    }

    /// Take over the next chunk of the channel, once everything before it was read.
    pub fn supply(&mut self, chunk: Bytes)
        requires
            old(self)@.len() == 0,
        ensures
            final(self)@ == held(chunk),
    {
        self.leftover = chunk;
    }

    /// The received bytes that were not read.
    pub fn into_parts(self) -> (leftover: Bytes)
        ensures
            held(leftover) == self@,
    {
        self.leftover
    }

    /// Read one byte; `None` where the reader is dry.
    pub fn read_u8(&mut self) -> (byte: Option<u8>)
        ensures
            old(self)@.len() == 0 ==> byte is None && final(self)@ == old(self)@,
            old(self)@.len() > 0 ==> byte == Some(old(self)@[0]) && final(self)@ == old(
                self,
            )@.skip(1),
    {
        let bytes = chunk_bytes(&self.leftover);
        if bytes.len() == 0 {
            return None;
        }
        let byte: u8 = bytes[0];
        self.leftover = chunk_from(&self.leftover, 1);
        Some(byte)
    }

    /// Read on until `buf` has `want` bytes; `false` where the reader ran dry
    /// before.
    pub fn read_exact(&mut self, buf: &mut Vec<u8>, want: usize) -> (complete: bool)
        requires
            old(buf)@.len() <= want,
        ensures
            ({
                let need = want - old(buf)@.len();
                let take = if need <= old(self)@.len() {
                    need
                } else {
                    old(self)@.len() as int
                };
                &&& final(buf)@ == old(buf)@ + old(self)@.take(take)
                &&& final(self)@ == old(self)@.skip(take)
                &&& complete == (final(buf)@.len() == want)
            }),
    {
        let bytes = chunk_bytes(&self.leftover);
        let need: usize = want - buf.len();
        let have: usize = bytes.len();
        let take: usize = if need <= have { need } else { have };
        for i in 0..take
            invariant
                take <= bytes@.len(),
                buf@ =~= old(buf)@ + bytes@.take(i as int),
        {
            buf.push(bytes[i]);
        }
        self.leftover = chunk_from(&self.leftover, take);
        buf.len() == want
    }

    /// Read a NUL-terminated byte string on, without its terminator; `false`
    /// where the reader ran dry before the terminator.
    pub fn read_nul_string(&mut self, string: &mut Vec<u8>) -> (complete: bool)
        ensures
            ({
                let at = nul_index(old(self)@);
                &&& complete == (at < old(self)@.len())
                &&& final(string)@ == old(string)@ + old(self)@.take(at)
                &&& final(self)@ == if complete {
                    old(self)@.skip(at + 1)
                } else {
                    Seq::<u8>::empty()
                }
            }),
    {
        let bytes = chunk_bytes(&self.leftover);
        let mut at: usize = 0;
        while at < bytes.len() && bytes[at] != 0
            invariant
                at <= bytes@.len(),
                forall|i: int| 0 <= i < at ==> bytes@[i] != 0,
                string@ =~= old(string)@ + bytes@.take(at as int),
            decreases bytes@.len() - at,
        {
            string.push(bytes[at]);
            at = at + 1;
        }
        proof {
            lemma_nul_index_is(bytes@, at as int);
        }
        let complete = at < bytes.len();
        self.leftover = chunk_from(&self.leftover, if complete { at + 1 } else { at });
        assert(!complete ==> self@ =~= Seq::<u8>::empty());
        complete
    }
}

} // verus!
