//! Framing of payloads on a byte stream.
//!
//! A frame is a two-byte big-endian length followed by that many payload
//! bytes. A stream of frames can be cut into chunks anywhere: the reader
//! collects bytes until a frame is complete, so what it hands out does not
//! depend on where the transport happened to cut.

use vstd::prelude::*;
use vstd::slice::{slice_subrange, slice_to_vec};

verus! {

/// Number of bytes of the length prefix.
pub const FRAME_HEADER_LEN: usize = 2;

/// Longest payload that fits in a frame.
pub const MAX_PAYLOAD_LEN: usize = 65_535;

/// Why a payload could not be framed.
#[derive(Clone, Copy, Debug, PartialEq, Eq, Structural)]
pub enum FrameError {
    /// The payload is longer than [`MAX_PAYLOAD_LEN`].
    TooLong,
}

/// The frame that carries `payload`.
pub open spec fn frame_of(payload: Seq<u8>) -> Seq<u8> {
    seq![(payload.len() / 256) as u8, (payload.len() % 256) as u8] + payload
}

/// The payload length that the first two bytes of `stream` announce.
pub open spec fn declared_len(stream: Seq<u8>) -> int {
    stream[0] as int * 256 + stream[1] as int
}

/// Whether `stream` starts with a complete frame.
pub open spec fn has_frame(stream: Seq<u8>) -> bool {
    stream.len() >= 2 && stream.len() >= 2 + declared_len(stream)
}

/// The payload of the frame that `stream` starts with.
pub open spec fn first_payload(stream: Seq<u8>) -> Seq<u8> {
    stream.subrange(2, 2 + declared_len(stream))
}

/// What follows the frame that `stream` starts with.
pub open spec fn after_first(stream: Seq<u8>) -> Seq<u8> {
    stream.skip(2 + declared_len(stream))
}

/// The payloads of all the complete frames in `stream`, in order.
pub open spec fn payloads(stream: Seq<u8>) -> Seq<Seq<u8>>
    decreases stream.len(),
{
    if has_frame(stream) {
        seq![first_payload(stream)] + payloads(after_first(stream))
    } else {
        Seq::empty()
    }
}

/// The bytes of `stream` that follow its last complete frame: the beginning
/// of a frame that has not arrived in full.
pub open spec fn remainder(stream: Seq<u8>) -> Seq<u8>
    decreases stream.len(),
{
    if has_frame(stream) {
        remainder(after_first(stream))
    } else {
        stream
    }
}

/// The byte stream made of one frame for each of `items`, in order.
pub open spec fn wire(items: Seq<Seq<u8>>) -> Seq<u8>
    decreases items.len(),
{
    if items.len() == 0 {
        Seq::empty()
    } else {
        frame_of(items[0]) + wire(items.drop_first())
    }
}

/// The payloads that a reader holding `pending` hands out, in order, when
/// it is fed `chunks` one after the other.
pub open spec fn delivered(pending: Seq<u8>, chunks: Seq<Seq<u8>>) -> Seq<Seq<u8>>
    decreases chunks.len(),
{
    if chunks.len() == 0 {
        Seq::empty()
    } else {
        payloads(pending + chunks[0]) + delivered(
            remainder(pending + chunks[0]),
            chunks.drop_first(),
        )
    }
}

/// The views of a list of byte vectors.
pub open spec fn byte_views(items: Seq<Vec<u8>>) -> Seq<Seq<u8>> {
    items.map_values(|v: Vec<u8>| v@)
}

/// Frames `payload`. Fails exactly when the payload is too long for the
/// length prefix.
pub fn frame_payload(payload: &[u8]) -> (framed: Result<Vec<u8>, FrameError>)
    ensures
        payload@.len() <= MAX_PAYLOAD_LEN ==> framed is Ok && framed->Ok_0@ == frame_of(payload@),
        payload@.len() > MAX_PAYLOAD_LEN ==> framed == Err::<Vec<u8>, FrameError>(
            FrameError::TooLong,
        ),
{
    let n = payload.len();
    if n > MAX_PAYLOAD_LEN {
        return Err(FrameError::TooLong);
    }
    let mut frame: Vec<u8> = Vec::new();
    frame.push((n / 256) as u8);
    frame.push((n % 256) as u8);
    frame.extend_from_slice(payload);
    Ok(frame)
}

/// Collects the bytes of a stream and hands out the payload of each frame
/// as soon as it is complete.
pub struct FrameReader {
    buffer: Vec<u8>,
}

impl FrameReader {
    /// The bytes received so far that belong to no complete frame.
    pub closed spec fn view(&self) -> Seq<u8> {
        self.buffer@
    }

    /// A reader that has received nothing.
    pub fn new() -> (reader: FrameReader)
        ensures
            reader@ == Seq::<u8>::empty(),
    {
        FrameReader { buffer: Vec::new() }
    }

    /// Number of bytes held back for a frame that is not complete yet.
    pub fn pending_len(&self) -> (n: usize)
        ensures
            n == self@.len(),
    {
        self.buffer.len()
    }

    /// Takes the next chunk of the stream. Returns the payloads of the
    /// frames that the chunk completes, in stream order, and keeps the
    /// bytes that follow the last of them.
    pub fn push(&mut self, chunk: &[u8]) -> (out: Vec<Vec<u8>>)
        ensures
            byte_views(out@) == payloads(old(self)@ + chunk@),
            final(self)@ == remainder(old(self)@ + chunk@),
            !has_frame(final(self)@),
    {
        self.buffer.extend_from_slice(chunk);
        let ghost total = old(self)@ + chunk@;
        proof {
            assert(total.skip(0) =~= total);
        }
        let mut out: Vec<Vec<u8>> = Vec::new();
        let mut pos: usize = 0;
        loop
            invariant
                self.buffer@ == total,
                pos <= total.len(),
                payloads(total) == byte_views(out@) + payloads(total.skip(pos as int)),
                remainder(total) == remainder(total.skip(pos as int)),
            ensures
                payloads(total) == byte_views(out@),
                remainder(total) == total.skip(pos as int),
            decreases total.len() - pos,
        {
            let ghost here = total.skip(pos as int);
            let left = self.buffer.len() - pos;
            if left < FRAME_HEADER_LEN {
                break;
            }
            let n = self.buffer[pos] as usize * 256 + self.buffer[pos + 1] as usize;
            if left - FRAME_HEADER_LEN < n {
                break;
            }
            let start = pos + FRAME_HEADER_LEN;
            let payload = slice_to_vec(slice_subrange(self.buffer.as_slice(), start, start + n));
            out.push(payload);
            proof {
                assert(payload@ =~= first_payload(here));
                assert(after_first(here) =~= total.skip(pos + 2 + n));
            }
            pos = start + n;
        }
        let rest = self.buffer.split_off(pos);
        self.buffer = rest;
        out
    }
}

/// A stream that starts with the frame of `payload` yields that payload
/// first, and then whatever the rest of the stream yields.
pub proof fn lemma_frame_then_tail(payload: Seq<u8>, tail: Seq<u8>)
    requires
        payload.len() <= MAX_PAYLOAD_LEN,
    ensures
        payloads(frame_of(payload) + tail) == seq![payload] + payloads(tail),
        remainder(frame_of(payload) + tail) == remainder(tail),
{
    let stream = frame_of(payload) + tail;
    assert(first_payload(stream) =~= payload);
    assert(after_first(stream) =~= tail);
}

/// What is held back after parsing never starts with a complete frame.
pub proof fn lemma_remainder_is_incomplete(stream: Seq<u8>)
    ensures
        !has_frame(remainder(stream)),
        payloads(remainder(stream)) == Seq::<Seq<u8>>::empty(),
        remainder(remainder(stream)) == remainder(stream),
    decreases stream.len(),
{
    if has_frame(stream) {
        lemma_remainder_is_incomplete(after_first(stream));
    }
}

/// Parsing loses nothing and invents nothing: the frames of the payloads
/// that a stream yields, followed by what is held back, are the stream.
pub proof fn lemma_parsing_keeps_every_byte(stream: Seq<u8>)
    ensures
        wire(payloads(stream)) + remainder(stream) == stream,
    decreases stream.len(),
{
    if has_frame(stream) {
        let n = declared_len(stream);
        let rest = after_first(stream);
        lemma_parsing_keeps_every_byte(rest);
        assert(payloads(stream).drop_first() =~= payloads(rest));
        assert(stream.subrange(0, 2 + n) + rest =~= stream);
    }
}

/// Cutting a stream in two changes nothing: parsing the first part,
/// keeping what is left over and parsing that together with the second part
/// gives the payloads of the whole.
pub proof fn lemma_split_anywhere(head: Seq<u8>, tail: Seq<u8>)
    ensures
        payloads(head + tail) == payloads(head) + payloads(remainder(head) + tail),
        remainder(head + tail) == remainder(remainder(head) + tail),
    decreases head.len(),
{
    let whole = head + tail;
    if has_frame(head) {
        assert(first_payload(whole) =~= first_payload(head));
        assert(after_first(whole) =~= after_first(head) + tail);
        lemma_split_anywhere(after_first(head), tail);
    }
}

/// Framing does not depend on chunk boundaries: however a stream is cut
/// into chunks, a reader that holds no complete frame and is fed the chunks
/// in order hands out the payloads of the whole stream.
pub proof fn lemma_chunks_deliver_whole_stream(pending: Seq<u8>, chunks: Seq<Seq<u8>>)
    requires
        !has_frame(pending),
    ensures
        delivered(pending, chunks) == payloads(pending + chunks.flatten()),
    decreases chunks.len(),
{
    if chunks.len() > 0 {
        let first = chunks[0];
        let rest = chunks.drop_first();
        assert(pending + chunks.flatten() =~= (pending + first) + rest.flatten());
        lemma_split_anywhere(pending + first, rest.flatten());
        lemma_remainder_is_incomplete(pending + first);
        lemma_chunks_deliver_whole_stream(remainder(pending + first), rest);
    }
}

/// Two ways of cutting the same stream deliver the same payloads.
pub proof fn lemma_chunking_is_irrelevant(first: Seq<Seq<u8>>, second: Seq<Seq<u8>>)
    requires
        first.flatten() == second.flatten(),
    ensures
        delivered(Seq::empty(), first) == delivered(Seq::empty(), second),
{
    lemma_chunks_deliver_whole_stream(Seq::empty(), first);
    lemma_chunks_deliver_whole_stream(Seq::empty(), second);
}

/// A stream of frames parses back into exactly the payloads that were
/// framed, as many as were written and in the order of writing, with
/// nothing left over.
pub proof fn lemma_wire_parses_back(items: Seq<Seq<u8>>)
    requires
        forall|i: int| 0 <= i < items.len() ==> (#[trigger] items[i]).len() <= MAX_PAYLOAD_LEN,
    ensures
        payloads(wire(items)) == items,
        remainder(wire(items)) == Seq::<u8>::empty(),
    decreases items.len(),
{
    if items.len() > 0 {
        let rest = items.drop_first();
        lemma_wire_parses_back(rest);
        lemma_frame_then_tail(items[0], wire(rest));
    }
}

} // verus!
