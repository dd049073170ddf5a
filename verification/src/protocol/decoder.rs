//! Reassembly of response frames from the bytes that arrive on the UART.

use vstd::prelude::*;

use super::{lemma_le_bytes_roundtrip, spec_le_bytes, spec_le_u32, Frame, FrameModel, HEADER_LEN, MAX_FRAME_LEN};

verus! {

/// Whether a byte can be the opcode of a response.
pub open spec fn spec_is_response_opcode(value: u8) -> bool {
    ||| value <= 0x16
    ||| 0x18 <= value <= 0x27
    ||| 0x50 <= value <= 0x51
    ||| 0x60 <= value <= 0x62
    ||| value == 0x7f
}

/// Whether `bytes` begins with a header that the decoder accepts: a response
/// opcode, a known error code, and a total length from the header size up to
/// the largest accepted frame.
pub open spec fn spec_header_valid(bytes: Seq<u8>) -> bool {
    &&& bytes.len() >= HEADER_LEN
    &&& spec_is_response_opcode(bytes[0])
    &&& bytes[1] <= 18
    &&& HEADER_LEN <= spec_le_u32(bytes, 2) <= MAX_FRAME_LEN
}

/// Total length that a header announces.
pub open spec fn spec_frame_len(bytes: Seq<u8>) -> int {
    spec_le_u32(bytes, 2) as int
}

/// One decoding step on a receive buffer: the first complete frame, if any,
/// and what stays in the buffer. Bytes that cannot begin a frame header are
/// dropped one at a time; a valid header whose frame has not fully arrived
/// stops the search.
pub open spec fn spec_next_frame(buffer: Seq<u8>) -> (Option<FrameModel>, Seq<u8>)
    decreases buffer.len(),
{
    if buffer.len() < HEADER_LEN {
        (None, buffer)
    } else if !spec_header_valid(buffer) {
        spec_next_frame(buffer.drop_first())
    } else if buffer.len() < spec_frame_len(buffer) {
        (None, buffer)
    } else {
        let length = spec_frame_len(buffer);
        (
            Some(
                FrameModel {
                    opcode: buffer[0],
                    error: buffer[1],
                    payload: buffer.subrange(HEADER_LEN as int, length),
                },
            ),
            buffer.subrange(length, buffer.len() as int),
        )
    }
}

fn is_response_opcode(value: u8) -> (result: bool)
    ensures
        result == spec_is_response_opcode(value),
{
    value <= 0x16 || (0x18 <= value && value <= 0x27) || (0x50 <= value && value <= 0x51) || (0x60
        <= value && value <= 0x62) || value == 0x7f
}

/// Buffer of received bytes from which response frames are taken.
pub struct FrameDecoder {
    buffer: Vec<u8>,
}

impl View for FrameDecoder {
    type V = Seq<u8>;

    closed spec fn view(&self) -> Seq<u8> {
        self.buffer@
    }
}

impl Default for FrameDecoder {
    fn default() -> (decoder: Self)
        ensures
            decoder@ == Seq::<u8>::empty(),
    {
        FrameDecoder { buffer: Vec::new() }
    }
}

impl FrameDecoder {
    /// Appends received bytes to the buffer.
    pub fn push(&mut self, bytes: &[u8])
        ensures
            final(self)@ == old(self)@ + bytes@,
    {
        let mut i: usize = 0;
        while i < bytes.len()
            invariant
                0 <= i <= bytes@.len(),
                self.buffer@ == old(self).buffer@ + bytes@.subrange(0, i as int),
            decreases bytes@.len() - i,
        {
            self.buffer.push(bytes[i]);
            i = i + 1;
            assert(self.buffer@ =~= old(self).buffer@ + bytes@.subrange(0, i as int));
        }
        assert(bytes@.subrange(0, i as int) =~= bytes@);
    }

    /// Takes the first complete frame out of the buffer, dropping the bytes
    /// before it that cannot begin a frame.
    pub fn next_frame(&mut self) -> (frame: Option<Frame>)
        ensures
            frame matches Some(f) ==> spec_next_frame(old(self)@).0 == Some(f@),
            frame is None ==> spec_next_frame(old(self)@).0 is None,
            final(self)@ == spec_next_frame(old(self)@).1,
    {
        while self.buffer.len() >= HEADER_LEN
            invariant
                spec_next_frame(self.buffer@) == spec_next_frame(old(self).buffer@),
            decreases self.buffer@.len(),
        {
            if !is_response_opcode(self.buffer[0]) || self.buffer[1] > 18 {
                self.buffer.remove(0);
                continue;
            }
            let word = (self.buffer[2] as u32) | ((self.buffer[3] as u32) << 8) | ((
            self.buffer[4] as u32) << 16) | ((self.buffer[5] as u32) << 24);
            let length = word as usize;
            if !(HEADER_LEN <= length && length <= MAX_FRAME_LEN) {
                self.buffer.remove(0);
                continue;
            }
            if self.buffer.len() < length {
                return None;
            }
            let ghost buffer = self.buffer@;
            assert(spec_header_valid(buffer));
            let mut bytes = self.buffer.split_off(length);
            std::mem::swap(&mut bytes, &mut self.buffer);
            let opcode = bytes[0];
            let error = bytes[1];
            let payload = bytes.split_off(HEADER_LEN);
            assert(payload@ =~= buffer.subrange(HEADER_LEN as int, length as int));
            return Some(Frame { opcode, error, payload });
        }
        None
    }
}


/// The bytes the module sends for a response with this opcode, error code and
/// payload: the header with its little-endian total length, then the payload.
pub open spec fn spec_frame_bytes(opcode: u8, error: u8, payload: Seq<u8>) -> Seq<u8> {
    seq![opcode, error] + spec_le_bytes((HEADER_LEN + payload.len()) as u32) + payload
}

/// Whether a response with this opcode, error code and payload length is one
/// that the decoder accepts.
pub open spec fn spec_frame_acceptable(opcode: u8, error: u8, payload_len: nat) -> bool {
    &&& spec_is_response_opcode(opcode)
    &&& error <= 18
    &&& HEADER_LEN + payload_len <= MAX_FRAME_LEN
}

proof fn lemma_encoded_header(opcode: u8, error: u8, payload: Seq<u8>, rest: Seq<u8>)
    requires
        spec_frame_acceptable(opcode, error, payload.len()),
    ensures
        ({
            let bytes = spec_frame_bytes(opcode, error, payload) + rest;
            &&& spec_frame_bytes(opcode, error, payload).len() == HEADER_LEN + payload.len()
            &&& bytes.len() >= HEADER_LEN
            &&& bytes[0] == opcode
            &&& bytes[1] == error
            &&& spec_le_u32(bytes, 2) == HEADER_LEN + payload.len()
            &&& spec_header_valid(bytes)
        }),
{
    let length = (HEADER_LEN + payload.len()) as u32;
    lemma_le_bytes_roundtrip(length);
    let le = spec_le_bytes(length);
    let bytes = spec_frame_bytes(opcode, error, payload) + rest;
    assert(bytes[2] == le[0]);
    assert(bytes[3] == le[1]);
    assert(bytes[4] == le[2]);
    assert(bytes[5] == le[3]);
}

/// A complete response at the head of the buffer is decoded as exactly the
/// frame that was sent, and the bytes after it stay in the buffer.
pub proof fn lemma_decode_sent_frame(opcode: u8, error: u8, payload: Seq<u8>, rest: Seq<u8>)
    requires
        spec_frame_acceptable(opcode, error, payload.len()),
    ensures
        spec_next_frame(spec_frame_bytes(opcode, error, payload) + rest) == (
            Some(FrameModel { opcode, error, payload }),
            rest,
        ),
{
    lemma_encoded_header(opcode, error, payload, rest);
    let frame = spec_frame_bytes(opcode, error, payload);
    let bytes = frame + rest;
    assert(bytes.subrange(HEADER_LEN as int, frame.len() as int) =~= payload);
    assert(bytes.subrange(frame.len() as int, bytes.len() as int) =~= rest);
}

/// While only part of a response has arrived, nothing is decoded and every
/// received byte is kept.
pub proof fn lemma_partial_frame_waits(opcode: u8, error: u8, payload: Seq<u8>, received: nat)
    requires
        spec_frame_acceptable(opcode, error, payload.len()),
        received < HEADER_LEN + payload.len(),
    ensures
        ({
            let prefix = spec_frame_bytes(opcode, error, payload).take(received as int);
            spec_next_frame(prefix) == (None::<FrameModel>, prefix)
        }),
{
    let empty = Seq::<u8>::empty();
    lemma_encoded_header(opcode, error, payload, empty);
    let frame = spec_frame_bytes(opcode, error, payload);
    assert(frame + empty =~= frame);
    let prefix = frame.take(received as int);
    if received >= HEADER_LEN {
        assert(prefix[0] == frame[0]);
        assert(prefix[1] == frame[1]);
        assert(prefix[2] == frame[2]);
        assert(prefix[3] == frame[3]);
        assert(prefix[4] == frame[4]);
        assert(prefix[5] == frame[5]);
    }
}

/// Bytes that cannot begin a response are discarded before the frame that
/// follows them.
pub proof fn lemma_noise_is_skipped(noise: Seq<u8>, stream: Seq<u8>)
    requires
        forall|i: int| 0 <= i < noise.len() ==> !spec_is_response_opcode(#[trigger] noise[i]),
        stream.len() >= HEADER_LEN,
    ensures
        spec_next_frame(noise + stream) == spec_next_frame(stream),
    decreases noise.len(),
{
    if noise.len() > 0 {
        let rest = noise.drop_first();
        assert((noise + stream)[0] == noise[0]);
        assert((noise + stream).drop_first() =~= rest + stream);
        assert forall|i: int| 0 <= i < rest.len() implies !spec_is_response_opcode(
            #[trigger] rest[i],
        ) by {
            assert(rest[i] == noise[i + 1]);
        }
        lemma_noise_is_skipped(rest, stream);
    } else {
        assert(noise + stream =~= stream);
    }
}

/// When a decoding step finds no complete frame, it has discarded only bytes
/// that would be discarded whatever arrives next: decoding does not depend on
/// how the received stream was split into chunks.
pub proof fn lemma_chunking_irrelevant(received: Seq<u8>, later: Seq<u8>)
    requires
        spec_next_frame(received).0 is None,
    ensures
        spec_next_frame(spec_next_frame(received).1 + later) == spec_next_frame(received + later),
    decreases received.len(),
{
    if received.len() >= HEADER_LEN {
        let joined = received + later;
        assert(joined[0] == received[0]);
        assert(joined[1] == received[1]);
        assert(joined[2] == received[2]);
        assert(joined[3] == received[3]);
        assert(joined[4] == received[4]);
        assert(joined[5] == received[5]);
        if !spec_header_valid(received) {
            assert(joined.drop_first() =~= received.drop_first() + later);
            lemma_chunking_irrelevant(received.drop_first(), later);
        }
    }
}

} // verus!
