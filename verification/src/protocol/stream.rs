//! Laws of the decoder over a whole received stream: how the frames it
//! returns lie in the bytes pushed so far, and why neither the chunking of
//! the stream nor the moments at which frames are taken change them.

use vstd::prelude::*;

use super::{
    lemma_chunking_irrelevant, spec_frame_acceptable, spec_frame_bytes, spec_frame_len, spec_header_valid, spec_le_bytes,
    spec_le_u32, spec_next_frame, FrameModel, HEADER_LEN,
};

verus! {

/// The four bytes of a little-endian field are the little-endian bytes of
/// the value read from them.
pub proof fn lemma_le_u32_bytes(bytes: Seq<u8>, offset: int)
    requires
        0 <= offset,
        offset + 4 <= bytes.len(),
    ensures
        spec_le_bytes(spec_le_u32(bytes, offset)) == bytes.subrange(offset, offset + 4),
{
    let b0 = bytes[offset];
    let b1 = bytes[offset + 1];
    let b2 = bytes[offset + 2];
    let b3 = bytes[offset + 3];
    let v = spec_le_u32(bytes, offset);
    assert(v == (b0 as u32) | ((b1 as u32) << 8u32) | ((b2 as u32) << 16u32) | ((b3 as u32)
        << 24u32));
    assert((((b0 as u32) | ((b1 as u32) << 8u32) | ((b2 as u32) << 16u32) | ((b3 as u32)
        << 24u32)) & 0xff) as u8 == b0) by (bit_vector);
    assert(((((b0 as u32) | ((b1 as u32) << 8u32) | ((b2 as u32) << 16u32) | ((b3 as u32)
        << 24u32)) >> 8u32) & 0xff) as u8 == b1) by (bit_vector);
    assert(((((b0 as u32) | ((b1 as u32) << 8u32) | ((b2 as u32) << 16u32) | ((b3 as u32)
        << 24u32)) >> 16u32) & 0xff) as u8 == b2) by (bit_vector);
    assert(((((b0 as u32) | ((b1 as u32) << 8u32) | ((b2 as u32) << 16u32) | ((b3 as u32)
        << 24u32)) >> 24u32) & 0xff) as u8 == b3) by (bit_vector);
    assert(spec_le_bytes(v) =~= bytes.subrange(offset, offset + 4));
}

/// The bytes a decoded frame was sent as.
pub open spec fn spec_model_bytes(frame: FrameModel) -> Seq<u8> {
    spec_frame_bytes(frame.opcode, frame.error, frame.payload)
}

/// Whether `buffer` is `skipped`, then the bytes of `frame` if there is one,
/// then `rest`.
pub open spec fn spec_step_layout(
    buffer: Seq<u8>,
    skipped: Seq<u8>,
    frame: Option<FrameModel>,
    rest: Seq<u8>,
) -> bool {
    match frame {
        Some(f) => buffer == skipped + spec_model_bytes(f) + rest,
        None => buffer == skipped + rest,
    }
}

/// A decoding step returns a frame that the decoder accepts, sent exactly as
/// the bytes that follow the skipped ones, and keeps the bytes after it; a
/// step that finds no frame keeps a suffix of the buffer.
pub proof fn lemma_next_frame_layout(buffer: Seq<u8>)
    ensures
        spec_next_frame(buffer).0 matches Some(f) ==> spec_frame_acceptable(
            f.opcode,
            f.error,
            f.payload.len(),
        ),
        exists|skipped: Seq<u8>|
            #[trigger] spec_step_layout(
                buffer,
                skipped,
                spec_next_frame(buffer).0,
                spec_next_frame(buffer).1,
            ),
    decreases buffer.len(),
{
    let (frame, rest) = spec_next_frame(buffer);
    let empty = Seq::<u8>::empty();
    if buffer.len() < HEADER_LEN {
        assert(empty + buffer =~= buffer);
        assert(spec_step_layout(buffer, empty, frame, rest));
    } else if !spec_header_valid(buffer) {
        let tail = buffer.drop_first();
        lemma_next_frame_layout(tail);
        let skipped = choose|skipped: Seq<u8>|
            #[trigger] spec_step_layout(tail, skipped, frame, rest);
        let longer = seq![buffer[0]] + skipped;
        assert(buffer =~= seq![buffer[0]] + tail);
        match frame {
            Some(f) => {
                assert(buffer =~= longer + spec_model_bytes(f) + rest);
            },
            None => {
                assert(buffer =~= longer + rest);
            },
        }
        assert(spec_step_layout(buffer, longer, frame, rest));
    } else if buffer.len() < spec_frame_len(buffer) {
        assert(empty + buffer =~= buffer);
        assert(spec_step_layout(buffer, empty, frame, rest));
    } else {
        let length = spec_frame_len(buffer);
        let f = frame.unwrap();
        lemma_le_u32_bytes(buffer, 2);
        assert((HEADER_LEN + f.payload.len()) as u32 == spec_le_u32(buffer, 2));
        assert(spec_model_bytes(f) =~= buffer.subrange(0, length));
        assert(buffer =~= empty + buffer.subrange(0, length) + rest);
        assert(spec_step_layout(buffer, empty, frame, rest));
    }
}

/// A decoding step that returns a frame does the same whatever bytes arrive
/// after the buffer: those bytes simply stay behind it.
pub proof fn lemma_frame_step_ignores_later_bytes(received: Seq<u8>, later: Seq<u8>)
    requires
        spec_next_frame(received).0 is Some,
    ensures
        spec_next_frame(received + later) == (
            spec_next_frame(received).0,
            spec_next_frame(received).1 + later,
        ),
    decreases received.len(),
{
    let joined = received + later;
    assert(joined[0] == received[0]);
    assert(joined[1] == received[1]);
    assert(joined[2] == received[2]);
    assert(joined[3] == received[3]);
    assert(joined[4] == received[4]);
    assert(joined[5] == received[5]);
    if !spec_header_valid(received) {
        assert(joined.drop_first() =~= received.drop_first() + later);
        lemma_frame_step_ignores_later_bytes(received.drop_first(), later);
    } else {
        let length = spec_frame_len(received);
        assert(joined.subrange(HEADER_LEN as int, length) =~= received.subrange(
            HEADER_LEN as int,
            length,
        ));
        assert(joined.subrange(length, joined.len() as int) =~= received.subrange(
            length,
            received.len() as int,
        ) + later);
    }
}


/// A decoding step never lengthens the buffer, and one that returns a frame
/// shortens it.
pub proof fn lemma_next_frame_shrinks(buffer: Seq<u8>)
    ensures
        spec_next_frame(buffer).1.len() <= buffer.len(),
        spec_next_frame(buffer).0 is Some ==> spec_next_frame(buffer).1.len() < buffer.len(),
{
    lemma_next_frame_layout(buffer);
    let (frame, rest) = spec_next_frame(buffer);
    let skipped = choose|skipped: Seq<u8>| #[trigger] spec_step_layout(buffer, skipped, frame, rest);
    if let Some(f) = frame {
        assert(spec_model_bytes(f).len() >= 2);
    }
}

/// Every frame that the buffer yields when frames are taken until none is
/// left, in order, and the bytes that then remain.
pub open spec fn spec_drain(buffer: Seq<u8>) -> (Seq<FrameModel>, Seq<u8>)
    decreases buffer.len(),
{
    let step = spec_next_frame(buffer);
    if step.0 is Some {
        proof {
            lemma_next_frame_shrinks(buffer);
        }
        let more = spec_drain(step.1);
        (seq![step.0.unwrap()] + more.0, more.1)
    } else {
        (Seq::empty(), step.1)
    }
}

/// The frames a step returned, as a sequence of none or one.
pub open spec fn spec_returned(frame: Option<FrameModel>) -> Seq<FrameModel> {
    match frame {
        Some(f) => seq![f],
        None => Seq::empty(),
    }
}

proof fn lemma_drain_follows_step(a: Seq<u8>, b: Seq<u8>)
    requires
        spec_next_frame(a) == spec_next_frame(b),
    ensures
        spec_drain(a) == spec_drain(b),
{
}

proof fn lemma_drain_after_step(buffer: Seq<u8>, later: Seq<u8>)
    ensures
        spec_drain(buffer + later) == (
            spec_returned(spec_next_frame(buffer).0) + spec_drain(spec_next_frame(buffer).1
                + later).0,
            spec_drain(spec_next_frame(buffer).1 + later).1,
        ),
{
    let step = spec_next_frame(buffer);
    if step.0 is Some {
        lemma_frame_step_ignores_later_bytes(buffer, later);
    } else {
        lemma_chunking_irrelevant(buffer, later);
        lemma_drain_follows_step(buffer + later, step.1 + later);
        assert(spec_returned(step.0) + spec_drain(step.1 + later).0 =~= spec_drain(
            step.1 + later,
        ).0);
    }
}

/// Decoding a stream whole gives the frames of its first part followed by
/// those of what remained of it together with the second part, and leaves
/// the same bytes: where the stream was cut does not matter.
pub proof fn lemma_drain_chunking(received: Seq<u8>, later: Seq<u8>)
    ensures
        spec_drain(received + later) == (
            spec_drain(received).0 + spec_drain(spec_drain(received).1 + later).0,
            spec_drain(spec_drain(received).1 + later).1,
        ),
    decreases received.len(),
{
    let step = spec_next_frame(received);
    lemma_drain_after_step(received, later);
    if step.0 is Some {
        lemma_next_frame_shrinks(received);
        lemma_drain_chunking(step.1, later);
        assert(spec_drain(received).0 + spec_drain(spec_drain(received).1 + later).0 =~= seq![
            step.0.unwrap(),
        ] + (spec_drain(step.1).0 + spec_drain(spec_drain(step.1).1 + later).0));
    } else {
        assert(spec_drain(received).0 + spec_drain(spec_drain(received).1 + later).0 =~= spec_drain(
            step.1 + later,
        ).0);
    }
}

/// Whether `stream` is laid out as some skipped bytes, the bytes of
/// `frames[0]`, then more skipped bytes, the bytes of `frames[1]`, and so on,
/// ending with `rest`.
pub open spec fn spec_laid_out(stream: Seq<u8>, frames: Seq<FrameModel>, rest: Seq<u8>) -> bool
    decreases frames.len(),
{
    if frames.len() == 0 {
        exists|skipped: Seq<u8>| #[trigger] spec_step_layout(stream, skipped, None, rest)
    } else {
        exists|skipped: Seq<u8>, tail: Seq<u8>|
            #[trigger] spec_step_layout(stream, skipped, Some(frames[0]), tail) && spec_laid_out(
                tail,
                frames.drop_first(),
                rest,
            )
    }
}

/// Whether a decoder holding `buffer`, after all of `stream` was pushed into
/// it and it returned `emitted`, agrees with the stream:
/// - the returned frames were sent in that order in the stream, each after
///   the ones before it, and the buffer is what follows the last of them;
/// - whatever arrives later, the frames returned so far followed by those
///   still to come are the frames of the whole stream, with the same bytes
///   left over.
pub open spec fn spec_agrees_with_stream(
    stream: Seq<u8>,
    emitted: Seq<FrameModel>,
    buffer: Seq<u8>,
) -> bool {
    &&& spec_laid_out(stream, emitted, buffer)
    &&& forall|later: Seq<u8>|
        #[trigger] spec_drain(stream + later) == (
            emitted + spec_drain(buffer + later).0,
            spec_drain(buffer + later).1,
        )
}

/// A new decoder agrees with the empty stream.
pub proof fn lemma_agrees_at_start()
    ensures
        spec_agrees_with_stream(Seq::empty(), Seq::empty(), Seq::empty()),
{
    let empty = Seq::<u8>::empty();
    assert(empty =~= empty + empty);
    assert(spec_step_layout(empty, empty, None, empty));
    assert forall|later: Seq<u8>|
        #[trigger] spec_drain(empty + later) == (
            Seq::<FrameModel>::empty() + spec_drain(empty + later).0,
            spec_drain(empty + later).1,
        ) by {
        assert(Seq::<FrameModel>::empty() + spec_drain(empty + later).0 =~= spec_drain(
            empty + later,
        ).0);
    }
}

proof fn lemma_laid_out_push(
    stream: Seq<u8>,
    frames: Seq<FrameModel>,
    rest: Seq<u8>,
    bytes: Seq<u8>,
)
    requires
        spec_laid_out(stream, frames, rest),
    ensures
        spec_laid_out(stream + bytes, frames, rest + bytes),
    decreases frames.len(),
{
    if frames.len() == 0 {
        let skipped = choose|skipped: Seq<u8>| #[trigger] spec_step_layout(stream, skipped, None, rest);
        assert(stream + bytes =~= skipped + (rest + bytes));
        assert(spec_step_layout(stream + bytes, skipped, None, rest + bytes));
    } else {
        let (skipped, tail) = choose|skipped: Seq<u8>, tail: Seq<u8>|
            #[trigger] spec_step_layout(stream, skipped, Some(frames[0]), tail) && spec_laid_out(
                tail,
                frames.drop_first(),
                rest,
            );
        lemma_laid_out_push(tail, frames.drop_first(), rest, bytes);
        assert(stream + bytes =~= skipped + spec_model_bytes(frames[0]) + (tail + bytes));
        assert(spec_step_layout(stream + bytes, skipped, Some(frames[0]), tail + bytes));
    }
}

proof fn lemma_laid_out_step(stream: Seq<u8>, frames: Seq<FrameModel>, rest: Seq<u8>)
    requires
        spec_laid_out(stream, frames, rest),
    ensures
        spec_laid_out(
            stream,
            frames + spec_returned(spec_next_frame(rest).0),
            spec_next_frame(rest).1,
        ),
    decreases frames.len(),
{
    let (frame, after) = spec_next_frame(rest);
    let more = frames + spec_returned(frame);
    if frames.len() == 0 {
        let skipped = choose|skipped: Seq<u8>| #[trigger] spec_step_layout(stream, skipped, None, rest);
        lemma_next_frame_layout(rest);
        let skipped2 = choose|skipped2: Seq<u8>| #[trigger] spec_step_layout(rest, skipped2, frame, after);
        let empty = Seq::<u8>::empty();
        match frame {
            Some(f) => {
                assert(more =~= seq![f]);
                assert(stream =~= (skipped + skipped2) + spec_model_bytes(f) + after);
                assert(spec_step_layout(stream, skipped + skipped2, Some(more[0]), after));
                assert(after =~= empty + after);
                assert(spec_step_layout(after, empty, None, after));
                assert(more.drop_first() =~= Seq::<FrameModel>::empty());
                assert(spec_laid_out(after, more.drop_first(), after));
            },
            None => {
                assert(more =~= frames);
                assert(stream =~= (skipped + skipped2) + after);
                assert(spec_step_layout(stream, skipped + skipped2, None, after));
            },
        }
    } else {
        let (skipped, tail) = choose|skipped: Seq<u8>, tail: Seq<u8>|
            #[trigger] spec_step_layout(stream, skipped, Some(frames[0]), tail) && spec_laid_out(
                tail,
                frames.drop_first(),
                rest,
            );
        lemma_laid_out_step(tail, frames.drop_first(), rest);
        assert(more[0] == frames[0]);
        assert(more.drop_first() =~= frames.drop_first() + spec_returned(frame));
        assert(spec_step_layout(stream, skipped, Some(more[0]), tail));
    }
}

/// Pushing bytes into a decoder keeps it in agreement with the stream that
/// includes them.
pub proof fn lemma_agrees_after_push(
    stream: Seq<u8>,
    emitted: Seq<FrameModel>,
    buffer: Seq<u8>,
    bytes: Seq<u8>,
)
    requires
        spec_agrees_with_stream(stream, emitted, buffer),
    ensures
        spec_agrees_with_stream(stream + bytes, emitted, buffer + bytes),
{
    lemma_laid_out_push(stream, emitted, buffer, bytes);
    assert forall|later: Seq<u8>|
        #[trigger] spec_drain((stream + bytes) + later) == (
            emitted + spec_drain((buffer + bytes) + later).0,
            spec_drain((buffer + bytes) + later).1,
        ) by {
        assert((stream + bytes) + later =~= stream + (bytes + later));
        assert((buffer + bytes) + later =~= buffer + (bytes + later));
        assert(spec_drain(stream + (bytes + later)) == (
            emitted + spec_drain(buffer + (bytes + later)).0,
            spec_drain(buffer + (bytes + later)).1,
        ));
    }
}

/// Taking a frame, or finding none, keeps a decoder in agreement with its
/// stream: whenever frames are taken, the frames returned over all calls are
/// those of the stream decoded whole.
pub proof fn lemma_agrees_after_step(stream: Seq<u8>, emitted: Seq<FrameModel>, buffer: Seq<u8>)
    requires
        spec_agrees_with_stream(stream, emitted, buffer),
    ensures
        spec_agrees_with_stream(
            stream,
            emitted + spec_returned(spec_next_frame(buffer).0),
            spec_next_frame(buffer).1,
        ),
{
    let (frame, after) = spec_next_frame(buffer);
    lemma_laid_out_step(stream, emitted, buffer);
    assert forall|later: Seq<u8>|
        #[trigger] spec_drain(stream + later) == (
            (emitted + spec_returned(frame)) + spec_drain(after + later).0,
            spec_drain(after + later).1,
        ) by {
        assert(spec_drain(stream + later) == (
            emitted + spec_drain(buffer + later).0,
            spec_drain(buffer + later).1,
        ));
        lemma_drain_after_step(buffer, later);
        assert(emitted + (spec_returned(frame) + spec_drain(after + later).0) =~= (emitted
            + spec_returned(frame)) + spec_drain(after + later).0);
    }
}

} // verus!
