//! The framing of the integer protocol: each frame is a request id and a
//! value, both big-endian `u64`s, sixteen bytes in all.
use crate::bytes::{
    be_bytes, be_value, lemma_be_bytes_of_value, lemma_be_value_of_bytes, read_be_u64,
    write_be_u64, U64_LEN,
};
use vstd::prelude::*;

verus! {

/// Number of bytes of one frame.
pub const FRAME_LEN: usize = 16;

/// The bytes of the frame carrying `id` and `item`.
pub open spec fn frame_bytes(id: u64, item: u64) -> Seq<u8> {
    be_bytes(id) + be_bytes(item)
}

/// The frame at the front of `buf`, if a whole one is there.
pub open spec fn parse_frame(buf: Seq<u8>) -> Option<(u64, u64)> {
    if buf.len() < FRAME_LEN {
        None
    } else {
        Some((be_value(buf.subrange(0, 8)), be_value(buf.subrange(8, 16))))
    }
}

/// What is left of `buf` once the frame at its front, if any, is taken.
pub open spec fn after_frame(buf: Seq<u8>) -> Seq<u8> {
    if buf.len() < FRAME_LEN {
        buf
    } else {
        buf.skip(FRAME_LEN as int)
    }
}

/// Removes the first `at` bytes of `buf` and returns them.
fn drain_to(buf: &mut Vec<u8>, at: usize) -> (front: Vec<u8>)
    requires
        at <= old(buf)@.len(),
    ensures
        front@ == old(buf)@.take(at as int),
        final(buf)@ == old(buf)@.skip(at as int),
{
    let mut rest = buf.split_off(at);
    std::mem::swap(buf, &mut rest);
    rest
}

/// Encoder and decoder of the integer protocol's frames.
pub struct IntCodec;

impl Default for IntCodec {
    fn default() -> (c: IntCodec) {
        IntCodec
    }
}

impl IntCodec {
    /// Takes one frame off the front of `buf` if a whole frame is there;
    /// otherwise leaves `buf` alone and answers `None`.
    pub fn decode(&mut self, buf: &mut Vec<u8>) -> (r: Result<Option<(u64, u64)>, std::io::Error>)
        ensures
            r.is_ok(),
            r.unwrap() == parse_frame(old(buf)@),
            final(buf)@ == after_frame(old(buf)@),
            old(buf)@.len() < 16 ==> r.unwrap() is None && final(buf)@ == old(buf)@,
            old(buf)@.len() >= 16 ==> r.unwrap() == Some(
                (be_value(old(buf)@.subrange(0, 8)), be_value(old(buf)@.subrange(8, 16))),
            ),
            old(buf)@.len() >= 16 ==> final(buf)@ == old(buf)@.subrange(16, old(buf)@.len() as int),
    {
        if buf.len() < 2 * U64_LEN {
            return Ok(None);
        }
        let id_buf = drain_to(buf, U64_LEN);
        let id = read_be_u64(id_buf.as_slice())?;
        let item_buf = drain_to(buf, U64_LEN);
        let item = read_be_u64(item_buf.as_slice())?;
        proof {
            assert(id_buf@ == old(buf)@.subrange(0, 8));
            assert(item_buf@ =~= old(buf)@.subrange(8, 16));
            assert(buf@ =~= old(buf)@.skip(16));
        }
        Ok(Some((id, item)))
    }

    /// Takes the frame off the front of `buf` when the stream has ended;
    /// at least one whole frame must remain.
    pub fn decode_eof(&mut self, buf: &mut Vec<u8>) -> (r: Result<(u64, u64), std::io::Error>)
        requires
            old(buf)@.len() >= FRAME_LEN,
        ensures
            r.is_ok(),
            Some(r.unwrap()) == parse_frame(old(buf)@),
            final(buf)@ == after_frame(old(buf)@),
            r.unwrap().0 == be_value(old(buf)@.subrange(0, 8)),
            r.unwrap().1 == be_value(old(buf)@.subrange(8, 16)),
            final(buf)@ == old(buf)@.subrange(16, old(buf)@.len() as int),
    {
        let id_buf = drain_to(buf, U64_LEN);
        let id = read_be_u64(id_buf.as_slice())?;
        let item_buf = drain_to(buf, U64_LEN);
        let item = read_be_u64(item_buf.as_slice())?;
        proof {
            assert(id_buf@ == old(buf)@.subrange(0, 8));
            assert(item_buf@ =~= old(buf)@.subrange(8, 16));
            assert(buf@ =~= old(buf)@.skip(16));
        }
        Ok((id, item))
    }

    /// Appends the frame carrying `id` and `item` to `into`.
    pub fn encode(&mut self, frame: (u64, u64), into: &mut Vec<u8>) -> (r: Result<(), std::io::Error>)
        ensures
            r.is_ok(),
            final(into)@ == old(into)@ + frame_bytes(frame.0, frame.1),
            final(into)@ == old(into)@ + be_bytes(frame.0) + be_bytes(frame.1),
    {
        let (id, item) = frame;
        let _ = write_be_u64(into, id);
        let _ = write_be_u64(into, item);
        assert(into@ =~= old(into)@ + frame_bytes(id, item));
        assert(into@ =~= old(into)@ + be_bytes(id) + be_bytes(item));
        Ok(())
    }
}

/// The integer protocol, carried over a byte stream framed by [`IntCodec`].
pub struct IntProto;

/// Every frame is sixteen bytes long.
pub proof fn lemma_frame_len(id: u64, item: u64)
    ensures
        frame_bytes(id, item).len() == FRAME_LEN,
{
}

/// Decoding what was encoded: a buffer that starts with the frame of `id`
/// and `item` decodes to that frame, and what follows it is left untouched.
pub proof fn lemma_decode_encoded(id: u64, item: u64, rest: Seq<u8>)
    ensures
        parse_frame(frame_bytes(id, item) + rest) == Some((id, item)),
        after_frame(frame_bytes(id, item) + rest) == rest,
{
    lemma_be_value_of_bytes(id);
    lemma_be_value_of_bytes(item);
    let buf = frame_bytes(id, item) + rest;
    assert(buf.subrange(0, 8) =~= be_bytes(id));
    assert(buf.subrange(8, 16) =~= be_bytes(item));
    assert(buf.skip(16) =~= rest);
}

/// Encoding what was decoded: the frame decoded from a buffer encodes to
/// exactly the sixteen bytes it was read from, so each frame has one
/// encoding.
pub proof fn lemma_encode_decoded(buf: Seq<u8>)
    requires
        parse_frame(buf) is Some,
    ensures
        frame_bytes(parse_frame(buf).unwrap().0, parse_frame(buf).unwrap().1) == buf.take(16),
        buf == buf.take(16) + after_frame(buf),
{
    lemma_be_bytes_of_value(buf.subrange(0, 8));
    lemma_be_bytes_of_value(buf.subrange(8, 16));
    assert(buf.take(16) =~= buf.subrange(0, 8) + buf.subrange(8, 16));
    assert(buf =~= buf.take(16) + buf.skip(16));
}

/// Bytes that arrive after a whole frame change neither that frame nor
/// what precedes them in the remainder; a buffer with no whole frame yields
/// none and is kept as it is.
pub proof fn lemma_decode_prefix(buf: Seq<u8>, more: Seq<u8>)
    ensures
        parse_frame(buf) is Some ==> parse_frame(buf + more) == parse_frame(buf),
        parse_frame(buf) is Some ==> after_frame(buf + more) == after_frame(buf) + more,
        parse_frame(buf) is None ==> after_frame(buf) == buf,
        parse_frame(buf) is None <==> buf.len() < FRAME_LEN,
{
    if buf.len() >= FRAME_LEN {
        let whole = buf + more;
        assert(whole.subrange(0, 8) =~= buf.subrange(0, 8));
        assert(whole.subrange(8, 16) =~= buf.subrange(8, 16));
        assert(whole.skip(16) =~= buf.skip(16) + more);
    }
}

/// The bytes of a sequence of frames, written one after another.
pub open spec fn frames_bytes(frames: Seq<(u64, u64)>) -> Seq<u8>
    decreases frames.len(),
{
    if frames.len() == 0 {
        Seq::empty()
    } else {
        frame_bytes(frames[0].0, frames[0].1) + frames_bytes(frames.drop_first())
    }
}

/// Frames come out in the order they went in: from the bytes of several
/// frames, decoding gives the first one and leaves the bytes of the rest;
/// from no frames it gives nothing.
pub proof fn lemma_decode_in_order(frames: Seq<(u64, u64)>)
    ensures
        frames.len() == 0 ==> parse_frame(frames_bytes(frames)) is None,
        frames.len() > 0 ==> parse_frame(frames_bytes(frames)) == Some(frames[0]),
        frames.len() > 0 ==> after_frame(frames_bytes(frames)) == frames_bytes(frames.drop_first()),
{
    if frames.len() > 0 {
        lemma_decode_encoded(frames[0].0, frames[0].1, frames_bytes(frames.drop_first()));
    }
}

/// The layout of a frame: its first eight bytes read as a big-endian `u64`
/// give the request id, the next eight give the value, and nothing else
/// is written; each of the two halves depends on its own number only.
pub proof fn lemma_frame_layout(id: u64, item: u64)
    ensures
        frame_bytes(id, item).len() == 16,
        be_value(frame_bytes(id, item).subrange(0, 8)) == id,
        be_value(frame_bytes(id, item).subrange(8, 16)) == item,
        frame_bytes(id, item).subrange(0, 8) == be_bytes(id),
        frame_bytes(id, item).subrange(8, 16) == be_bytes(item),
{
    lemma_be_value_of_bytes(id);
    lemma_be_value_of_bytes(item);
    assert(frame_bytes(id, item).subrange(0, 8) =~= be_bytes(id));
    assert(frame_bytes(id, item).subrange(8, 16) =~= be_bytes(item));
}

/// What decoding reads: a decoded id is the number whose big-endian bytes
/// are the first eight of the buffer, and a decoded value the number whose
/// big-endian bytes are the next eight, whatever the other one is.
pub proof fn lemma_decoded_fields(buf: Seq<u8>)
    requires
        buf.len() >= 16,
    ensures
        parse_frame(buf) is Some,
        be_bytes(parse_frame(buf).unwrap().0) == buf.subrange(0, 8),
        be_bytes(parse_frame(buf).unwrap().1) == buf.subrange(8, 16),
        parse_frame(buf).unwrap().0 == be_value(buf.subrange(0, 8)),
        parse_frame(buf).unwrap().1 == be_value(buf.subrange(8, 16)),
{
    lemma_be_bytes_of_value(buf.subrange(0, 8));
    lemma_be_bytes_of_value(buf.subrange(8, 16));
}

/// Two frames have the same bytes only if they carry the same id and the
/// same value, and two buffers decode to the same frame only if their
/// first sixteen bytes agree.
pub proof fn lemma_frame_injective(id1: u64, item1: u64, id2: u64, item2: u64, b1: Seq<u8>, b2: Seq<u8>)
    ensures
        frame_bytes(id1, item1) == frame_bytes(id2, item2) ==> id1 == id2 && item1 == item2,
        b1.len() >= 16 && b2.len() >= 16 && parse_frame(b1) == parse_frame(b2) ==> b1.take(16)
            == b2.take(16),
{
    lemma_frame_layout(id1, item1);
    lemma_frame_layout(id2, item2);
    if b1.len() >= 16 && b2.len() >= 16 && parse_frame(b1) == parse_frame(b2) {
        lemma_decoded_fields(b1);
        lemma_decoded_fields(b2);
        assert(b1.take(16) =~= b1.subrange(0, 8) + b1.subrange(8, 16));
        assert(b2.take(16) =~= b2.subrange(0, 8) + b2.subrange(8, 16));
    }
}

} // verus!
