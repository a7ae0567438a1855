//! Server-side ingestion: one `FrameAssembler` per connection accumulates the
//! raw bytes the socket yields and cuts them into discrete frames. TCP has no
//! message boundaries, so a frame may arrive split across reads and several
//! frames may arrive in one read; the assembler handles both by buffering
//! until a whole frame, as declared by its own header, is present.

use crate::bytes::{
    append_bytes, lemma_u16_be_val_at, lemma_u32_be_val_at, read_u16_be, read_u32_be, spec_u16_be,
    spec_u16_be_val, spec_u32_be, spec_u32_be_val,
};
use crate::codec::{
    decode, lemma_payload_len, lemma_round_trip, spec_decode, spec_frame, CollectorCommand,
    ProtocolError, SUBMIT_DATA_PAYLOAD_LEN,
};
use crate::{MAGIC_NUMBER, VERSION_NUMBER};
use vstd::prelude::*;
use vstd::slice::slice_subrange;

verus! {

/// What one assembly step does to a buffer: the step's outcome, and the bytes
/// left buffered afterwards.
///
/// `Ok(None)` means no whole frame is buffered yet — not an error, the
/// connection just waits for more bytes. `Ok(Some(..))` is one decoded frame,
/// consumed from the front of the buffer. `Err(..)` is a protocol error,
/// fatal to the connection: with no resynchronization mechanism, a corrupted
/// stream cannot be safely re-entered, and the buffer is left as it stands.
pub open spec fn spec_step(buf: Seq<u8>) -> (Result<
    Option<(u32, CollectorCommand)>,
    ProtocolError,
>, Seq<u8>) {
    if buf.len() < 12 {
        (Ok(None), buf)
    } else if spec_u16_be_val(buf, 0) != MAGIC_NUMBER {
        (Err(ProtocolError::BadMagic), buf)
    } else if spec_u16_be_val(buf, 2) != VERSION_NUMBER {
        (Err(ProtocolError::UnsupportedVersion), buf)
    } else if buf.len() < 16 + spec_u32_be_val(buf, 8) {
        (Ok(None), buf)
    } else {
        let total = 16 + spec_u32_be_val(buf, 8) as int;
        match spec_decode(buf.subrange(0, total)) {
            Ok((t, c)) => (Ok(Some((t, c))), buf.subrange(total, buf.len() as int)),
            Err(e) => (Err(e), buf),
        }
    }
}

/// Per-connection accumulation buffer that reassembles the byte stream into
/// frames.
pub struct FrameAssembler {
    buf: Vec<u8>,
}

impl View for FrameAssembler {
    type V = Seq<u8>;

    closed spec fn view(&self) -> Seq<u8> {
        self.buf@
    }
}

impl FrameAssembler {
    /// An assembler with nothing buffered.
    pub fn new() -> (r: FrameAssembler)
        ensures
            r@ == Seq::<u8>::empty(),
    {
        let r = FrameAssembler { buf: Vec::new() };
        proof {
            assert(r@ =~= Seq::<u8>::empty());
        }
        r
    }

    /// How many bytes wait in the buffer.
    pub fn buffered(&self) -> (r: usize)
        ensures
            r == self@.len(),
    {
        self.buf.len()
    }

    /// Takes the bytes one socket read yielded, in order, after everything
    /// already buffered.
    pub fn feed(&mut self, data: &[u8])
        ensures
            final(self)@ == old(self)@ + data@,
    {
        append_bytes(&mut self.buf, data);
    }

    /// Tries to cut one frame off the front of the buffer; the result and the
    /// remaining buffer are exactly `spec_step` of the buffered bytes.
    pub fn next_frame(&mut self) -> (r: Result<Option<(u32, CollectorCommand)>, ProtocolError>)
        ensures
            r == spec_step(old(self)@).0,
            final(self)@ == spec_step(old(self)@).1,
    {
        let n = self.buf.len();
        if n < 12 {
            return Ok(None);
        }
        let magic_number = read_u16_be(self.buf.as_slice(), 0);
        if magic_number != MAGIC_NUMBER {
            return Err(ProtocolError::BadMagic);
        }
        let version_number = read_u16_be(self.buf.as_slice(), 2);
        if version_number != VERSION_NUMBER {
            return Err(ProtocolError::UnsupportedVersion);
        }
        let payload_size = read_u32_be(self.buf.as_slice(), 8);
        if n < 16 || n - 16 < payload_size as usize {
            return Ok(None);
        }
        let total: usize = 16 + payload_size as usize;
        let outcome = decode(slice_subrange(self.buf.as_slice(), 0, total));
        match outcome {
            Ok((timestamp, command)) => {
                let rest = self.buf.split_off(total);
                self.buf = rest;
                Ok(Some((timestamp, command)))
            },
            Err(e) => Err(e),
        }
    }
}

/// One step on a buffer that begins with a whole frame consumes exactly that
/// frame, yields its timestamp and command, and leaves the bytes behind it —
/// whatever they are — untouched for the next step.
pub proof fn lemma_step_consumes_leading_frame(timestamp: u32, c: CollectorCommand, rest: Seq<u8>)
    ensures
        spec_step(spec_frame(timestamp, c) + rest).0 == Ok::<_, ProtocolError>(
            Some((timestamp, c)),
        ),
        spec_step(spec_frame(timestamp, c) + rest).1 == rest,
{
    lemma_payload_len(c);
    let f = spec_frame(timestamp, c);
    let buf = f + rest;
    assert(f.len() == 56);
    assert(f.subrange(0, 2) =~= spec_u16_be(MAGIC_NUMBER));
    lemma_u16_be_val_at(f, 0, MAGIC_NUMBER);
    assert(f.subrange(2, 4) =~= spec_u16_be(VERSION_NUMBER));
    lemma_u16_be_val_at(f, 2, VERSION_NUMBER);
    assert(f.subrange(8, 12) =~= spec_u32_be(SUBMIT_DATA_PAYLOAD_LEN));
    lemma_u32_be_val_at(f, 8, SUBMIT_DATA_PAYLOAD_LEN);
    assert(spec_u16_be_val(buf, 0) == spec_u16_be_val(f, 0));
    assert(spec_u16_be_val(buf, 2) == spec_u16_be_val(f, 2));
    assert(spec_u32_be_val(buf, 8) == spec_u32_be_val(f, 8));
    assert(buf.subrange(0, 56) =~= f);
    lemma_round_trip(timestamp, c);
    assert(buf.subrange(56, buf.len() as int) =~= rest);
}

/// Multi-frame stream: two frames arriving back to back in one transmission
/// decode as two distinct commands, in send order. The first step cuts off
/// the first frame and leaves the second whole; the step after that consumes
/// the second and leaves the buffer empty.
pub proof fn lemma_two_frames_decode_in_order(
    t1: u32,
    c1: CollectorCommand,
    t2: u32,
    c2: CollectorCommand,
)
    ensures
        spec_step(spec_frame(t1, c1) + spec_frame(t2, c2)).0 == Ok::<_, ProtocolError>(
            Some((t1, c1)),
        ),
        spec_step(spec_frame(t1, c1) + spec_frame(t2, c2)).1 == spec_frame(t2, c2),
        spec_step(spec_frame(t2, c2)).0 == Ok::<_, ProtocolError>(Some((t2, c2))),
        spec_step(spec_frame(t2, c2)).1 == Seq::<u8>::empty(),
{
    lemma_step_consumes_leading_frame(t1, c1, spec_frame(t2, c2));
    lemma_step_consumes_leading_frame(t2, c2, Seq::<u8>::empty());
    assert(spec_frame(t2, c2) + Seq::<u8>::empty() =~= spec_frame(t2, c2));
}

} // verus!
