//! Frame codec: turns a command into one self-describing, checksummed wire
//! frame and a received frame back into a timestamp and a command.
//!
//! Layout, all multi-byte header and trailer integers big-endian:
//! magic (2) | version (2) | timestamp (4) | payload_length (4) |
//! payload (payload_length) | checksum (4, CRC-32 over the payload alone).
//!
//! The payload is the fixed serialization of a command: a 32-bit variant tag
//! followed by the variant's fields, all little-endian.

use crate::bytes::{
    append_bytes, lemma_u128_le_val_at, lemma_u16_be_val_at, lemma_u32_be_val_at, lemma_u32_le_val_at,
    lemma_u64_le_val_at, put_u128_le, put_u16_be, put_u32_be, put_u32_le, put_u64_le,
    read_u128_le, read_u16_be, read_u32_be, read_u32_le, read_u64_le, spec_u128_le,
    spec_u128_le_val, spec_u16_be, spec_u16_be_val, spec_u32_be, spec_u32_be_val, spec_u32_le,
    spec_u32_le_val, spec_u64_le, spec_u64_le_val,
};
use crate::{MAGIC_NUMBER, VERSION_NUMBER};
use vstd::prelude::*;
use vstd::slice::slice_subrange;

verus! {

/// Variant tag that opens the payload of a `SubmitData` command.
pub const SUBMIT_DATA_TAG: u32 = 0;

/// Bytes in the serialized payload of a `SubmitData` command:
/// tag (4) + collector_id (16) + total_memory (8) + used_memory (8) +
/// average_cpu_bits (4).
pub const SUBMIT_DATA_PAYLOAD_LEN: u32 = 40;

/// Bytes of frame metadata around the payload: 12 of header, 4 of checksum.
pub const FRAME_OVERHEAD: u32 = 16;

/// One report from an agent. A tagged union so that further report types can
/// be added under the same protocol version without breaking old frames.
///
/// `average_cpu_bits` carries the IEEE-754 bit pattern of the agent's average
/// CPU percentage; the codec moves the 32 bits through unchanged, and only the
/// edges of the system interpret them as a number.
#[derive(Clone, Copy, Debug, PartialEq, Eq, Structural)]
pub enum CollectorCommand {
    SubmitData {
        collector_id: u128,
        total_memory: u64,
        used_memory: u64,
        average_cpu_bits: u32,
    },
}

/// Why a received byte sequence was not accepted as a frame.
#[derive(Clone, Copy, Debug, PartialEq, Eq, Structural)]
pub enum ProtocolError {
    /// The first two bytes are not the expected magic constant.
    BadMagic,
    /// The version field names a protocol version this codec does not speak.
    UnsupportedVersion,
    /// Fewer bytes are present than the header, or the declared frame, needs.
    Truncated,
    /// The checksum recomputed over the payload differs from the trailer.
    ChecksumMismatch,
    /// The checksummed payload does not deserialize into a known command.
    Malformed,
}

/// CRC-32 of a byte sequence, as crc32fast computes it; a function of the
/// bytes alone.
pub uninterp spec fn crc32_of(data: Seq<u8>) -> u32;

/// Relies on crc32fast::hash: the CRC-32 of the bytes, depending on the bytes
/// alone.
#[verifier::external_body]
fn crc32(data: &[u8]) -> (r: u32)
    ensures
        r == crc32_of(data@),
{
    crc32fast::hash(data)
}

/// Relies on std::time::SystemTime::now and duration_since: whole seconds
/// between the unix epoch and the call; zero if the clock reads before the
/// epoch. Nothing can be promised of a clock reading.
#[verifier::external_body]
fn system_time_epoch_seconds() -> u64 {
    match std::time::SystemTime::now().duration_since(std::time::UNIX_EPOCH) {
        Ok(since_the_epoch) => since_the_epoch.as_secs(),
        Err(_) => 0,
    }
}

/// The wall clock's unix second count, truncated to the frame timestamp's 32
/// bits.
pub fn unix_now() -> u32 {
    let seconds = system_time_epoch_seconds();
    (seconds % 4294967296) as u32
}

/// The serialized payload of a command: variant tag, then the fields,
/// little-endian.
pub open spec fn spec_payload(c: CollectorCommand) -> Seq<u8> {
    match c {
        CollectorCommand::SubmitData {
            collector_id,
            total_memory,
            used_memory,
            average_cpu_bits,
        } => spec_u32_le(SUBMIT_DATA_TAG) + spec_u128_le(collector_id) + spec_u64_le(total_memory)
            + spec_u64_le(used_memory) + spec_u32_le(average_cpu_bits),
    }
}

/// The command a payload deserializes into, if it is exactly one well-formed
/// `SubmitData` serialization.
pub open spec fn spec_parse_payload(p: Seq<u8>) -> Option<CollectorCommand> {
    if p.len() == SUBMIT_DATA_PAYLOAD_LEN && spec_u32_le_val(p, 0) == SUBMIT_DATA_TAG {
        Some(
            CollectorCommand::SubmitData {
                collector_id: spec_u128_le_val(p, 4),
                total_memory: spec_u64_le_val(p, 20),
                used_memory: spec_u64_le_val(p, 28),
                average_cpu_bits: spec_u32_le_val(p, 36),
            },
        )
    } else {
        None
    }
}

/// The complete frame that carries command `c` stamped with `timestamp`.
pub open spec fn spec_frame(timestamp: u32, c: CollectorCommand) -> Seq<u8> {
    spec_u16_be(MAGIC_NUMBER) + spec_u16_be(VERSION_NUMBER) + spec_u32_be(timestamp) + spec_u32_be(
        spec_payload(c).len() as u32,
    ) + spec_payload(c) + spec_u32_be(crc32_of(spec_payload(c)))
}

/// What decoding a byte sequence yields: the frame's timestamp and command,
/// or the first failure in the order the checks are made — magic, version,
/// length, checksum, payload.
pub open spec fn spec_decode(bytes: Seq<u8>) -> Result<(u32, CollectorCommand), ProtocolError> {
    if bytes.len() < 12 {
        Err(ProtocolError::Truncated)
    } else if spec_u16_be_val(bytes, 0) != MAGIC_NUMBER {
        Err(ProtocolError::BadMagic)
    } else if spec_u16_be_val(bytes, 2) != VERSION_NUMBER {
        Err(ProtocolError::UnsupportedVersion)
    } else if bytes.len() < 16 + spec_u32_be_val(bytes, 8) {
        Err(ProtocolError::Truncated)
    } else {
        let n = spec_u32_be_val(bytes, 8) as int;
        let payload = bytes.subrange(12, 12 + n);
        if spec_u32_be_val(bytes, 12 + n) != crc32_of(payload) {
            Err(ProtocolError::ChecksumMismatch)
        } else {
            match spec_parse_payload(payload) {
                Some(c) => Ok((spec_u32_be_val(bytes, 4), c)),
                None => Err(ProtocolError::Malformed),
            }
        }
    }
}

/// Serializes a command into its payload bytes.
fn encode_payload(command: &CollectorCommand) -> (r: Vec<u8>)
    ensures
        r@ == spec_payload(*command),
{
    let mut out: Vec<u8> = Vec::new();
    match command {
        CollectorCommand::SubmitData {
            collector_id,
            total_memory,
            used_memory,
            average_cpu_bits,
        } => {
            put_u32_le(&mut out, SUBMIT_DATA_TAG);
            put_u128_le(&mut out, *collector_id);
            put_u64_le(&mut out, *total_memory);
            put_u64_le(&mut out, *used_memory);
            put_u32_le(&mut out, *average_cpu_bits);
        },
    }
    assert(out@ =~= spec_payload(*command));
    out
}

/// The payload of any command is exactly `SUBMIT_DATA_PAYLOAD_LEN` bytes.
pub proof fn lemma_payload_len(c: CollectorCommand)
    ensures
        spec_payload(c).len() == SUBMIT_DATA_PAYLOAD_LEN,
{
    match c {
        CollectorCommand::SubmitData { .. } => {},
    }
}

/// Deserializes payload bytes back into a command, if well-formed.
fn parse_payload(p: &[u8]) -> (r: Option<CollectorCommand>)
    ensures
        r == spec_parse_payload(p@),
{
    if p.len() != 40 {
        return None;
    }
    let tag = read_u32_le(p, 0);
    if tag != SUBMIT_DATA_TAG {
        return None;
    }
    Some(
        CollectorCommand::SubmitData {
            collector_id: read_u128_le(p, 4),
            total_memory: read_u64_le(p, 20),
            used_memory: read_u64_le(p, 28),
            average_cpu_bits: read_u32_le(p, 36),
        },
    )
}

/// Assembles the frame for `command` with the given timestamp. The whole
/// frame is pinned down byte for byte by `spec_frame`.
pub fn encode_at(command: &CollectorCommand, timestamp: u32) -> (r: Vec<u8>)
    ensures
        r@ == spec_frame(timestamp, *command),
{
    let payload = encode_payload(command);
    let crc = crc32(payload.as_slice());
    let payload_size = payload.len() as u32;

    let mut result: Vec<u8> = Vec::new();
    put_u16_be(&mut result, MAGIC_NUMBER);
    put_u16_be(&mut result, VERSION_NUMBER);
    put_u32_be(&mut result, timestamp);
    put_u32_be(&mut result, payload_size);
    append_bytes(&mut result, payload.as_slice());
    put_u32_be(&mut result, crc);

    proof {
        lemma_payload_len(*command);
        assert(result@ =~= spec_frame(timestamp, *command));
    }
    result
}

/// Encodes a command into a frame stamped with the wall clock's current
/// second count. The frame is `spec_frame` for some timestamp; which one
/// depends on the clock, of which nothing is promised.
pub fn encode(command: &CollectorCommand) -> (r: Vec<u8>)
    ensures
        exists|t: u32| r@ == spec_frame(t, *command),
{
    let timestamp = unix_now();
    let result = encode_at(command, timestamp);
    assert(result@ == spec_frame(timestamp, *command));
    result
}

/// Decodes one frame. Never panics and never reads out of bounds, whatever
/// the input: every length is checked before any slice is taken, and the
/// result is exactly `spec_decode` of the input. Bytes past the end the
/// header declares are ignored — on a stream they belong to the next frame.
pub fn decode(bytes: &[u8]) -> (r: Result<(u32, CollectorCommand), ProtocolError>)
    ensures
        r == spec_decode(bytes@),
{
    let n = bytes.len();
    if n < 12 {
        return Err(ProtocolError::Truncated);
    }
    let magic_number = read_u16_be(bytes, 0);
    if magic_number != MAGIC_NUMBER {
        return Err(ProtocolError::BadMagic);
    }
    let version_number = read_u16_be(bytes, 2);
    if version_number != VERSION_NUMBER {
        return Err(ProtocolError::UnsupportedVersion);
    }
    let timestamp = read_u32_be(bytes, 4);
    let payload_size = read_u32_be(bytes, 8);
    if n < 16 || n - 16 < payload_size as usize {
        return Err(ProtocolError::Truncated);
    }
    let payload_end: usize = 12 + payload_size as usize;
    let payload = slice_subrange(bytes, 12, payload_end);
    let crc = read_u32_be(bytes, payload_end);
    let computed_crc = crc32(payload);
    if crc != computed_crc {
        return Err(ProtocolError::ChecksumMismatch);
    }
    match parse_payload(payload) {
        Some(command) => Ok((timestamp, command)),
        None => Err(ProtocolError::Malformed),
    }
}

/// Deserializing the payload of a command gives the command back.
pub proof fn lemma_parse_payload_inverse(c: CollectorCommand)
    ensures
        spec_parse_payload(spec_payload(c)) == Some(c),
{
    lemma_payload_len(c);
    match c {
        CollectorCommand::SubmitData {
            collector_id,
            total_memory,
            used_memory,
            average_cpu_bits,
        } => {
            let p = spec_payload(c);
            assert(p.subrange(0, 4) =~= spec_u32_le(SUBMIT_DATA_TAG));
            lemma_u32_le_val_at(p, 0, SUBMIT_DATA_TAG);
            assert(p.subrange(4, 20) =~= spec_u128_le(collector_id));
            lemma_u128_le_val_at(p, 4, collector_id);
            assert(p.subrange(20, 28) =~= spec_u64_le(total_memory));
            lemma_u64_le_val_at(p, 20, total_memory);
            assert(p.subrange(28, 36) =~= spec_u64_le(used_memory));
            lemma_u64_le_val_at(p, 28, used_memory);
            assert(p.subrange(36, 40) =~= spec_u32_le(average_cpu_bits));
            lemma_u32_le_val_at(p, 36, average_cpu_bits);
        },
    }
}

/// Round trip: decoding the frame that carries command `c` stamped with
/// `timestamp` yields exactly that timestamp and that command.
pub proof fn lemma_round_trip(timestamp: u32, c: CollectorCommand)
    ensures
        spec_decode(spec_frame(timestamp, c)) == Ok::<(u32, CollectorCommand), ProtocolError>(
            (timestamp, c),
        ),
{
    lemma_payload_len(c);
    let p = spec_payload(c);
    let f = spec_frame(timestamp, c);
    assert(f.len() == 56);
    assert(f.subrange(0, 2) =~= spec_u16_be(MAGIC_NUMBER));
    lemma_u16_be_val_at(f, 0, MAGIC_NUMBER);
    assert(f.subrange(2, 4) =~= spec_u16_be(VERSION_NUMBER));
    lemma_u16_be_val_at(f, 2, VERSION_NUMBER);
    assert(f.subrange(4, 8) =~= spec_u32_be(timestamp));
    lemma_u32_be_val_at(f, 4, timestamp);
    assert(f.subrange(8, 12) =~= spec_u32_be(SUBMIT_DATA_PAYLOAD_LEN));
    lemma_u32_be_val_at(f, 8, SUBMIT_DATA_PAYLOAD_LEN);
    assert(f.subrange(12, 52) =~= p);
    assert(f.subrange(52, 56) =~= spec_u32_be(crc32_of(p)));
    lemma_u32_be_val_at(f, 52, crc32_of(p));
    lemma_parse_payload_inverse(c);
}

/// Magic gating: whatever else a buffer holds, if its first two bytes are not
/// the magic constant it is rejected as `BadMagic`, before any payload byte
/// is interpreted.
pub proof fn lemma_bad_magic_rejected(bytes: Seq<u8>)
    requires
        bytes.len() >= 12,
        spec_u16_be_val(bytes, 0) != MAGIC_NUMBER,
    ensures
        spec_decode(bytes) == Err::<(u32, CollectorCommand), ProtocolError>(
            ProtocolError::BadMagic,
        ),
{
}

/// Version gating: a buffer with the right magic but a version other than the
/// one this codec implements is rejected as `UnsupportedVersion`, before any
/// payload byte is interpreted.
pub proof fn lemma_bad_version_rejected(bytes: Seq<u8>)
    requires
        bytes.len() >= 12,
        spec_u16_be_val(bytes, 0) == MAGIC_NUMBER,
        spec_u16_be_val(bytes, 2) != VERSION_NUMBER,
    ensures
        spec_decode(bytes) == Err::<(u32, CollectorCommand), ProtocolError>(
            ProtocolError::UnsupportedVersion,
        ),
{
}

/// Truncated input: every strict prefix of a frame — every truncation length
/// from zero to one byte short of the whole — is rejected as `Truncated`.
pub proof fn lemma_truncation_rejected(timestamp: u32, c: CollectorCommand, n: int)
    requires
        0 <= n < spec_frame(timestamp, c).len(),
    ensures
        spec_decode(spec_frame(timestamp, c).subrange(0, n)) == Err::<
            (u32, CollectorCommand),
            ProtocolError,
        >(ProtocolError::Truncated),
{
    lemma_payload_len(c);
    let f = spec_frame(timestamp, c);
    let t = f.subrange(0, n);
    assert(f.len() == 56);
    if n >= 12 {
        assert(f.subrange(0, 2) =~= spec_u16_be(MAGIC_NUMBER));
        lemma_u16_be_val_at(f, 0, MAGIC_NUMBER);
        assert(f.subrange(2, 4) =~= spec_u16_be(VERSION_NUMBER));
        lemma_u16_be_val_at(f, 2, VERSION_NUMBER);
        assert(f.subrange(8, 12) =~= spec_u32_be(SUBMIT_DATA_PAYLOAD_LEN));
        lemma_u32_be_val_at(f, 8, SUBMIT_DATA_PAYLOAD_LEN);
        assert(spec_u16_be_val(t, 0) == spec_u16_be_val(f, 0));
        assert(spec_u16_be_val(t, 2) == spec_u16_be_val(f, 2));
        assert(spec_u32_be_val(t, 8) == spec_u32_be_val(f, 8));
        assert(t.len() < 16 + spec_u32_be_val(t, 8));
    }
}

} // verus!
