use collector_core::codec::{encode_at, FRAME_OVERHEAD, SUBMIT_DATA_PAYLOAD_LEN};
use collector_core::{decode, encode, CollectorCommand, ProtocolError};

fn sample_command() -> CollectorCommand {
    CollectorCommand::SubmitData {
        collector_id: 0xDEAD_BEEF_0123_4567_89AB_CDEF_0011_2233,
        total_memory: 16_000_000_000,
        used_memory: 7_500_000_000,
        average_cpu_bits: 42.25f32.to_bits(),
    }
}

#[test]
fn test_encode_decode() {
    let command = CollectorCommand::SubmitData {
        collector_id: 1234,
        total_memory: 100,
        used_memory: 50,
        average_cpu_bits: 0.5f32.to_bits(),
    };

    let encoded = encode(&command);
    let (timestamp, decoded) = decode(&encoded).unwrap();

    assert_eq!(decoded, command);
    assert!(timestamp > 0);
}

#[test]
fn round_trip_preserves_every_field() {
    let command = sample_command();
    let frame = encode_at(&command, 4242);
    assert_eq!(frame.len(), (FRAME_OVERHEAD + SUBMIT_DATA_PAYLOAD_LEN) as usize);
    let (timestamp, decoded) = decode(&frame).unwrap();
    assert_eq!(timestamp, 4242);
    assert_eq!(decoded, command);
}

#[test]
fn round_trip_timestamp_in_execution_window() {
    let before = collector_core::unix_now();
    let frame = encode(&sample_command());
    let after = collector_core::unix_now();
    let (timestamp, _) = decode(&frame).unwrap();
    assert!(before <= timestamp && timestamp <= after);
}

#[test]
fn any_single_bit_flip_in_payload_is_a_checksum_mismatch() {
    let frame = encode_at(&sample_command(), 1000);
    let payload_len = SUBMIT_DATA_PAYLOAD_LEN as usize;
    for byte in 12..12 + payload_len {
        for bit in 0..8 {
            let mut corrupted = frame.clone();
            corrupted[byte] ^= 1 << bit;
            let result = decode(&corrupted);
            assert_eq!(result, Err(ProtocolError::ChecksumMismatch));
        }
    }
}

#[test]
fn altered_checksum_field_is_a_checksum_mismatch() {
    let frame = encode_at(&sample_command(), 1000);
    let crc_offset = frame.len() - 4;
    for bit in 0..8 {
        let mut corrupted = frame.clone();
        corrupted[crc_offset] ^= 1 << bit;
        assert_eq!(decode(&corrupted), Err(ProtocolError::ChecksumMismatch));
    }
}

#[test]
fn altered_magic_is_rejected() {
    let mut frame = encode_at(&sample_command(), 1000);
    frame[0] ^= 0xFF;
    assert_eq!(decode(&frame), Err(ProtocolError::BadMagic));

    let mut frame = encode_at(&sample_command(), 1000);
    frame[1] = frame[1].wrapping_add(1);
    assert_eq!(decode(&frame), Err(ProtocolError::BadMagic));
}

#[test]
fn altered_version_is_rejected() {
    let mut frame = encode_at(&sample_command(), 1000);
    frame[3] = 2;
    assert_eq!(decode(&frame), Err(ProtocolError::UnsupportedVersion));
}

#[test]
fn every_truncation_is_rejected_without_panic() {
    let frame = encode_at(&sample_command(), 1000);
    for n in 0..frame.len() {
        let result = decode(&frame[..n]);
        assert_eq!(result, Err(ProtocolError::Truncated));
    }
}

#[test]
fn unknown_variant_tag_is_malformed() {
    // A frame whose header and checksum are sound but whose payload opens
    // with a variant tag this codec does not know.
    let mut payload = vec![0u8; 40];
    payload[0] = 7;
    let frame = frame_around(&payload);
    assert_eq!(decode(&frame), Err(ProtocolError::Malformed));
}

#[test]
fn wrong_payload_length_is_malformed() {
    // Sound header and checksum, but one byte short of a whole command.
    let payload = vec![0u8; 39];
    let frame = frame_around(&payload);
    assert_eq!(decode(&frame), Err(ProtocolError::Malformed));
}

#[test]
fn trailing_garbage_after_frame_is_ignored() {
    let command = sample_command();
    let mut frame = encode_at(&command, 77);
    frame.extend_from_slice(&[0xAA, 0xBB, 0xCC]);
    let (timestamp, decoded) = decode(&frame).unwrap();
    assert_eq!(timestamp, 77);
    assert_eq!(decoded, command);
}

#[test]
fn encoded_checksum_matches_crc32_of_payload() {
    // The checksum trailer must really be the CRC-32 that crc32fast computes
    // over the payload region, big-endian.
    let frame = encode_at(&sample_command(), 1000);
    let payload = &frame[12..frame.len() - 4];
    let expected = crc32fast::hash(payload).to_be_bytes();
    assert_eq!(&frame[frame.len() - 4..], &expected);
}

#[test]
fn header_fields_are_big_endian() {
    let frame = encode_at(&sample_command(), 0x0102_0304);
    assert_eq!(&frame[0..2], &1234u16.to_be_bytes());
    assert_eq!(&frame[2..4], &1u16.to_be_bytes());
    assert_eq!(&frame[4..8], &[1, 2, 3, 4]);
    assert_eq!(&frame[8..12], &40u32.to_be_bytes());
}

fn frame_around(payload: &[u8]) -> Vec<u8> {
    let mut frame = Vec::new();
    frame.extend_from_slice(&1234u16.to_be_bytes());
    frame.extend_from_slice(&1u16.to_be_bytes());
    frame.extend_from_slice(&1000u32.to_be_bytes());
    frame.extend_from_slice(&(payload.len() as u32).to_be_bytes());
    frame.extend_from_slice(payload);
    frame.extend_from_slice(&crc32fast::hash(payload).to_be_bytes());
    frame
}
