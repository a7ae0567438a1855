use collector_core::codec::encode_at;
use collector_core::ingest::FrameAssembler;
use collector_core::record::make_record;
use collector_core::{encode, CollectorCommand, ProtocolError};

#[test]
fn two_frames_in_one_read_decode_in_order() {
    let c1 = CollectorCommand::SubmitData {
        collector_id: 1,
        total_memory: 10,
        used_memory: 5,
        average_cpu_bits: 1.0f32.to_bits(),
    };
    let c2 = CollectorCommand::SubmitData {
        collector_id: 2,
        total_memory: 20,
        used_memory: 15,
        average_cpu_bits: 2.0f32.to_bits(),
    };
    let mut transmission = encode_at(&c1, 100);
    transmission.extend_from_slice(&encode_at(&c2, 200));

    let mut assembler = FrameAssembler::new();
    assembler.feed(&transmission);
    assert_eq!(assembler.next_frame(), Ok(Some((100, c1))));
    assert_eq!(assembler.next_frame(), Ok(Some((200, c2))));
    assert_eq!(assembler.next_frame(), Ok(None));
    assert_eq!(assembler.buffered(), 0);
}

#[test]
fn frame_split_across_reads_waits_for_the_rest() {
    let c = CollectorCommand::SubmitData {
        collector_id: 3,
        total_memory: 30,
        used_memory: 10,
        average_cpu_bits: 3.5f32.to_bits(),
    };
    let frame = encode_at(&c, 300);

    let mut assembler = FrameAssembler::new();
    assembler.feed(&frame[..5]);
    assert_eq!(assembler.next_frame(), Ok(None));
    assembler.feed(&frame[5..20]);
    assert_eq!(assembler.next_frame(), Ok(None));
    assembler.feed(&frame[20..]);
    assert_eq!(assembler.next_frame(), Ok(Some((300, c))));
    assert_eq!(assembler.next_frame(), Ok(None));
}

#[test]
fn corrupted_stream_is_fatal_to_the_connection() {
    let c = CollectorCommand::SubmitData {
        collector_id: 4,
        total_memory: 40,
        used_memory: 20,
        average_cpu_bits: 4.0f32.to_bits(),
    };
    let mut frame = encode_at(&c, 400);
    frame[20] ^= 0x10;

    let mut assembler = FrameAssembler::new();
    assembler.feed(&frame);
    assert_eq!(assembler.next_frame(), Err(ProtocolError::ChecksumMismatch));

    let mut bad_magic = encode_at(&c, 400);
    bad_magic[0] = 0;
    let mut assembler = FrameAssembler::new();
    assembler.feed(&bad_magic);
    assert_eq!(assembler.next_frame(), Err(ProtocolError::BadMagic));
}

#[test]
fn end_to_end_sample_reaches_the_store_unchanged() {
    // Agent side: one sample, encoded under the agent's identity.
    let command = CollectorCommand::SubmitData {
        collector_id: 0x1,
        total_memory: 8_000_000_000,
        used_memory: 4_000_000_000,
        average_cpu_bits: 37.5f32.to_bits(),
    };
    let frame = encode(&command);

    // Server side: the connection's assembler receives the transmission,
    // decodes one frame, and builds the record handed to the store.
    let mut assembler = FrameAssembler::new();
    assembler.feed(&frame);
    let (timestamp, decoded) = assembler.next_frame().unwrap().unwrap();
    assert_eq!(decoded, command);

    let received_at = collector_core::unix_now();
    assert!(received_at >= timestamp);
    let record = make_record(received_at, &decoded);
    assert_eq!(record.collector_id, "00000000-0000-0000-0000-000000000001");
    assert_eq!(record.received, received_at);
    assert_eq!(record.total_memory, 8_000_000_000);
    assert_eq!(record.used_memory, 4_000_000_000);
    assert_eq!(f32::from_bits(record.average_cpu_bits), 37.5);
}

#[test]
fn record_identity_text_matches_the_uuid_crate() {
    // The store keys records by the hyphenated text the uuid crate renders;
    // the record must carry exactly that text.
    let id: u128 = 0xDEAD_BEEF_0123_4567_89AB_CDEF_0011_2233;
    let command = CollectorCommand::SubmitData {
        collector_id: id,
        total_memory: 1,
        used_memory: 1,
        average_cpu_bits: 0,
    };
    let record = make_record(7, &command);
    assert_eq!(record.collector_id, uuid::Uuid::from_u128(id).to_string());
    assert_eq!(record.collector_id, "deadbeef-0123-4567-89ab-cdef00112233");
}
