//! What the server hands to the persistent store for one decoded command,
//! and the shapes the read API serves from it.

use crate::codec::CollectorCommand;
use vstd::prelude::*;

verus! {

/// The lowercase hexadecimal digit of a value below sixteen.
pub open spec fn spec_hex_digit(n: int) -> char {
    if n == 0 {
        '0'
    } else if n == 1 {
        '1'
    } else if n == 2 {
        '2'
    } else if n == 3 {
        '3'
    } else if n == 4 {
        '4'
    } else if n == 5 {
        '5'
    } else if n == 6 {
        '6'
    } else if n == 7 {
        '7'
    } else if n == 8 {
        '8'
    } else if n == 9 {
        '9'
    } else if n == 10 {
        'a'
    } else if n == 11 {
        'b'
    } else if n == 12 {
        'c'
    } else if n == 13 {
        'd'
    } else if n == 14 {
        'e'
    } else {
        'f'
    }
}

/// The `k`-th hexadecimal digit of a 128-bit value, counted from the most
/// significant of its thirty-two.
pub open spec fn spec_nibble(id: u128, k: int) -> int {
    ((id >> (((31 - k) * 4) as u128)) & 0xf) as int
}

/// The thirty-two hex digits of a 128-bit value, most significant first.
pub open spec fn spec_uuid_hex(id: u128) -> Seq<char> {
    Seq::new(32, |k: int| spec_hex_digit(spec_nibble(id, k)))
}

/// The canonical hyphenated lowercase text of a 128-bit identity: its hex
/// digits in groups of 8-4-4-4-12, dashes between the groups.
pub open spec fn spec_uuid_text(id: u128) -> Seq<char> {
    spec_uuid_hex(id).subrange(0, 8) + seq!['-'] + spec_uuid_hex(id).subrange(8, 12) + seq!['-']
        + spec_uuid_hex(id).subrange(12, 16) + seq!['-'] + spec_uuid_hex(id).subrange(16, 20)
        + seq!['-'] + spec_uuid_hex(id).subrange(20, 32)
}

/// Relies on uuid::Uuid::from_u128 and the uuid crate's Display: the
/// hyphenated lowercase text of the value's thirty-two hex digits, most
/// significant first — a function of the value alone.
#[verifier::external_body]
fn uuid_hyphenated(id: u128) -> (r: String)
    ensures
        r@ == spec_uuid_text(id),
{
    uuid::Uuid::from_u128(id).to_string()
}

/// One stored row: the decoded fields of a command, the source identity in
/// its stored text form, and the server-assigned receipt time.
pub struct StoredRecord {
    /// Source identity, as the hyphenated text the store keys records by.
    pub collector_id: String,
    /// Server-assigned receipt time, unix seconds.
    pub received: u32,
    pub total_memory: u64,
    pub used_memory: u64,
    /// IEEE-754 bit pattern of the reported average CPU percentage.
    pub average_cpu_bits: u32,
}

/// Builds the record the store is asked to insert for one decoded command,
/// stamped with the server's receipt time: every payload field carried over
/// unchanged, the identity rendered as its hyphenated text.
pub fn make_record(received_at: u32, command: &CollectorCommand) -> (r: StoredRecord)
    ensures
        match *command {
            CollectorCommand::SubmitData {
                collector_id,
                total_memory,
                used_memory,
                average_cpu_bits,
            } => {
                &&& r.collector_id@ == spec_uuid_text(collector_id)
                &&& r.received == received_at
                &&& r.total_memory == total_memory
                &&& r.used_memory == used_memory
                &&& r.average_cpu_bits == average_cpu_bits
            },
        },
{
    match command {
        CollectorCommand::SubmitData {
            collector_id,
            total_memory,
            used_memory,
            average_cpu_bits,
        } => StoredRecord {
            collector_id: uuid_hyphenated(*collector_id),
            received: received_at,
            total_memory: *total_memory,
            used_memory: *used_memory,
            average_cpu_bits: *average_cpu_bits,
        },
    }
}

/// One line of the read API's source listing: a distinct source identity and
/// the receipt time of its most recent record.
pub struct Collector {
    pub id: i32,
    pub collector_id: String,
    pub last_seen: i64,
}

} // verus!
