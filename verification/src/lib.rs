pub mod bytes;
pub mod codec;
pub mod identity;
pub mod ingest;
pub mod record;
pub mod queue;
pub mod sampler;

pub use codec::{decode, encode, unix_now, CollectorCommand, ProtocolError};
pub use queue::{CollectorError, DeliveryQueue};
pub use record::{Collector, StoredRecord};

use vstd::prelude::*;

verus! {

/// Constant that opens every wire frame; a frame with any other value in its
/// first two bytes is rejected before its payload is looked at.
pub const MAGIC_NUMBER: u16 = 1234;

/// Protocol version this codec implements; frames carrying any other version
/// are rejected.
pub const VERSION_NUMBER: u16 = 1;

} // verus!
