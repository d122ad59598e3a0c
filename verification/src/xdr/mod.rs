//! The binary wire format: big-endian integers, opaque data padded to four
//! bytes, optional values and tagged unions.

pub mod array;
pub mod codec;
pub mod envelope;
pub mod opaque;
pub mod operation;
pub mod transaction;
pub mod types;
