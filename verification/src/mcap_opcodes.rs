//! MCAP record opcodes of the format specification.
use vstd::prelude::*;

verus! {

pub const OP_HEADER: u8 = 0x01;
pub const OP_FOOTER: u8 = 0x02;
pub const OP_SCHEMA: u8 = 0x03;
pub const OP_CHANNEL: u8 = 0x04;
pub const OP_MESSAGE: u8 = 0x05;
pub const OP_CHUNK: u8 = 0x06;
pub const OP_MESSAGE_INDEX: u8 = 0x07;
pub const OP_CHUNK_INDEX: u8 = 0x08;
pub const OP_ATTACHMENT: u8 = 0x09;
pub const OP_ATTACHMENT_INDEX: u8 = 0x0A;
pub const OP_STATISTICS: u8 = 0x0B;
pub const OP_METADATA: u8 = 0x0C;
pub const OP_METADATA_INDEX: u8 = 0x0D;
pub const OP_SUMMARY_OFFSET: u8 = 0x0E;
pub const OP_DATA_END: u8 = 0x0F;

/// Length of the record envelope: one opcode byte and a little-endian `u64` body length.
pub const RECORD_ENVELOPE_LEN: usize = 9;

/// The little-endian `u64` stored at `bytes[at..at + 8]`.
pub open spec fn le_u64_at(bytes: Seq<u8>, at: int) -> u64 {
    (bytes[at] as u64) | ((bytes[at + 1] as u64) << 8u64) | ((bytes[at + 2] as u64) << 16u64)
        | ((bytes[at + 3] as u64) << 24u64) | ((bytes[at + 4] as u64) << 32u64) | ((bytes[at
        + 5] as u64) << 40u64) | ((bytes[at + 6] as u64) << 48u64) | ((bytes[at + 7] as u64)
        << 56u64)
}

/// The little-endian `u32` stored at `bytes[at..at + 4]`.
pub open spec fn le_u32_at(bytes: Seq<u8>, at: int) -> u32 {
    (bytes[at] as u32) | ((bytes[at + 1] as u32) << 8u32) | ((bytes[at + 2] as u32) << 16u32)
        | ((bytes[at + 3] as u32) << 24u32)
}

/// The little-endian `u16` stored at `bytes[at..at + 2]`.
pub open spec fn le_u16_at(bytes: Seq<u8>, at: int) -> u16 {
    (bytes[at] as u16) | ((bytes[at + 1] as u16) << 8u16)
}

/// Reads the little-endian `u64` at `bytes[at..at + 8]`.
pub fn read_le_u64(bytes: &[u8], at: usize) -> (value: u64)
    requires
        at + 8 <= bytes@.len(),
    ensures
        value == le_u64_at(bytes@, at as int),
{
    (bytes[at] as u64) | ((bytes[at + 1] as u64) << 8u64) | ((bytes[at + 2] as u64) << 16u64)
        | ((bytes[at + 3] as u64) << 24u64) | ((bytes[at + 4] as u64) << 32u64) | ((bytes[at
        + 5] as u64) << 40u64) | ((bytes[at + 6] as u64) << 48u64) | ((bytes[at + 7] as u64)
        << 56u64)
}

/// Reads the little-endian `u32` at `bytes[at..at + 4]`.
pub fn read_le_u32(bytes: &[u8], at: usize) -> (value: u32)
    requires
        at + 4 <= bytes@.len(),
    ensures
        value == le_u32_at(bytes@, at as int),
{
    (bytes[at] as u32) | ((bytes[at + 1] as u32) << 8u32) | ((bytes[at + 2] as u32) << 16u32)
        | ((bytes[at + 3] as u32) << 24u32)
}

/// Reads the little-endian `u16` at `bytes[at..at + 2]`.
pub fn read_le_u16(bytes: &[u8], at: usize) -> (value: u16)
    requires
        at + 2 <= bytes@.len(),
    ensures
        value == le_u16_at(bytes@, at as int),
{
    (bytes[at] as u16) | ((bytes[at + 1] as u16) << 8u16)
}

} // verus!
