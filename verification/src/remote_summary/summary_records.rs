//! The records that Summary materialization owns, as plain values, and the single call that
//! parses one record body with the `mcap` crate.
use crate::mcap_opcodes::{
    OP_ATTACHMENT_INDEX, OP_CHANNEL, OP_CHUNK_INDEX, OP_HEADER, OP_METADATA_INDEX, OP_SCHEMA,
    OP_STATISTICS,
};
use mcap::records::{Channel, ChunkIndex, Header, Record, SchemaHeader};
use vstd::prelude::*;

verus! {

/// The `mcap` crate's parse error; it is carried, never inspected.
#[verifier::external_type_specification]
#[verifier::external_body]
pub struct ExMcapError(mcap::McapError);

/// A parsed Header record.
#[derive(Debug)]
pub struct HeaderRecordV1 {
    pub profile: String,
    pub library: String,
}

/// A parsed Schema record: its id, name, encoding and definition bytes.
#[derive(Debug)]
pub struct SchemaRecordV1 {
    pub id: u16,
    pub name: String,
    pub encoding: String,
    pub data: Vec<u8>,
}

/// A parsed Channel record; `metadata` lists the metadata entries in ascending key order.
#[derive(Debug)]
pub struct ChannelRecordV1 {
    pub id: u16,
    pub schema_id: u16,
    pub topic: String,
    pub message_encoding: String,
    pub metadata: Vec<(String, String)>,
}

/// A parsed Chunk Index record; `message_index_offsets` maps channel ids to offsets in
/// ascending channel-id order.
#[derive(Debug)]
pub struct ChunkIndexRecordV1 {
    pub message_start_time: u64,
    pub message_end_time: u64,
    pub chunk_start_offset: u64,
    pub chunk_length: u64,
    pub message_index_offsets: Vec<(u16, u64)>,
    pub message_index_length: u64,
    pub compression: String,
    pub compressed_size: u64,
    pub uncompressed_size: u64,
}

/// One record as parsed by `mcap::parse_record`.
///
/// Header, Schema, Channel and Chunk Index records keep every field. The other known Summary
/// records (Attachment Index, Statistics, Metadata Index) are parsed for validity and keep only
/// their opcode: nothing in this library reads their fields.
#[derive(Debug)]
pub enum ParsedMcapRecordV1 {
    Header(HeaderRecordV1),
    Schema(SchemaRecordV1),
    Channel(ChannelRecordV1),
    ChunkIndex(ChunkIndexRecordV1),
    Other(u8),
}

/// One source-ordered bounded Summary record. Unknown bodies are never parsed or copied.
#[derive(Debug)]
pub enum BoundedSummaryRecord {
    Known(ParsedMcapRecordV1),
    Unknown { opcode: u8, source_ordinal: u64 },
}

impl BoundedSummaryRecord {
    pub open spec fn spec_opcode(&self) -> u8 {
        match self {
            BoundedSummaryRecord::Known(ParsedMcapRecordV1::Header(_)) => OP_HEADER,
            BoundedSummaryRecord::Known(ParsedMcapRecordV1::Schema(_)) => OP_SCHEMA,
            BoundedSummaryRecord::Known(ParsedMcapRecordV1::Channel(_)) => OP_CHANNEL,
            BoundedSummaryRecord::Known(ParsedMcapRecordV1::ChunkIndex(_)) => OP_CHUNK_INDEX,
            BoundedSummaryRecord::Known(ParsedMcapRecordV1::Other(opcode)) => *opcode,
            BoundedSummaryRecord::Unknown { opcode, .. } => *opcode,
        }
    }

    pub fn opcode(&self) -> (opcode: u8)
        ensures
            opcode == self.spec_opcode(),
    {
        match self {
            BoundedSummaryRecord::Known(ParsedMcapRecordV1::Header(_)) => OP_HEADER,
            BoundedSummaryRecord::Known(ParsedMcapRecordV1::Schema(_)) => OP_SCHEMA,
            BoundedSummaryRecord::Known(ParsedMcapRecordV1::Channel(_)) => OP_CHANNEL,
            BoundedSummaryRecord::Known(ParsedMcapRecordV1::ChunkIndex(_)) => OP_CHUNK_INDEX,
            BoundedSummaryRecord::Known(ParsedMcapRecordV1::Other(opcode)) => *opcode,
            BoundedSummaryRecord::Unknown { opcode, .. } => *opcode,
        }
    }
}

/// The opcodes whose bodies this library hands to `mcap::parse_record`.
pub open spec fn is_parsed_opcode(opcode: u8) -> bool {
    opcode == OP_HEADER || opcode == OP_SCHEMA || opcode == OP_CHANNEL || opcode == OP_CHUNK_INDEX
        || opcode == OP_ATTACHMENT_INDEX || opcode == OP_STATISTICS || opcode == OP_METADATA_INDEX
}

/// What `mcap::parse_record` makes of the body `body` of a record with opcode `opcode`, in
/// the form above; `None` where it returns an error.
pub uninterp spec fn mcap_parsed_record(opcode: u8, body: Seq<u8>) -> Option<ParsedMcapRecordV1>;

/// Calls `mcap::parse_record(opcode, body)`, which decodes the record body of one of the
/// known opcodes (and ignores bytes after the fields). Claimed: the outcome depends on the
/// opcode and the body bytes alone, success exactly where the name gives a record, and the
/// record converted field by field (maps become their entries in ascending key order).
#[verifier::external_body]
pub(crate) fn parse_record(opcode: u8, body: &[u8]) -> (parsed: Result<
    ParsedMcapRecordV1,
    mcap::McapError,
>)
    requires
        is_parsed_opcode(opcode),
    ensures
        match mcap_parsed_record(opcode, body@) {
            Some(record) => parsed matches Ok(r) && r == record,
            None => parsed is Err,
        },
{
    Ok(match mcap::parse_record(opcode, body)? {
        Record::Header(Header { profile, library }) => ParsedMcapRecordV1::Header(HeaderRecordV1 { profile, library }),
        Record::Schema { header: SchemaHeader { id, name, encoding }, data } => ParsedMcapRecordV1::Schema(SchemaRecordV1 { id, name, encoding, data: data.into_owned() }),
        Record::Channel(Channel { id, schema_id, topic, message_encoding, metadata }) => ParsedMcapRecordV1::Channel(ChannelRecordV1 { id, schema_id, topic, message_encoding, metadata: metadata.into_iter().collect() }),
        Record::ChunkIndex(ChunkIndex { message_start_time, message_end_time, chunk_start_offset, chunk_length, message_index_offsets, message_index_length, compression, compressed_size, uncompressed_size }) => ParsedMcapRecordV1::ChunkIndex(ChunkIndexRecordV1 { message_start_time, message_end_time, chunk_start_offset, chunk_length, message_index_offsets: message_index_offsets.into_iter().collect(), message_index_length, compression, compressed_size, uncompressed_size }),
        _ => ParsedMcapRecordV1::Other(opcode),
    })
}

} // verus!
