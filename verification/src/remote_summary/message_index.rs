//! Validation of one chunk's MessageIndex region against its ChunkIndex descriptor.
//!
//! A region is the byte run that holds the MessageIndex records of one chunk. The preflight
//! pass counts records and entries and checks that every record sits at the absolute offset that
//! the descriptor names for its channel; the materialization pass then decodes the same records.
use crate::mcap_opcodes;
use crate::mcap_opcodes::{OP_MESSAGE_INDEX, RECORD_ENVELOPE_LEN};
use crate::remote_summary::materialization::{
    message_index_preflight, preflight_message_index_records, MessageIndexPreflightLimits,
    SummaryMaterializationError,
};
use crate::remote_summary::physical_regions::{
    canonical_descriptor, ByteRange, IndexConsistencyViolation, ValidatedPhysicalRegions,
};
use crate::remote_summary::summary_records::ChunkIndexRecordV1;
use vstd::prelude::*;

verus! {

/// Bytes of the channel id and the entry byte count that open a MessageIndex body.
pub const MESSAGE_INDEX_PREFIX_LEN: usize = 6;

/// Bytes of one MessageIndex entry: log time and offset.
pub const MESSAGE_INDEX_ENTRY_LEN: usize = 16;

/// Limits of one MessageIndex region.
#[derive(Clone, Copy, Debug)]
pub struct MessageIndexRegionLimits {
    pub max_records_per_region: u64,
    pub nested: MessageIndexPreflightLimits,
    pub max_result_retained_bytes: u64,
}

impl MessageIndexRegionLimits {
    pub fn for_test(
        max_records_per_region: u64,
        max_entries_per_record: u64,
        max_aggregate_entries: u64,
        max_result_retained_bytes: u64,
    ) -> (limits: Self)
        ensures
            limits.max_records_per_region == max_records_per_region,
            limits.nested == (MessageIndexPreflightLimits {
                max_entries_per_record,
                max_aggregate_entries,
            }),
            limits.max_result_retained_bytes == max_result_retained_bytes,
    {
        MessageIndexRegionLimits {
            max_records_per_region,
            nested: MessageIndexPreflightLimits::for_test(
                max_entries_per_record,
                max_aggregate_entries,
            ),
            max_result_retained_bytes,
        }
    }
}

/// Record and entry counts of a region that passed preflight, with the bytes its result retains.
#[derive(Clone, Copy, Debug, PartialEq, Eq, Structural)]
pub struct MessageIndexRegionCensus {
    pub records: u64,
    pub entries: u64,
    pub retained_bytes: u64,
}

/// One decoded MessageIndex entry.
#[derive(Clone, Copy, Debug, PartialEq, Eq, Structural)]
pub struct MessageIndexEntryV1 {
    pub log_time: u64,
    pub offset: u64,
}

/// The decoded MessageIndex record of one channel.
#[derive(Debug)]
pub struct ValidatedChannelMessageIndex {
    pub channel_id: u16,
    pub absolute_record_start: u64,
    pub entries: Vec<MessageIndexEntryV1>,
}

/// The envelope of one record of a region: its opcode and its byte positions.
#[derive(Clone, Copy, Debug, PartialEq, Eq, Structural)]
pub struct RecordEnvelope {
    pub opcode: u8,
    pub start: usize,
    pub body_start: usize,
    pub end: usize,
}

/// The envelope of the record that starts at `start` in a region.
pub open spec fn region_envelope_at(bytes: Seq<u8>, start: int) -> Result<
    RecordEnvelope,
    IndexConsistencyViolation,
> {
    if start + RECORD_ENVELOPE_LEN > usize::MAX {
        Err(IndexConsistencyViolation::ArithmeticOverflow)
    } else if start + RECORD_ENVELOPE_LEN > bytes.len() {
        Err(IndexConsistencyViolation::MessageIndexRecordEnvelopeInvalid)
    } else {
        let body_start = start + RECORD_ENVELOPE_LEN;
        let end = body_start + mcap_opcodes::le_u64_at(bytes, start + 1);
        if end > usize::MAX || end > bytes.len() {
            Err(IndexConsistencyViolation::MessageIndexRecordOutOfBounds)
        } else {
            Ok(
                RecordEnvelope {
                    opcode: bytes[start],
                    start: start as usize,
                    body_start: body_start as usize,
                    end: end as usize,
                },
            )
        }
    }
}

/// Reads and bounds-checks the envelope of the region record that starts at `start`.
pub fn next_envelope(bytes: &[u8], start: usize) -> (envelope: Result<
    RecordEnvelope,
    IndexConsistencyViolation,
>)
    ensures
        envelope == region_envelope_at(bytes@, start as int),
{
    if start > usize::MAX - RECORD_ENVELOPE_LEN {
        return Err(IndexConsistencyViolation::ArithmeticOverflow);
    }
    let body_start = start + RECORD_ENVELOPE_LEN;
    if body_start > bytes.len() {
        return Err(IndexConsistencyViolation::MessageIndexRecordEnvelopeInvalid);
    }
    let body_len = mcap_opcodes::read_le_u64(bytes, start + 1);
    if body_len > (bytes.len() - body_start) as u64 {
        return Err(IndexConsistencyViolation::MessageIndexRecordOutOfBounds);
    }
    Ok(
        RecordEnvelope {
            opcode: bytes[start],
            start,
            body_start,
            end: body_start + body_len as usize,
        },
    )
}

/// The region violation that stands for a failure of the nested MessageIndex preflight.
pub open spec fn nested_violation(error: SummaryMaterializationError) -> IndexConsistencyViolation {
    match error {
        SummaryMaterializationError::ArithmeticOverflow => IndexConsistencyViolation::ArithmeticOverflow,
        SummaryMaterializationError::MessageIndexEntryLimitExceeded => {
            IndexConsistencyViolation::MessageIndexEntryLimitExceeded
        },
        SummaryMaterializationError::MessageIndexAggregateEntryLimitExceeded => {
            IndexConsistencyViolation::MessageIndexAggregateEntryLimitExceeded
        },
        _ => IndexConsistencyViolation::MessageIndexRecordBodyInvalid,
    }
}

/// Maps a nested MessageIndex preflight failure to the region violation it stands for.
pub fn map_nested_error(error: SummaryMaterializationError) -> (violation: IndexConsistencyViolation)
    ensures
        violation == nested_violation(error),
{
    match error {
        SummaryMaterializationError::ArithmeticOverflow => IndexConsistencyViolation::ArithmeticOverflow,
        SummaryMaterializationError::MessageIndexEntryLimitExceeded => {
            IndexConsistencyViolation::MessageIndexEntryLimitExceeded
        },
        SummaryMaterializationError::MessageIndexAggregateEntryLimitExceeded => {
            IndexConsistencyViolation::MessageIndexAggregateEntryLimitExceeded
        },
        SummaryMaterializationError::RecordStructureInvalid
        | SummaryMaterializationError::RecordTrailingBytes
        | SummaryMaterializationError::NestedEncodedWidthInvalid
        | SummaryMaterializationError::StringInvalidUtf8
        | SummaryMaterializationError::ChannelMetadataEntryLimitExceeded
        | SummaryMaterializationError::ChannelMetadataKeyBytesLimitExceeded
        | SummaryMaterializationError::ChannelMetadataValueBytesLimitExceeded
        | SummaryMaterializationError::ChunkIndexMessageIndexOffsetLimitExceeded
        | SummaryMaterializationError::StatisticsChannelMessageCountLimitExceeded
        | SummaryMaterializationError::NestedRetainedBytesLimitExceeded
        | SummaryMaterializationError::DuplicateNestedKey
        | SummaryMaterializationError::PreparedCensusMismatch
        | SummaryMaterializationError::PreparedRecordRejected
        | SummaryMaterializationError::MaterializationReservationLimitExceeded => {
            IndexConsistencyViolation::MessageIndexRecordBodyInvalid
        },
    }
}

/// `left + right`, or the arithmetic violation.
pub fn checked_add(left: u64, right: u64) -> (sum: Result<u64, IndexConsistencyViolation>)
    ensures
        left + right <= u64::MAX ==> sum == Ok::<u64, IndexConsistencyViolation>(
            (left + right) as u64,
        ),
        left + right > u64::MAX ==> sum == Err::<u64, IndexConsistencyViolation>(
            IndexConsistencyViolation::ArithmeticOverflow,
        ),
{
    match left.checked_add(right) {
        Some(sum) => Ok(sum),
        None => Err(IndexConsistencyViolation::ArithmeticOverflow),
    }
}

/// `left * right`, or the arithmetic violation.
pub fn checked_mul(left: u64, right: u64) -> (product: Result<u64, IndexConsistencyViolation>)
    ensures
        left * right <= u64::MAX ==> product == Ok::<u64, IndexConsistencyViolation>(
            (left * right) as u64,
        ),
        left * right > u64::MAX ==> product == Err::<u64, IndexConsistencyViolation>(
            IndexConsistencyViolation::ArithmeticOverflow,
        ),
{
    match left.checked_mul(right) {
        Some(product) => Ok(product),
        None => Err(IndexConsistencyViolation::ArithmeticOverflow),
    }
}

/// The bytes that a decoded region of `records` records and `entries` entries keeps, or the
/// arithmetic violation where that count does not fit in a `u64`.
pub open spec fn retained_bytes(records: u64, entries: u64) -> Result<u64, IndexConsistencyViolation> {
    let record_bytes = records * vstd::layout::size_of::<ValidatedChannelMessageIndex>();
    let entry_bytes = entries * vstd::layout::size_of::<MessageIndexEntryV1>();
    if record_bytes > u64::MAX || entry_bytes > u64::MAX || record_bytes + entry_bytes > u64::MAX {
        Err(IndexConsistencyViolation::ArithmeticOverflow)
    } else {
        Ok((record_bytes + entry_bytes) as u64)
    }
}

/// Counts the bytes that a decoded region of `records` records and `entries` entries keeps.
pub fn result_retained_bytes(records: u64, entries: u64) -> (bytes: Result<
    u64,
    IndexConsistencyViolation,
>)
    ensures
        bytes == retained_bytes(records, entries),
{
    let record_size = std::mem::size_of::<ValidatedChannelMessageIndex>() as u64;
    let entry_size = std::mem::size_of::<MessageIndexEntryV1>() as u64;
    let record_bytes = checked_mul(records, record_size)?;
    let entry_bytes = checked_mul(entries, entry_size)?;
    checked_add(record_bytes, entry_bytes)
}

/// The offset that the descriptor's map gives channel `channel_id`: the first entry with that
/// key.
pub open spec fn offset_for(offsets: Seq<(u16, u64)>, channel_id: u16) -> Option<u64>
    decreases offsets.len(),
{
    if offsets.len() == 0 {
        None
    } else if offsets[0].0 == channel_id {
        Some(offsets[0].1)
    } else {
        offset_for(offsets.drop_first(), channel_id)
    }
}

/// Looks up the offset of channel `channel_id` in the descriptor's map entries.
pub fn lookup_offset(offsets: &[(u16, u64)], channel_id: u16) -> (offset: Option<u64>)
    ensures
        offset == offset_for(offsets@, channel_id),
{
    let mut k: usize = 0;
    assert(offsets@.subrange(0, offsets@.len() as int) =~= offsets@);
    while k < offsets.len()
        invariant
            k <= offsets@.len(),
            offset_for(offsets@, channel_id) == offset_for(offsets@.subrange(k as int, offsets@.len() as int), channel_id),
        decreases offsets@.len() - k,
    {
        assert(offsets@.subrange(k as int, offsets@.len() as int).drop_first() =~= offsets@.subrange(k + 1, offsets@.len() as int));
        if offsets[k].0 == channel_id {
            return Some(offsets[k].1);
        }
        k = k + 1;
    }
    None
}

/// The record and aggregate entry counts after scanning the region records from `cursor` on,
/// starting from `records` records and `entries` entries, or the first violation.
pub open spec fn region_scan(
    bytes: Seq<u8>,
    absolute_start: u64,
    offsets: Seq<(u16, u64)>,
    limits: MessageIndexRegionLimits,
    cursor: int,
    records: u64,
    entries: u64,
) -> Result<(u64, u64), IndexConsistencyViolation>
    decreases bytes.len() - cursor,
{
    if cursor < 0 || cursor >= bytes.len() {
        Ok((records, entries))
    } else {
        match region_envelope_at(bytes, cursor) {
            Err(violation) => Err(violation),
            Ok(envelope) => if records + 1 > u64::MAX {
                Err(IndexConsistencyViolation::ArithmeticOverflow)
            } else if records + 1 > limits.max_records_per_region {
                Err(IndexConsistencyViolation::MessageIndexRecordLimitExceeded)
            } else if envelope.opcode != OP_MESSAGE_INDEX {
                Err(IndexConsistencyViolation::MessageIndexRecordWrongOpcode)
            } else {
                match message_index_preflight(
                    bytes.subrange(envelope.body_start as int, envelope.end as int),
                    entries,
                    limits.nested,
                ) {
                    Err(error) => Err(nested_violation(error)),
                    Ok(preflight) => if absolute_start + cursor > u64::MAX {
                        Err(IndexConsistencyViolation::ArithmeticOverflow)
                    } else if offset_for(offsets, preflight.channel_id) != Some(
                        (absolute_start + cursor) as u64,
                    ) {
                        Err(IndexConsistencyViolation::MessageIndexMappingMismatch)
                    } else {
                        region_scan(
                            bytes,
                            absolute_start,
                            offsets,
                            limits,
                            envelope.end as int,
                            (records + 1) as u64,
                            preflight.aggregate_entries,
                        )
                    },
                }
            },
        }
    }
}

/// The census of a region whose first byte lies at `absolute_start` in the file and whose
/// descriptor maps each channel to the absolute start of its MessageIndex record (`offsets`
/// lists the map's entries).
pub open spec fn region_preflight(
    bytes: Seq<u8>,
    absolute_start: u64,
    offsets: Seq<(u16, u64)>,
    limits: MessageIndexRegionLimits,
) -> Result<MessageIndexRegionCensus, IndexConsistencyViolation> {
    match region_scan(bytes, absolute_start, offsets, limits, 0, 0, 0) {
        Err(violation) => Err(violation),
        Ok((records, entries)) => if offsets.len() != records {
            Err(IndexConsistencyViolation::MessageIndexMappingMismatch)
        } else {
            match retained_bytes(records, entries) {
                Err(violation) => Err(violation),
                Ok(retained) => if retained > limits.max_result_retained_bytes {
                    Err(IndexConsistencyViolation::MessageIndexResultRetainedByteLimitExceeded)
                } else {
                    Ok(MessageIndexRegionCensus { records, entries, retained_bytes: retained })
                },
            }
        },
    }
}

/// Counts the records and entries of a region and checks each record against the descriptor's
/// channel-to-offset map, with no allocation.
pub fn preflight_region(
    bytes: &[u8],
    absolute_start: u64,
    message_index_offsets: &[(u16, u64)],
    limits: &MessageIndexRegionLimits,
) -> (census: Result<MessageIndexRegionCensus, IndexConsistencyViolation>)
    ensures
        census == region_preflight(bytes@, absolute_start, message_index_offsets@, *limits),
{
    let mut cursor: usize = 0;
    let mut records: u64 = 0;
    let mut entries: u64 = 0;
    while cursor < bytes.len()
        invariant
            cursor <= bytes@.len(),
            region_scan(bytes@, absolute_start, message_index_offsets@, *limits, 0, 0, 0)
                == region_scan(
                bytes@,
                absolute_start,
                message_index_offsets@,
                *limits,
                cursor as int,
                records,
                entries,
            ),
        decreases bytes@.len() - cursor,
    {
        let envelope = next_envelope(bytes, cursor)?;
        records = checked_add(records, 1)?;
        if records > limits.max_records_per_region {
            return Err(IndexConsistencyViolation::MessageIndexRecordLimitExceeded);
        }
        if envelope.opcode != OP_MESSAGE_INDEX {
            return Err(IndexConsistencyViolation::MessageIndexRecordWrongOpcode);
        }
        let body = &bytes[envelope.body_start..envelope.end];
        let preflight = match preflight_message_index_records(body, entries, &limits.nested) {
            Ok(preflight) => preflight,
            Err(error) => return Err(map_nested_error(error)),
        };
        let record_start = checked_add(absolute_start, cursor as u64)?;
        if lookup_offset(message_index_offsets, preflight.channel_id) != Some(record_start) {
            return Err(IndexConsistencyViolation::MessageIndexMappingMismatch);
        }
        entries = preflight.aggregate_entries;
        cursor = envelope.end;
    }
    let descriptor_records = message_index_offsets.len() as u64;
    if records != descriptor_records {
        return Err(IndexConsistencyViolation::MessageIndexMappingMismatch);
    }
    let retained_bytes = result_retained_bytes(records, entries)?;
    if retained_bytes > limits.max_result_retained_bytes {
        return Err(IndexConsistencyViolation::MessageIndexResultRetainedByteLimitExceeded);
    }
    Ok(MessageIndexRegionCensus { records, entries, retained_bytes })
}

/// Aggregate usage of the MessageIndex region budget: queued raw inputs and parsed results.
#[derive(Clone, Copy, Debug, PartialEq, Eq, Structural)]
pub struct MessageIndexRegionBudgetUsage {
    pub active_raw_inputs: u64,
    pub raw_input_bytes: u64,
    pub active_results: u64,
    pub result_records: u64,
    pub result_entries: u64,
    pub result_retained_bytes: u64,
}

/// Aggregate capacity of the MessageIndex region budget.
#[derive(Clone, Copy, Debug, PartialEq, Eq, Structural)]
pub struct MessageIndexRegionBudgetCapacity {
    pub max_active_raw_inputs: u64,
    pub max_raw_input_bytes: u64,
    pub max_active_results: u64,
    pub max_result_records: u64,
    pub max_result_entries: u64,
    pub max_result_retained_bytes: u64,
}

/// The aggregate owner of queued raw-region memory and immutable parsed-result memory.
pub struct MessageIndexRegionBudget {
    pub limits: MessageIndexRegionLimits,
    pub capacity: MessageIndexRegionBudgetCapacity,
    pub usage: MessageIndexRegionBudgetUsage,
}

/// One exact queued raw-region claim.
#[derive(Debug, PartialEq, Eq, Structural)]
pub struct MessageIndexRawReservation {
    pub raw_input_bytes: u64,
}

/// One immutable parsed-region claim.
#[derive(Debug, PartialEq, Eq, Structural)]
pub struct MessageIndexResultReservation {
    pub census: MessageIndexRegionCensus,
}

/// The usage after claiming one raw input of `raw_input_bytes` bytes.
pub open spec fn reserved_raw_usage(
    usage: MessageIndexRegionBudgetUsage,
    capacity: MessageIndexRegionBudgetCapacity,
    raw_input_bytes: u64,
) -> Result<MessageIndexRegionBudgetUsage, IndexConsistencyViolation> {
    if usage.active_raw_inputs + 1 > u64::MAX || usage.raw_input_bytes + raw_input_bytes > u64::MAX {
        Err(IndexConsistencyViolation::ArithmeticOverflow)
    } else if usage.active_raw_inputs + 1 > capacity.max_active_raw_inputs || usage.raw_input_bytes
        + raw_input_bytes > capacity.max_raw_input_bytes {
        Err(IndexConsistencyViolation::MessageIndexRawReservationLimitExceeded)
    } else {
        Ok(
            MessageIndexRegionBudgetUsage {
                active_raw_inputs: (usage.active_raw_inputs + 1) as u64,
                raw_input_bytes: (usage.raw_input_bytes + raw_input_bytes) as u64,
                ..usage
            },
        )
    }
}

/// The usage after returning one raw-input claim.
pub open spec fn released_raw_usage(
    usage: MessageIndexRegionBudgetUsage,
    reservation: MessageIndexRawReservation,
) -> MessageIndexRegionBudgetUsage {
    MessageIndexRegionBudgetUsage {
        active_raw_inputs: (usage.active_raw_inputs - 1) as u64,
        raw_input_bytes: (usage.raw_input_bytes - reservation.raw_input_bytes) as u64,
        ..usage
    }
}

/// A live raw-input claim is covered by the usage it was added to.
pub open spec fn raw_usage_covers(
    usage: MessageIndexRegionBudgetUsage,
    reservation: MessageIndexRawReservation,
) -> bool {
    usage.active_raw_inputs >= 1 && usage.raw_input_bytes >= reservation.raw_input_bytes
}

/// The usage after claiming one parsed result of census `census`.
pub open spec fn reserved_result_usage(
    usage: MessageIndexRegionBudgetUsage,
    capacity: MessageIndexRegionBudgetCapacity,
    census: MessageIndexRegionCensus,
) -> Result<MessageIndexRegionBudgetUsage, IndexConsistencyViolation> {
    if usage.active_results + 1 > u64::MAX || usage.result_records + census.records > u64::MAX
        || usage.result_entries + census.entries > u64::MAX || usage.result_retained_bytes
        + census.retained_bytes > u64::MAX {
        Err(IndexConsistencyViolation::ArithmeticOverflow)
    } else if usage.active_results + 1 > capacity.max_active_results || usage.result_records
        + census.records > capacity.max_result_records || usage.result_entries + census.entries
        > capacity.max_result_entries || usage.result_retained_bytes + census.retained_bytes
        > capacity.max_result_retained_bytes {
        Err(IndexConsistencyViolation::MessageIndexResultReservationLimitExceeded)
    } else {
        Ok(
            MessageIndexRegionBudgetUsage {
                active_results: (usage.active_results + 1) as u64,
                result_records: (usage.result_records + census.records) as u64,
                result_entries: (usage.result_entries + census.entries) as u64,
                result_retained_bytes: (usage.result_retained_bytes + census.retained_bytes) as u64,
                ..usage
            },
        )
    }
}

/// The usage after returning one parsed-result claim.
pub open spec fn released_result_usage(
    usage: MessageIndexRegionBudgetUsage,
    reservation: MessageIndexResultReservation,
) -> MessageIndexRegionBudgetUsage {
    MessageIndexRegionBudgetUsage {
        active_results: (usage.active_results - 1) as u64,
        result_records: (usage.result_records - reservation.census.records) as u64,
        result_entries: (usage.result_entries - reservation.census.entries) as u64,
        result_retained_bytes: (usage.result_retained_bytes - reservation.census.retained_bytes) as u64,
        ..usage
    }
}

/// A live parsed-result claim is covered by the usage it was added to.
pub open spec fn result_usage_covers(
    usage: MessageIndexRegionBudgetUsage,
    reservation: MessageIndexResultReservation,
) -> bool {
    &&& usage.active_results >= 1
    &&& usage.result_records >= reservation.census.records
    &&& usage.result_entries >= reservation.census.entries
    &&& usage.result_retained_bytes >= reservation.census.retained_bytes
}

impl MessageIndexRegionBudget {
    pub fn for_test(
        limits: MessageIndexRegionLimits,
        max_active_raw_inputs: u64,
        max_raw_input_bytes: u64,
        max_active_results: u64,
        max_result_records: u64,
        max_result_entries: u64,
        max_result_retained_bytes: u64,
    ) -> (budget: Self)
        ensures
            budget.limits == limits,
            budget.capacity == (MessageIndexRegionBudgetCapacity {
                max_active_raw_inputs,
                max_raw_input_bytes,
                max_active_results,
                max_result_records,
                max_result_entries,
                max_result_retained_bytes,
            }),
            budget.usage == (MessageIndexRegionBudgetUsage {
                active_raw_inputs: 0,
                raw_input_bytes: 0,
                active_results: 0,
                result_records: 0,
                result_entries: 0,
                result_retained_bytes: 0,
            }),
    {
        MessageIndexRegionBudget {
            limits,
            capacity: MessageIndexRegionBudgetCapacity {
                max_active_raw_inputs,
                max_raw_input_bytes,
                max_active_results,
                max_result_records,
                max_result_entries,
                max_result_retained_bytes,
            },
            usage: MessageIndexRegionBudgetUsage {
                active_raw_inputs: 0,
                raw_input_bytes: 0,
                active_results: 0,
                result_records: 0,
                result_entries: 0,
                result_retained_bytes: 0,
            },
        }
    }

    pub fn usage_for_test(&self) -> (usage: (u64, u64, u64, u64, u64, u64))
        ensures
            usage == (
                self.usage.active_raw_inputs,
                self.usage.raw_input_bytes,
                self.usage.active_results,
                self.usage.result_records,
                self.usage.result_entries,
                self.usage.result_retained_bytes,
            ),
    {
        (
            self.usage.active_raw_inputs,
            self.usage.raw_input_bytes,
            self.usage.active_results,
            self.usage.result_records,
            self.usage.result_entries,
            self.usage.result_retained_bytes,
        )
    }

    /// Claims one queued raw input, all or nothing.
    pub fn try_reserve_raw(&mut self, raw_input_bytes: u64) -> (result: Result<
        MessageIndexRawReservation,
        IndexConsistencyViolation,
    >)
        ensures
            final(self).limits == old(self).limits,
            final(self).capacity == old(self).capacity,
            match reserved_raw_usage(old(self).usage, old(self).capacity, raw_input_bytes) {
                Ok(next) => result == Ok::<MessageIndexRawReservation, IndexConsistencyViolation>(
                    MessageIndexRawReservation { raw_input_bytes },
                ) && final(self).usage == next,
                Err(error) => result == Err::<MessageIndexRawReservation, IndexConsistencyViolation>(
                    error,
                ) && final(self).usage == old(self).usage,
            },
    {
        let active_raw_inputs = checked_add(self.usage.active_raw_inputs, 1)?;
        let bytes = checked_add(self.usage.raw_input_bytes, raw_input_bytes)?;
        if active_raw_inputs > self.capacity.max_active_raw_inputs || bytes
            > self.capacity.max_raw_input_bytes {
            return Err(IndexConsistencyViolation::MessageIndexRawReservationLimitExceeded);
        }
        self.usage = MessageIndexRegionBudgetUsage {
            active_raw_inputs,
            raw_input_bytes: bytes,
            ..self.usage
        };
        Ok(MessageIndexRawReservation { raw_input_bytes })
    }

    /// Returns one raw-input claim.
    pub fn release_raw(&mut self, reservation: MessageIndexRawReservation)
        requires
            raw_usage_covers(old(self).usage, reservation),
        ensures
            final(self).limits == old(self).limits,
            final(self).capacity == old(self).capacity,
            final(self).usage == released_raw_usage(old(self).usage, reservation),
    {
        self.usage = MessageIndexRegionBudgetUsage {
            active_raw_inputs: self.usage.active_raw_inputs - 1,
            raw_input_bytes: self.usage.raw_input_bytes - reservation.raw_input_bytes,
            ..self.usage
        };
    }

    /// Claims one parsed result of census `census`, all or nothing.
    pub fn try_reserve_result(&mut self, census: MessageIndexRegionCensus) -> (result: Result<
        MessageIndexResultReservation,
        IndexConsistencyViolation,
    >)
        ensures
            final(self).limits == old(self).limits,
            final(self).capacity == old(self).capacity,
            match reserved_result_usage(old(self).usage, old(self).capacity, census) {
                Ok(next) => result == Ok::<MessageIndexResultReservation, IndexConsistencyViolation>(
                    MessageIndexResultReservation { census },
                ) && final(self).usage == next,
                Err(error) => result == Err::<MessageIndexResultReservation, IndexConsistencyViolation>(
                    error,
                ) && final(self).usage == old(self).usage,
            },
    {
        let active_results = checked_add(self.usage.active_results, 1)?;
        let records = checked_add(self.usage.result_records, census.records)?;
        let entries = checked_add(self.usage.result_entries, census.entries)?;
        let retained = checked_add(self.usage.result_retained_bytes, census.retained_bytes)?;
        if active_results > self.capacity.max_active_results || records
            > self.capacity.max_result_records || entries > self.capacity.max_result_entries
            || retained > self.capacity.max_result_retained_bytes {
            return Err(IndexConsistencyViolation::MessageIndexResultReservationLimitExceeded);
        }
        self.usage = MessageIndexRegionBudgetUsage {
            active_results,
            result_records: records,
            result_entries: entries,
            result_retained_bytes: retained,
            ..self.usage
        };
        Ok(MessageIndexResultReservation { census })
    }

    /// Returns one parsed-result claim.
    pub fn release_result(&mut self, reservation: MessageIndexResultReservation)
        requires
            result_usage_covers(old(self).usage, reservation),
        ensures
            final(self).limits == old(self).limits,
            final(self).capacity == old(self).capacity,
            final(self).usage == released_result_usage(old(self).usage, reservation),
    {
        self.usage = MessageIndexRegionBudgetUsage {
            active_results: self.usage.active_results - 1,
            result_records: self.usage.result_records - reservation.census.records,
            result_entries: self.usage.result_entries - reservation.census.entries,
            result_retained_bytes: self.usage.result_retained_bytes
                - reservation.census.retained_bytes,
            ..self.usage
        };
    }
}

/// An admitted raw-input claim is covered by the usage after it, and returning it restores the
/// usage before it exactly.
pub proof fn lemma_raw_reservation_round_trip(
    usage: MessageIndexRegionBudgetUsage,
    capacity: MessageIndexRegionBudgetCapacity,
    raw_input_bytes: u64,
)
    requires
        reserved_raw_usage(usage, capacity, raw_input_bytes) is Ok,
    ensures
        ({
            let next = reserved_raw_usage(usage, capacity, raw_input_bytes)->Ok_0;
            let reservation = MessageIndexRawReservation { raw_input_bytes };
            raw_usage_covers(next, reservation) && released_raw_usage(next, reservation) == usage
        }),
{
}

/// An admitted parsed-result claim is covered by the usage after it, and returning it restores
/// the usage before it exactly.
pub proof fn lemma_result_reservation_round_trip(
    usage: MessageIndexRegionBudgetUsage,
    capacity: MessageIndexRegionBudgetCapacity,
    census: MessageIndexRegionCensus,
)
    requires
        reserved_result_usage(usage, capacity, census) is Ok,
    ensures
        ({
            let next = reserved_result_usage(usage, capacity, census)->Ok_0;
            let reservation = MessageIndexResultReservation { census };
            result_usage_covers(next, reservation) && released_result_usage(next, reservation)
                == usage
        }),
{
}

/// Raw-input claims and parsed-result claims draw on separate counters: each leaves the other's
/// covering usage intact, so a raw claim can be returned after a result was claimed.
pub proof fn lemma_raw_claim_survives_result_claim(
    usage: MessageIndexRegionBudgetUsage,
    capacity: MessageIndexRegionBudgetCapacity,
    raw: MessageIndexRawReservation,
    census: MessageIndexRegionCensus,
)
    requires
        raw_usage_covers(usage, raw),
        reserved_result_usage(usage, capacity, census) is Ok,
    ensures
        raw_usage_covers(reserved_result_usage(usage, capacity, census)->Ok_0, raw),
        result_usage_covers(
            released_raw_usage(reserved_result_usage(usage, capacity, census)->Ok_0, raw),
            MessageIndexResultReservation { census },
        ),
{
}

/// The entries of a MessageIndex body that declares `count` of them.
pub open spec fn decoded_entries(body: Seq<u8>, count: int) -> Seq<MessageIndexEntryV1> {
    Seq::new(
        count as nat,
        |i: int|
            MessageIndexEntryV1 {
                log_time: mcap_opcodes::le_u64_at(body, MESSAGE_INDEX_PREFIX_LEN + MESSAGE_INDEX_ENTRY_LEN * i),
                offset: mcap_opcodes::le_u64_at(
                    body,
                    MESSAGE_INDEX_PREFIX_LEN + MESSAGE_INDEX_ENTRY_LEN * i + 8,
                ),
            },
    )
}

/// One decoded MessageIndex record: its channel, its absolute start and its entries.
pub open spec fn channel_view(channel: ValidatedChannelMessageIndex) -> (u16, u64, Seq<MessageIndexEntryV1>) {
    (channel.channel_id, channel.absolute_record_start, channel.entries@)
}

/// The records of a region from `cursor` on, decoded after `decoded`; or the first violation.
pub open spec fn region_decode(
    bytes: Seq<u8>,
    absolute_start: u64,
    offsets: Seq<(u16, u64)>,
    cursor: int,
    decoded: Seq<(u16, u64, Seq<MessageIndexEntryV1>)>,
) -> Result<Seq<(u16, u64, Seq<MessageIndexEntryV1>)>, IndexConsistencyViolation>
    decreases bytes.len() - cursor,
{
    if cursor < 0 || cursor >= bytes.len() {
        Ok(decoded)
    } else {
        match region_envelope_at(bytes, cursor) {
            Err(violation) => Err(violation),
            Ok(envelope) => {
                let body = bytes.subrange(envelope.body_start as int, envelope.end as int);
                if body.len() < MESSAGE_INDEX_PREFIX_LEN {
                    Err(IndexConsistencyViolation::MessageIndexRecordBodyInvalid)
                } else {
                    let channel_id = mcap_opcodes::le_u16_at(body, 0);
                    let count = mcap_opcodes::le_u32_at(body, 2) / (MESSAGE_INDEX_ENTRY_LEN as u32);
                    if MESSAGE_INDEX_PREFIX_LEN + MESSAGE_INDEX_ENTRY_LEN * count != body.len() {
                        Err(IndexConsistencyViolation::MessageIndexRecordBodyInvalid)
                    } else if absolute_start + cursor > u64::MAX {
                        Err(IndexConsistencyViolation::ArithmeticOverflow)
                    } else if offset_for(offsets, channel_id) != Some((absolute_start + cursor) as u64) {
                        Err(IndexConsistencyViolation::MessageIndexMappingMismatch)
                    } else {
                        region_decode(
                            bytes,
                            absolute_start,
                            offsets,
                            envelope.end as int,
                            decoded.push(
                                (
                                    channel_id,
                                    (absolute_start + cursor) as u64,
                                    decoded_entries(body, count as int),
                                ),
                            ),
                        )
                    }
                }
            },
        }
    }
}

/// The decoded records of a whole region that preflight counted `records` records in.
pub open spec fn region_materialization(
    bytes: Seq<u8>,
    absolute_start: u64,
    offsets: Seq<(u16, u64)>,
    records: u64,
) -> Result<Seq<(u16, u64, Seq<MessageIndexEntryV1>)>, IndexConsistencyViolation> {
    if records > usize::MAX {
        Err(IndexConsistencyViolation::ArithmeticOverflow)
    } else {
        match region_decode(bytes, absolute_start, offsets, 0, Seq::empty()) {
        Err(violation) => Err(violation),
        Ok(decoded) => if decoded.len() != records {
            Err(IndexConsistencyViolation::MessageIndexMappingMismatch)
        } else {
            Ok(decoded)
        },
        }
    }
}

/// Decodes the entries of one MessageIndex body that declares `count` of them.
fn decode_entries(body: &[u8], count: usize) -> (entries: Result<
    Vec<MessageIndexEntryV1>,
    IndexConsistencyViolation,
>)
    requires
        body@.len() >= MESSAGE_INDEX_PREFIX_LEN,
        count <= u32::MAX / 16,
    ensures
        MESSAGE_INDEX_PREFIX_LEN + MESSAGE_INDEX_ENTRY_LEN * count != body@.len() ==> entries
            is Err,
        entries matches Err(violation) ==> violation
            == IndexConsistencyViolation::MessageIndexRecordBodyInvalid || violation
            == IndexConsistencyViolation::MessageIndexResultAllocationFailed,
        entries == Err::<Vec<MessageIndexEntryV1>, IndexConsistencyViolation>(
            IndexConsistencyViolation::MessageIndexRecordBodyInvalid,
        ) ==> MESSAGE_INDEX_PREFIX_LEN + MESSAGE_INDEX_ENTRY_LEN * count != body@.len(),
        entries matches Ok(decoded) ==> decoded@ == decoded_entries(body@, count as int)
            && MESSAGE_INDEX_PREFIX_LEN + MESSAGE_INDEX_ENTRY_LEN * count == body@.len(),
{
    let mut room: Vec<MessageIndexEntryV1> = Vec::new();
    if !crate::remote_ros2_reflection::arenas::try_reserve_exact_room(&mut room, count) {
        return Err(IndexConsistencyViolation::MessageIndexResultAllocationFailed);
    }
    decode_entries_into(body, count, room)
}

/// Decodes the entries of one MessageIndex body that declares `count` of them into `room`, an
/// empty vector claimed for them: the entries where the body holds exactly `count`, the body
/// violation otherwise.
pub fn decode_entries_into(body: &[u8], count: usize, room: Vec<MessageIndexEntryV1>) -> (entries:
    Result<Vec<MessageIndexEntryV1>, IndexConsistencyViolation>)
    requires
        body@.len() >= MESSAGE_INDEX_PREFIX_LEN,
        count <= u32::MAX / 16,
        room@ == Seq::<MessageIndexEntryV1>::empty(),
    ensures
        MESSAGE_INDEX_PREFIX_LEN + MESSAGE_INDEX_ENTRY_LEN * count == body@.len() ==> (entries
            matches Ok(decoded) && decoded@ == decoded_entries(body@, count as int)),
        MESSAGE_INDEX_PREFIX_LEN + MESSAGE_INDEX_ENTRY_LEN * count != body@.len() ==> entries
            == Err::<Vec<MessageIndexEntryV1>, IndexConsistencyViolation>(
            IndexConsistencyViolation::MessageIndexRecordBodyInvalid,
        ),
{
    let mut entries = room;
    proof {
        assert(entries@ =~= decoded_entries(body@, count as int).subrange(0, 0));
    }
    let mut entry_cursor: usize = MESSAGE_INDEX_PREFIX_LEN;
    let mut i: usize = 0;
    while i < count
        invariant
            i <= count <= u32::MAX / 16,
            entry_cursor == MESSAGE_INDEX_PREFIX_LEN + MESSAGE_INDEX_ENTRY_LEN * i,
            entry_cursor <= body@.len(),
            entries@ == decoded_entries(body@, count as int).subrange(0, i as int),
        decreases count - i,
    {
        if entry_cursor + MESSAGE_INDEX_ENTRY_LEN > body.len() {
            return Err(IndexConsistencyViolation::MessageIndexRecordBodyInvalid);
        }
        let entry = MessageIndexEntryV1 {
            log_time: mcap_opcodes::read_le_u64(body, entry_cursor),
            offset: mcap_opcodes::read_le_u64(body, entry_cursor + 8),
        };
        entries.push(entry);
        proof {
            assert(entries@ =~= decoded_entries(body@, count as int).subrange(0, i + 1));
        }
        entry_cursor = entry_cursor + MESSAGE_INDEX_ENTRY_LEN;
        i = i + 1;
    }
    if entry_cursor != body.len() {
        return Err(IndexConsistencyViolation::MessageIndexRecordBodyInvalid);
    }
    proof {
        assert(entries@ =~= decoded_entries(body@, count as int));
    }
    Ok(entries)
}

/// Decodes every record of a region that preflight accepted, checking each again against the
/// descriptor's channel-to-offset map.
///
/// Room for the records and for each record's entries is claimed from the allocator first;
/// where it is refused, the result is the allocation violation.
pub fn materialize_region(
    bytes: &[u8],
    absolute_start: u64,
    message_index_offsets: &[(u16, u64)],
    records: u64,
) -> (result: Result<Vec<ValidatedChannelMessageIndex>, IndexConsistencyViolation>)
    ensures
        ({
            ||| result == Err::<Vec<ValidatedChannelMessageIndex>, IndexConsistencyViolation>(
                IndexConsistencyViolation::MessageIndexResultAllocationFailed,
            )
            ||| match region_materialization(bytes@, absolute_start, message_index_offsets@, records) {
                Ok(decoded) => result matches Ok(channels) && channels@.len() == decoded.len() && (
                forall|k: int|
                    0 <= k < decoded.len() ==> channel_view(#[trigger] channels@[k]) == decoded[k]),
                Err(violation) => result == Err::<
                    Vec<ValidatedChannelMessageIndex>,
                    IndexConsistencyViolation,
                >(violation),
            }
        }),
{
    if records > usize::MAX as u64 {
        return Err(IndexConsistencyViolation::ArithmeticOverflow);
    }
    let record_capacity = records as usize;
    let mut room: Vec<ValidatedChannelMessageIndex> = Vec::new();
    if !crate::remote_ros2_reflection::arenas::try_reserve_exact_room(&mut room, record_capacity) {
        return Err(IndexConsistencyViolation::MessageIndexResultAllocationFailed);
    }
    fill_region_channels(bytes, absolute_start, message_index_offsets, records, room)
}

/// Decodes every record of a region into `room`, an empty vector claimed for `records` of
/// them. Each record's entries are claimed from the allocator in turn and decoded by
/// [`decode_entries_into`]; where a claim is refused, the result is the allocation violation.
pub fn fill_region_channels(
    bytes: &[u8],
    absolute_start: u64,
    message_index_offsets: &[(u16, u64)],
    records: u64,
    room: Vec<ValidatedChannelMessageIndex>,
) -> (result: Result<Vec<ValidatedChannelMessageIndex>, IndexConsistencyViolation>)
    requires
        records <= usize::MAX,
        room@.len() == 0,
    ensures
        ({
            ||| result == Err::<Vec<ValidatedChannelMessageIndex>, IndexConsistencyViolation>(
                IndexConsistencyViolation::MessageIndexResultAllocationFailed,
            )
            ||| match region_materialization(bytes@, absolute_start, message_index_offsets@, records) {
                Ok(decoded) => result matches Ok(channels) && channels@.len() == decoded.len() && (
                forall|k: int|
                    0 <= k < decoded.len() ==> channel_view(#[trigger] channels@[k]) == decoded[k]),
                Err(violation) => result == Err::<
                    Vec<ValidatedChannelMessageIndex>,
                    IndexConsistencyViolation,
                >(violation),
            }
        }),
{
    let record_capacity = records as usize;
    let mut channels = room;
    let ghost mut decoded: Seq<(u16, u64, Seq<MessageIndexEntryV1>)> = Seq::empty();
    let mut cursor: usize = 0;
    while cursor < bytes.len()
        invariant
            cursor <= bytes@.len(),
            records <= usize::MAX,
            region_decode(bytes@, absolute_start, message_index_offsets@, 0, Seq::empty())
                == region_decode(bytes@, absolute_start, message_index_offsets@, cursor as int, decoded),
            channels@.len() == decoded.len(),
            forall|k: int| 0 <= k < decoded.len() ==> channel_view(#[trigger] channels@[k]) == decoded[k],
        decreases bytes@.len() - cursor,
    {
        let envelope = next_envelope(bytes, cursor)?;
        let body = &bytes[envelope.body_start..envelope.end];
        if body.len() < MESSAGE_INDEX_PREFIX_LEN {
            return Err(IndexConsistencyViolation::MessageIndexRecordBodyInvalid);
        }
        let channel_id = mcap_opcodes::read_le_u16(body, 0);
        let count = mcap_opcodes::read_le_u32(body, 2) as usize / MESSAGE_INDEX_ENTRY_LEN;
        let entries = decode_entries(body, count)?;
        let record_start = checked_add(absolute_start, cursor as u64)?;
        if lookup_offset(message_index_offsets, channel_id) != Some(record_start) {
            return Err(IndexConsistencyViolation::MessageIndexMappingMismatch);
        }
        let ghost view = (channel_id, record_start, entries@);
        channels.push(ValidatedChannelMessageIndex { channel_id, absolute_record_start: record_start, entries });
        proof {
            decoded = decoded.push(view);
        }
        cursor = envelope.end;
    }
    if channels.len() != record_capacity {
        return Err(IndexConsistencyViolation::MessageIndexMappingMismatch);
    }
    Ok(channels)
}

impl ValidatedChannelMessageIndex {
    pub fn channel_id(&self) -> (channel_id: u16)
        ensures
            channel_id == self.channel_id,
    {
        self.channel_id
    }

    pub fn absolute_record_start(&self) -> (start: u64)
        ensures
            start == self.absolute_record_start,
    {
        self.absolute_record_start
    }

    pub fn entries(&self) -> (entries: &[MessageIndexEntryV1])
        ensures
            entries@ == self.entries@,
    {
        self.entries.as_slice()
    }
}

/// The Chunk Index that owns the canonical region at `canonical_ordinal`.
pub fn descriptor_for<'p>(physical: &'p ValidatedPhysicalRegions<'_>, canonical_ordinal: usize) -> (descriptor: Result<
    &'p ChunkIndexRecordV1,
    IndexConsistencyViolation,
>)
    ensures
        canonical_ordinal < physical.spec_units().len() ==> (descriptor matches Ok(d) && *d
            == canonical_descriptor(*physical, canonical_ordinal as int)),
        canonical_ordinal >= physical.spec_units().len() ==> descriptor == Err::<
            &ChunkIndexRecordV1,
            IndexConsistencyViolation,
        >(IndexConsistencyViolation::UnknownCanonicalRegion),
{
    match physical.region(canonical_ordinal) {
        Some(region) => Ok(region.raw_descriptor()),
        None => Err(IndexConsistencyViolation::UnknownCanonicalRegion),
    }
}

/// Ownership of one exact canonical region whose queue capacity is claimed, before its bytes
/// are installed.
pub struct PreparedMessageIndexRegionParse<'a> {
    physical: ValidatedPhysicalRegions<'a>,
    canonical_ordinal: usize,
    expected_range: ByteRange,
    raw_reservation: MessageIndexRawReservation,
}

impl<'a> PreparedMessageIndexRegionParse<'a> {
    pub closed spec fn spec_physical(&self) -> ValidatedPhysicalRegions<'a> {
        self.physical
    }

    pub closed spec fn spec_canonical_ordinal(&self) -> usize {
        self.canonical_ordinal
    }

    pub closed spec fn spec_expected_range(&self) -> ByteRange {
        self.expected_range
    }

    pub closed spec fn spec_raw_reservation(&self) -> MessageIndexRawReservation {
        self.raw_reservation
    }

    /// The absolute file range whose bytes must be installed.
    pub fn expected_range(&self) -> (range: ByteRange)
        ensures
            range == self.spec_expected_range(),
    {
        self.expected_range
    }

    /// Installs the raw bytes read at `file_start`; they must cover the expected region exactly.
    /// On a mismatch the raw claim returns to `budget`.
    pub fn install_raw(self, file_start: u64, bytes: Vec<u8>, budget: &mut MessageIndexRegionBudget) -> (result: Result<
        MessageIndexRegionParse<'a>,
        IndexConsistencyViolation,
    >)
        requires
            raw_usage_covers(old(budget).usage, self.spec_raw_reservation()),
        ensures
            final(budget).limits == old(budget).limits,
            final(budget).capacity == old(budget).capacity,
            file_start + bytes@.len() > u64::MAX ==> result == Err::<
                MessageIndexRegionParse<'a>,
                IndexConsistencyViolation,
            >(IndexConsistencyViolation::ArithmeticOverflow) && final(budget).usage
                == released_raw_usage(old(budget).usage, self.spec_raw_reservation()),
            file_start + bytes@.len() <= u64::MAX && (file_start != self.spec_expected_range().start
                || file_start + bytes@.len() != self.spec_expected_range().end) ==> result == Err::<
                MessageIndexRegionParse<'a>,
                IndexConsistencyViolation,
            >(IndexConsistencyViolation::MessageIndexRawInputMismatch) && final(budget).usage
                == released_raw_usage(old(budget).usage, self.spec_raw_reservation()),
            file_start == self.spec_expected_range().start && file_start + bytes@.len()
                == self.spec_expected_range().end ==> (result matches Ok(parse)
                && parse.spec_physical() == self.spec_physical() && parse.spec_canonical_ordinal()
                == self.spec_canonical_ordinal() && parse.spec_expected_range()
                == self.spec_expected_range() && parse.spec_raw_bytes() == bytes@
                && parse.spec_raw_reservation() == self.spec_raw_reservation() && final(budget).usage
                == old(budget).usage),
    {
        let byte_len = bytes.len() as u64;
        let actual_end = match checked_add(file_start, byte_len) {
            Ok(end) => end,
            Err(violation) => {
                budget.release_raw(self.raw_reservation);
                return Err(violation);
            },
        };
        if file_start != self.expected_range.start || actual_end != self.expected_range.end {
            budget.release_raw(self.raw_reservation);
            return Err(IndexConsistencyViolation::MessageIndexRawInputMismatch);
        }
        Ok(
            MessageIndexRegionParse {
                physical: self.physical,
                canonical_ordinal: self.canonical_ordinal,
                expected_range: self.expected_range,
                raw_bytes: bytes,
                raw_reservation: self.raw_reservation,
            },
        )
    }
}

/// One non-preemptible work unit: the physical capability, one exact raw region and its queue
/// claim. One call to `execute` parses this one region.
pub struct MessageIndexRegionParse<'a> {
    physical: ValidatedPhysicalRegions<'a>,
    canonical_ordinal: usize,
    expected_range: ByteRange,
    raw_bytes: Vec<u8>,
    raw_reservation: MessageIndexRawReservation,
}

impl<'a> MessageIndexRegionParse<'a> {
    pub closed spec fn spec_physical(&self) -> ValidatedPhysicalRegions<'a> {
        self.physical
    }

    pub closed spec fn spec_canonical_ordinal(&self) -> usize {
        self.canonical_ordinal
    }

    pub closed spec fn spec_expected_range(&self) -> ByteRange {
        self.expected_range
    }

    pub closed spec fn spec_raw_bytes(&self) -> Seq<u8> {
        self.raw_bytes@
    }

    pub closed spec fn spec_raw_reservation(&self) -> MessageIndexRawReservation {
        self.raw_reservation
    }

    /// Parses the region: preflight against the descriptor, a result claim sized by the census,
    /// then decoding. The raw claim returns to `budget` whatever the outcome; the result claim
    /// stays with a parsed region and returns on a failure.
    pub fn execute(self, budget: &mut MessageIndexRegionBudget) -> (result: Result<
        ValidatedMessageIndexRegion<'a>,
        IndexConsistencyViolation,
    >)
        requires
            raw_usage_covers(old(budget).usage, self.spec_raw_reservation()),
        ensures
            final(budget).limits == old(budget).limits,
            final(budget).capacity == old(budget).capacity,
            self.spec_canonical_ordinal() >= self.spec_physical().spec_units().len() ==> result
                == Err::<ValidatedMessageIndexRegion<'a>, IndexConsistencyViolation>(
                IndexConsistencyViolation::UnknownCanonicalRegion,
            ) && final(budget).usage == released_raw_usage(
                old(budget).usage,
                self.spec_raw_reservation(),
            ),
            self.spec_canonical_ordinal() < self.spec_physical().spec_units().len() ==> {
                let offsets = canonical_descriptor(
                    self.spec_physical(),
                    self.spec_canonical_ordinal() as int,
                ).message_index_offsets@;
                let start = self.spec_expected_range().start;
                match region_preflight(self.spec_raw_bytes(), start, offsets, old(budget).limits) {
                    Err(violation) => result == Err::<
                        ValidatedMessageIndexRegion<'a>,
                        IndexConsistencyViolation,
                    >(violation) && final(budget).usage == released_raw_usage(
                        old(budget).usage,
                        self.spec_raw_reservation(),
                    ),
                    Ok(census) => match reserved_result_usage(
                        old(budget).usage,
                        old(budget).capacity,
                        census,
                    ) {
                        Err(violation) => result == Err::<
                            ValidatedMessageIndexRegion<'a>,
                            IndexConsistencyViolation,
                        >(violation) && final(budget).usage == released_raw_usage(
                            old(budget).usage,
                            self.spec_raw_reservation(),
                        ),
                        Ok(next) => match result {
                            Ok(region) => region_materialization(
                                self.spec_raw_bytes(),
                                start,
                                offsets,
                                census.records,
                            ) matches Ok(decoded) && region.spec_channels().len() == decoded.len()
                                && (forall|k: int|
                                0 <= k < decoded.len() ==> channel_view(
                                    #[trigger] region.spec_channels()[k],
                                ) == decoded[k]) && region.spec_physical() == self.spec_physical()
                                && region.spec_canonical_ordinal() == self.spec_canonical_ordinal()
                                && region.spec_expected_range() == self.spec_expected_range()
                                && region.spec_result_reservation() == (
                            MessageIndexResultReservation { census }) && final(budget).usage
                                == released_raw_usage(next, self.spec_raw_reservation()),
                            Err(violation) => (violation
                                == IndexConsistencyViolation::MessageIndexResultAllocationFailed
                                || region_materialization(
                                self.spec_raw_bytes(),
                                start,
                                offsets,
                                census.records,
                            ) == Err::<
                                Seq<(u16, u64, Seq<MessageIndexEntryV1>)>,
                                IndexConsistencyViolation,
                            >(violation)) && final(budget).usage == released_raw_usage(
                                old(budget).usage,
                                self.spec_raw_reservation(),
                            ),
                        },
                    },
                }
            },
    {
        let MessageIndexRegionParse {
            physical,
            canonical_ordinal,
            expected_range,
            raw_bytes,
            raw_reservation,
        } = self;
        let descriptor = match descriptor_for(&physical, canonical_ordinal) {
            Ok(descriptor) => descriptor,
            Err(violation) => {
                budget.release_raw(raw_reservation);
                return Err(violation);
            },
        };
        let limits = budget.limits;
        let census = match preflight_region(
            raw_bytes.as_slice(),
            expected_range.start,
            descriptor.message_index_offsets.as_slice(),
            &limits,
        ) {
            Ok(census) => census,
            Err(violation) => {
                budget.release_raw(raw_reservation);
                return Err(violation);
            },
        };
        let ghost before_result = budget.usage;
        let result_reservation = match budget.try_reserve_result(census) {
            Ok(reservation) => reservation,
            Err(violation) => {
                budget.release_raw(raw_reservation);
                return Err(violation);
            },
        };
        proof {
            lemma_result_reservation_round_trip(before_result, budget.capacity, census);
            lemma_raw_claim_survives_result_claim(before_result, budget.capacity, raw_reservation, census);
        }
        let channels = match materialize_region(
            raw_bytes.as_slice(),
            expected_range.start,
            descriptor.message_index_offsets.as_slice(),
            census.records,
        ) {
            Ok(channels) => channels,
            Err(violation) => {
                budget.release_raw(raw_reservation);
                budget.release_result(result_reservation);
                return Err(violation);
            },
        };
        budget.release_raw(raw_reservation);
        Ok(
            ValidatedMessageIndexRegion {
                channels,
                physical,
                canonical_ordinal,
                expected_range,
                result_reservation,
            },
        )
    }
}

/// The sealed result of one fully consumed region: its per-channel records, the physical
/// capability it was parsed under, and the parsed-result claim.
pub struct ValidatedMessageIndexRegion<'a> {
    channels: Vec<ValidatedChannelMessageIndex>,
    physical: ValidatedPhysicalRegions<'a>,
    canonical_ordinal: usize,
    expected_range: ByteRange,
    result_reservation: MessageIndexResultReservation,
}

impl<'a> ValidatedMessageIndexRegion<'a> {
    pub closed spec fn spec_channels(&self) -> Seq<ValidatedChannelMessageIndex> {
        self.channels@
    }

    pub closed spec fn spec_physical(&self) -> ValidatedPhysicalRegions<'a> {
        self.physical
    }

    pub closed spec fn spec_canonical_ordinal(&self) -> usize {
        self.canonical_ordinal
    }

    pub closed spec fn spec_expected_range(&self) -> ByteRange {
        self.expected_range
    }

    pub closed spec fn spec_result_reservation(&self) -> MessageIndexResultReservation {
        self.result_reservation
    }

    pub fn channels(&self) -> (channels: &[ValidatedChannelMessageIndex])
        ensures
            channels@ == self.spec_channels(),
    {
        self.channels.as_slice()
    }

    pub fn physical(&self) -> (physical: &ValidatedPhysicalRegions<'a>)
        ensures
            *physical == self.spec_physical(),
    {
        &self.physical
    }

    /// Gives back the physical capability; the parsed-result claim returns to `budget`.
    pub fn into_physical(self, budget: &mut MessageIndexRegionBudget) -> (physical: ValidatedPhysicalRegions<'a>)
        requires
            result_usage_covers(old(budget).usage, self.spec_result_reservation()),
        ensures
            physical == self.spec_physical(),
            final(budget).limits == old(budget).limits,
            final(budget).capacity == old(budget).capacity,
            final(budget).usage == released_result_usage(old(budget).usage, self.spec_result_reservation()),
    {
        let ValidatedMessageIndexRegion { physical, result_reservation, .. } = self;
        budget.release_result(result_reservation);
        physical
    }
}

/// Claims the exact queue capacity of one canonical region's Message Index bytes before they
/// are read.
pub fn prepare_message_index_region<'a>(
    physical: ValidatedPhysicalRegions<'a>,
    canonical_ordinal: usize,
    budget: &mut MessageIndexRegionBudget,
) -> (result: Result<PreparedMessageIndexRegionParse<'a>, IndexConsistencyViolation>)
    ensures
        final(budget).limits == old(budget).limits,
        final(budget).capacity == old(budget).capacity,
        canonical_ordinal >= physical.spec_units().len() ==> result == Err::<
            PreparedMessageIndexRegionParse<'a>,
            IndexConsistencyViolation,
        >(IndexConsistencyViolation::UnknownCanonicalRegion) && final(budget).usage
            == old(budget).usage,
        canonical_ordinal < physical.spec_units().len() ==> {
            let region = physical.spec_units()[canonical_ordinal as int].message_index_region;
            if region.end < region.start {
                result == Err::<PreparedMessageIndexRegionParse<'a>, IndexConsistencyViolation>(
                    IndexConsistencyViolation::ArithmeticOverflow,
                ) && final(budget).usage == old(budget).usage
            } else {
                match reserved_raw_usage(
                    old(budget).usage,
                    old(budget).capacity,
                    (region.end - region.start) as u64,
                ) {
                    Err(violation) => result == Err::<
                        PreparedMessageIndexRegionParse<'a>,
                        IndexConsistencyViolation,
                    >(violation) && final(budget).usage == old(budget).usage,
                    Ok(next) => result matches Ok(prepared) && prepared.spec_physical() == physical
                        && prepared.spec_canonical_ordinal() == canonical_ordinal
                        && prepared.spec_expected_range() == region
                        && prepared.spec_raw_reservation() == (MessageIndexRawReservation {
                        raw_input_bytes: (region.end - region.start) as u64,
                    }) && final(budget).usage == next,
                }
            }
        },
{
    let expected_range = match physical.region(canonical_ordinal) {
        Some(region) => region.message_index_region(),
        None => return Err(IndexConsistencyViolation::UnknownCanonicalRegion),
    };
    if expected_range.end < expected_range.start {
        return Err(IndexConsistencyViolation::ArithmeticOverflow);
    }
    let raw_bytes = expected_range.end - expected_range.start;
    let raw_reservation = budget.try_reserve_raw(raw_bytes)?;
    Ok(
        PreparedMessageIndexRegionParse {
            physical,
            canonical_ordinal,
            expected_range,
            raw_reservation,
        },
    )
}

/// The queue claim for the Message Index region of the canonical region at `canonical_ordinal`:
/// the expected range and the usage after the claim, or the first failure.
pub open spec fn message_index_claim(
    physical: ValidatedPhysicalRegions,
    canonical_ordinal: int,
    usage: MessageIndexRegionBudgetUsage,
    capacity: MessageIndexRegionBudgetCapacity,
) -> Result<(ByteRange, MessageIndexRegionBudgetUsage), IndexConsistencyViolation> {
    if canonical_ordinal < 0 || canonical_ordinal >= physical.spec_units().len() {
        Err(IndexConsistencyViolation::UnknownCanonicalRegion)
    } else {
        let region = physical.spec_units()[canonical_ordinal].message_index_region;
        if region.end < region.start {
            Err(IndexConsistencyViolation::ArithmeticOverflow)
        } else {
            match reserved_raw_usage(usage, capacity, (region.end - region.start) as u64) {
                Err(violation) => Err(violation),
                Ok(next) => Ok((region, next)),
            }
        }
    }
}

/// What parsing the region bytes `bytes` that start at `start` gives against the descriptor
/// map `offsets`: the decoded records, or the first failure that does not depend on the
/// allocator.
pub open spec fn region_parse_outcome(
    bytes: Seq<u8>,
    start: u64,
    offsets: Seq<(u16, u64)>,
    limits: MessageIndexRegionLimits,
    usage: MessageIndexRegionBudgetUsage,
    capacity: MessageIndexRegionBudgetCapacity,
) -> Result<Seq<(u16, u64, Seq<MessageIndexEntryV1>)>, IndexConsistencyViolation> {
    match region_preflight(bytes, start, offsets, limits) {
        Err(violation) => Err(violation),
        Ok(census) => match reserved_result_usage(usage, capacity, census) {
            Err(violation) => Err(violation),
            Ok(_) => region_materialization(bytes, start, offsets, census.records),
        },
    }
}

/// The decoded view of parsed channel records.
pub open spec fn channel_views(channels: Seq<ValidatedChannelMessageIndex>) -> Seq<(u16, u64, Seq<MessageIndexEntryV1>)> {
    channels.map_values(|channel: ValidatedChannelMessageIndex| channel_view(channel))
}

} // verus!
