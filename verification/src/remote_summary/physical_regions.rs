//! Descriptor-only physical-index consistency: the shared violation type, range containment,
//! checked arithmetic, the aggregate descriptor reservation ledger and the validation of every
//! canonical Chunk Index against the data section.
use crate::mcap_opcodes::RECORD_ENVELOPE_LEN;
use crate::remote_ros2_reflection::admission::string_bytes;
use crate::remote_summary::definitions::ValidatedSummaryDefinitions;
use crate::remote_summary::summary_records::{
    BoundedSummaryRecord, ChunkIndexRecordV1, ParsedMcapRecordV1,
};
use vstd::prelude::*;

verus! {

/// A descriptor-only physical-index consistency failure.
///
/// Variants deliberately omit offsets, sizes, source identities, topics and descriptor contents.
#[derive(Clone, Copy, Debug, PartialEq, Eq, Structural)]
pub enum IndexConsistencyViolation {
    InvalidDataSectionEvidence,
    ConflictingChunkIndex,
    CanonicalChunkLimitExceeded,
    ChunkRecordTooShort,
    ChunkRecordByteLimitExceeded,
    MessageIndexRegionByteLimitExceeded,
    CompressionByteLimitExceeded,
    CompressedByteLimitExceeded,
    UncompressedByteLimitExceeded,
    DescriptorRetainedByteLimitExceeded,
    ArithmeticOverflow,
    MessageIndexPresenceMismatch,
    DuplicateMessageIndexOffset,
    MessageIndexOffsetOutsideOwningRegion,
    PhysicalRegionOutsideDataSection,
    PhysicalRegionOverlap,
    DescriptorReservationLimitExceeded,
    DescriptorAllocationFailed,
    UnknownCanonicalRegion,
    MessageIndexRawReservationLimitExceeded,
    MessageIndexRawInputMismatch,
    MessageIndexRecordEnvelopeInvalid,
    MessageIndexRecordWrongOpcode,
    MessageIndexRecordOutOfBounds,
    MessageIndexRecordBodyInvalid,
    MessageIndexRecordLimitExceeded,
    MessageIndexEntryLimitExceeded,
    MessageIndexAggregateEntryLimitExceeded,
    MessageIndexMappingMismatch,
    MessageIndexResultRetainedByteLimitExceeded,
    MessageIndexResultReservationLimitExceeded,
    MessageIndexResultAllocationFailed,
    AmbiguousZeroChunkLimitExceeded,
    AmbiguousZeroMessageIndexShapeInvalid,
    AmbiguousZeroMessageIndexByteLimitExceeded,
    AmbiguousZeroEntryUpperLimitExceeded,
    AmbiguousZeroMessageIndexRangeLimitExceeded,
    AmbiguousZeroRetainedByteLimitExceeded,
    AmbiguousZeroStage1ReservationLimitExceeded,
    AmbiguousZeroStage1AllocationFailed,
    AmbiguousZeroIndexTimeMismatch,
    AmbiguousZeroObservedEntryUpperExceeded,
    AmbiguousZeroUnresolvedChunkLimitExceeded,
    AmbiguousZeroChunkRangeByteLimitExceeded,
    AmbiguousZeroCompressedByteLimitExceeded,
    AmbiguousZeroUncompressedByteLimitExceeded,
    AmbiguousZeroChunkRangeLimitExceeded,
    AmbiguousZeroScanByteLimitExceeded,
    AmbiguousZeroScanRecordLimitExceeded,
    AmbiguousZeroStage2ReservationLimitExceeded,
}

/// A half-open range `start..end` of absolute file offsets.
#[derive(Clone, Copy, Debug, PartialEq, Eq, Structural)]
pub struct ByteRange {
    pub start: u64,
    pub end: u64,
}

/// Whether `inner` lies within `outer`.
pub fn range_within(inner: &ByteRange, outer: &ByteRange) -> (within: bool)
    ensures
        within == (inner.start >= outer.start && inner.end <= outer.end),
{
    inner.start >= outer.start && inner.end <= outer.end
}

/// `left + right`, or the arithmetic violation.
pub fn checked_add(left: u64, right: u64) -> (sum: Result<u64, IndexConsistencyViolation>)
    ensures
        left + right <= u64::MAX ==> sum == Ok::<u64, IndexConsistencyViolation>((left + right) as u64),
        left + right > u64::MAX ==> sum == Err::<u64, IndexConsistencyViolation>(
            IndexConsistencyViolation::ArithmeticOverflow,
        ),
{
    match left.checked_add(right) {
        Some(sum) => Ok(sum),
        None => Err(IndexConsistencyViolation::ArithmeticOverflow),
    }
}

/// `left * right`, or the arithmetic violation.
pub fn checked_mul(left: u64, right: u64) -> (product: Result<u64, IndexConsistencyViolation>)
    ensures
        left * right <= u64::MAX ==> product == Ok::<u64, IndexConsistencyViolation>(
            (left * right) as u64,
        ),
        left * right > u64::MAX ==> product == Err::<u64, IndexConsistencyViolation>(
            IndexConsistencyViolation::ArithmeticOverflow,
        ),
{
    match left.checked_mul(right) {
        Some(product) => Ok(product),
        None => Err(IndexConsistencyViolation::ArithmeticOverflow),
    }
}

/// Per-source limits of the canonical physical-unit descriptors.
#[derive(Clone, Copy, Debug, PartialEq, Eq, Structural)]
pub struct PhysicalRegionLimits {
    pub max_canonical_chunks: u64,
    pub max_chunk_record_bytes: u64,
    pub max_message_index_region_bytes: u64,
    pub max_compression_bytes: u64,
    pub max_compressed_bytes: u64,
    pub max_uncompressed_bytes: u64,
    pub max_descriptor_retained_bytes: u64,
}

impl PhysicalRegionLimits {
    pub fn for_phase_a_measurement_v1(
        max_canonical_chunks: u64,
        max_chunk_record_bytes: u64,
        max_message_index_region_bytes: u64,
        max_compression_bytes: u64,
        max_compressed_bytes: u64,
        max_uncompressed_bytes: u64,
        max_descriptor_retained_bytes: u64,
    ) -> (limits: Self)
        ensures
            limits == (PhysicalRegionLimits {
                max_canonical_chunks,
                max_chunk_record_bytes,
                max_message_index_region_bytes,
                max_compression_bytes,
                max_compressed_bytes,
                max_uncompressed_bytes,
                max_descriptor_retained_bytes,
            }),
    {
        PhysicalRegionLimits {
            max_canonical_chunks,
            max_chunk_record_bytes,
            max_message_index_region_bytes,
            max_compression_bytes,
            max_compressed_bytes,
            max_uncompressed_bytes,
            max_descriptor_retained_bytes,
        }
    }

    pub fn for_test(
        max_canonical_chunks: u64,
        max_chunk_record_bytes: u64,
        max_message_index_region_bytes: u64,
        max_compression_bytes: u64,
        max_compressed_bytes: u64,
        max_uncompressed_bytes: u64,
        max_descriptor_retained_bytes: u64,
    ) -> (limits: Self)
        ensures
            limits == (PhysicalRegionLimits {
                max_canonical_chunks,
                max_chunk_record_bytes,
                max_message_index_region_bytes,
                max_compression_bytes,
                max_compressed_bytes,
                max_uncompressed_bytes,
                max_descriptor_retained_bytes,
            }),
    {
        Self::for_phase_a_measurement_v1(
            max_canonical_chunks,
            max_chunk_record_bytes,
            max_message_index_region_bytes,
            max_compression_bytes,
            max_compressed_bytes,
            max_uncompressed_bytes,
            max_descriptor_retained_bytes,
        )
    }
}

/// Aggregate usage of the descriptor budget.
#[derive(Clone, Copy, Debug, PartialEq, Eq, Structural)]
pub struct PhysicalRegionBudgetUsage {
    pub active_reservations: u64,
    pub canonical_chunks: u64,
    pub descriptor_retained_bytes: u64,
}

/// One live descriptor reservation.
#[derive(Debug, PartialEq, Eq, Structural)]
pub struct PhysicalRegionReservation {
    pub canonical_chunks: u64,
    pub descriptor_retained_bytes: u64,
}

/// The aggregate descriptor budget shared by all flows of one sealed profile.
pub struct PhysicalRegionBudget {
    pub limits: PhysicalRegionLimits,
    pub max_active_reservations: u64,
    pub max_aggregate_canonical_chunks: u64,
    pub max_aggregate_descriptor_retained_bytes: u64,
    pub usage: PhysicalRegionBudgetUsage,
}

/// The usage after reserving `canonical_chunks` descriptors and their retained bytes.
pub open spec fn reserved_descriptor_usage(
    usage: PhysicalRegionBudgetUsage,
    budget: PhysicalRegionBudget,
    canonical_chunks: u64,
    descriptor_retained_bytes: u64,
) -> Result<PhysicalRegionBudgetUsage, IndexConsistencyViolation> {
    if usage.active_reservations + 1 > u64::MAX || usage.canonical_chunks + canonical_chunks
        > u64::MAX || usage.descriptor_retained_bytes + descriptor_retained_bytes > u64::MAX {
        Err(IndexConsistencyViolation::ArithmeticOverflow)
    } else if usage.active_reservations + 1 > budget.max_active_reservations
        || usage.canonical_chunks + canonical_chunks > budget.max_aggregate_canonical_chunks
        || usage.descriptor_retained_bytes + descriptor_retained_bytes
        > budget.max_aggregate_descriptor_retained_bytes {
        Err(IndexConsistencyViolation::DescriptorReservationLimitExceeded)
    } else {
        Ok(
            PhysicalRegionBudgetUsage {
                active_reservations: (usage.active_reservations + 1) as u64,
                canonical_chunks: (usage.canonical_chunks + canonical_chunks) as u64,
                descriptor_retained_bytes: (usage.descriptor_retained_bytes
                    + descriptor_retained_bytes) as u64,
            },
        )
    }
}

/// The usage after releasing one live reservation.
pub open spec fn released_descriptor_usage(
    usage: PhysicalRegionBudgetUsage,
    reservation: PhysicalRegionReservation,
) -> PhysicalRegionBudgetUsage {
    PhysicalRegionBudgetUsage {
        active_reservations: (usage.active_reservations - 1) as u64,
        canonical_chunks: (usage.canonical_chunks - reservation.canonical_chunks) as u64,
        descriptor_retained_bytes: (usage.descriptor_retained_bytes
            - reservation.descriptor_retained_bytes) as u64,
    }
}

/// A live reservation is covered by the usage it was added to.
pub open spec fn descriptor_usage_covers(
    usage: PhysicalRegionBudgetUsage,
    reservation: PhysicalRegionReservation,
) -> bool {
    usage.active_reservations >= 1 && usage.canonical_chunks >= reservation.canonical_chunks
        && usage.descriptor_retained_bytes >= reservation.descriptor_retained_bytes
}

impl PhysicalRegionBudget {
    pub open spec fn spec_usage(&self) -> PhysicalRegionBudgetUsage {
        self.usage
    }

    pub fn for_phase_a_measurement_v1(
        limits: PhysicalRegionLimits,
        max_active_reservations: u64,
        max_aggregate_canonical_chunks: u64,
        max_aggregate_descriptor_retained_bytes: u64,
    ) -> (budget: Self)
        ensures
            budget.limits == limits,
            budget.max_active_reservations == max_active_reservations,
            budget.max_aggregate_canonical_chunks == max_aggregate_canonical_chunks,
            budget.max_aggregate_descriptor_retained_bytes == max_aggregate_descriptor_retained_bytes,
            budget.spec_usage() == (PhysicalRegionBudgetUsage {
                active_reservations: 0,
                canonical_chunks: 0,
                descriptor_retained_bytes: 0,
            }),
    {
        PhysicalRegionBudget {
            limits,
            max_active_reservations,
            max_aggregate_canonical_chunks,
            max_aggregate_descriptor_retained_bytes,
            usage: PhysicalRegionBudgetUsage {
                active_reservations: 0,
                canonical_chunks: 0,
                descriptor_retained_bytes: 0,
            },
        }
    }

    pub fn for_test(
        limits: PhysicalRegionLimits,
        max_active_reservations: u64,
        max_aggregate_canonical_chunks: u64,
        max_aggregate_descriptor_retained_bytes: u64,
    ) -> (budget: Self)
        ensures
            budget.limits == limits,
            budget.max_active_reservations == max_active_reservations,
            budget.max_aggregate_canonical_chunks == max_aggregate_canonical_chunks,
            budget.max_aggregate_descriptor_retained_bytes == max_aggregate_descriptor_retained_bytes,
            budget.spec_usage() == (PhysicalRegionBudgetUsage {
                active_reservations: 0,
                canonical_chunks: 0,
                descriptor_retained_bytes: 0,
            }),
    {
        Self::for_phase_a_measurement_v1(
            limits,
            max_active_reservations,
            max_aggregate_canonical_chunks,
            max_aggregate_descriptor_retained_bytes,
        )
    }

    pub fn usage_for_test(&self) -> (usage: (u64, u64, u64))
        ensures
            usage == (
                self.spec_usage().active_reservations,
                self.spec_usage().canonical_chunks,
                self.spec_usage().descriptor_retained_bytes,
            ),
    {
        (self.usage.active_reservations, self.usage.canonical_chunks, self.usage.descriptor_retained_bytes)
    }

    pub fn limits(&self) -> (limits: &PhysicalRegionLimits)
        ensures
            *limits == self.limits,
    {
        &self.limits
    }

    /// Reserves descriptors, all or nothing.
    pub fn try_reserve(&mut self, canonical_chunks: u64, descriptor_retained_bytes: u64) -> (result:
        Result<PhysicalRegionReservation, IndexConsistencyViolation>)
        ensures
            final(self).limits == old(self).limits,
            final(self).max_active_reservations == old(self).max_active_reservations,
            final(self).max_aggregate_canonical_chunks == old(self).max_aggregate_canonical_chunks,
            final(self).max_aggregate_descriptor_retained_bytes
                == old(self).max_aggregate_descriptor_retained_bytes,
            match reserved_descriptor_usage(
                old(self).spec_usage(),
                *old(self),
                canonical_chunks,
                descriptor_retained_bytes,
            ) {
                Ok(next) => result == Ok::<PhysicalRegionReservation, IndexConsistencyViolation>(
                    PhysicalRegionReservation { canonical_chunks, descriptor_retained_bytes },
                ) && final(self).spec_usage() == next,
                Err(error) => result == Err::<PhysicalRegionReservation, IndexConsistencyViolation>(
                    error,
                ) && final(self).spec_usage() == old(self).spec_usage(),
            },
    {
        let active_reservations = checked_add(self.usage.active_reservations, 1)?;
        let chunks = checked_add(self.usage.canonical_chunks, canonical_chunks)?;
        let retained = checked_add(self.usage.descriptor_retained_bytes, descriptor_retained_bytes)?;
        if active_reservations > self.max_active_reservations || chunks
            > self.max_aggregate_canonical_chunks || retained
            > self.max_aggregate_descriptor_retained_bytes {
            return Err(IndexConsistencyViolation::DescriptorReservationLimitExceeded);
        }
        self.usage = PhysicalRegionBudgetUsage {
            active_reservations,
            canonical_chunks: chunks,
            descriptor_retained_bytes: retained,
        };
        Ok(PhysicalRegionReservation { canonical_chunks, descriptor_retained_bytes })
    }

    /// Returns a live reservation to the budget.
    pub fn release(&mut self, reservation: PhysicalRegionReservation)
        requires
            descriptor_usage_covers(old(self).spec_usage(), reservation),
        ensures
            final(self).limits == old(self).limits,
            final(self).max_active_reservations == old(self).max_active_reservations,
            final(self).max_aggregate_canonical_chunks == old(self).max_aggregate_canonical_chunks,
            final(self).max_aggregate_descriptor_retained_bytes
                == old(self).max_aggregate_descriptor_retained_bytes,
            final(self).spec_usage() == released_descriptor_usage(old(self).spec_usage(), reservation),
    {
        self.usage = PhysicalRegionBudgetUsage {
            active_reservations: self.usage.active_reservations - 1,
            canonical_chunks: self.usage.canonical_chunks - reservation.canonical_chunks,
            descriptor_retained_bytes: self.usage.descriptor_retained_bytes
                - reservation.descriptor_retained_bytes,
        };
    }
}

/// A reservation that was admitted is covered by the usage after it, and releasing it restores
/// the usage before it exactly.
pub proof fn lemma_descriptor_reservation_round_trip(
    usage: PhysicalRegionBudgetUsage,
    budget: PhysicalRegionBudget,
    canonical_chunks: u64,
    descriptor_retained_bytes: u64,
)
    requires
        reserved_descriptor_usage(usage, budget, canonical_chunks, descriptor_retained_bytes) is Ok,
    ensures
        ({
            let next = reserved_descriptor_usage(
                usage,
                budget,
                canonical_chunks,
                descriptor_retained_bytes,
            )->Ok_0;
            let reservation = PhysicalRegionReservation { canonical_chunks, descriptor_retained_bytes };
            descriptor_usage_covers(next, reservation) && released_descriptor_usage(next, reservation)
                == usage
        }),
{
}

/// Length of the Data End record body: one little-endian `u32` CRC.
pub const DATA_END_BODY_LEN: u64 = 4;

/// The data section's record range: from the end of the Header body to the start of the Data
/// End record that precedes the Summary.
pub open spec fn data_section_range(header_body_end: u64, summary_start: u64) -> Result<
    ByteRange,
    IndexConsistencyViolation,
> {
    let data_end_record = RECORD_ENVELOPE_LEN + DATA_END_BODY_LEN;
    if summary_start < data_end_record || header_body_end > summary_start - data_end_record {
        Err(IndexConsistencyViolation::InvalidDataSectionEvidence)
    } else {
        Ok(ByteRange { start: header_body_end, end: (summary_start - data_end_record) as u64 })
    }
}

/// The physical ranges that one canonical Chunk Index owns.
#[derive(Clone, Copy, Debug, PartialEq, Eq, Structural)]
pub struct StoredPhysicalUnit {
    pub source_record_index: usize,
    pub chunk_range: ByteRange,
    pub message_index_region: ByteRange,
    pub unit_range: ByteRange,
}

/// Whether the offset at position `k` repeats an earlier one.
pub open spec fn offset_repeats(offsets: Seq<(u16, u64)>, k: int) -> bool {
    exists|j: int| 0 <= j < k && (#[trigger] offsets[j]).1 == offsets[k].1
}

/// Every Message Index offset from position `k` on lies in `region` and none repeats.
pub open spec fn offsets_check(offsets: Seq<(u16, u64)>, region: ByteRange, k: int) -> Result<
    (),
    IndexConsistencyViolation,
>
    decreases offsets.len() - k,
{
    if k < 0 || k >= offsets.len() {
        Ok(())
    } else if !(region.start <= offsets[k].1 && offsets[k].1 < region.end) {
        Err(IndexConsistencyViolation::MessageIndexOffsetOutsideOwningRegion)
    } else if offset_repeats(offsets, k) {
        Err(IndexConsistencyViolation::DuplicateMessageIndexOffset)
    } else {
        offsets_check(offsets, region, k + 1)
    }
}

/// The physical unit of one Chunk Index: the Chunk record, then its Message Index region,
/// both within the data section; or the first limit or consistency it breaks.
pub open spec fn physical_unit(
    source_record_index: usize,
    descriptor: ChunkIndexRecordV1,
    data: ByteRange,
    limits: PhysicalRegionLimits,
) -> Result<StoredPhysicalUnit, IndexConsistencyViolation> {
    let start = descriptor.chunk_start_offset;
    if descriptor.chunk_length < RECORD_ENVELOPE_LEN {
        Err(IndexConsistencyViolation::ChunkRecordTooShort)
    } else if descriptor.chunk_length > limits.max_chunk_record_bytes {
        Err(IndexConsistencyViolation::ChunkRecordByteLimitExceeded)
    } else if descriptor.message_index_length > limits.max_message_index_region_bytes {
        Err(IndexConsistencyViolation::MessageIndexRegionByteLimitExceeded)
    } else if string_bytes(descriptor.compression).len() > limits.max_compression_bytes {
        Err(IndexConsistencyViolation::CompressionByteLimitExceeded)
    } else if descriptor.compressed_size > limits.max_compressed_bytes {
        Err(IndexConsistencyViolation::CompressedByteLimitExceeded)
    } else if descriptor.uncompressed_size > limits.max_uncompressed_bytes {
        Err(IndexConsistencyViolation::UncompressedByteLimitExceeded)
    } else if start + descriptor.chunk_length > u64::MAX || start + descriptor.chunk_length
        + descriptor.message_index_length > u64::MAX {
        Err(IndexConsistencyViolation::ArithmeticOverflow)
    } else {
        let chunk_end = (start + descriptor.chunk_length) as u64;
        let message_index_end = (chunk_end + descriptor.message_index_length) as u64;
        let chunk_range = ByteRange { start, end: chunk_end };
        let message_index_region = ByteRange { start: chunk_end, end: message_index_end };
        if !(chunk_range.start >= data.start && chunk_range.end <= data.end)
            || !(message_index_region.start >= data.start && message_index_region.end <= data.end) {
            Err(IndexConsistencyViolation::PhysicalRegionOutsideDataSection)
        } else if (descriptor.message_index_offsets@.len() != 0) != (descriptor.message_index_length
            != 0) {
            Err(IndexConsistencyViolation::MessageIndexPresenceMismatch)
        } else {
            match offsets_check(descriptor.message_index_offsets@, message_index_region, 0) {
                Err(error) => Err(error),
                Ok(_) => Ok(
                    StoredPhysicalUnit {
                        source_record_index,
                        chunk_range,
                        message_index_region,
                        unit_range: ByteRange { start, end: message_index_end },
                    },
                ),
            }
        }
    }
}

/// Two Chunk Index records agree in every field.
pub open spec fn same_descriptor(left: ChunkIndexRecordV1, right: ChunkIndexRecordV1) -> bool {
    &&& left.message_start_time == right.message_start_time
    &&& left.message_end_time == right.message_end_time
    &&& left.chunk_start_offset == right.chunk_start_offset
    &&& left.chunk_length == right.chunk_length
    &&& left.message_index_offsets@ == right.message_index_offsets@
    &&& left.message_index_length == right.message_index_length
    &&& left.compression@ == right.compression@
    &&& left.compressed_size == right.compressed_size
    &&& left.uncompressed_size == right.uncompressed_size
}

/// The Chunk Index held by a record (meaningful only where the record is one).
pub open spec fn chunk_index_of(record: BoundedSummaryRecord) -> ChunkIndexRecordV1 {
    match record {
        BoundedSummaryRecord::Known(ParsedMcapRecordV1::ChunkIndex(descriptor)) => descriptor,
        _ => arbitrary(),
    }
}

/// Whether a record is a Chunk Index for the Chunk at `chunk_start_offset`.
pub open spec fn is_chunk_index_at(record: BoundedSummaryRecord, chunk_start_offset: u64) -> bool {
    match record {
        BoundedSummaryRecord::Known(ParsedMcapRecordV1::ChunkIndex(descriptor)) => descriptor.chunk_start_offset
            == chunk_start_offset,
        _ => false,
    }
}

/// The first index in `at..before` of a Chunk Index for the Chunk at `chunk_start_offset`.
pub open spec fn prior_descriptor_from(
    records: Seq<BoundedSummaryRecord>,
    chunk_start_offset: u64,
    at: int,
    before: int,
) -> Option<int>
    decreases before - at,
{
    if at < 0 || at >= before || at >= records.len() {
        None
    } else if is_chunk_index_at(records[at], chunk_start_offset) {
        Some(at)
    } else {
        prior_descriptor_from(records, chunk_start_offset, at + 1, before)
    }
}

/// The canonical physical units of `records[at..]` in source order, after `units`: the first
/// Chunk Index for each Chunk start is canonical, a later one must repeat it exactly.
pub open spec fn canonical_units_from(
    records: Seq<BoundedSummaryRecord>,
    data: ByteRange,
    limits: PhysicalRegionLimits,
    at: int,
    units: Seq<StoredPhysicalUnit>,
) -> Result<Seq<StoredPhysicalUnit>, IndexConsistencyViolation>
    decreases records.len() - at,
{
    if at < 0 || at >= records.len() {
        Ok(units)
    } else {
        match records[at] {
            BoundedSummaryRecord::Known(ParsedMcapRecordV1::ChunkIndex(descriptor)) => match prior_descriptor_from(
                records,
                descriptor.chunk_start_offset,
                0,
                at,
            ) {
                Some(previous) => if !same_descriptor(chunk_index_of(records[previous]), descriptor) {
                    Err(IndexConsistencyViolation::ConflictingChunkIndex)
                } else {
                    canonical_units_from(records, data, limits, at + 1, units)
                },
                None => if units.len() + 1 > u64::MAX {
                    Err(IndexConsistencyViolation::ArithmeticOverflow)
                } else if units.len() + 1 > limits.max_canonical_chunks {
                    Err(IndexConsistencyViolation::CanonicalChunkLimitExceeded)
                } else {
                    match physical_unit(at as usize, descriptor, data, limits) {
                        Err(error) => Err(error),
                        Ok(unit) => canonical_units_from(records, data, limits, at + 1, units.push(unit)),
                    }
                },
            },
            _ => canonical_units_from(records, data, limits, at + 1, units),
        }
    }
}

/// The canonical physical units of all records, in source order.
pub open spec fn canonical_units(
    records: Seq<BoundedSummaryRecord>,
    data: ByteRange,
    limits: PhysicalRegionLimits,
) -> Result<Seq<StoredPhysicalUnit>, IndexConsistencyViolation> {
    canonical_units_from(records, data, limits, 0, Seq::empty())
}

/// The first position from `at` whose unit starts after `start`.
pub open spec fn insertion_point(units: Seq<StoredPhysicalUnit>, start: u64, at: int) -> int
    decreases units.len() - at,
{
    if at < 0 || at >= units.len() {
        units.len() as int
    } else if units[at].unit_range.start > start {
        at
    } else {
        insertion_point(units, start, at + 1)
    }
}

/// The units ordered by start: each is inserted after every earlier unit that starts no later.
pub open spec fn sorted_units(units: Seq<StoredPhysicalUnit>) -> Seq<StoredPhysicalUnit>
    decreases units.len(),
{
    if units.len() == 0 {
        Seq::empty()
    } else {
        let prefix = sorted_units(units.drop_last());
        prefix.insert(insertion_point(prefix, units.last().unit_range.start, 0), units.last())
    }
}

/// Units ordered by the start of their physical range.
pub open spec fn sorted_by_start(units: Seq<StoredPhysicalUnit>) -> bool {
    forall|i: int, j: int|
        0 <= i < j < units.len() ==> (#[trigger] units[i]).unit_range.start
            <= (#[trigger] units[j]).unit_range.start
}

/// Each neighbour ends no later than the next one starts.
pub open spec fn adjacent_disjoint(units: Seq<StoredPhysicalUnit>) -> bool {
    forall|k: int|
        1 <= k < units.len() ==> units[k - 1].unit_range.end <= (#[trigger] units[k]).unit_range.start
}

/// Two half-open ranges share an offset.
pub open spec fn ranges_overlap(left: ByteRange, right: ByteRange) -> bool {
    left.start < right.end && right.start < left.end
}

/// No two units share a physical offset.
pub open spec fn pairwise_disjoint(units: Seq<StoredPhysicalUnit>) -> bool {
    forall|i: int, j: int|
        0 <= i < j < units.len() ==> !ranges_overlap(
            (#[trigger] units[i]).unit_range,
            (#[trigger] units[j]).unit_range,
        )
}

/// Every unit covers at least one offset.
pub open spec fn nonempty_units(units: Seq<StoredPhysicalUnit>) -> bool {
    forall|k: int| 0 <= k < units.len() ==> (#[trigger] units[k]).unit_range.start < units[k].unit_range.end
}

proof fn lemma_insertion_point_bounds(units: Seq<StoredPhysicalUnit>, start: u64, at: int)
    requires
        0 <= at <= units.len(),
    ensures
        at <= insertion_point(units, start, at) <= units.len(),
        forall|k: int| at <= k < insertion_point(units, start, at) ==> (#[trigger] units[k]).unit_range.start <= start,
        insertion_point(units, start, at) < units.len() ==> units[insertion_point(units, start, at)].unit_range.start > start,
    decreases units.len() - at,
{
    if at < units.len() && units[at].unit_range.start <= start {
        lemma_insertion_point_bounds(units, start, at + 1);
    }
}

/// Ordering by start keeps every unit and yields them sorted by start.
pub proof fn lemma_sorted_units(units: Seq<StoredPhysicalUnit>)
    ensures
        sorted_units(units).len() == units.len(),
        sorted_by_start(sorted_units(units)),
        sorted_units(units).to_multiset() == units.to_multiset(),
    decreases units.len(),
{
    broadcast use vstd::seq_lib::to_multiset_insert, vstd::seq_lib::to_multiset_build;

    if units.len() > 0 {
        let rest = units.drop_last();
        let last = units.last();
        lemma_sorted_units(rest);
        let prefix = sorted_units(rest);
        let p = insertion_point(prefix, last.unit_range.start, 0);
        lemma_insertion_point_bounds(prefix, last.unit_range.start, 0);
        prefix.insert_ensures(p, last);
        let sorted = prefix.insert(p, last);
        assert forall|i: int, j: int| 0 <= i < j < sorted.len() implies (#[trigger] sorted[i]).unit_range.start
            <= (#[trigger] sorted[j]).unit_range.start by {
            if j < p {
                assert(prefix[i] == sorted[i] && prefix[j] == sorted[j]);
            } else if j == p {
                assert(prefix[i] == sorted[i]);
            } else if i < p {
                assert(prefix[i] == sorted[i] && prefix[j - 1] == sorted[j]);
            } else if i == p {
                assert(prefix[j - 1] == sorted[j]);
                assert(prefix[p] == sorted[p + 1]);
                if j - 1 > p {
                    assert(prefix[p].unit_range.start <= prefix[j - 1].unit_range.start);
                }
            } else {
                assert(prefix[i - 1] == sorted[i] && prefix[j - 1] == sorted[j]);
            }
        }
        assert(units =~= rest.push(last));
    } else {
        assert(units =~= Seq::<StoredPhysicalUnit>::empty());
    }
}

/// For units sorted by start that each cover an offset, disjoint neighbours are exactly
/// pairwise disjointness.
pub proof fn lemma_adjacent_disjoint_iff_pairwise(units: Seq<StoredPhysicalUnit>)
    requires
        sorted_by_start(units),
        nonempty_units(units),
    ensures
        adjacent_disjoint(units) <==> pairwise_disjoint(units),
{
    if adjacent_disjoint(units) {
        assert forall|i: int, j: int| 0 <= i < j < units.len() implies !ranges_overlap(
            (#[trigger] units[i]).unit_range,
            (#[trigger] units[j]).unit_range,
        ) by {
            lemma_adjacent_chain(units, i, j);
        }
    }
    if pairwise_disjoint(units) {
        assert forall|k: int| 1 <= k < units.len() implies units[k - 1].unit_range.end
            <= (#[trigger] units[k]).unit_range.start by {
            assert(!ranges_overlap(units[k - 1].unit_range, units[k].unit_range));
            assert(units[k - 1].unit_range.start <= units[k].unit_range.start);
        }
    }
}

proof fn lemma_adjacent_chain(units: Seq<StoredPhysicalUnit>, i: int, j: int)
    requires
        adjacent_disjoint(units),
        nonempty_units(units),
        0 <= i < j < units.len(),
    ensures
        units[i].unit_range.end <= units[j].unit_range.start,
    decreases j - i,
{
    assert(units[j - 1].unit_range.end <= units[j].unit_range.start);
    if i < j - 1 {
        lemma_adjacent_chain(units, i, j - 1);
        assert(units[j - 1].unit_range.start < units[j - 1].unit_range.end);
    }
}

/// A unit that a canonical Chunk Index of `records` owns.
pub open spec fn unit_backed(
    records: Seq<BoundedSummaryRecord>,
    data: ByteRange,
    limits: PhysicalRegionLimits,
    unit: StoredPhysicalUnit,
) -> bool {
    &&& unit.source_record_index < records.len()
    &&& records[unit.source_record_index as int] matches BoundedSummaryRecord::Known(
        ParsedMcapRecordV1::ChunkIndex(_),
    )
    &&& physical_unit(
        unit.source_record_index,
        chunk_index_of(records[unit.source_record_index as int]),
        data,
        limits,
    ) == Ok::<StoredPhysicalUnit, IndexConsistencyViolation>(unit)
}

proof fn lemma_canonical_units_backed(
    records: Seq<BoundedSummaryRecord>,
    data: ByteRange,
    limits: PhysicalRegionLimits,
    at: int,
    units: Seq<StoredPhysicalUnit>,
)
    requires
        0 <= at,
        records.len() <= usize::MAX,
        forall|k: int| 0 <= k < units.len() ==> unit_backed(records, data, limits, #[trigger] units[k]),
        canonical_units_from(records, data, limits, at, units) is Ok,
    ensures
        forall|k: int|
            0 <= k < canonical_units_from(records, data, limits, at, units)->Ok_0.len()
                ==> unit_backed(
                records,
                data,
                limits,
                #[trigger] canonical_units_from(records, data, limits, at, units)->Ok_0[k],
            ),
    decreases records.len() - at,
{
    if at < records.len() {
        match records[at] {
            BoundedSummaryRecord::Known(ParsedMcapRecordV1::ChunkIndex(descriptor)) => {
                match prior_descriptor_from(records, descriptor.chunk_start_offset, 0, at) {
                    Some(_) => lemma_canonical_units_backed(records, data, limits, at + 1, units),
                    None => {
                        let unit = physical_unit(at as usize, descriptor, data, limits)->Ok_0;
                        let next = units.push(unit);
                        assert forall|k: int| 0 <= k < next.len() implies unit_backed(
                            records,
                            data,
                            limits,
                            #[trigger] next[k],
                        ) by {
                            if k < units.len() {
                                assert(next[k] == units[k]);
                            }
                        }
                        lemma_canonical_units_backed(records, data, limits, at + 1, next);
                    },
                }
            },
            _ => lemma_canonical_units_backed(records, data, limits, at + 1, units),
        }
    }
}

proof fn lemma_sorted_units_members(units: Seq<StoredPhysicalUnit>)
    ensures
        forall|k: int|
            0 <= k < sorted_units(units).len() ==> units.contains(#[trigger] sorted_units(units)[k]),
{
    broadcast use vstd::seq_lib::to_multiset_contains;

    lemma_sorted_units(units);
    let sorted = sorted_units(units);
    assert forall|k: int| 0 <= k < sorted.len() implies units.contains(#[trigger] sorted[k]) by {
        assert(sorted.contains(sorted[k]));
        assert(sorted.to_multiset().count(sorted[k]) > 0);
    }
}

/// The data section of the file whose Summary `definitions` hold.
pub fn data_records_range(definitions: &ValidatedSummaryDefinitions<'_>) -> (range: Result<
    ByteRange,
    IndexConsistencyViolation,
>)
    ensures
        range == data_section_range(
            definitions.spec_materialized().spec_prepared().spec_header_body_end(),
            definitions.spec_materialized().spec_prepared().spec_summary_start(),
        ),
{
    let prepared = definitions.materialized().prepared();
    let data_start = prepared.header_body_end();
    let summary_start = prepared.summary_start();
    let data_end_record_len: u64 = RECORD_ENVELOPE_LEN as u64 + DATA_END_BODY_LEN;
    if summary_start < data_end_record_len {
        return Err(IndexConsistencyViolation::InvalidDataSectionEvidence);
    }
    let data_end = summary_start - data_end_record_len;
    if data_start > data_end {
        return Err(IndexConsistencyViolation::InvalidDataSectionEvidence);
    }
    Ok(ByteRange { start: data_start, end: data_end })
}

/// Every Message Index offset lies in the owning region, and none repeats an earlier one.
pub fn check_message_index_offsets(offsets: &Vec<(u16, u64)>, region: &ByteRange) -> (checked: Result<
    (),
    IndexConsistencyViolation,
>)
    ensures
        checked == offsets_check(offsets@, *region, 0),
{
    let mut position: usize = 0;
    while position < offsets.len()
        invariant
            position <= offsets@.len(),
            offsets_check(offsets@, *region, 0) == offsets_check(offsets@, *region, position as int),
        decreases offsets@.len() - position,
    {
        let offset = offsets[position].1;
        if !(region.start <= offset && offset < region.end) {
            return Err(IndexConsistencyViolation::MessageIndexOffsetOutsideOwningRegion);
        }
        let mut previous: usize = 0;
        let mut repeated = false;
        while previous < position
            invariant
                previous <= position < offsets@.len(),
                offset == offsets@[position as int].1,
                repeated ==> offset_repeats(offsets@, position as int),
                !repeated ==> forall|j: int| 0 <= j < previous ==> (#[trigger] offsets@[j]).1 != offset,
            decreases position - previous,
        {
            if offsets[previous].1 == offset {
                repeated = true;
            }
            previous = previous + 1;
        }
        if repeated {
            return Err(IndexConsistencyViolation::DuplicateMessageIndexOffset);
        }
        position = position + 1;
    }
    Ok(())
}

/// The physical unit of one Chunk Index, checked against the limits and the data section.
pub fn compute_physical_unit(
    source_record_index: usize,
    descriptor: &ChunkIndexRecordV1,
    data_records_range: &ByteRange,
    limits: &PhysicalRegionLimits,
) -> (unit: Result<StoredPhysicalUnit, IndexConsistencyViolation>)
    ensures
        unit == physical_unit(source_record_index, *descriptor, *data_records_range, *limits),
{
    let record_envelope_len = RECORD_ENVELOPE_LEN as u64;
    if descriptor.chunk_length < record_envelope_len {
        return Err(IndexConsistencyViolation::ChunkRecordTooShort);
    }
    if descriptor.chunk_length > limits.max_chunk_record_bytes {
        return Err(IndexConsistencyViolation::ChunkRecordByteLimitExceeded);
    }
    if descriptor.message_index_length > limits.max_message_index_region_bytes {
        return Err(IndexConsistencyViolation::MessageIndexRegionByteLimitExceeded);
    }
    let compression_bytes = descriptor.compression.as_str().as_bytes().len() as u64;
    if compression_bytes > limits.max_compression_bytes {
        return Err(IndexConsistencyViolation::CompressionByteLimitExceeded);
    }
    if descriptor.compressed_size > limits.max_compressed_bytes {
        return Err(IndexConsistencyViolation::CompressedByteLimitExceeded);
    }
    if descriptor.uncompressed_size > limits.max_uncompressed_bytes {
        return Err(IndexConsistencyViolation::UncompressedByteLimitExceeded);
    }
    let chunk_end = checked_add(descriptor.chunk_start_offset, descriptor.chunk_length)?;
    let message_index_end = checked_add(chunk_end, descriptor.message_index_length)?;
    let chunk_range = ByteRange { start: descriptor.chunk_start_offset, end: chunk_end };
    let message_index_region = ByteRange { start: chunk_end, end: message_index_end };
    let unit_range = ByteRange { start: descriptor.chunk_start_offset, end: message_index_end };
    if !range_within(&chunk_range, data_records_range) || !range_within(
        &message_index_region,
        data_records_range,
    ) {
        return Err(IndexConsistencyViolation::PhysicalRegionOutsideDataSection);
    }
    let has_offsets = descriptor.message_index_offsets.len() != 0;
    let has_region = descriptor.message_index_length != 0;
    if has_offsets != has_region {
        return Err(IndexConsistencyViolation::MessageIndexPresenceMismatch);
    }
    check_message_index_offsets(&descriptor.message_index_offsets, &message_index_region)?;
    Ok(
        StoredPhysicalUnit {
            source_record_index,
            chunk_range,
            message_index_region,
            unit_range,
        },
    )
}

/// The first Chunk Index among `records[..before]` for the Chunk at `chunk_start_offset`.
pub fn find_prior_descriptor<'r>(
    records: &'r [BoundedSummaryRecord],
    chunk_start_offset: u64,
    before: usize,
) -> (found: Option<&'r ChunkIndexRecordV1>)
    ensures
        before > records@.len() ==> found is None,
        before <= records@.len() ==> match prior_descriptor_from(
            records@,
            chunk_start_offset,
            0,
            before as int,
        ) {
            Some(index) => found matches Some(descriptor) && *descriptor == chunk_index_of(
                records@[index],
            ),
            None => found is None,
        },
{
    if before > records.len() {
        return None;
    }
    let mut at: usize = 0;
    while at < before
        invariant
            at <= before <= records@.len(),
            prior_descriptor_from(records@, chunk_start_offset, 0, before as int)
                == prior_descriptor_from(records@, chunk_start_offset, at as int, before as int),
        decreases before - at,
    {
        match &records[at] {
            BoundedSummaryRecord::Known(ParsedMcapRecordV1::ChunkIndex(descriptor)) => {
                if descriptor.chunk_start_offset == chunk_start_offset {
                    return Some(descriptor);
                }
            },
            _ => {},
        }
        at = at + 1;
    }
    None
}

/// The Chunk Index held by the record at `source_record_index`.
pub fn descriptor_at<'r>(records: &'r [BoundedSummaryRecord], source_record_index: usize) -> (descriptor: &'r ChunkIndexRecordV1)
    requires
        source_record_index < records@.len(),
        records@[source_record_index as int] matches BoundedSummaryRecord::Known(
            ParsedMcapRecordV1::ChunkIndex(_),
        ),
    ensures
        *descriptor == chunk_index_of(records@[source_record_index as int]),
{
    match &records[source_record_index] {
        BoundedSummaryRecord::Known(ParsedMcapRecordV1::ChunkIndex(descriptor)) => descriptor,
        _ => vstd::pervasive::unreached(),
    }
}

/// Whether two Chunk Index records agree in every field.
pub fn descriptors_equal(left: &ChunkIndexRecordV1, right: &ChunkIndexRecordV1) -> (equal: bool)
    ensures
        equal == same_descriptor(*left, *right),
{
    if left.message_start_time != right.message_start_time || left.message_end_time
        != right.message_end_time || left.chunk_start_offset != right.chunk_start_offset
        || left.chunk_length != right.chunk_length || left.message_index_length
        != right.message_index_length || left.compressed_size != right.compressed_size
        || left.uncompressed_size != right.uncompressed_size || left.compression
        != right.compression || left.message_index_offsets.len()
        != right.message_index_offsets.len() {
        return false;
    }
    let mut k: usize = 0;
    while k < left.message_index_offsets.len()
        invariant
            k <= left.message_index_offsets@.len() == right.message_index_offsets@.len(),
            forall|i: int| 0 <= i < k ==> left.message_index_offsets@[i] == right.message_index_offsets@[i],
        decreases left.message_index_offsets@.len() - k,
    {
        if left.message_index_offsets[k].0 != right.message_index_offsets[k].0
            || left.message_index_offsets[k].1 != right.message_index_offsets[k].1 {
            return false;
        }
        k = k + 1;
    }
    assert(left.message_index_offsets@ =~= right.message_index_offsets@);
    true
}

/// The position at which a unit starting at `start` joins the start-ordered `units`.
pub fn find_insertion_point(units: &Vec<StoredPhysicalUnit>, start: u64) -> (position: usize)
    ensures
        position == insertion_point(units@, start, 0),
{
    let mut at: usize = 0;
    while at < units.len()
        invariant
            at <= units@.len(),
            insertion_point(units@, start, 0) == insertion_point(units@, start, at as int),
        decreases units@.len() - at,
    {
        if units[at].unit_range.start > start {
            return at;
        }
        at = at + 1;
    }
    at
}

/// Sealed descriptor-ownership evidence for all canonical indexed physical units.
///
/// It owns the validated Summary definitions and the descriptor reservation, and holds the
/// canonical units ordered by start. It proves descriptor ranges and ownership only, not that any
/// Message Index offset is aligned to a record envelope.
pub struct ValidatedPhysicalRegions<'a> {
    definitions: ValidatedSummaryDefinitions<'a>,
    data_records_range: ByteRange,
    units: Vec<StoredPhysicalUnit>,
    reservation: PhysicalRegionReservation,
}

/// One canonical descriptor and the physical ranges it owns.
///
/// The descriptor's Message Index offsets are known to lie in the owning region only; they carry
/// no record-envelope alignment.
pub struct CanonicalPhysicalRegion<'a> {
    pub raw_descriptor: &'a ChunkIndexRecordV1,
    pub chunk_range: ByteRange,
    pub message_index_region: ByteRange,
    pub unit_range: ByteRange,
}

impl<'a> CanonicalPhysicalRegion<'a> {
    pub fn raw_descriptor(&self) -> (descriptor: &'a ChunkIndexRecordV1)
        ensures
            *descriptor == *self.raw_descriptor,
    {
        self.raw_descriptor
    }

    pub fn chunk_range(&self) -> (range: ByteRange)
        ensures
            range == self.chunk_range,
    {
        self.chunk_range
    }

    pub fn message_index_region(&self) -> (range: ByteRange)
        ensures
            range == self.message_index_region,
    {
        self.message_index_region
    }

    pub fn unit_range(&self) -> (range: ByteRange)
        ensures
            range == self.unit_range,
    {
        self.unit_range
    }
}

/// `region` presents `unit` of the Summary `records`.
pub open spec fn presents_unit(
    records: Seq<BoundedSummaryRecord>,
    unit: StoredPhysicalUnit,
    region: CanonicalPhysicalRegion,
) -> bool {
    &&& *region.raw_descriptor == chunk_index_of(records[unit.source_record_index as int])
    &&& region.chunk_range == unit.chunk_range
    &&& region.message_index_region == unit.message_index_region
    &&& region.unit_range == unit.unit_range
}

impl<'a> ValidatedPhysicalRegions<'a> {
    #[verifier::type_invariant]
    spec fn units_owned(self) -> bool {
        &&& forall|k: int|
            0 <= k < self.units@.len() ==> {
                let index = (#[trigger] self.units@[k]).source_record_index;
                &&& index < self.definitions.spec_records().len()
                &&& self.definitions.spec_records()[index as int] matches BoundedSummaryRecord::Known(
                    ParsedMcapRecordV1::ChunkIndex(_),
                )
            }
        &&& sorted_by_start(self.units@)
        &&& pairwise_disjoint(self.units@)
        &&& self.reservation.canonical_chunks == self.units@.len()
    }

    pub closed spec fn spec_definitions(&self) -> ValidatedSummaryDefinitions<'a> {
        self.definitions
    }

    pub closed spec fn spec_data_records_range(&self) -> ByteRange {
        self.data_records_range
    }

    /// The canonical units, ordered by start.
    pub closed spec fn spec_units(&self) -> Seq<StoredPhysicalUnit> {
        self.units@
    }

    pub closed spec fn spec_reservation(&self) -> PhysicalRegionReservation {
        self.reservation
    }

    pub fn definitions(&self) -> (definitions: &ValidatedSummaryDefinitions<'a>)
        ensures
            *definitions == self.spec_definitions(),
    {
        &self.definitions
    }

    pub fn data_records_range(&self) -> (range: ByteRange)
        ensures
            range == self.spec_data_records_range(),
    {
        self.data_records_range
    }

    pub fn canonical_chunk_count(&self) -> (count: usize)
        ensures
            count == self.spec_units().len(),
    {
        self.units.len()
    }

    /// The canonical region at `canonical_ordinal` in start order.
    pub fn region(&self, canonical_ordinal: usize) -> (region: Option<CanonicalPhysicalRegion<'_>>)
        ensures
            canonical_ordinal < self.spec_units().len() ==> (region matches Some(r) && presents_unit(
                self.spec_definitions().spec_records(),
                self.spec_units()[canonical_ordinal as int],
                r,
            )),
            canonical_ordinal >= self.spec_units().len() ==> region is None,
    {
        proof {
            use_type_invariant(self);
        }
        if canonical_ordinal >= self.units.len() {
            return None;
        }
        let unit = self.units[canonical_ordinal];
        Some(
            CanonicalPhysicalRegion {
                raw_descriptor: descriptor_at(
                    self.definitions.materialized().records(),
                    unit.source_record_index,
                ),
                chunk_range: unit.chunk_range,
                message_index_region: unit.message_index_region,
                unit_range: unit.unit_range,
            },
        )
    }

    /// Every canonical region, in start order.
    pub fn regions(&self) -> (regions: Vec<CanonicalPhysicalRegion<'_>>)
        ensures
            regions@.len() == self.spec_units().len(),
            forall|k: int|
                0 <= k < regions@.len() ==> presents_unit(
                    self.spec_definitions().spec_records(),
                    self.spec_units()[k],
                    #[trigger] regions@[k],
                ),
    {
        let mut regions: Vec<CanonicalPhysicalRegion<'_>> = Vec::new();
        let mut k: usize = 0;
        while k < self.units.len()
            invariant
                k <= self.spec_units().len(),
                regions@.len() == k,
                forall|i: int|
                    0 <= i < k ==> presents_unit(
                        self.spec_definitions().spec_records(),
                        self.spec_units()[i],
                        #[trigger] regions@[i],
                    ),
            decreases self.spec_units().len() - k,
        {
            match self.region(k) {
                Some(region) => regions.push(region),
                None => {},
            }
            k = k + 1;
        }
        regions
    }

    /// The checked footprint this lower stage retains: the unit descriptors and their
    /// reservation, the materialized records, their owned strings and bytes, the borrowed Header
    /// and Summary bytes, and the owners themselves.
    pub open spec fn spec_retained_bytes(&self) -> Result<u64, IndexConsistencyViolation> {
        let materialized = self.spec_definitions().spec_materialized();
        let nested = materialized.spec_reservation().census;
        let prepared = materialized.spec_prepared();
        let total = self.spec_units().len() * vstd::layout::size_of::<StoredPhysicalUnit>()
            + self.spec_reservation().descriptor_retained_bytes + materialized.spec_records().len()
            * vstd::layout::size_of::<BoundedSummaryRecord>() + nested.owned_string_bytes
            + nested.schema_data_bytes + nested.nested_retained_bytes
            + prepared.spec_header_body().len() + prepared.spec_summary().len()
            + vstd::layout::size_of::<ValidatedPhysicalRegions<'a>>() + vstd::layout::size_of::<
            ValidatedSummaryDefinitions<'a>,
        >() + vstd::layout::size_of::<
            crate::remote_summary::materialization::MaterializedSummaryRecords<'a>,
        >();
        if total > u64::MAX {
            Err(IndexConsistencyViolation::ArithmeticOverflow)
        } else {
            Ok(total as u64)
        }
    }

    /// Computes `spec_retained_bytes` with checked arithmetic.
    pub fn retained_bytes_v1(&self) -> (bytes: Result<u64, IndexConsistencyViolation>)
        ensures
            bytes == self.spec_retained_bytes(),
    {
        let units = checked_mul(self.units.len() as u64, std::mem::size_of::<StoredPhysicalUnit>() as u64);
        let descriptor = self.reservation.descriptor_retained_bytes;
        let materialized = self.definitions.materialized();
        let records = checked_mul(
            materialized.records().len() as u64,
            std::mem::size_of::<BoundedSummaryRecord>() as u64,
        );
        let nested = materialized.nested_census();
        let prepared = materialized.prepared();
        let header_len = prepared.header_body().len() as u64;
        let summary_len = prepared.summary_bytes().len() as u64;
        let own = std::mem::size_of::<ValidatedPhysicalRegions<'a>>() as u64;
        let definitions = std::mem::size_of::<ValidatedSummaryDefinitions<'a>>() as u64;
        let materialized_owner = std::mem::size_of::<
            crate::remote_summary::materialization::MaterializedSummaryRecords<'a>,
        >() as u64;
        let mut total: u64 = match units {
            Ok(value) => value,
            Err(error) => return Err(error),
        };
        total = checked_add(total, descriptor)?;
        total = checked_add(total, records?)?;
        total = checked_add(total, nested.owned_string_bytes)?;
        total = checked_add(total, nested.schema_data_bytes)?;
        total = checked_add(total, nested.nested_retained_bytes)?;
        total = checked_add(total, header_len)?;
        total = checked_add(total, summary_len)?;
        total = checked_add(total, own)?;
        total = checked_add(total, definitions)?;
        total = checked_add(total, materialized_owner)?;
        Ok(total)
    }
}

/// The descriptor bytes retained for `count` canonical units.
pub open spec fn descriptor_retained_bytes(count: nat) -> nat {
    count * vstd::layout::size_of::<StoredPhysicalUnit>()
}

proof fn lemma_backed_units(
    records: Seq<BoundedSummaryRecord>,
    data: ByteRange,
    limits: PhysicalRegionLimits,
    units: Seq<StoredPhysicalUnit>,
)
    requires
        records.len() <= usize::MAX,
        canonical_units(records, data, limits) == Ok::<
            Seq<StoredPhysicalUnit>,
            IndexConsistencyViolation,
        >(units),
    ensures
        forall|k: int|
            0 <= k < sorted_units(units).len() ==> unit_backed(
                records,
                data,
                limits,
                #[trigger] sorted_units(units)[k],
            ),
        nonempty_units(sorted_units(units)),
        sorted_by_start(sorted_units(units)),
        sorted_units(units).len() == units.len(),
{
    lemma_canonical_units_backed(records, data, limits, 0, Seq::empty());
    assert(units == canonical_units_from(records, data, limits, 0, Seq::empty())->Ok_0);
    assert forall|m: int| 0 <= m < units.len() implies unit_backed(records, data, limits, #[trigger] units[m]) by {
        assert(unit_backed(records, data, limits, canonical_units_from(records, data, limits, 0, Seq::empty())->Ok_0[m]));
    }
    lemma_sorted_units(units);
    lemma_sorted_units_members(units);
    let sorted = sorted_units(units);
    assert forall|k: int| 0 <= k < sorted.len() implies unit_backed(
        records,
        data,
        limits,
        #[trigger] sorted[k],
    ) by {
        assert(units.contains(sorted[k]));
        let m = choose|m: int| 0 <= m < units.len() && units[m] == sorted[k];
        assert(unit_backed(records, data, limits, units[m]));
    }
    assert forall|k: int| 0 <= k < sorted.len() implies (#[trigger] sorted[k]).unit_range.start
        < sorted[k].unit_range.end by {
        assert(unit_backed(records, data, limits, sorted[k]));
    }
}

/// Validates descriptor identity, range ownership and physical non-overlap of every canonical
/// Chunk Index, without reading any Chunk or Message Index bytes.
///
/// The descriptor bytes are reserved from `budget` before the units are collected, and returned
/// to it on every failure after that.
pub fn validate_physical_regions<'a>(
    definitions: ValidatedSummaryDefinitions<'a>,
    budget: &mut PhysicalRegionBudget,
) -> (result: Result<ValidatedPhysicalRegions<'a>, IndexConsistencyViolation>)
    ensures
        final(budget).limits == old(budget).limits,
        final(budget).max_active_reservations == old(budget).max_active_reservations,
        final(budget).max_aggregate_canonical_chunks == old(budget).max_aggregate_canonical_chunks,
        final(budget).max_aggregate_descriptor_retained_bytes
            == old(budget).max_aggregate_descriptor_retained_bytes,
        match data_section_range(
            definitions.spec_materialized().spec_prepared().spec_header_body_end(),
            definitions.spec_materialized().spec_prepared().spec_summary_start(),
        ) {
            Err(error) => result == Err::<ValidatedPhysicalRegions<'a>, IndexConsistencyViolation>(
                error,
            ) && final(budget).spec_usage() == old(budget).spec_usage(),
            Ok(data) => match canonical_units(definitions.spec_records(), data, old(budget).limits) {
                Err(error) => result == Err::<ValidatedPhysicalRegions<'a>, IndexConsistencyViolation>(
                    error,
                ) && final(budget).spec_usage() == old(budget).spec_usage(),
                Ok(units) => if descriptor_retained_bytes(units.len()) > u64::MAX {
                    result == Err::<ValidatedPhysicalRegions<'a>, IndexConsistencyViolation>(
                        IndexConsistencyViolation::ArithmeticOverflow,
                    ) && final(budget).spec_usage() == old(budget).spec_usage()
                } else if descriptor_retained_bytes(units.len())
                    > old(budget).limits.max_descriptor_retained_bytes {
                    result == Err::<ValidatedPhysicalRegions<'a>, IndexConsistencyViolation>(
                        IndexConsistencyViolation::DescriptorRetainedByteLimitExceeded,
                    ) && final(budget).spec_usage() == old(budget).spec_usage()
                } else {
                    match reserved_descriptor_usage(
                        old(budget).spec_usage(),
                        *old(budget),
                        units.len() as u64,
                        descriptor_retained_bytes(units.len()) as u64,
                    ) {
                        Err(error) => result == Err::<
                            ValidatedPhysicalRegions<'a>,
                            IndexConsistencyViolation,
                        >(error) && final(budget).spec_usage() == old(budget).spec_usage(),
                        Ok(next) => if units.len() > usize::MAX {
                            result == Err::<ValidatedPhysicalRegions<'a>, IndexConsistencyViolation>(
                                IndexConsistencyViolation::ArithmeticOverflow,
                            ) && final(budget).spec_usage() == old(budget).spec_usage()
                        } else {
                            ||| result == Err::<ValidatedPhysicalRegions<'a>, IndexConsistencyViolation>(
                                IndexConsistencyViolation::DescriptorAllocationFailed,
                            ) && final(budget).spec_usage() == old(budget).spec_usage()
                            ||| !pairwise_disjoint(sorted_units(units)) && result == Err::<
                                ValidatedPhysicalRegions<'a>,
                                IndexConsistencyViolation,
                            >(IndexConsistencyViolation::PhysicalRegionOverlap)
                                && final(budget).spec_usage() == old(budget).spec_usage()
                            ||| pairwise_disjoint(sorted_units(units)) && (result matches Ok(regions)
                                && regions.spec_definitions() == definitions
                                && regions.spec_data_records_range() == data && regions.spec_units()
                                == sorted_units(units) && regions.spec_reservation() == (
                            PhysicalRegionReservation {
                                canonical_chunks: units.len() as u64,
                                descriptor_retained_bytes: descriptor_retained_bytes(
                                    units.len(),
                                ) as u64,
                            }) && final(budget).spec_usage() == next)
                        },
                    }
                },
            },
        },
{
    let data = data_records_range(&definitions)?;
    let limits: PhysicalRegionLimits = *budget.limits();
    let records = definitions.materialized().records();
    let _record_count = definitions.source_record_count();
    let canonical_chunks = canonical_unit_count(records, &data, &limits)?;
    let ghost units = canonical_units(records@, data, limits)->Ok_0;
    proof {
        lemma_backed_units(records@, data, limits, units);
    }
    let unit_size = std::mem::size_of::<StoredPhysicalUnit>() as u64;
    let retained = checked_mul(canonical_chunks, unit_size)?;
    if retained > limits.max_descriptor_retained_bytes {
        return Err(IndexConsistencyViolation::DescriptorRetainedByteLimitExceeded);
    }
    let reservation = budget.try_reserve(canonical_chunks, retained)?;
    proof {
        lemma_descriptor_reservation_round_trip(
            old(budget).spec_usage(),
            *old(budget),
            canonical_chunks,
            retained,
        );
    }
    if canonical_chunks > usize::MAX as u64 {
        budget.release(reservation);
        return Err(IndexConsistencyViolation::ArithmeticOverflow);
    }
    let canonical_chunks_usize = canonical_chunks as usize;
    let mut room: Vec<StoredPhysicalUnit> = Vec::new();
    if !crate::remote_ros2_reflection::arenas::try_reserve_exact_room(
        &mut room,
        canonical_chunks_usize,
    ) {
        budget.release(reservation);
        return Err(IndexConsistencyViolation::DescriptorAllocationFailed);
    }
    let sorted = match collect_disjoint_units(records, &data, &limits, room) {
        Ok(sorted) => sorted,
        Err(violation) => {
            budget.release(reservation);
            return Err(violation);
        },
    };
    Ok(
        ValidatedPhysicalRegions {
            definitions,
            data_records_range: data,
            units: sorted,
            reservation,
        },
    )
}

/// Collects the canonical units of `records` into `room`, an empty vector claimed for them, in
/// start order: the sorted units where no two of them overlap, `PhysicalRegionOverlap` where two
/// do.
pub fn collect_disjoint_units(
    records: &[BoundedSummaryRecord],
    data: &ByteRange,
    limits: &PhysicalRegionLimits,
    room: Vec<StoredPhysicalUnit>,
) -> (result: Result<Vec<StoredPhysicalUnit>, IndexConsistencyViolation>)
    requires
        records@.len() <= usize::MAX,
        canonical_units(records@, *data, *limits) is Ok,
        room@ == Seq::<StoredPhysicalUnit>::empty(),
    ensures
        ({
            let units = sorted_units(canonical_units(records@, *data, *limits)->Ok_0);
            if pairwise_disjoint(units) {
                result matches Ok(sorted) && sorted@ == units
            } else {
                result == Err::<Vec<StoredPhysicalUnit>, IndexConsistencyViolation>(
                    IndexConsistencyViolation::PhysicalRegionOverlap,
                )
            }
        }),
{
    proof {
        lemma_backed_units(records@, *data, *limits, canonical_units(records@, *data, *limits)->Ok_0);
    }
    let mut sorted = room;
    collect_sorted_units(records, data, limits, &mut sorted);
    proof {
        lemma_adjacent_disjoint_iff_pairwise(sorted@);
    }
    if !neighbours_disjoint(&sorted) {
        return Err(IndexConsistencyViolation::PhysicalRegionOverlap);
    }
    Ok(sorted)
}

/// The number of canonical units, counted without allocating; or the first failure.
pub fn canonical_unit_count(
    records: &[BoundedSummaryRecord],
    data: &ByteRange,
    limits: &PhysicalRegionLimits,
) -> (count: Result<u64, IndexConsistencyViolation>)
    requires
        records@.len() <= usize::MAX,
    ensures
        match canonical_units(records@, *data, *limits) {
            Ok(units) => count == Ok::<u64, IndexConsistencyViolation>(units.len() as u64)
                && units.len() <= u64::MAX,
            Err(error) => count == Err::<u64, IndexConsistencyViolation>(error),
        },
{
    let mut canonical_chunks: u64 = 0;
    let ghost mut collected: Seq<StoredPhysicalUnit> = Seq::empty();
    let mut at: usize = 0;
    while at < records.len()
        invariant
            at <= records@.len(),
            canonical_chunks == collected.len(),
            canonical_units(records@, *data, *limits) == canonical_units_from(
                records@,
                *data,
                *limits,
                at as int,
                collected,
            ),
        decreases records@.len() - at,
    {
        match &records[at] {
            BoundedSummaryRecord::Known(ParsedMcapRecordV1::ChunkIndex(descriptor)) => {
                match find_prior_descriptor(records, descriptor.chunk_start_offset, at) {
                    Some(previous) => {
                        if !descriptors_equal(previous, descriptor) {
                            return Err(IndexConsistencyViolation::ConflictingChunkIndex);
                        }
                    },
                    None => {
                        canonical_chunks = checked_add(canonical_chunks, 1)?;
                        if canonical_chunks > limits.max_canonical_chunks {
                            return Err(IndexConsistencyViolation::CanonicalChunkLimitExceeded);
                        }
                        let unit = compute_physical_unit(at, descriptor, data, limits)?;
                        proof {
                            collected = collected.push(unit);
                        }
                    },
                }
            },
            _ => {},
        }
        at = at + 1;
    }
    Ok(canonical_chunks)
}

/// Appends the canonical units to the empty `sorted`, each at its place in start order.
pub fn collect_sorted_units(
    records: &[BoundedSummaryRecord],
    data: &ByteRange,
    limits: &PhysicalRegionLimits,
    sorted: &mut Vec<StoredPhysicalUnit>,
)
    requires
        records@.len() <= usize::MAX,
        canonical_units(records@, *data, *limits) is Ok,
        old(sorted)@ == Seq::<StoredPhysicalUnit>::empty(),
    ensures
        final(sorted)@ == sorted_units(canonical_units(records@, *data, *limits)->Ok_0),
{
    let ghost units = canonical_units(records@, *data, *limits)->Ok_0;
    let ghost mut collected: Seq<StoredPhysicalUnit> = Seq::empty();
    assert(sorted@ =~= sorted_units(collected));
    let mut at: usize = 0;
    while at < records.len()
        invariant
            at <= records@.len(),
            canonical_units_from(records@, *data, *limits, at as int, collected) == Ok::<
                Seq<StoredPhysicalUnit>,
                IndexConsistencyViolation,
            >(units),
            sorted@ == sorted_units(collected),
        decreases records@.len() - at,
    {
        match &records[at] {
            BoundedSummaryRecord::Known(ParsedMcapRecordV1::ChunkIndex(descriptor)) => {
                if find_prior_descriptor(records, descriptor.chunk_start_offset, at).is_none() {
                    match compute_physical_unit(at, descriptor, data, limits) {
                        Ok(unit) => {
                            let position = find_insertion_point(sorted, unit.unit_range.start);
                            proof {
                                lemma_insertion_point_bounds(sorted@, unit.unit_range.start, 0);
                            }
                            sorted.insert(position, unit);
                            proof {
                                let extended = collected.push(unit);
                                assert(extended.drop_last() =~= collected);
                                collected = extended;
                            }
                        },
                        Err(_) => vstd::pervasive::unreached(),
                    }
                }
            },
            _ => {},
        }
        at = at + 1;
    }
}

/// Whether each unit ends no later than the next one starts.
pub fn neighbours_disjoint(units: &Vec<StoredPhysicalUnit>) -> (disjoint: bool)
    ensures
        disjoint == adjacent_disjoint(units@),
{
    let mut k: usize = 1;
    while k < units.len()
        invariant
            1 <= k,
            forall|m: int|
                1 <= m < k && m < units@.len() ==> units@[m - 1].unit_range.end
                    <= (#[trigger] units@[m]).unit_range.start,
        decreases units@.len() - k,
    {
        if units[k - 1].unit_range.end > units[k].unit_range.start {
            return false;
        }
        k = k + 1;
    }
    true
}
/// The Chunk Index that owns the canonical region at `ordinal` in start order.
pub open spec fn canonical_descriptor(physical: ValidatedPhysicalRegions, ordinal: int) -> ChunkIndexRecordV1 {
    chunk_index_of(
        physical.spec_definitions().spec_records()[physical.spec_units()[ordinal].source_record_index as int],
    )
}

} // verus!
