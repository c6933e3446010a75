//! Allocation-free preparation of the remote MCAP Header and Summary records.
//!
//! This first stage validates only the flat Header lengths, the record envelopes, the section
//! boundaries and the top-level record counts. No record body is parsed here.
use crate::mcap_opcodes::{
    le_u32_at, le_u64_at, read_le_u32, read_le_u64, OP_ATTACHMENT_INDEX, OP_CHANNEL,
    OP_CHUNK_INDEX, OP_DATA_END, OP_HEADER, OP_METADATA_INDEX, OP_SCHEMA, OP_STATISTICS,
    OP_SUMMARY_OFFSET, RECORD_ENVELOPE_LEN,
};
use vstd::prelude::*;

pub mod ambiguous_zero;
pub mod definitions;
pub mod materialization;
pub mod message_index;
pub mod physical_regions;
pub mod summary_records;

verus! {

/// Length of a Summary Offset record body: group opcode, group start and group length.
pub const SUMMARY_OFFSET_BODY_LEN: u64 = 17;

/// Fixed scalar limits projected from the remote resource profile.
#[derive(Clone, Copy, Debug)]
pub struct SummaryCensusLimits {
    pub max_header_body_bytes: u64,
    pub max_summary_bytes: u64,
    pub max_summary_records: u64,
    pub max_schema_records: u64,
    pub max_channel_records: u64,
    pub max_chunk_index_records: u64,
}

/// Allocation-free top-level record counts.
#[derive(Clone, Copy, Debug, PartialEq, Eq)]
pub struct SummaryRecordCensus {
    pub summary_records: u64,
    pub schema_records: u64,
    pub channel_records: u64,
    pub chunk_index_records: u64,
    pub summary_offset_records: u64,
    pub unknown_records: u64,
}

/// The census before any record has been observed.
pub open spec fn empty_census() -> SummaryRecordCensus {
    SummaryRecordCensus {
        summary_records: 0,
        schema_records: 0,
        channel_records: 0,
        chunk_index_records: 0,
        summary_offset_records: 0,
        unknown_records: 0,
    }
}

impl Default for SummaryRecordCensus {
    fn default() -> (census: Self)
        ensures
            census == empty_census(),
    {
        SummaryRecordCensus {
            summary_records: 0,
            schema_records: 0,
            channel_records: 0,
            chunk_index_records: 0,
            summary_offset_records: 0,
            unknown_records: 0,
        }
    }
}

/// One exact read of the remote object: its absolute start offset and the bytes read there.
#[derive(Clone, Copy)]
pub struct RemoteMcapSlice<'a> {
    pub offset: u64,
    pub bytes: &'a [u8],
}

impl<'a> RemoteMcapSlice<'a> {
    pub fn new(offset: u64, bytes: &'a [u8]) -> (slice: Self)
        ensures
            slice.offset == offset,
            slice.bytes@ == bytes@,
    {
        RemoteMcapSlice { offset, bytes }
    }
}

/// The fixed Header/Footer layout evidence that the Summary census consumes.
///
/// It holds the absolute Header body range, the absolute Summary range, the optional start of
/// the Summary Offset section and the exact Summary bytes.
pub struct ValidatedFixedLayout<'a> {
    pub header_body_start: u64,
    pub header_body_end: u64,
    pub summary_start: u64,
    pub summary_offset_start: Option<u64>,
    pub summary: &'a [u8],
}

impl<'a> ValidatedFixedLayout<'a> {
    pub fn summary_bytes(&self) -> (bytes: &'a [u8])
        ensures
            bytes@ == self.summary@,
    {
        self.summary
    }
}

/// An allocation-free Header/Summary preparation failure.
///
/// Errors omit offsets, declared lengths, record contents and source identifiers.
#[derive(Clone, Copy, Debug, PartialEq, Eq)]
pub enum SummaryCensusError {
    HeaderReadRangeMismatch,
    HeaderBytesLimitExceeded,
    HeaderLengthPrefixTruncated,
    HeaderFieldOutOfBounds,
    HeaderTrailingBytes,
    SummaryBytesLimitExceeded,
    SummaryOffsetBoundaryInvalid,
    RecordEnvelopeTruncated,
    RecordRangeOverflow,
    RecordBodyOutOfBounds,
    InvalidRecordOpcode,
    ForbiddenSummaryRecordOpcode,
    RepeatedSummaryOpcodeGroup,
    SummaryRecordLimitExceeded,
    SchemaRecordLimitExceeded,
    ChannelRecordLimitExceeded,
    ChunkIndexRecordLimitExceeded,
    UnexpectedSummaryOffsetRecord,
    InvalidSummaryOffsetOpcode,
    InvalidSummaryOffsetBodyLength,
}

/// Sealed evidence that Header and Summary top-level preparation completed.
pub struct PreparedSummaryRecords<'a> {
    fixed_layout: ValidatedFixedLayout<'a>,
    header_body: &'a [u8],
    main_summary: &'a [u8],
    census: SummaryRecordCensus,
}

impl<'a> PreparedSummaryRecords<'a> {
    pub closed spec fn spec_header_body(&self) -> Seq<u8> {
        self.header_body@
    }

    pub closed spec fn spec_summary(&self) -> Seq<u8> {
        self.fixed_layout.summary@
    }

    pub closed spec fn spec_census(&self) -> SummaryRecordCensus {
        self.census
    }

    /// The main Summary section: the Summary bytes before the Summary Offset section.
    pub closed spec fn spec_main_summary(&self) -> Seq<u8> {
        self.main_summary@
    }

    pub closed spec fn spec_summary_offset_start(&self) -> Option<u64> {
        self.fixed_layout.summary_offset_start
    }

    pub closed spec fn spec_summary_start(&self) -> u64 {
        self.fixed_layout.summary_start
    }

    /// The absolute end of the Header body: where the data section begins.
    pub closed spec fn spec_header_body_end(&self) -> u64 {
        self.fixed_layout.header_body_end
    }

    pub fn header_body_end(&self) -> (end: u64)
        ensures
            end == self.spec_header_body_end(),
    {
        self.fixed_layout.header_body_end
    }

    pub fn summary_start(&self) -> (start: u64)
        ensures
            start == self.spec_summary_start(),
    {
        self.fixed_layout.summary_start
    }

    pub fn header_body(&self) -> (bytes: &'a [u8])
        ensures
            bytes@ == self.spec_header_body(),
    {
        self.header_body
    }

    pub fn summary_bytes(&self) -> (bytes: &'a [u8])
        ensures
            bytes@ == self.spec_summary(),
    {
        self.fixed_layout.summary
    }

    pub fn main_summary_bytes(&self) -> (bytes: &'a [u8])
        ensures
            bytes@ == self.spec_main_summary(),
    {
        self.main_summary
    }

    pub fn census(&self) -> (census: SummaryRecordCensus)
        ensures
            census == self.spec_census(),
    {
        self.census
    }

    pub fn into_fixed_layout(self) -> (layout: ValidatedFixedLayout<'a>)
        ensures
            layout.summary@ == self.spec_summary(),
            layout.summary_offset_start == self.spec_summary_offset_start(),
            layout.summary_start == self.spec_summary_start(),
    {
        self.fixed_layout
    }
}

/// One validated record envelope: its opcode, declared body length and end position.
#[derive(Clone, Copy, Debug, PartialEq, Eq)]
pub struct RecordEnvelope {
    pub opcode: u8,
    pub body_len: u64,
    pub end: usize,
}

/// The envelope of the record starting at `start` in `bytes`.
pub open spec fn record_envelope_at(bytes: Seq<u8>, start: int) -> Result<
    RecordEnvelope,
    SummaryCensusError,
> {
    if start + RECORD_ENVELOPE_LEN > usize::MAX {
        Err(SummaryCensusError::RecordRangeOverflow)
    } else if start + RECORD_ENVELOPE_LEN > bytes.len() {
        Err(SummaryCensusError::RecordEnvelopeTruncated)
    } else if bytes[start] == 0 {
        Err(SummaryCensusError::InvalidRecordOpcode)
    } else {
        let body_len = le_u64_at(bytes, start + 1);
        let end = start + RECORD_ENVELOPE_LEN + body_len;
        if end > usize::MAX {
            Err(SummaryCensusError::RecordRangeOverflow)
        } else if end > bytes.len() {
            Err(SummaryCensusError::RecordBodyOutOfBounds)
        } else {
            Ok(RecordEnvelope { opcode: bytes[start], body_len, end: end as usize })
        }
    }
}

/// Reads and bounds-checks the record envelope starting at `start`.
pub fn next_record(bytes: &[u8], start: usize) -> (envelope: Result<
    RecordEnvelope,
    SummaryCensusError,
>)
    ensures
        envelope == record_envelope_at(bytes@, start as int),
        envelope matches Ok(e) ==> start + RECORD_ENVELOPE_LEN <= e.end <= bytes@.len(),
{
    if start > usize::MAX - RECORD_ENVELOPE_LEN {
        return Err(SummaryCensusError::RecordRangeOverflow);
    }
    let envelope_end = start + RECORD_ENVELOPE_LEN;
    if envelope_end > bytes.len() {
        return Err(SummaryCensusError::RecordEnvelopeTruncated);
    }
    let opcode = bytes[start];
    if opcode == 0 {
        return Err(SummaryCensusError::InvalidRecordOpcode);
    }
    let body_len = read_le_u64(bytes, start + 1);
    if body_len > (usize::MAX - envelope_end) as u64 {
        return Err(SummaryCensusError::RecordRangeOverflow);
    }
    let end = envelope_end + body_len as usize;
    if end > bytes.len() {
        return Err(SummaryCensusError::RecordBodyOutOfBounds);
    }
    Ok(RecordEnvelope { opcode, body_len, end })
}

/// The opcode groups of the main Summary section: every opcode occupies one contiguous run.
pub struct SummaryOpcodeGroups {
    seen: [bool; 256],
    current: Option<u8>,
}

/// One contiguous-group observation over the set of opcodes seen and the current run.
pub open spec fn observe_opcode_group(seen: Set<u8>, current: Option<u8>, opcode: u8) -> Result<
    (Set<u8>, Option<u8>),
    SummaryCensusError,
> {
    if current == Some(opcode) {
        Ok((seen, current))
    } else if seen.contains(opcode) {
        Err(SummaryCensusError::RepeatedSummaryOpcodeGroup)
    } else {
        Ok((seen.insert(opcode), Some(opcode)))
    }
}

impl SummaryOpcodeGroups {
    pub closed spec fn seen_set(&self) -> Set<u8> {
        Set::new(|opcode: u8| self.seen@[opcode as int])
    }

    pub closed spec fn current_run(&self) -> Option<u8> {
        self.current
    }

    pub fn new() -> (groups: Self)
        ensures
            groups.seen_set() == Set::<u8>::empty(),
            groups.current_run() == None::<u8>,
    {
        let groups = SummaryOpcodeGroups { seen: [false; 256], current: None };
        assert(groups.seen_set() =~= Set::<u8>::empty());
        groups
    }

    pub fn observe(&mut self, opcode: u8) -> (result: Result<(), SummaryCensusError>)
        ensures
            match observe_opcode_group(old(self).seen_set(), old(self).current_run(), opcode) {
                Ok((seen, current)) => result is Ok && final(self).seen_set() == seen
                    && final(self).current_run() == current,
                Err(error) => result == Err::<(), SummaryCensusError>(error),
            },
    {
        if self.current == Some(opcode) {
            return Ok(());
        }
        let index = opcode as usize;
        if self.seen[index] {
            return Err(SummaryCensusError::RepeatedSummaryOpcodeGroup);
        }
        let ghost before = self.seen_set();
        self.seen[index] = true;
        self.current = Some(opcode);
        assert(self.seen_set() =~= before.insert(opcode));
        Ok(())
    }
}


/// Whether the main Summary section admits the opcode: the summary record types of the format,
/// and every future or private opcode (0x10 and above).
pub open spec fn main_summary_opcode_check(opcode: u8) -> Result<(), SummaryCensusError> {
    if opcode == OP_SCHEMA || opcode == OP_CHANNEL || opcode == OP_CHUNK_INDEX || opcode
        == OP_ATTACHMENT_INDEX || opcode == OP_STATISTICS || opcode == OP_METADATA_INDEX || opcode
        >= 0x10 {
        Ok(())
    } else if opcode == OP_SUMMARY_OFFSET {
        Err(SummaryCensusError::UnexpectedSummaryOffsetRecord)
    } else if opcode == 0 {
        Err(SummaryCensusError::InvalidRecordOpcode)
    } else {
        Err(SummaryCensusError::ForbiddenSummaryRecordOpcode)
    }
}

/// The main Summary section admits exactly the summary record types of the MCAP format —
/// Schema (0x03), Channel (0x04), Chunk Index (0x08), Attachment Index (0x0A), Statistics
/// (0x0B) and Metadata Index (0x0D) — and every opcode from 0x10 up. Of the others, a Summary
/// Offset (0x0E) is out of place, opcode zero is invalid, and the rest are forbidden.
pub proof fn lemma_main_summary_opcodes(opcode: u8)
    ensures
        main_summary_opcode_check(opcode) is Ok <==> (opcode == 0x03 || opcode == 0x04 || opcode
            == 0x08 || opcode == 0x0A || opcode == 0x0B || opcode == 0x0D || opcode >= 0x10),
        opcode == 0x0E ==> main_summary_opcode_check(opcode) == Err::<(), SummaryCensusError>(
            SummaryCensusError::UnexpectedSummaryOffsetRecord,
        ),
        opcode == 0 ==> main_summary_opcode_check(opcode) == Err::<(), SummaryCensusError>(
            SummaryCensusError::InvalidRecordOpcode,
        ),
        (opcode == 0x01 || opcode == 0x02 || opcode == 0x05 || opcode == 0x06 || opcode == 0x07
            || opcode == 0x09 || opcode == 0x0C || opcode == 0x0F) ==> main_summary_opcode_check(
            opcode,
        ) == Err::<(), SummaryCensusError>(SummaryCensusError::ForbiddenSummaryRecordOpcode),
{
}

pub fn validate_main_summary_opcode(opcode: u8) -> (result: Result<(), SummaryCensusError>)
    ensures
        result == main_summary_opcode_check(opcode),
{
    if opcode == OP_SCHEMA || opcode == OP_CHANNEL || opcode == OP_CHUNK_INDEX || opcode
        == OP_ATTACHMENT_INDEX || opcode == OP_STATISTICS || opcode == OP_METADATA_INDEX || opcode
        >= 0x10 {
        Ok(())
    } else if opcode == OP_SUMMARY_OFFSET {
        Err(SummaryCensusError::UnexpectedSummaryOffsetRecord)
    } else if opcode == 0 {
        Err(SummaryCensusError::InvalidRecordOpcode)
    } else {
        Err(SummaryCensusError::ForbiddenSummaryRecordOpcode)
    }
}

/// Whether the opcode is one of the record types that the format defines.
pub open spec fn spec_is_known_opcode(opcode: u8) -> bool {
    OP_HEADER <= opcode <= OP_DATA_END
}

pub fn is_known_opcode(opcode: u8) -> (known: bool)
    ensures
        known == spec_is_known_opcode(opcode),
{
    opcode >= OP_HEADER && opcode <= OP_DATA_END
}

/// `current + 1`, unless that exceeds `limit`.
pub open spec fn incremented_within(current: u64, limit: u64) -> Option<u64> {
    if current + 1 > limit {
        None
    } else {
        Some((current + 1) as u64)
    }
}

pub fn checked_increment(current: u64, limit: u64, error: SummaryCensusError) -> (next: Result<
    u64,
    SummaryCensusError,
>)
    ensures
        match incremented_within(current, limit) {
            Some(value) => next == Ok::<u64, SummaryCensusError>(value),
            None => next == Err::<u64, SummaryCensusError>(error),
        },
{
    if current == u64::MAX {
        return Err(error);
    }
    let next = current + 1;
    if next > limit {
        return Err(error);
    }
    Ok(next)
}

/// The census after one more Summary record with the given opcode.
pub open spec fn census_after_record(
    opcode: u8,
    limits: SummaryCensusLimits,
    census: SummaryRecordCensus,
) -> Result<SummaryRecordCensus, SummaryCensusError> {
    match incremented_within(census.summary_records, limits.max_summary_records) {
        None => Err(SummaryCensusError::SummaryRecordLimitExceeded),
        Some(summary_records) => {
            let census = SummaryRecordCensus { summary_records, ..census };
            if opcode == OP_SCHEMA {
                match incremented_within(census.schema_records, limits.max_schema_records) {
                    None => Err(SummaryCensusError::SchemaRecordLimitExceeded),
                    Some(schema_records) => Ok(SummaryRecordCensus { schema_records, ..census }),
                }
            } else if opcode == OP_CHANNEL {
                match incremented_within(census.channel_records, limits.max_channel_records) {
                    None => Err(SummaryCensusError::ChannelRecordLimitExceeded),
                    Some(channel_records) => Ok(SummaryRecordCensus { channel_records, ..census }),
                }
            } else if opcode == OP_CHUNK_INDEX {
                match incremented_within(
                    census.chunk_index_records,
                    limits.max_chunk_index_records,
                ) {
                    None => Err(SummaryCensusError::ChunkIndexRecordLimitExceeded),
                    Some(chunk_index_records) => Ok(
                        SummaryRecordCensus { chunk_index_records, ..census },
                    ),
                }
            } else if !spec_is_known_opcode(opcode) {
                if census.unknown_records == u64::MAX {
                    Err(SummaryCensusError::SummaryRecordLimitExceeded)
                } else {
                    Ok(
                        SummaryRecordCensus {
                            unknown_records: (census.unknown_records + 1) as u64,
                            ..census
                        },
                    )
                }
            } else {
                Ok(census)
            }
        },
    }
}

pub fn observe_record(
    opcode: u8,
    limits: &SummaryCensusLimits,
    census: &mut SummaryRecordCensus,
) -> (result: Result<(), SummaryCensusError>)
    ensures
        match census_after_record(opcode, *limits, *old(census)) {
            Ok(next) => result is Ok && *final(census) == next,
            Err(error) => result == Err::<(), SummaryCensusError>(error),
        },
{
    census.summary_records = checked_increment(
        census.summary_records,
        limits.max_summary_records,
        SummaryCensusError::SummaryRecordLimitExceeded,
    )?;
    if opcode == OP_SCHEMA {
        census.schema_records = checked_increment(
            census.schema_records,
            limits.max_schema_records,
            SummaryCensusError::SchemaRecordLimitExceeded,
        )?;
    } else if opcode == OP_CHANNEL {
        census.channel_records = checked_increment(
            census.channel_records,
            limits.max_channel_records,
            SummaryCensusError::ChannelRecordLimitExceeded,
        )?;
    } else if opcode == OP_CHUNK_INDEX {
        census.chunk_index_records = checked_increment(
            census.chunk_index_records,
            limits.max_chunk_index_records,
            SummaryCensusError::ChunkIndexRecordLimitExceeded,
        )?;
    } else if !is_known_opcode(opcode) {
        if census.unknown_records == u64::MAX {
            return Err(SummaryCensusError::SummaryRecordLimitExceeded);
        }
        census.unknown_records = census.unknown_records + 1;
    }
    Ok(())
}

/// The census of the main Summary section `bytes[cursor..]`, given the groups and counts so far.
pub open spec fn main_section_census(
    bytes: Seq<u8>,
    cursor: int,
    seen: Set<u8>,
    current: Option<u8>,
    census: SummaryRecordCensus,
    limits: SummaryCensusLimits,
) -> Result<SummaryRecordCensus, SummaryCensusError>
    decreases bytes.len() - cursor,
{
    if cursor < 0 || cursor >= bytes.len() {
        Ok(census)
    } else {
        match record_envelope_at(bytes, cursor) {
            Err(error) => Err(error),
            Ok(envelope) => match main_summary_opcode_check(envelope.opcode) {
                Err(error) => Err(error),
                Ok(_) => match observe_opcode_group(seen, current, envelope.opcode) {
                    Err(error) => Err(error),
                    Ok((seen, current)) => match census_after_record(
                        envelope.opcode,
                        limits,
                        census,
                    ) {
                        Err(error) => Err(error),
                        Ok(census) => if envelope.end <= cursor {
                            Ok(census)
                        } else {
                            main_section_census(
                                bytes,
                                envelope.end as int,
                                seen,
                                current,
                                census,
                                limits,
                            )
                        },
                    },
                },
            },
        }
    }
}

/// The census of the Summary Offset section `bytes[cursor..]`, given the counts so far.
pub open spec fn offset_section_census(
    bytes: Seq<u8>,
    cursor: int,
    census: SummaryRecordCensus,
    limits: SummaryCensusLimits,
) -> Result<SummaryRecordCensus, SummaryCensusError>
    decreases bytes.len() - cursor,
{
    if cursor < 0 || cursor >= bytes.len() {
        Ok(census)
    } else {
        match record_envelope_at(bytes, cursor) {
            Err(error) => Err(error),
            Ok(envelope) => if envelope.opcode != OP_SUMMARY_OFFSET {
                Err(SummaryCensusError::InvalidSummaryOffsetOpcode)
            } else if envelope.body_len != SUMMARY_OFFSET_BODY_LEN {
                Err(SummaryCensusError::InvalidSummaryOffsetBodyLength)
            } else {
                match census_after_record(envelope.opcode, limits, census) {
                    Err(error) => Err(error),
                    Ok(census) => if census.summary_offset_records == u64::MAX {
                        Err(SummaryCensusError::SummaryRecordLimitExceeded)
                    } else if envelope.end <= cursor {
                        Ok(census)
                    } else {
                        offset_section_census(
                            bytes,
                            envelope.end as int,
                            SummaryRecordCensus {
                                summary_offset_records: (census.summary_offset_records
                                    + 1) as u64,
                                ..census
                            },
                            limits,
                        )
                    },
                }
            },
        }
    }
}

pub fn scan_summary_records(
    bytes: &[u8],
    limits: &SummaryCensusLimits,
    census: &mut SummaryRecordCensus,
) -> (result: Result<(), SummaryCensusError>)
    ensures
        match main_section_census(bytes@, 0, Set::empty(), None, *old(census), *limits) {
            Ok(next) => result is Ok && *final(census) == next,
            Err(error) => result == Err::<(), SummaryCensusError>(error),
        },
{
    let ghost expected = main_section_census(bytes@, 0, Set::empty(), None, *census, *limits);
    let mut cursor: usize = 0;
    let mut groups = SummaryOpcodeGroups::new();
    while cursor < bytes.len()
        invariant
            cursor <= bytes@.len(),
            expected == main_section_census(bytes@, 0, Set::empty(), None, *old(census), *limits),
            expected == main_section_census(
                bytes@,
                cursor as int,
                groups.seen_set(),
                groups.current_run(),
                *census,
                *limits,
            ),
        decreases bytes@.len() - cursor,
    {
        let record = next_record(bytes, cursor)?;
        validate_main_summary_opcode(record.opcode)?;
        groups.observe(record.opcode)?;
        observe_record(record.opcode, limits, census)?;
        cursor = record.end;
    }
    Ok(())
}

pub fn scan_summary_offsets(
    bytes: &[u8],
    limits: &SummaryCensusLimits,
    census: &mut SummaryRecordCensus,
) -> (result: Result<(), SummaryCensusError>)
    ensures
        match offset_section_census(bytes@, 0, *old(census), *limits) {
            Ok(next) => result is Ok && *final(census) == next,
            Err(error) => result == Err::<(), SummaryCensusError>(error),
        },
{
    let ghost expected = offset_section_census(bytes@, 0, *census, *limits);
    let mut cursor: usize = 0;
    while cursor < bytes.len()
        invariant
            cursor <= bytes@.len(),
            expected == offset_section_census(bytes@, 0, *old(census), *limits),
            expected == offset_section_census(bytes@, cursor as int, *census, *limits),
        decreases bytes@.len() - cursor,
    {
        let record = next_record(bytes, cursor)?;
        if record.opcode != OP_SUMMARY_OFFSET {
            return Err(SummaryCensusError::InvalidSummaryOffsetOpcode);
        }
        if record.body_len != SUMMARY_OFFSET_BODY_LEN {
            return Err(SummaryCensusError::InvalidSummaryOffsetBodyLength);
        }
        observe_record(record.opcode, limits, census)?;
        if census.summary_offset_records == u64::MAX {
            return Err(SummaryCensusError::SummaryRecordLimitExceeded);
        }
        census.summary_offset_records = census.summary_offset_records + 1;
        cursor = record.end;
    }
    Ok(())
}


/// Whether the Header read starts at `expected_start` and covers exactly `expected_start..expected_end`.
pub open spec fn exact_read_matches(offset: u64, len: nat, expected_start: u64, expected_end: u64) -> bool {
    expected_start <= expected_end && offset == expected_start && offset + len == expected_end
}

pub fn validate_exact_read(read: RemoteMcapSlice<'_>, expected_start: u64, expected_end: u64) -> (result: Result<(), SummaryCensusError>)
    ensures
        result is Ok <==> exact_read_matches(read.offset, read.bytes@.len(), expected_start, expected_end),
        result is Err ==> result == Err::<(), SummaryCensusError>(SummaryCensusError::HeaderReadRangeMismatch),
{
    if expected_end < expected_start {
        return Err(SummaryCensusError::HeaderReadRangeMismatch);
    }
    let expected_len = expected_end - expected_start;
    let actual_len = read.bytes.len() as u64;
    if read.offset > u64::MAX - actual_len {
        return Err(SummaryCensusError::HeaderReadRangeMismatch);
    }
    let actual_end = read.offset + actual_len;
    if read.offset != expected_start || actual_end != expected_end || actual_len != expected_len {
        return Err(SummaryCensusError::HeaderReadRangeMismatch);
    }
    Ok(())
}

/// Number of length-prefixed strings in a Header body: the profile and the library.
pub const HEADER_STRING_FIELDS: usize = 2;

/// The end of the `u32`-length-prefixed string that starts at `cursor` in a Header body.
pub open spec fn header_field_end(bytes: Seq<u8>, cursor: int) -> Result<int, SummaryCensusError> {
    if cursor + 4 > usize::MAX {
        Err(SummaryCensusError::HeaderFieldOutOfBounds)
    } else if cursor + 4 > bytes.len() {
        Err(SummaryCensusError::HeaderLengthPrefixTruncated)
    } else {
        let end = cursor + 4 + le_u32_at(bytes, cursor);
        if end > usize::MAX || end > bytes.len() {
            Err(SummaryCensusError::HeaderFieldOutOfBounds)
        } else {
            Ok(end)
        }
    }
}

/// The position after `fields` consecutive length-prefixed strings starting at `cursor`.
pub open spec fn header_fields_end(bytes: Seq<u8>, cursor: int, fields: nat) -> Result<
    int,
    SummaryCensusError,
>
    decreases fields,
{
    if fields == 0 {
        Ok(cursor)
    } else {
        match header_field_end(bytes, cursor) {
            Err(error) => Err(error),
            Ok(end) => header_fields_end(bytes, end, (fields - 1) as nat),
        }
    }
}

/// The Header body is within its limit and is exactly two length-prefixed strings.
pub open spec fn header_body_check(bytes: Seq<u8>, max_header_body_bytes: u64) -> Result<
    (),
    SummaryCensusError,
> {
    if bytes.len() > max_header_body_bytes {
        Err(SummaryCensusError::HeaderBytesLimitExceeded)
    } else {
        match header_fields_end(bytes, 0, HEADER_STRING_FIELDS as nat) {
            Err(error) => Err(error),
            Ok(end) => if end != bytes.len() {
                Err(SummaryCensusError::HeaderTrailingBytes)
            } else {
                Ok(())
            },
        }
    }
}

pub fn validate_header_body(header_body: &[u8], max_header_body_bytes: u64) -> (result: Result<
    (),
    SummaryCensusError,
>)
    ensures
        result == header_body_check(header_body@, max_header_body_bytes),
{
    let actual_len = header_body.len() as u64;
    if actual_len > max_header_body_bytes {
        return Err(SummaryCensusError::HeaderBytesLimitExceeded);
    }
    let mut cursor: usize = 0;
    let mut field: usize = 0;
    while field < HEADER_STRING_FIELDS
        invariant
            field <= HEADER_STRING_FIELDS,
            cursor <= header_body@.len(),
            header_body@.len() <= max_header_body_bytes,
            header_fields_end(header_body@, 0, 2) == header_fields_end(
                header_body@,
                cursor as int,
                (2 - field) as nat,
            ),
        decreases HEADER_STRING_FIELDS - field,
    {
        assert(header_fields_end(header_body@, cursor as int, (2 - field) as nat) == match header_field_end(header_body@, cursor as int) {
            Err(error) => Err(error),
            Ok(end) => header_fields_end(header_body@, end, (2 - field - 1) as nat),
        });
        if cursor > usize::MAX - 4 {
            return Err(SummaryCensusError::HeaderFieldOutOfBounds);
        }
        let prefix_end = cursor + 4;
        if prefix_end > header_body.len() {
            return Err(SummaryCensusError::HeaderLengthPrefixTruncated);
        }
        let field_len = read_le_u32(header_body, cursor) as usize;
        if field_len > usize::MAX - prefix_end {
            return Err(SummaryCensusError::HeaderFieldOutOfBounds);
        }
        let field_end = prefix_end + field_len;
        if field_end > header_body.len() {
            return Err(SummaryCensusError::HeaderFieldOutOfBounds);
        }
        cursor = field_end;
        field = field + 1;
    }
    if cursor != header_body.len() {
        return Err(SummaryCensusError::HeaderTrailingBytes);
    }
    Ok(())
}

/// Where the main Summary section ends within the Summary bytes.
pub open spec fn main_section_end(
    summary_len: nat,
    summary_start: u64,
    summary_offset_start: Option<u64>,
) -> Result<int, SummaryCensusError> {
    match summary_offset_start {
        None => Ok(summary_len as int),
        Some(offset_start) => if offset_start < summary_start || offset_start - summary_start
            >= summary_len {
            Err(SummaryCensusError::SummaryOffsetBoundaryInvalid)
        } else {
            Ok(offset_start - summary_start)
        },
    }
}

/// The complete Header and Summary preparation: the census, or the first failure.
pub open spec fn summary_preparation(
    layout_header_start: u64,
    layout_header_end: u64,
    summary: Seq<u8>,
    summary_start: u64,
    summary_offset_start: Option<u64>,
    header_offset: u64,
    header_body: Seq<u8>,
    limits: SummaryCensusLimits,
) -> Result<SummaryRecordCensus, SummaryCensusError> {
    if !exact_read_matches(header_offset, header_body.len(), layout_header_start, layout_header_end) {
        Err(SummaryCensusError::HeaderReadRangeMismatch)
    } else if header_body_check(header_body, limits.max_header_body_bytes) is Err {
        Err(header_body_check(header_body, limits.max_header_body_bytes)->Err_0)
    } else if summary.len() > limits.max_summary_bytes {
        Err(SummaryCensusError::SummaryBytesLimitExceeded)
    } else {
        match main_section_end(summary.len(), summary_start, summary_offset_start) {
            Err(error) => Err(error),
            Ok(main_end) => match main_section_census(
                summary.subrange(0, main_end),
                0,
                Set::empty(),
                None,
                empty_census(),
                limits,
            ) {
                Err(error) => Err(error),
                Ok(census) => if summary_offset_start is Some {
                    offset_section_census(
                        summary.subrange(main_end, summary.len() as int),
                        0,
                        census,
                        limits,
                    )
                } else {
                    Ok(census)
                },
            },
        }
    }
}

/// Validates the Header body read and counts the top-level Summary records.
pub fn prepare_summary_records<'a>(
    fixed_layout: ValidatedFixedLayout<'a>,
    header_read: RemoteMcapSlice<'a>,
    limits: &SummaryCensusLimits,
) -> (result: Result<PreparedSummaryRecords<'a>, SummaryCensusError>)
    ensures
        match summary_preparation(
            fixed_layout.header_body_start,
            fixed_layout.header_body_end,
            fixed_layout.summary@,
            fixed_layout.summary_start,
            fixed_layout.summary_offset_start,
            header_read.offset,
            header_read.bytes@,
            *limits,
        ) {
            Ok(census) => result matches Ok(prepared) && prepared.spec_census() == census
                && prepared.spec_header_body() == header_read.bytes@ && prepared.spec_summary()
                == fixed_layout.summary@ && prepared.spec_summary_start()
                == fixed_layout.summary_start && prepared.spec_header_body_end()
                == fixed_layout.header_body_end && prepared.spec_summary_offset_start()
                == fixed_layout.summary_offset_start && prepared.spec_main_summary()
                == fixed_layout.summary@.subrange(
                0,
                main_section_end(
                    fixed_layout.summary@.len(),
                    fixed_layout.summary_start,
                    fixed_layout.summary_offset_start,
                )->Ok_0,
            ),
            Err(error) => result matches Err(e) && e == error,
        },
{
    validate_exact_read(header_read, fixed_layout.header_body_start, fixed_layout.header_body_end)?;
    validate_header_body(header_read.bytes, limits.max_header_body_bytes)?;
    let summary_bytes = fixed_layout.summary;
    let summary_len = summary_bytes.len() as u64;
    if summary_len > limits.max_summary_bytes {
        return Err(SummaryCensusError::SummaryBytesLimitExceeded);
    }
    let main_end: usize = match fixed_layout.summary_offset_start {
        Some(offset_start) => {
            if offset_start < fixed_layout.summary_start {
                return Err(SummaryCensusError::SummaryOffsetBoundaryInvalid);
            }
            let relative = offset_start - fixed_layout.summary_start;
            if relative >= summary_len {
                return Err(SummaryCensusError::SummaryOffsetBoundaryInvalid);
            }
            relative as usize
        },
        None => summary_bytes.len(),
    };
    let mut census = SummaryRecordCensus::default();
    let main_section = &summary_bytes[0..main_end];
    assert(main_section@ == summary_bytes@.subrange(0, main_end as int));
    scan_summary_records(main_section, limits, &mut census)?;
    if fixed_layout.summary_offset_start.is_some() {
        let offset_section = &summary_bytes[main_end..summary_bytes.len()];
        assert(offset_section@ == summary_bytes@.subrange(main_end as int, summary_bytes@.len() as int));
        scan_summary_offsets(offset_section, limits, &mut census)?;
    }
    Ok(
        PreparedSummaryRecords {
            fixed_layout,
            header_body: header_read.bytes,
            main_summary: main_section,
            census,
        },
    )
}

/// Whether `limits` admit every record count of `census`.
pub open spec fn count_limits_cover(limits: SummaryCensusLimits, census: SummaryRecordCensus) -> bool {
    &&& census.summary_records <= limits.max_summary_records
    &&& census.schema_records <= limits.max_schema_records
    &&& census.channel_records <= limits.max_channel_records
    &&& census.chunk_index_records <= limits.max_chunk_index_records
}

/// Whether every count of `later` is at least that of `earlier`.
pub open spec fn counts_grow(earlier: SummaryRecordCensus, later: SummaryRecordCensus) -> bool {
    &&& earlier.summary_records <= later.summary_records
    &&& earlier.schema_records <= later.schema_records
    &&& earlier.channel_records <= later.channel_records
    &&& earlier.chunk_index_records <= later.chunk_index_records
}

/// Counting one record only raises counts, and gives the same census under any limits that
/// admit the raised counts.
pub proof fn lemma_census_after_record_limits(
    opcode: u8,
    limits: SummaryCensusLimits,
    other: SummaryCensusLimits,
    census: SummaryRecordCensus,
)
    requires
        census_after_record(opcode, limits, census) is Ok,
    ensures
        counts_grow(census, census_after_record(opcode, limits, census)->Ok_0),
        count_limits_cover(limits, census) ==> count_limits_cover(
            limits,
            census_after_record(opcode, limits, census)->Ok_0,
        ),
        count_limits_cover(other, census_after_record(opcode, limits, census)->Ok_0)
            ==> census_after_record(opcode, other, census) == census_after_record(
            opcode,
            limits,
            census,
        ),
{
}

/// The main-section census only raises counts, and gives the same census under any limits that
/// admit its final counts.
pub proof fn lemma_main_section_census_limits(
    bytes: Seq<u8>,
    cursor: int,
    seen: Set<u8>,
    current: Option<u8>,
    census: SummaryRecordCensus,
    limits: SummaryCensusLimits,
    other: SummaryCensusLimits,
)
    requires
        main_section_census(bytes, cursor, seen, current, census, limits) is Ok,
    ensures
        counts_grow(census, main_section_census(bytes, cursor, seen, current, census, limits)->Ok_0),
        count_limits_cover(limits, census) ==> count_limits_cover(
            limits,
            main_section_census(bytes, cursor, seen, current, census, limits)->Ok_0,
        ),
        count_limits_cover(
            other,
            main_section_census(bytes, cursor, seen, current, census, limits)->Ok_0,
        ) ==> main_section_census(bytes, cursor, seen, current, census, other)
            == main_section_census(bytes, cursor, seen, current, census, limits),
    decreases bytes.len() - cursor,
{
    if 0 <= cursor < bytes.len() {
        let envelope = record_envelope_at(bytes, cursor)->Ok_0;
        let (seen2, current2) = observe_opcode_group(seen, current, envelope.opcode)->Ok_0;
        lemma_census_after_record_limits(envelope.opcode, limits, other, census);
        let next = census_after_record(envelope.opcode, limits, census)->Ok_0;
        if envelope.end > cursor {
            lemma_main_section_census_limits(
                bytes,
                envelope.end as int,
                seen2,
                current2,
                next,
                limits,
                other,
            );
        }
    }
}

/// The Summary Offset census only raises counts, and gives the same census under any limits
/// that admit its final counts.
pub proof fn lemma_offset_section_census_limits(
    bytes: Seq<u8>,
    cursor: int,
    census: SummaryRecordCensus,
    limits: SummaryCensusLimits,
    other: SummaryCensusLimits,
)
    requires
        offset_section_census(bytes, cursor, census, limits) is Ok,
    ensures
        counts_grow(census, offset_section_census(bytes, cursor, census, limits)->Ok_0),
        count_limits_cover(limits, census) ==> count_limits_cover(
            limits,
            offset_section_census(bytes, cursor, census, limits)->Ok_0,
        ),
        count_limits_cover(other, offset_section_census(bytes, cursor, census, limits)->Ok_0)
            ==> offset_section_census(bytes, cursor, census, other) == offset_section_census(
            bytes,
            cursor,
            census,
            limits,
        ),
    decreases bytes.len() - cursor,
{
    if 0 <= cursor < bytes.len() {
        let envelope = record_envelope_at(bytes, cursor)->Ok_0;
        lemma_census_after_record_limits(envelope.opcode, limits, other, census);
        let next = census_after_record(envelope.opcode, limits, census)->Ok_0;
        if envelope.end > cursor {
            lemma_offset_section_census_limits(
                bytes,
                envelope.end as int,
                SummaryRecordCensus {
                    summary_offset_records: (next.summary_offset_records + 1) as u64,
                    ..next
                },
                limits,
                other,
            );
        }
    }
}

/// A Summary that prepares under some limits prepares to the same census under any limits with
/// the same byte limits whose record limits are its exact counts or more: the exact record-count
/// boundary is accepted.
pub proof fn lemma_summary_preparation_exact_counts(
    layout_header_start: u64,
    layout_header_end: u64,
    summary: Seq<u8>,
    summary_start: u64,
    summary_offset_start: Option<u64>,
    header_offset: u64,
    header_body: Seq<u8>,
    limits: SummaryCensusLimits,
    other: SummaryCensusLimits,
)
    requires
        summary_preparation(
            layout_header_start,
            layout_header_end,
            summary,
            summary_start,
            summary_offset_start,
            header_offset,
            header_body,
            limits,
        ) is Ok,
        other.max_header_body_bytes == limits.max_header_body_bytes,
        other.max_summary_bytes == limits.max_summary_bytes,
        count_limits_cover(
            other,
            summary_preparation(
                layout_header_start,
                layout_header_end,
                summary,
                summary_start,
                summary_offset_start,
                header_offset,
                header_body,
                limits,
            )->Ok_0,
        ),
    ensures
        summary_preparation(
            layout_header_start,
            layout_header_end,
            summary,
            summary_start,
            summary_offset_start,
            header_offset,
            header_body,
            other,
        ) == summary_preparation(
            layout_header_start,
            layout_header_end,
            summary,
            summary_start,
            summary_offset_start,
            header_offset,
            header_body,
            limits,
        ),
{
    let main_end = main_section_end(summary.len(), summary_start, summary_offset_start)->Ok_0;
    let main = summary.subrange(0, main_end);
    lemma_main_section_census_limits(main, 0, Set::empty(), None, empty_census(), limits, other);
    let census = main_section_census(main, 0, Set::empty(), None, empty_census(), limits)->Ok_0;
    if summary_offset_start is Some {
        let offsets = summary.subrange(main_end, summary.len() as int);
        lemma_offset_section_census_limits(offsets, 0, census, limits, other);
        let last = offset_section_census(offsets, 0, census, limits)->Ok_0;
        assert(count_limits_cover(other, census));
    }
}

/// The record count that selector `kind` names: all Summary records, Schema, Channel, then
/// Chunk Index records.
pub open spec fn record_count(census: SummaryRecordCensus, kind: nat) -> u64 {
    if kind == 0 {
        census.summary_records
    } else if kind == 1 {
        census.schema_records
    } else if kind == 2 {
        census.channel_records
    } else {
        census.chunk_index_records
    }
}

/// `limits` with the record limit that `kind` names set to `value`.
pub open spec fn with_record_limit(limits: SummaryCensusLimits, kind: nat, value: u64) -> SummaryCensusLimits {
    if kind == 0 {
        SummaryCensusLimits { max_summary_records: value, ..limits }
    } else if kind == 1 {
        SummaryCensusLimits { max_schema_records: value, ..limits }
    } else if kind == 2 {
        SummaryCensusLimits { max_channel_records: value, ..limits }
    } else {
        SummaryCensusLimits { max_chunk_index_records: value, ..limits }
    }
}

/// The error of the record limit that `kind` names.
pub open spec fn record_limit_error(kind: nat) -> SummaryCensusError {
    if kind == 0 {
        SummaryCensusError::SummaryRecordLimitExceeded
    } else if kind == 1 {
        SummaryCensusError::SchemaRecordLimitExceeded
    } else if kind == 2 {
        SummaryCensusError::ChannelRecordLimitExceeded
    } else {
        SummaryCensusError::ChunkIndexRecordLimitExceeded
    }
}

/// Counting one record raises the selected count by at most one; under the selected limit one
/// below the final count it fails with that limit's error exactly when it reaches that count.
pub proof fn lemma_census_after_record_below(
    opcode: u8,
    limits: SummaryCensusLimits,
    census: SummaryRecordCensus,
    kind: nat,
    bound: u64,
)
    requires
        kind < 4,
        census_after_record(opcode, limits, census) is Ok,
        count_limits_cover(limits, census_after_record(opcode, limits, census)->Ok_0),
        record_count(census_after_record(opcode, limits, census)->Ok_0, kind) <= bound + 1,
        record_count(census, kind) <= bound,
    ensures
        ({
            let next = census_after_record(opcode, limits, census)->Ok_0;
            let lowered = census_after_record(opcode, with_record_limit(limits, kind, bound), census);
            &&& record_count(next, kind) <= record_count(census, kind) + 1
            &&& record_count(next, kind) == bound + 1 ==> lowered == Err::<
                SummaryRecordCensus,
                SummaryCensusError,
            >(record_limit_error(kind))
            &&& record_count(next, kind) <= bound ==> lowered == Ok::<
                SummaryRecordCensus,
                SummaryCensusError,
            >(next)
        }),
{
}

/// The main-section census under the selected limit one below its final count: it fails with
/// that limit's error where the count reaches the limit in this section, and passes with the
/// same census otherwise.
pub proof fn lemma_main_section_census_below(
    bytes: Seq<u8>,
    cursor: int,
    seen: Set<u8>,
    current: Option<u8>,
    census: SummaryRecordCensus,
    limits: SummaryCensusLimits,
    kind: nat,
    bound: u64,
)
    requires
        kind < 4,
        main_section_census(bytes, cursor, seen, current, census, limits) is Ok,
        count_limits_cover(limits, main_section_census(bytes, cursor, seen, current, census, limits)->Ok_0),
        record_count(main_section_census(bytes, cursor, seen, current, census, limits)->Ok_0, kind)
            <= bound + 1,
        record_count(census, kind) <= bound,
    ensures
        ({
            let done = main_section_census(bytes, cursor, seen, current, census, limits)->Ok_0;
            let lowered = main_section_census(
                bytes,
                cursor,
                seen,
                current,
                census,
                with_record_limit(limits, kind, bound),
            );
            &&& record_count(done, kind) == bound + 1 ==> lowered == Err::<
                SummaryRecordCensus,
                SummaryCensusError,
            >(record_limit_error(kind))
            &&& record_count(done, kind) <= bound ==> lowered == Ok::<
                SummaryRecordCensus,
                SummaryCensusError,
            >(done)
        }),
    decreases bytes.len() - cursor,
{
    if 0 <= cursor < bytes.len() {
        let envelope = record_envelope_at(bytes, cursor)->Ok_0;
        let (seen2, current2) = observe_opcode_group(seen, current, envelope.opcode)->Ok_0;
        let next = census_after_record(envelope.opcode, limits, census)->Ok_0;
        lemma_census_after_record_limits(envelope.opcode, limits, limits, census);
        if envelope.end > cursor {
            lemma_main_section_census_limits(bytes, envelope.end as int, seen2, current2, next, limits, limits);
            lemma_census_after_record_below(envelope.opcode, limits, census, kind, bound);
            if record_count(next, kind) <= bound {
                lemma_main_section_census_below(
                    bytes,
                    envelope.end as int,
                    seen2,
                    current2,
                    next,
                    limits,
                    kind,
                    bound,
                );
            }
        } else {
            lemma_census_after_record_below(envelope.opcode, limits, census, kind, bound);
        }
    }
}

/// The Summary Offset census under the selected limit one below its final count: it fails with
/// that limit's error where the count reaches the limit, and passes with the same census
/// otherwise.
pub proof fn lemma_offset_section_census_below(
    bytes: Seq<u8>,
    cursor: int,
    census: SummaryRecordCensus,
    limits: SummaryCensusLimits,
    kind: nat,
    bound: u64,
)
    requires
        kind < 4,
        offset_section_census(bytes, cursor, census, limits) is Ok,
        count_limits_cover(limits, offset_section_census(bytes, cursor, census, limits)->Ok_0),
        record_count(offset_section_census(bytes, cursor, census, limits)->Ok_0, kind) <= bound + 1,
        record_count(census, kind) <= bound,
    ensures
        ({
            let done = offset_section_census(bytes, cursor, census, limits)->Ok_0;
            let lowered = offset_section_census(
                bytes,
                cursor,
                census,
                with_record_limit(limits, kind, bound),
            );
            &&& record_count(done, kind) == bound + 1 ==> lowered == Err::<
                SummaryRecordCensus,
                SummaryCensusError,
            >(record_limit_error(kind))
            &&& record_count(done, kind) <= bound ==> lowered == Ok::<
                SummaryRecordCensus,
                SummaryCensusError,
            >(done)
        }),
    decreases bytes.len() - cursor,
{
    if 0 <= cursor < bytes.len() {
        let envelope = record_envelope_at(bytes, cursor)->Ok_0;
        let next = census_after_record(envelope.opcode, limits, census)->Ok_0;
        lemma_census_after_record_limits(envelope.opcode, limits, limits, census);
        let counted = SummaryRecordCensus {
            summary_offset_records: (next.summary_offset_records + 1) as u64,
            ..next
        };
        if envelope.end > cursor {
            lemma_offset_section_census_limits(bytes, envelope.end as int, counted, limits, limits);
            lemma_census_after_record_below(envelope.opcode, limits, census, kind, bound);
            if record_count(next, kind) <= bound {
                lemma_offset_section_census_below(
                    bytes,
                    envelope.end as int,
                    counted,
                    limits,
                    kind,
                    bound,
                );
            }
        } else {
            lemma_census_after_record_below(envelope.opcode, limits, census, kind, bound);
        }
    }
}

/// A Summary that prepares to census `c` under some limits fails, under the same limits with
/// one record limit set one below its count in `c`, with exactly that limit's error: the next
/// unit past the exact record-count boundary is rejected.
pub proof fn lemma_summary_preparation_next_unit(
    layout_header_start: u64,
    layout_header_end: u64,
    summary: Seq<u8>,
    summary_start: u64,
    summary_offset_start: Option<u64>,
    header_offset: u64,
    header_body: Seq<u8>,
    limits: SummaryCensusLimits,
    kind: nat,
)
    requires
        kind < 4,
        summary_preparation(
            layout_header_start,
            layout_header_end,
            summary,
            summary_start,
            summary_offset_start,
            header_offset,
            header_body,
            limits,
        ) is Ok,
        record_count(
            summary_preparation(
                layout_header_start,
                layout_header_end,
                summary,
                summary_start,
                summary_offset_start,
                header_offset,
                header_body,
                limits,
            )->Ok_0,
            kind,
        ) > 0,
    ensures
        summary_preparation(
            layout_header_start,
            layout_header_end,
            summary,
            summary_start,
            summary_offset_start,
            header_offset,
            header_body,
            with_record_limit(
                limits,
                kind,
                (record_count(
                    summary_preparation(
                        layout_header_start,
                        layout_header_end,
                        summary,
                        summary_start,
                        summary_offset_start,
                        header_offset,
                        header_body,
                        limits,
                    )->Ok_0,
                    kind,
                ) - 1) as u64,
            ),
        ) == Err::<SummaryRecordCensus, SummaryCensusError>(record_limit_error(kind)),
{
    let c = summary_preparation(
        layout_header_start,
        layout_header_end,
        summary,
        summary_start,
        summary_offset_start,
        header_offset,
        header_body,
        limits,
    )->Ok_0;
    let bound = (record_count(c, kind) - 1) as u64;
    let main_end = main_section_end(summary.len(), summary_start, summary_offset_start)->Ok_0;
    let main = summary.subrange(0, main_end);
    lemma_main_section_census_limits(main, 0, Set::empty(), None, empty_census(), limits, limits);
    let census = main_section_census(main, 0, Set::empty(), None, empty_census(), limits)->Ok_0;
    if summary_offset_start is Some {
        let offsets = summary.subrange(main_end, summary.len() as int);
        lemma_offset_section_census_limits(offsets, 0, census, limits, limits);
        lemma_main_section_census_below(main, 0, Set::empty(), None, empty_census(), limits, kind, bound);
        if record_count(census, kind) <= bound {
            lemma_offset_section_census_below(offsets, 0, census, limits, kind, bound);
        }
    } else {
        lemma_main_section_census_below(main, 0, Set::empty(), None, empty_census(), limits, kind, bound);
    }
}

} // verus!
