//! Allocation-free owned-field preflight of the Summary records: every string, nested map and
//! fixed-width collection that materialization would own is counted and bounded first.
use crate::mcap_opcodes::{
    self, read_le_u16, read_le_u32, OP_ATTACHMENT_INDEX, OP_CHANNEL, OP_CHUNK_INDEX,
    OP_HEADER, OP_METADATA_INDEX, OP_SCHEMA, OP_STATISTICS, RECORD_ENVELOPE_LEN,
};
use crate::remote_summary::physical_regions;
use crate::remote_summary::summary_records::{
    mcap_parsed_record, parse_record, BoundedSummaryRecord, HeaderRecordV1, ParsedMcapRecordV1,
};
use crate::remote_summary::{
    next_record, record_envelope_at, PreparedSummaryRecords, SummaryRecordCensus,
};
use vstd::prelude::*;

verus! {

/// One fixed-width map entry: a `u16` key and a `u64` value.
pub const FIXED_INT_MAP_ENTRY_LEN: usize = 10;

/// One MessageIndex entry: a log time and an offset.
pub const MESSAGE_INDEX_ENTRY_LEN: usize = 16;

/// Fixed nested-collection limits projected from the remote resource profile.
#[derive(Clone, Copy, Debug, PartialEq, Eq, Structural)]
pub struct SummaryMaterializationLimits {
    pub max_channel_metadata_entries_per_record: u64,
    pub max_channel_metadata_key_bytes: u64,
    pub max_channel_metadata_value_bytes: u64,
    pub max_nested_retained_bytes_per_summary: u64,
    pub max_chunk_index_message_index_offsets: u64,
    pub max_statistics_channel_message_counts: u64,
}

impl SummaryMaterializationLimits {
    pub fn for_test(
        max_channel_metadata_entries_per_record: u64,
        max_channel_metadata_key_bytes: u64,
        max_channel_metadata_value_bytes: u64,
        max_nested_retained_bytes_per_summary: u64,
        max_chunk_index_message_index_offsets: u64,
        max_statistics_channel_message_counts: u64,
    ) -> (limits: Self)
        ensures
            limits == (SummaryMaterializationLimits {
                max_channel_metadata_entries_per_record,
                max_channel_metadata_key_bytes,
                max_channel_metadata_value_bytes,
                max_nested_retained_bytes_per_summary,
                max_chunk_index_message_index_offsets,
                max_statistics_channel_message_counts,
            }),
    {
        SummaryMaterializationLimits {
            max_channel_metadata_entries_per_record,
            max_channel_metadata_key_bytes,
            max_channel_metadata_value_bytes,
            max_nested_retained_bytes_per_summary,
            max_chunk_index_message_index_offsets,
            max_statistics_channel_message_counts,
        }
    }
}

/// Limits of the shared `MessageIndex.records` preflight.
#[derive(Clone, Copy, Debug, PartialEq, Eq, Structural)]
pub struct MessageIndexPreflightLimits {
    pub max_entries_per_record: u64,
    pub max_aggregate_entries: u64,
}

impl MessageIndexPreflightLimits {
    pub fn for_test(max_entries_per_record: u64, max_aggregate_entries: u64) -> (limits: Self)
        ensures
            limits == (MessageIndexPreflightLimits { max_entries_per_record, max_aggregate_entries }),
    {
        MessageIndexPreflightLimits { max_entries_per_record, max_aggregate_entries }
    }
}

/// The allocation-free census of everything materialization would own.
#[derive(Clone, Copy, Debug, PartialEq, Eq, Structural)]
pub struct NestedPreflightCensus {
    pub main_summary_records: u64,
    pub owned_string_count: u64,
    pub owned_string_bytes: u64,
    pub schema_data_bytes: u64,
    pub channel_metadata_entries: u64,
    pub fixed_map_entries: u64,
    pub nested_encoded_bytes: u64,
    pub nested_retained_bytes: u64,
}

pub open spec fn empty_nested_census() -> NestedPreflightCensus {
    NestedPreflightCensus {
        main_summary_records: 0,
        owned_string_count: 0,
        owned_string_bytes: 0,
        schema_data_bytes: 0,
        channel_metadata_entries: 0,
        fixed_map_entries: 0,
        nested_encoded_bytes: 0,
        nested_retained_bytes: 0,
    }
}

impl Default for NestedPreflightCensus {
    fn default() -> (census: Self)
        ensures
            census == empty_nested_census(),
    {
        NestedPreflightCensus {
            main_summary_records: 0,
            owned_string_count: 0,
            owned_string_bytes: 0,
            schema_data_bytes: 0,
            channel_metadata_entries: 0,
            fixed_map_entries: 0,
            nested_encoded_bytes: 0,
            nested_retained_bytes: 0,
        }
    }
}

/// Allocation-free evidence for one `MessageIndex.records` vector.
#[derive(Clone, Copy, Debug, PartialEq, Eq, Structural)]
pub struct MessageIndexPreflight {
    pub channel_id: u16,
    pub entries: u64,
    pub encoded_bytes: u64,
    pub aggregate_entries: u64,
}

#[derive(Clone, Copy, Debug, PartialEq, Eq, Structural)]
pub enum SummaryMaterializationError {
    RecordStructureInvalid,
    RecordTrailingBytes,
    StringInvalidUtf8,
    ArithmeticOverflow,
    ChannelMetadataEntryLimitExceeded,
    ChannelMetadataKeyBytesLimitExceeded,
    ChannelMetadataValueBytesLimitExceeded,
    ChunkIndexMessageIndexOffsetLimitExceeded,
    StatisticsChannelMessageCountLimitExceeded,
    MessageIndexEntryLimitExceeded,
    MessageIndexAggregateEntryLimitExceeded,
    NestedRetainedBytesLimitExceeded,
    NestedEncodedWidthInvalid,
    DuplicateNestedKey,
    PreparedCensusMismatch,
    PreparedRecordRejected,
    MaterializationReservationLimitExceeded,
}

/// `left + right`, or the arithmetic error.
pub fn checked_add(left: u64, right: u64) -> (sum: Result<u64, SummaryMaterializationError>)
    ensures
        left + right <= u64::MAX ==> sum == Ok::<u64, SummaryMaterializationError>((left + right) as u64),
        left + right > u64::MAX ==> sum == Err::<u64, SummaryMaterializationError>(
            SummaryMaterializationError::ArithmeticOverflow,
        ),
{
    match left.checked_add(right) {
        Some(sum) => Ok(sum),
        None => Err(SummaryMaterializationError::ArithmeticOverflow),
    }
}

/// A byte length as a `u64`; every `usize` fits.
pub fn usize_as_u64(value: usize) -> (converted: Result<u64, SummaryMaterializationError>)
    ensures
        converted == Ok::<u64, SummaryMaterializationError>(value as u64),
{
    Ok(value as u64)
}

/// Whether `bytes` is valid UTF-8, as `std::str::from_utf8` decides.
#[verifier::external_body]
pub(crate) fn utf8_text(bytes: &[u8]) -> (text: Option<&str>)
    ensures
        match text {
            Some(text) => vstd::utf8::valid_utf8(bytes@) && crate::remote_ros2_reflection::policy::str_bytes(text) == bytes@,
            None => !vstd::utf8::valid_utf8(bytes@),
        },
{
    std::str::from_utf8(bytes).ok()
}

/// A forward-only reader over one record body.
pub struct SliceCursor<'a> {
    bytes: &'a [u8],
    position: usize,
}

/// Where `len` bytes taken at `position` end, if they lie inside a body of `total` bytes.
pub open spec fn taken_end(total: nat, position: int, len: int) -> Result<int, SummaryMaterializationError> {
    if position + len > usize::MAX {
        Err(SummaryMaterializationError::ArithmeticOverflow)
    } else if position + len > total {
        Err(SummaryMaterializationError::RecordStructureInvalid)
    } else {
        Ok(position + len)
    }
}

/// The `u32`-length-prefixed UTF-8 string at `position`: its byte range.
pub open spec fn string_at(bytes: Seq<u8>, position: int) -> Result<(int, int), SummaryMaterializationError> {
    match taken_end(bytes.len(), position, 4) {
        Err(error) => Err(error),
        Ok(start) => match taken_end(bytes.len(), start, mcap_opcodes::le_u32_at(bytes, position) as int) {
            Err(error) => Err(error),
            Ok(end) => if !vstd::utf8::valid_utf8(bytes.subrange(start, end)) {
                Err(SummaryMaterializationError::StringInvalidUtf8)
            } else {
                Ok((start, end))
            },
        },
    }
}

impl<'a> SliceCursor<'a> {
    #[verifier::type_invariant]
    spec fn within(self) -> bool {
        self.position <= self.bytes@.len()
    }

    pub closed spec fn spec_bytes(&self) -> Seq<u8> {
        self.bytes@
    }

    pub closed spec fn spec_position(&self) -> int {
        self.position as int
    }

    pub fn new(bytes: &'a [u8]) -> (cursor: Self)
        ensures
            cursor.spec_bytes() == bytes@,
            cursor.spec_position() == 0,
    {
        SliceCursor { bytes, position: 0 }
    }

    pub fn position(&self) -> (position: usize)
        ensures
            position == self.spec_position(),
            position <= self.spec_bytes().len(),
    {
        proof {
            use_type_invariant(self);
        }
        self.position
    }

    pub fn is_finished(&self) -> (finished: bool)
        ensures
            finished == (self.spec_position() == self.spec_bytes().len()),
    {
        self.position == self.bytes.len()
    }

    /// Takes the next `len` bytes.
    pub fn take(&mut self, len: usize) -> (result: Result<&'a [u8], SummaryMaterializationError>)
        ensures
            final(self).spec_bytes() == old(self).spec_bytes(),
            match taken_end(old(self).spec_bytes().len(), old(self).spec_position(), len as int) {
                Ok(end) => result matches Ok(taken) && taken@ == old(self).spec_bytes().subrange(
                    old(self).spec_position(),
                    end,
                ) && final(self).spec_position() == end,
                Err(error) => result == Err::<&'a [u8], SummaryMaterializationError>(error)
                    && final(self).spec_position() == old(self).spec_position(),
            },
    {
        proof {
            use_type_invariant(&*self);
        }
        if self.position > usize::MAX - len {
            return Err(SummaryMaterializationError::ArithmeticOverflow);
        }
        let end = self.position + len;
        if end > self.bytes.len() {
            return Err(SummaryMaterializationError::RecordStructureInvalid);
        }
        let taken = &self.bytes[self.position..end];
        self.position = end;
        Ok(taken)
    }

    pub fn skip(&mut self, len: usize) -> (result: Result<(), SummaryMaterializationError>)
        ensures
            final(self).spec_bytes() == old(self).spec_bytes(),
            match taken_end(old(self).spec_bytes().len(), old(self).spec_position(), len as int) {
                Ok(end) => result is Ok && final(self).spec_position() == end,
                Err(error) => result == Err::<(), SummaryMaterializationError>(error)
                    && final(self).spec_position() == old(self).spec_position(),
            },
    {
        match self.take(len) {
            Ok(_) => Ok(()),
            Err(error) => Err(error),
        }
    }

    pub fn read_u16(&mut self) -> (result: Result<u16, SummaryMaterializationError>)
        ensures
            final(self).spec_bytes() == old(self).spec_bytes(),
            match taken_end(old(self).spec_bytes().len(), old(self).spec_position(), 2) {
                Ok(end) => result == Ok::<u16, SummaryMaterializationError>(
                    mcap_opcodes::le_u16_at(old(self).spec_bytes(), old(self).spec_position()),
                ) && final(self).spec_position() == end,
                Err(error) => result == Err::<u16, SummaryMaterializationError>(error)
                    && final(self).spec_position() == old(self).spec_position(),
            },
    {
        let taken = self.take(2)?;
        let value = read_le_u16(taken, 0);
        Ok(value)
    }

    pub fn read_u32_as_usize(&mut self) -> (result: Result<usize, SummaryMaterializationError>)
        ensures
            final(self).spec_bytes() == old(self).spec_bytes(),
            match taken_end(old(self).spec_bytes().len(), old(self).spec_position(), 4) {
                Ok(end) => result == Ok::<usize, SummaryMaterializationError>(
                    mcap_opcodes::le_u32_at(old(self).spec_bytes(), old(self).spec_position()) as usize,
                ) && final(self).spec_position() == end,
                Err(error) => result == Err::<usize, SummaryMaterializationError>(error)
                    && final(self).spec_position() == old(self).spec_position(),
            },
    {
        let taken = self.take(4)?;
        let value = read_le_u32(taken, 0);
        Ok(value as usize)
    }

    /// Reads a `u32`-length-prefixed UTF-8 string.
    pub fn read_string(&mut self) -> (result: Result<&'a str, SummaryMaterializationError>)
        ensures
            final(self).spec_bytes() == old(self).spec_bytes(),
            match string_at(old(self).spec_bytes(), old(self).spec_position()) {
                Ok((start, end)) => result matches Ok(text)
                    && crate::remote_ros2_reflection::policy::str_bytes(text) == old(self).spec_bytes().subrange(start, end)
                    && final(self).spec_position() == end,
                Err(error) => result == Err::<&'a str, SummaryMaterializationError>(error),
            },
    {
        let len = self.read_u32_as_usize()?;
        let taken = self.take(len)?;
        match utf8_text(taken) {
            Some(text) => Ok(text),
            None => Err(SummaryMaterializationError::StringInvalidUtf8),
        }
    }

    /// The body must be consumed exactly.
    pub fn finish(self) -> (result: Result<(), SummaryMaterializationError>)
        ensures
            self.spec_position() == self.spec_bytes().len() ==> result is Ok,
            self.spec_position() != self.spec_bytes().len() ==> result == Err::<
                (),
                SummaryMaterializationError,
            >(SummaryMaterializationError::RecordTrailingBytes),
    {
        if self.position == self.bytes.len() {
            Ok(())
        } else {
            Err(SummaryMaterializationError::RecordTrailingBytes)
        }
    }
}

/// The census after counting one more owned string of `len` bytes.
pub open spec fn census_with_string(census: NestedPreflightCensus, len: nat) -> Result<
    NestedPreflightCensus,
    SummaryMaterializationError,
> {
    if census.owned_string_count + 1 > u64::MAX || census.owned_string_bytes + len > u64::MAX {
        Err(SummaryMaterializationError::ArithmeticOverflow)
    } else {
        Ok(
            NestedPreflightCensus {
                owned_string_count: (census.owned_string_count + 1) as u64,
                owned_string_bytes: (census.owned_string_bytes + len) as u64,
                ..census
            },
        )
    }
}

pub fn observe_owned_string(string: &str, census: &mut NestedPreflightCensus) -> (result: Result<
    (),
    SummaryMaterializationError,
>)
    ensures
        match census_with_string(*old(census), crate::remote_ros2_reflection::policy::str_bytes(string).len()) {
            Ok(next) => result is Ok && *final(census) == next,
            Err(error) => result == Err::<(), SummaryMaterializationError>(error),
        },
{
    let len = string.as_bytes().len() as u64;
    assert(len == crate::remote_ros2_reflection::policy::str_bytes(string).len());
    let count = checked_add(census.owned_string_count, 1)?;
    let bytes = checked_add(census.owned_string_bytes, len)?;
    census.owned_string_count = count;
    census.owned_string_bytes = bytes;
    Ok(())
}

pub fn enforce_nested_retained_limit(
    census: &NestedPreflightCensus,
    limits: &SummaryMaterializationLimits,
) -> (result: Result<(), SummaryMaterializationError>)
    ensures
        census.nested_retained_bytes <= limits.max_nested_retained_bytes_per_summary ==> result is Ok,
        census.nested_retained_bytes > limits.max_nested_retained_bytes_per_summary ==> result
            == Err::<(), SummaryMaterializationError>(
            SummaryMaterializationError::NestedRetainedBytesLimitExceeded,
        ),
{
    if census.nested_retained_bytes > limits.max_nested_retained_bytes_per_summary {
        return Err(SummaryMaterializationError::NestedRetainedBytesLimitExceeded);
    }
    Ok(())
}


/// Reads one owned string at `position` and counts it: the position after it and the census.
pub open spec fn counted_string(bytes: Seq<u8>, position: int, census: NestedPreflightCensus) -> Result<
    (int, NestedPreflightCensus),
    SummaryMaterializationError,
> {
    match string_at(bytes, position) {
        Err(error) => Err(error),
        Ok((start, end)) => match census_with_string(census, (end - start) as nat) {
            Err(error) => Err(error),
            Ok(next) => Ok((end, next)),
        },
    }
}

/// The body ends exactly at `position`.
pub open spec fn finished_at(bytes: Seq<u8>, position: int, census: NestedPreflightCensus) -> Result<
    NestedPreflightCensus,
    SummaryMaterializationError,
> {
    if position != bytes.len() {
        Err(SummaryMaterializationError::RecordTrailingBytes)
    } else {
        Ok(census)
    }
}

fn read_counted_string(cursor: &mut SliceCursor<'_>, census: &mut NestedPreflightCensus) -> (result:
    Result<(), SummaryMaterializationError>)
    ensures
        final(cursor).spec_bytes() == old(cursor).spec_bytes(),
        match counted_string(old(cursor).spec_bytes(), old(cursor).spec_position(), *old(census)) {
            Ok((end, next)) => result is Ok && final(cursor).spec_position() == end
                && *final(census) == next,
            Err(error) => result == Err::<(), SummaryMaterializationError>(error),
        },
{
    let string = cursor.read_string()?;
    observe_owned_string(string, census)
}

/// The Header body: profile and library strings.
pub open spec fn header_preflight(body: Seq<u8>, census: NestedPreflightCensus) -> Result<
    NestedPreflightCensus,
    SummaryMaterializationError,
> {
    match counted_string(body, 0, census) {
        Err(error) => Err(error),
        Ok((first_end, first)) => match counted_string(body, first_end, first) {
            Err(error) => Err(error),
            Ok((end, next)) => finished_at(body, end, next),
        },
    }
}

pub fn preflight_header(body: &[u8], census: &mut NestedPreflightCensus) -> (result: Result<
    (),
    SummaryMaterializationError,
>)
    ensures
        match header_preflight(body@, *old(census)) {
            Ok(next) => result is Ok && *final(census) == next,
            Err(error) => result == Err::<(), SummaryMaterializationError>(error),
        },
{
    let mut cursor = SliceCursor::new(body);
    read_counted_string(&mut cursor, census)?;
    read_counted_string(&mut cursor, census)?;
    cursor.finish()
}

/// A Schema body: id, name, encoding and data.
pub open spec fn schema_preflight(body: Seq<u8>, census: NestedPreflightCensus) -> Result<
    NestedPreflightCensus,
    SummaryMaterializationError,
> {
    match taken_end(body.len(), 0, 2) {
        Err(error) => Err(error),
        Ok(id_end) => match counted_string(body, id_end, census) {
            Err(error) => Err(error),
            Ok((name_end, named)) => match counted_string(body, name_end, named) {
                Err(error) => Err(error),
                Ok((encoding_end, encoded)) => match taken_end(body.len(), encoding_end, 4) {
                    Err(error) => Err(error),
                    Ok(length_end) => {
                        let data_len = mcap_opcodes::le_u32_at(body, encoding_end);
                        match taken_end(body.len(), length_end, data_len as int) {
                            Err(error) => Err(error),
                            Ok(data_end) => if encoded.schema_data_bytes + data_len > u64::MAX {
                                Err(SummaryMaterializationError::ArithmeticOverflow)
                            } else {
                                finished_at(
                                    body,
                                    data_end,
                                    NestedPreflightCensus {
                                        schema_data_bytes: (encoded.schema_data_bytes + data_len) as u64,
                                        ..encoded
                                    },
                                )
                            },
                        }
                    },
                },
            },
        },
    }
}

pub fn preflight_schema(body: &[u8], census: &mut NestedPreflightCensus) -> (result: Result<
    (),
    SummaryMaterializationError,
>)
    ensures
        match schema_preflight(body@, *old(census)) {
            Ok(next) => result is Ok && *final(census) == next,
            Err(error) => result == Err::<(), SummaryMaterializationError>(error),
        },
{
    let mut cursor = SliceCursor::new(body);
    cursor.skip(2)?;
    read_counted_string(&mut cursor, census)?;
    read_counted_string(&mut cursor, census)?;
    let data_len = cursor.read_u32_as_usize()?;
    cursor.take(data_len)?;
    census.schema_data_bytes = checked_add(census.schema_data_bytes, data_len as u64)?;
    cursor.finish()
}

/// An Attachment Index body: five integers, then name and media type.
pub open spec fn attachment_index_preflight(body: Seq<u8>, census: NestedPreflightCensus) -> Result<
    NestedPreflightCensus,
    SummaryMaterializationError,
> {
    match taken_end(body.len(), 0, 40) {
        Err(error) => Err(error),
        Ok(fixed_end) => match counted_string(body, fixed_end, census) {
            Err(error) => Err(error),
            Ok((name_end, named)) => match counted_string(body, name_end, named) {
                Err(error) => Err(error),
                Ok((end, next)) => finished_at(body, end, next),
            },
        },
    }
}

pub fn preflight_attachment_index(body: &[u8], census: &mut NestedPreflightCensus) -> (result: Result<
    (),
    SummaryMaterializationError,
>)
    ensures
        match attachment_index_preflight(body@, *old(census)) {
            Ok(next) => result is Ok && *final(census) == next,
            Err(error) => result == Err::<(), SummaryMaterializationError>(error),
        },
{
    let mut cursor = SliceCursor::new(body);
    cursor.skip(40)?;
    read_counted_string(&mut cursor, census)?;
    read_counted_string(&mut cursor, census)?;
    cursor.finish()
}

/// A Metadata Index body: offset and length, then name.
pub open spec fn metadata_index_preflight(body: Seq<u8>, census: NestedPreflightCensus) -> Result<
    NestedPreflightCensus,
    SummaryMaterializationError,
> {
    match taken_end(body.len(), 0, 16) {
        Err(error) => Err(error),
        Ok(fixed_end) => match counted_string(body, fixed_end, census) {
            Err(error) => Err(error),
            Ok((end, next)) => finished_at(body, end, next),
        },
    }
}

pub fn preflight_metadata_index(body: &[u8], census: &mut NestedPreflightCensus) -> (result: Result<
    (),
    SummaryMaterializationError,
>)
    ensures
        match metadata_index_preflight(body@, *old(census)) {
            Ok(next) => result is Ok && *final(census) == next,
            Err(error) => result == Err::<(), SummaryMaterializationError>(error),
        },
{
    let mut cursor = SliceCursor::new(body);
    cursor.skip(16)?;
    read_counted_string(&mut cursor, census)?;
    cursor.finish()
}

/// Whether the string pairs of `prefix[position..]` hold no key equal to `key`: the first
/// structural failure, a duplicate, or success.
pub open spec fn unique_key_scan(prefix: Seq<u8>, position: int, key: Seq<u8>) -> Result<
    (),
    SummaryMaterializationError,
>
    decreases prefix.len() - position,
{
    if position < 0 || position >= prefix.len() {
        Ok(())
    } else {
        match string_at(prefix, position) {
            Err(error) => Err(error),
            Ok((key_start, key_end)) => match string_at(prefix, key_end) {
                Err(error) => Err(error),
                Ok((_, value_end)) => if prefix.subrange(key_start, key_end) == key {
                    Err(SummaryMaterializationError::DuplicateNestedKey)
                } else if value_end <= position {
                    Ok(())
                } else {
                    unique_key_scan(prefix, value_end, key)
                },
            },
        }
    }
}

/// Rejects `current_key` if one of the entries before `current_entry_start` already has it.
pub fn ensure_unique_string_key(
    nested: &[u8],
    current_entry_start: usize,
    current_key: &str,
) -> (result: Result<(), SummaryMaterializationError>)
    ensures
        current_entry_start > nested@.len() ==> result == Err::<(), SummaryMaterializationError>(
            SummaryMaterializationError::RecordStructureInvalid,
        ),
        current_entry_start <= nested@.len() ==> result == unique_key_scan(
            nested@.subrange(0, current_entry_start as int),
            0,
            crate::remote_ros2_reflection::policy::str_bytes(current_key),
        ),
{
    if current_entry_start > nested.len() {
        return Err(SummaryMaterializationError::RecordStructureInvalid);
    }
    let prefix = &nested[0..current_entry_start];
    let ghost key = crate::remote_ros2_reflection::policy::str_bytes(current_key);
    let mut previous = SliceCursor::new(prefix);
    while !previous.is_finished()
        invariant
            current_entry_start <= nested@.len(),
            prefix@ == nested@.subrange(0, current_entry_start as int),
            key == crate::remote_ros2_reflection::policy::str_bytes(current_key),
            previous.spec_bytes() == prefix@,
            0 <= previous.spec_position() <= prefix@.len(),
            unique_key_scan(prefix@, 0, key) == unique_key_scan(prefix@, previous.spec_position(), key),
        decreases prefix@.len() - previous.spec_position(),
    {
        let ghost position = previous.spec_position();
        let previous_key = previous.read_string()?;
        let previous_key_end = previous.position();
        previous.read_string()?;
        if crate::remote_ros2_reflection::names::bytes_equal(
            previous_key.as_bytes(),
            current_key.as_bytes(),
        ) {
            return Err(SummaryMaterializationError::DuplicateNestedKey);
        }
        proof {
            assert(previous_key_end == string_at(prefix@, position)->Ok_0.1);
        }
    }
    assert(unique_key_scan(prefix@, previous.spec_position(), key) is Ok);
    previous.finish()?;
    Ok(())
}

/// The Channel metadata entries of `nested[position..]` after `entries` entries: the entry
/// count and the census, counting every key and value as an owned string and as retained bytes.
pub open spec fn channel_metadata_walk(
    nested: Seq<u8>,
    position: int,
    entries: u64,
    limits: SummaryMaterializationLimits,
    census: NestedPreflightCensus,
) -> Result<(u64, NestedPreflightCensus), SummaryMaterializationError>
    decreases nested.len() - position,
{
    if position < 0 || position >= nested.len() {
        Ok((entries, census))
    } else {
        match string_at(nested, position) {
            Err(error) => Err(error),
            Ok((key_start, key_end)) => match string_at(nested, key_end) {
                Err(error) => Err(error),
                Ok((value_start, value_end)) => {
                    let key_len = key_end - key_start;
                    let value_len = value_end - value_start;
                    if entries + 1 > u64::MAX {
                        Err(SummaryMaterializationError::ArithmeticOverflow)
                    } else if entries + 1 > limits.max_channel_metadata_entries_per_record {
                        Err(SummaryMaterializationError::ChannelMetadataEntryLimitExceeded)
                    } else if key_len > limits.max_channel_metadata_key_bytes {
                        Err(SummaryMaterializationError::ChannelMetadataKeyBytesLimitExceeded)
                    } else if value_len > limits.max_channel_metadata_value_bytes {
                        Err(SummaryMaterializationError::ChannelMetadataValueBytesLimitExceeded)
                    } else {
                        match unique_key_scan(
                            nested.subrange(0, position),
                            0,
                            nested.subrange(key_start, key_end),
                        ) {
                            Err(error) => Err(error),
                            Ok(_) => match census_with_string(census, key_len as nat) {
                                Err(error) => Err(error),
                                Ok(keyed) => match census_with_string(keyed, value_len as nat) {
                                    Err(error) => Err(error),
                                    Ok(valued) => if key_len + value_len > u64::MAX
                                        || valued.nested_retained_bytes + key_len + value_len
                                        > u64::MAX {
                                        Err(SummaryMaterializationError::ArithmeticOverflow)
                                    } else if valued.nested_retained_bytes + key_len + value_len
                                        > limits.max_nested_retained_bytes_per_summary {
                                        Err(
                                            SummaryMaterializationError::NestedRetainedBytesLimitExceeded,
                                        )
                                    } else if value_end <= position {
                                        Ok((entries, census))
                                    } else {
                                        channel_metadata_walk(
                                            nested,
                                            value_end,
                                            (entries + 1) as u64,
                                            limits,
                                            NestedPreflightCensus {
                                                nested_retained_bytes: (valued.nested_retained_bytes
                                                    + key_len + value_len) as u64,
                                                ..valued
                                            },
                                        )
                                    },
                                },
                            },
                        }
                    }
                },
            },
        }
    }
}

/// A Channel body: id, schema id, topic, message encoding and the metadata map.
pub open spec fn channel_preflight(
    body: Seq<u8>,
    limits: SummaryMaterializationLimits,
    census: NestedPreflightCensus,
) -> Result<NestedPreflightCensus, SummaryMaterializationError> {
    match taken_end(body.len(), 0, 4) {
        Err(error) => Err(error),
        Ok(ids_end) => match counted_string(body, ids_end, census) {
            Err(error) => Err(error),
            Ok((topic_end, topical)) => match counted_string(body, topic_end, topical) {
                Err(error) => Err(error),
                Ok((encoding_end, encoded)) => match taken_end(body.len(), encoding_end, 4) {
                    Err(error) => Err(error),
                    Ok(map_start) => {
                        let encoded_len = mcap_opcodes::le_u32_at(body, encoding_end) as int;
                        match taken_end(body.len(), map_start, encoded_len) {
                            Err(error) => Err(error),
                            Ok(map_end) => if map_end != body.len() {
                                Err(SummaryMaterializationError::RecordTrailingBytes)
                            } else {
                                match channel_metadata_walk(
                                    body.subrange(map_start, map_end),
                                    0,
                                    0,
                                    limits,
                                    encoded,
                                ) {
                                    Err(error) => Err(error),
                                    Ok((entries, walked)) => if walked.channel_metadata_entries
                                        + entries > u64::MAX || walked.nested_encoded_bytes
                                        + encoded_len > u64::MAX {
                                        Err(SummaryMaterializationError::ArithmeticOverflow)
                                    } else {
                                        Ok(
                                            NestedPreflightCensus {
                                                channel_metadata_entries: (walked.channel_metadata_entries
                                                    + entries) as u64,
                                                nested_encoded_bytes: (walked.nested_encoded_bytes
                                                    + encoded_len) as u64,
                                                ..walked
                                            },
                                        )
                                    },
                                }
                            },
                        }
                    },
                },
            },
        },
    }
}

pub fn preflight_channel(
    body: &[u8],
    limits: &SummaryMaterializationLimits,
    census: &mut NestedPreflightCensus,
) -> (result: Result<(), SummaryMaterializationError>)
    ensures
        match channel_preflight(body@, *limits, *old(census)) {
            Ok(next) => result is Ok && *final(census) == next,
            Err(error) => result == Err::<(), SummaryMaterializationError>(error),
        },
{
    let mut cursor = SliceCursor::new(body);
    cursor.skip(4)?;
    read_counted_string(&mut cursor, census)?;
    read_counted_string(&mut cursor, census)?;
    let encoded_len = cursor.read_u32_as_usize()?;
    let ghost map_start = cursor.spec_position();
    let nested = cursor.take(encoded_len)?;
    cursor.finish()?;
    let ghost start_census = *census;
    let mut nested_cursor = SliceCursor::new(nested);
    let mut entries: u64 = 0;
    while !nested_cursor.is_finished()
        invariant
            nested_cursor.spec_bytes() == nested@,
            0 <= nested_cursor.spec_position() <= nested@.len(),
            channel_preflight(body@, *limits, *old(census)) == (match channel_metadata_walk(
                nested@,
                0,
                0,
                *limits,
                start_census,
            ) {
                Err(error) => Err(error),
                Ok((entries, walked)) => if walked.channel_metadata_entries + entries > u64::MAX
                    || walked.nested_encoded_bytes + encoded_len > u64::MAX {
                    Err(SummaryMaterializationError::ArithmeticOverflow)
                } else {
                    Ok(
                        NestedPreflightCensus {
                            channel_metadata_entries: (walked.channel_metadata_entries
                                + entries) as u64,
                            nested_encoded_bytes: (walked.nested_encoded_bytes
                                + encoded_len) as u64,
                            ..walked
                        },
                    )
                },
            }),
            channel_metadata_walk(nested@, 0, 0, *limits, start_census) == channel_metadata_walk(
                nested@,
                nested_cursor.spec_position(),
                entries,
                *limits,
                *census,
            ),
        decreases nested@.len() - nested_cursor.spec_position(),
    {
        let entry_start = nested_cursor.position();
        let key = nested_cursor.read_string()?;
        let value = nested_cursor.read_string()?;
        entries = checked_add(entries, 1)?;
        if entries > limits.max_channel_metadata_entries_per_record {
            return Err(SummaryMaterializationError::ChannelMetadataEntryLimitExceeded);
        }
        if usize_as_u64(key.len())? > limits.max_channel_metadata_key_bytes {
            return Err(SummaryMaterializationError::ChannelMetadataKeyBytesLimitExceeded);
        }
        if usize_as_u64(value.len())? > limits.max_channel_metadata_value_bytes {
            return Err(SummaryMaterializationError::ChannelMetadataValueBytesLimitExceeded);
        }
        ensure_unique_string_key(nested, entry_start, key)?;
        observe_owned_string(key, census)?;
        observe_owned_string(value, census)?;
        let entry_bytes = checked_add(usize_as_u64(key.len())?, usize_as_u64(value.len())?)?;
        census.nested_retained_bytes = checked_add(census.nested_retained_bytes, entry_bytes)?;
        enforce_nested_retained_limit(census, limits)?;
    }
    nested_cursor.finish()?;
    census.channel_metadata_entries = checked_add(census.channel_metadata_entries, entries)?;
    census.nested_encoded_bytes = checked_add(
        census.nested_encoded_bytes,
        usize_as_u64(encoded_len)?,
    )?;
    Ok(())
}

/// The keys of a fixed-width map are pairwise distinct.
pub open spec fn distinct_fixed_keys(nested: Seq<u8>, entries: int) -> bool {
    forall|i: int, j: int|
        0 <= i < j < entries ==> mcap_opcodes::le_u16_at(nested, #[trigger] (i * 10)) != mcap_opcodes::le_u16_at(
            nested,
            #[trigger] (j * 10),
        )
}

/// A `u32`-length-prefixed map of `u16` keys to `u64` values at `position`: the position after
/// it and the census, counting its entries and bytes.
pub open spec fn fixed_int_map_at(
    bytes: Seq<u8>,
    position: int,
    max_entries: u64,
    limit_error: SummaryMaterializationError,
    limits: SummaryMaterializationLimits,
    census: NestedPreflightCensus,
) -> Result<(int, NestedPreflightCensus), SummaryMaterializationError> {
    match taken_end(bytes.len(), position, 4) {
        Err(error) => Err(error),
        Ok(start) => {
            let encoded_len = mcap_opcodes::le_u32_at(bytes, position) as int;
            match taken_end(bytes.len(), start, encoded_len) {
                Err(error) => Err(error),
                Ok(end) => {
                    let entries = encoded_len / 10;
                    if encoded_len % 10 != 0 {
                        Err(SummaryMaterializationError::NestedEncodedWidthInvalid)
                    } else if entries > max_entries {
                        Err(limit_error)
                    } else if !distinct_fixed_keys(bytes.subrange(start, end), entries) {
                        Err(SummaryMaterializationError::DuplicateNestedKey)
                    } else if census.fixed_map_entries + entries > u64::MAX
                        || census.nested_encoded_bytes + encoded_len > u64::MAX
                        || census.nested_retained_bytes + encoded_len > u64::MAX {
                        Err(SummaryMaterializationError::ArithmeticOverflow)
                    } else if census.nested_retained_bytes + encoded_len
                        > limits.max_nested_retained_bytes_per_summary {
                        Err(SummaryMaterializationError::NestedRetainedBytesLimitExceeded)
                    } else {
                        Ok(
                            (
                                end,
                                NestedPreflightCensus {
                                    fixed_map_entries: (census.fixed_map_entries + entries) as u64,
                                    nested_encoded_bytes: (census.nested_encoded_bytes + encoded_len) as u64,
                                    nested_retained_bytes: (census.nested_retained_bytes + encoded_len) as u64,
                                    ..census
                                },
                            ),
                        )
                    }
                },
            }
        },
    }
}

/// Whether the first `entries` keys of a fixed-width map are pairwise distinct.
fn fixed_keys_distinct(nested: &[u8], entries: usize) -> (distinct: bool)
    requires
        entries * 10 <= nested@.len(),
    ensures
        distinct == distinct_fixed_keys(nested@, entries as int),
{
    let nested_len = nested.len();
    let mut entry: usize = 0;
    while entry < entries
        invariant
            entries * 10 <= nested@.len(),
            nested_len == nested@.len(),
            entry <= entries,
            distinct_fixed_keys(nested@, entry as int),
        decreases entries - entry,
    {
        assert(entry * 10 + 10 <= nested@.len()) by (nonlinear_arith)
            requires
                entry < entries,
                entries * 10 <= nested@.len(),
        ;
        let key = read_le_u16(nested, entry * 10);
        let mut previous: usize = 0;
        while previous < entry
            invariant
                entries * 10 <= nested@.len(),
                nested_len == nested@.len(),
                entry < entries,
                entry * 10 + 10 <= nested@.len(),
                previous <= entry,
                key == mcap_opcodes::le_u16_at(nested@, entry * 10),
                forall|i: int| 0 <= i < previous ==> mcap_opcodes::le_u16_at(nested@, #[trigger] (i * 10)) != key,
            decreases entry - previous,
        {
            assert(previous * 10 + 10 <= nested@.len()) by (nonlinear_arith)
                requires
                    previous < entry,
                    entry * 10 + 10 <= nested@.len(),
            ;
            let previous_key = read_le_u16(nested, previous * 10);
            if previous_key == key {
                assert(!distinct_fixed_keys(nested@, entries as int)) by {
                    assert(mcap_opcodes::le_u16_at(nested@, previous * 10) == mcap_opcodes::le_u16_at(
                        nested@,
                        entry * 10,
                    ));
                }
                return false;
            }
            previous = previous + 1;
        }
        assert forall|i: int, j: int| 0 <= i < j < entry + 1 implies mcap_opcodes::le_u16_at(
            nested@,
            #[trigger] (i * 10),
        ) != mcap_opcodes::le_u16_at(nested@, #[trigger] (j * 10)) by {
            if j < entry {
                assert(distinct_fixed_keys(nested@, entry as int));
            }
        }
        entry = entry + 1;
    }
    true
}

pub fn preflight_fixed_int_map(
    cursor: &mut SliceCursor<'_>,
    max_entries: u64,
    limit_error: SummaryMaterializationError,
    limits: &SummaryMaterializationLimits,
    census: &mut NestedPreflightCensus,
) -> (result: Result<(), SummaryMaterializationError>)
    ensures
        final(cursor).spec_bytes() == old(cursor).spec_bytes(),
        match fixed_int_map_at(
            old(cursor).spec_bytes(),
            old(cursor).spec_position(),
            max_entries,
            limit_error,
            *limits,
            *old(census),
        ) {
            Ok((end, next)) => result is Ok && final(cursor).spec_position() == end
                && *final(census) == next,
            Err(error) => result == Err::<(), SummaryMaterializationError>(error),
        },
{
    let ghost bytes = cursor.spec_bytes();
    let ghost position = cursor.spec_position();
    let encoded_len = cursor.read_u32_as_usize()?;
    let ghost start = cursor.spec_position();
    let nested = cursor.take(encoded_len)?;
    assert(nested@ == bytes.subrange(start, start + encoded_len));
    if encoded_len % FIXED_INT_MAP_ENTRY_LEN != 0 {
        return Err(SummaryMaterializationError::NestedEncodedWidthInvalid);
    }
    let entries = encoded_len / FIXED_INT_MAP_ENTRY_LEN;
    if entries as u64 > max_entries {
        return Err(limit_error);
    }
    assert(entries * 10 <= nested@.len()) by (nonlinear_arith)
        requires
            entries == encoded_len / 10,
            nested@.len() == encoded_len,
    ;
    if !fixed_keys_distinct(nested, entries) {
        return Err(SummaryMaterializationError::DuplicateNestedKey);
    }
    let fixed_map_entries = checked_add(census.fixed_map_entries, entries as u64)?;
    let nested_encoded_bytes = checked_add(census.nested_encoded_bytes, encoded_len as u64)?;
    let nested_retained_bytes = checked_add(census.nested_retained_bytes, encoded_len as u64)?;
    census.fixed_map_entries = fixed_map_entries;
    census.nested_encoded_bytes = nested_encoded_bytes;
    census.nested_retained_bytes = nested_retained_bytes;
    enforce_nested_retained_limit(census, limits)
}

/// A Statistics body: counts and times, then the per-channel message counts.
pub open spec fn statistics_preflight(
    body: Seq<u8>,
    limits: SummaryMaterializationLimits,
    census: NestedPreflightCensus,
) -> Result<NestedPreflightCensus, SummaryMaterializationError> {
    match taken_end(body.len(), 0, 26) {
        Err(error) => Err(error),
        Ok(counts_end) => match taken_end(body.len(), counts_end, 16) {
            Err(error) => Err(error),
            Ok(times_end) => match fixed_int_map_at(
                body,
                times_end,
                limits.max_statistics_channel_message_counts,
                SummaryMaterializationError::StatisticsChannelMessageCountLimitExceeded,
                limits,
                census,
            ) {
                Err(error) => Err(error),
                Ok((end, next)) => finished_at(body, end, next),
            },
        },
    }
}

pub fn preflight_statistics(
    body: &[u8],
    limits: &SummaryMaterializationLimits,
    census: &mut NestedPreflightCensus,
) -> (result: Result<(), SummaryMaterializationError>)
    ensures
        match statistics_preflight(body@, *limits, *old(census)) {
            Ok(next) => result is Ok && *final(census) == next,
            Err(error) => result == Err::<(), SummaryMaterializationError>(error),
        },
{
    let mut cursor = SliceCursor::new(body);
    cursor.skip(26)?;
    cursor.skip(16)?;
    preflight_fixed_int_map(
        &mut cursor,
        limits.max_statistics_channel_message_counts,
        SummaryMaterializationError::StatisticsChannelMessageCountLimitExceeded,
        limits,
        census,
    )?;
    cursor.finish()
}

/// A Chunk Index body: times and offsets, the message-index offsets map, the length, the
/// compression string and the two sizes.
pub open spec fn chunk_index_preflight(
    body: Seq<u8>,
    limits: SummaryMaterializationLimits,
    census: NestedPreflightCensus,
) -> Result<NestedPreflightCensus, SummaryMaterializationError> {
    match taken_end(body.len(), 0, 32) {
        Err(error) => Err(error),
        Ok(fixed_end) => match fixed_int_map_at(
            body,
            fixed_end,
            limits.max_chunk_index_message_index_offsets,
            SummaryMaterializationError::ChunkIndexMessageIndexOffsetLimitExceeded,
            limits,
            census,
        ) {
            Err(error) => Err(error),
            Ok((map_end, mapped)) => match taken_end(body.len(), map_end, 8) {
                Err(error) => Err(error),
                Ok(length_end) => match counted_string(body, length_end, mapped) {
                    Err(error) => Err(error),
                    Ok((compression_end, counted)) => match taken_end(body.len(), compression_end, 16) {
                        Err(error) => Err(error),
                        Ok(end) => finished_at(body, end, counted),
                    },
                },
            },
        },
    }
}

pub fn preflight_chunk_index(
    body: &[u8],
    limits: &SummaryMaterializationLimits,
    census: &mut NestedPreflightCensus,
) -> (result: Result<(), SummaryMaterializationError>)
    ensures
        match chunk_index_preflight(body@, *limits, *old(census)) {
            Ok(next) => result is Ok && *final(census) == next,
            Err(error) => result == Err::<(), SummaryMaterializationError>(error),
        },
{
    let mut cursor = SliceCursor::new(body);
    cursor.skip(32)?;
    preflight_fixed_int_map(
        &mut cursor,
        limits.max_chunk_index_message_index_offsets,
        SummaryMaterializationError::ChunkIndexMessageIndexOffsetLimitExceeded,
        limits,
        census,
    )?;
    cursor.skip(8)?;
    read_counted_string(&mut cursor, census)?;
    cursor.skip(16)?;
    cursor.finish()
}

/// A MessageIndex body: channel id and the fixed-width entries.
pub open spec fn message_index_preflight(
    body: Seq<u8>,
    aggregate_entries_before: u64,
    limits: MessageIndexPreflightLimits,
) -> Result<MessageIndexPreflight, SummaryMaterializationError> {
    match taken_end(body.len(), 0, 2) {
        Err(error) => Err(error),
        Ok(id_end) => match taken_end(body.len(), id_end, 4) {
            Err(error) => Err(error),
            Ok(start) => {
                let encoded = mcap_opcodes::le_u32_at(body, id_end) as int;
                match taken_end(body.len(), start, encoded) {
                    Err(error) => Err(error),
                    Ok(end) => if encoded % 16 != 0 {
                        Err(SummaryMaterializationError::NestedEncodedWidthInvalid)
                    } else if end != body.len() {
                        Err(SummaryMaterializationError::RecordTrailingBytes)
                    } else if encoded / 16 > limits.max_entries_per_record {
                        Err(SummaryMaterializationError::MessageIndexEntryLimitExceeded)
                    } else if aggregate_entries_before + encoded / 16 > u64::MAX {
                        Err(SummaryMaterializationError::ArithmeticOverflow)
                    } else if aggregate_entries_before + encoded / 16 > limits.max_aggregate_entries {
                        Err(SummaryMaterializationError::MessageIndexAggregateEntryLimitExceeded)
                    } else {
                        Ok(
                            MessageIndexPreflight {
                                channel_id: mcap_opcodes::le_u16_at(body, 0),
                                entries: (encoded / 16) as u64,
                                encoded_bytes: encoded as u64,
                                aggregate_entries: (aggregate_entries_before + encoded / 16) as u64,
                            },
                        )
                    },
                }
            },
        },
    }
}

pub fn preflight_message_index_records(
    body: &[u8],
    aggregate_entries_before: u64,
    limits: &MessageIndexPreflightLimits,
) -> (result: Result<MessageIndexPreflight, SummaryMaterializationError>)
    ensures
        result == message_index_preflight(body@, aggregate_entries_before, *limits),
{
    let mut cursor = SliceCursor::new(body);
    let channel_id = cursor.read_u16()?;
    let encoded_bytes = cursor.read_u32_as_usize()?;
    cursor.take(encoded_bytes)?;
    if encoded_bytes % MESSAGE_INDEX_ENTRY_LEN != 0 {
        return Err(SummaryMaterializationError::NestedEncodedWidthInvalid);
    }
    cursor.finish()?;
    let entries = (encoded_bytes / MESSAGE_INDEX_ENTRY_LEN) as u64;
    if entries > limits.max_entries_per_record {
        return Err(SummaryMaterializationError::MessageIndexEntryLimitExceeded);
    }
    let aggregate_entries = checked_add(aggregate_entries_before, entries)?;
    if aggregate_entries > limits.max_aggregate_entries {
        return Err(SummaryMaterializationError::MessageIndexAggregateEntryLimitExceeded);
    }
    Ok(
        MessageIndexPreflight {
            channel_id,
            entries,
            encoded_bytes: encoded_bytes as u64,
            aggregate_entries,
        },
    )
}


/// The field-wise sum of two censuses, if no field overflows.
pub open spec fn census_sum(left: NestedPreflightCensus, right: NestedPreflightCensus) -> Result<
    NestedPreflightCensus,
    SummaryMaterializationError,
> {
    if left.main_summary_records + right.main_summary_records > u64::MAX || left.owned_string_count + right.owned_string_count > u64::MAX || left.owned_string_bytes + right.owned_string_bytes > u64::MAX || left.schema_data_bytes + right.schema_data_bytes > u64::MAX || left.channel_metadata_entries + right.channel_metadata_entries > u64::MAX || left.fixed_map_entries + right.fixed_map_entries > u64::MAX || left.nested_encoded_bytes + right.nested_encoded_bytes > u64::MAX || left.nested_retained_bytes + right.nested_retained_bytes > u64::MAX {
        Err(SummaryMaterializationError::ArithmeticOverflow)
    } else {
        Ok(
            NestedPreflightCensus {
                main_summary_records: (left.main_summary_records + right.main_summary_records) as u64,
                owned_string_count: (left.owned_string_count + right.owned_string_count) as u64,
                owned_string_bytes: (left.owned_string_bytes + right.owned_string_bytes) as u64,
                schema_data_bytes: (left.schema_data_bytes + right.schema_data_bytes) as u64,
                channel_metadata_entries: (left.channel_metadata_entries + right.channel_metadata_entries) as u64,
                fixed_map_entries: (left.fixed_map_entries + right.fixed_map_entries) as u64,
                nested_encoded_bytes: (left.nested_encoded_bytes + right.nested_encoded_bytes) as u64,
                nested_retained_bytes: (left.nested_retained_bytes + right.nested_retained_bytes) as u64,
            },
        )
    }
}

pub open spec fn census_covers(left: NestedPreflightCensus, right: NestedPreflightCensus) -> bool {
    left.main_summary_records >= right.main_summary_records && left.owned_string_count >= right.owned_string_count && left.owned_string_bytes >= right.owned_string_bytes && left.schema_data_bytes >= right.schema_data_bytes && left.channel_metadata_entries >= right.channel_metadata_entries && left.fixed_map_entries >= right.fixed_map_entries && left.nested_encoded_bytes >= right.nested_encoded_bytes && left.nested_retained_bytes >= right.nested_retained_bytes
}

pub open spec fn census_difference(left: NestedPreflightCensus, right: NestedPreflightCensus) -> NestedPreflightCensus {
    NestedPreflightCensus {
        main_summary_records: (left.main_summary_records - right.main_summary_records) as u64,
        owned_string_count: (left.owned_string_count - right.owned_string_count) as u64,
        owned_string_bytes: (left.owned_string_bytes - right.owned_string_bytes) as u64,
        schema_data_bytes: (left.schema_data_bytes - right.schema_data_bytes) as u64,
        channel_metadata_entries: (left.channel_metadata_entries - right.channel_metadata_entries) as u64,
        fixed_map_entries: (left.fixed_map_entries - right.fixed_map_entries) as u64,
        nested_encoded_bytes: (left.nested_encoded_bytes - right.nested_encoded_bytes) as u64,
        nested_retained_bytes: (left.nested_retained_bytes - right.nested_retained_bytes) as u64,
    }
}

pub fn add_census(left: NestedPreflightCensus, right: NestedPreflightCensus) -> (sum: Result<
    NestedPreflightCensus,
    SummaryMaterializationError,
>)
    ensures
        sum == census_sum(left, right),
{
    Ok(
        NestedPreflightCensus {
            main_summary_records: checked_add(left.main_summary_records, right.main_summary_records)?,
            owned_string_count: checked_add(left.owned_string_count, right.owned_string_count)?,
            owned_string_bytes: checked_add(left.owned_string_bytes, right.owned_string_bytes)?,
            schema_data_bytes: checked_add(left.schema_data_bytes, right.schema_data_bytes)?,
            channel_metadata_entries: checked_add(left.channel_metadata_entries, right.channel_metadata_entries)?,
            fixed_map_entries: checked_add(left.fixed_map_entries, right.fixed_map_entries)?,
            nested_encoded_bytes: checked_add(left.nested_encoded_bytes, right.nested_encoded_bytes)?,
            nested_retained_bytes: checked_add(left.nested_retained_bytes, right.nested_retained_bytes)?,
        },
    )
}

/// The field-wise difference, if `left` covers `right`.
pub fn subtract_census(left: NestedPreflightCensus, right: NestedPreflightCensus) -> (difference: Option<
    NestedPreflightCensus,
>)
    ensures
        census_covers(left, right) ==> difference == Some(census_difference(left, right)),
        !census_covers(left, right) ==> difference is None,
{
    if !(left.main_summary_records >= right.main_summary_records && left.owned_string_count >= right.owned_string_count && left.owned_string_bytes >= right.owned_string_bytes && left.schema_data_bytes >= right.schema_data_bytes && left.channel_metadata_entries >= right.channel_metadata_entries && left.fixed_map_entries >= right.fixed_map_entries && left.nested_encoded_bytes >= right.nested_encoded_bytes && left.nested_retained_bytes >= right.nested_retained_bytes) {
        return None;
    }
    Some(
        NestedPreflightCensus {
            main_summary_records: left.main_summary_records - right.main_summary_records,
            owned_string_count: left.owned_string_count - right.owned_string_count,
            owned_string_bytes: left.owned_string_bytes - right.owned_string_bytes,
            schema_data_bytes: left.schema_data_bytes - right.schema_data_bytes,
            channel_metadata_entries: left.channel_metadata_entries - right.channel_metadata_entries,
            fixed_map_entries: left.fixed_map_entries - right.fixed_map_entries,
            nested_encoded_bytes: left.nested_encoded_bytes - right.nested_encoded_bytes,
            nested_retained_bytes: left.nested_retained_bytes - right.nested_retained_bytes,
        },
    )
}

/// Aggregate usage of the materialization budget.
#[derive(Clone, Copy, Debug, PartialEq, Eq, Structural)]
pub struct SummaryMaterializationUsage {
    pub active_reservations: u64,
    pub census: NestedPreflightCensus,
}

/// Capacity of one materialization budget: every census dimension separately.
#[derive(Clone, Copy, Debug, PartialEq, Eq, Structural)]
pub struct SummaryMaterializationCapacity {
    pub max_active_reservations: u64,
    pub census: NestedPreflightCensus,
}

pub open spec fn usage_with(usage: SummaryMaterializationUsage, census: NestedPreflightCensus) -> Result<
    SummaryMaterializationUsage,
    SummaryMaterializationError,
> {
    if usage.active_reservations + 1 > u64::MAX {
        Err(SummaryMaterializationError::ArithmeticOverflow)
    } else {
        match census_sum(usage.census, census) {
            Err(error) => Err(error),
            Ok(total) => Ok(
                SummaryMaterializationUsage {
                    active_reservations: (usage.active_reservations + 1) as u64,
                    census: total,
                },
            ),
        }
    }
}

pub open spec fn usage_without(usage: SummaryMaterializationUsage, census: NestedPreflightCensus) -> Option<
    SummaryMaterializationUsage,
> {
    if usage.active_reservations >= 1 && census_covers(usage.census, census) {
        Some(
            SummaryMaterializationUsage {
                active_reservations: (usage.active_reservations - 1) as u64,
                census: census_difference(usage.census, census),
            },
        )
    } else {
        None
    }
}

pub open spec fn usage_within(usage: SummaryMaterializationUsage, capacity: SummaryMaterializationCapacity) -> bool {
    usage.active_reservations <= capacity.max_active_reservations && census_covers(
        capacity.census,
        usage.census,
    )
}

pub fn add_usage(usage: SummaryMaterializationUsage, census: NestedPreflightCensus) -> (next: Result<
    SummaryMaterializationUsage,
    SummaryMaterializationError,
>)
    ensures
        next == usage_with(usage, census),
{
    Ok(
        SummaryMaterializationUsage {
            active_reservations: checked_add(usage.active_reservations, 1)?,
            census: add_census(usage.census, census)?,
        },
    )
}

pub fn subtract_usage(usage: SummaryMaterializationUsage, census: NestedPreflightCensus) -> (next: Option<
    SummaryMaterializationUsage,
>)
    ensures
        next == usage_without(usage, census),
{
    if usage.active_reservations == 0 {
        return None;
    }
    match subtract_census(usage.census, census) {
        Some(remaining) => Some(
            SummaryMaterializationUsage {
                active_reservations: usage.active_reservations - 1,
                census: remaining,
            },
        ),
        None => None,
    }
}

pub fn usage_fits(usage: SummaryMaterializationUsage, capacity: SummaryMaterializationCapacity) -> (fits:
    bool)
    ensures
        fits == usage_within(usage, capacity),
{
    usage.active_reservations <= capacity.max_active_reservations && usage.census.main_summary_records <= capacity.census.main_summary_records && usage.census.owned_string_count <= capacity.census.owned_string_count && usage.census.owned_string_bytes <= capacity.census.owned_string_bytes && usage.census.schema_data_bytes <= capacity.census.schema_data_bytes && usage.census.channel_metadata_entries <= capacity.census.channel_metadata_entries && usage.census.fixed_map_entries <= capacity.census.fixed_map_entries && usage.census.nested_encoded_bytes <= capacity.census.nested_encoded_bytes && usage.census.nested_retained_bytes <= capacity.census.nested_retained_bytes
}

/// The materialization budget of one sealed profile.
pub struct SummaryMaterializationBudget {
    pub profile_id: u64,
    pub limits: SummaryMaterializationLimits,
    pub capacity: SummaryMaterializationCapacity,
    pub usage: SummaryMaterializationUsage,
}

/// One live materialization reservation.
#[derive(Debug, PartialEq, Eq, Structural)]
pub struct SummaryMaterializationReservation {
    pub profile_id: u64,
    pub census: NestedPreflightCensus,
}

impl SummaryMaterializationReservation {
    pub fn census(&self) -> (census: NestedPreflightCensus)
        ensures
            census == self.census,
    {
        self.census
    }
}

impl SummaryMaterializationBudget {
    pub fn for_test(
        profile_id: u64,
        limits: SummaryMaterializationLimits,
        max_active_reservations: u64,
        census_capacity: NestedPreflightCensus,
    ) -> (budget: Self)
        ensures
            budget.profile_id == profile_id,
            budget.limits == limits,
            budget.capacity == (SummaryMaterializationCapacity {
                max_active_reservations,
                census: census_capacity,
            }),
            budget.usage == (SummaryMaterializationUsage {
                active_reservations: 0,
                census: empty_nested_census(),
            }),
    {
        SummaryMaterializationBudget {
            profile_id,
            limits,
            capacity: SummaryMaterializationCapacity { max_active_reservations, census: census_capacity },
            usage: SummaryMaterializationUsage {
                active_reservations: 0,
                census: NestedPreflightCensus::default(),
            },
        }
    }

    pub fn limits(&self) -> (limits: &SummaryMaterializationLimits)
        ensures
            *limits == self.limits,
    {
        &self.limits
    }

    pub fn usage_for_test(&self) -> (usage: (u64, NestedPreflightCensus))
        ensures
            usage == (self.usage.active_reservations, self.usage.census),
    {
        (self.usage.active_reservations, self.usage.census)
    }

    /// Reserves one complete preflight census, all or nothing.
    pub fn try_reserve(&mut self, census: NestedPreflightCensus) -> (result: Result<
        SummaryMaterializationReservation,
        SummaryMaterializationError,
    >)
        ensures
            final(self).profile_id == old(self).profile_id,
            final(self).limits == old(self).limits,
            final(self).capacity == old(self).capacity,
            match usage_with(old(self).usage, census) {
                Ok(next) => if usage_within(next, old(self).capacity) {
                    result == Ok::<SummaryMaterializationReservation, SummaryMaterializationError>(
                        SummaryMaterializationReservation { profile_id: old(self).profile_id, census },
                    ) && final(self).usage == next
                } else {
                    result == Err::<SummaryMaterializationReservation, SummaryMaterializationError>(
                        SummaryMaterializationError::MaterializationReservationLimitExceeded,
                    ) && final(self).usage == old(self).usage
                },
                Err(error) => result == Err::<SummaryMaterializationReservation, SummaryMaterializationError>(
                    error,
                ) && final(self).usage == old(self).usage,
            },
    {
        let next = add_usage(self.usage, census)?;
        if !usage_fits(next, self.capacity) {
            return Err(SummaryMaterializationError::MaterializationReservationLimitExceeded);
        }
        self.usage = next;
        Ok(SummaryMaterializationReservation { profile_id: self.profile_id, census })
    }

    /// Returns a live reservation of this budget.
    pub fn release(&mut self, reservation: SummaryMaterializationReservation)
        requires
            usage_without(old(self).usage, reservation.census) is Some,
        ensures
            final(self).profile_id == old(self).profile_id,
            final(self).limits == old(self).limits,
            final(self).capacity == old(self).capacity,
            Some(final(self).usage) == usage_without(old(self).usage, reservation.census),
    {
        match subtract_usage(self.usage, reservation.census) {
            Some(next) => {
                self.usage = next;
            },
            None => {},
        }
    }
}

/// Releasing an admitted reservation restores the budget usage exactly.
pub proof fn lemma_materialization_reservation_round_trip(
    usage: SummaryMaterializationUsage,
    census: NestedPreflightCensus,
)
    requires
        usage_with(usage, census) is Ok,
    ensures
        usage_without(usage_with(usage, census)->Ok_0, census) == Some(usage),
{
}


/// Sealed evidence that the whole Header and main Summary section passed preflight and that
/// its census is reserved.
pub struct SummaryMaterializationToken<'a> {
    prepared: PreparedSummaryRecords<'a>,
    reservation: SummaryMaterializationReservation,
}

impl<'a> SummaryMaterializationToken<'a> {
    pub closed spec fn spec_prepared(&self) -> PreparedSummaryRecords<'a> {
        self.prepared
    }

    pub closed spec fn spec_reservation(&self) -> SummaryMaterializationReservation {
        self.reservation
    }

    pub fn reserved_census(&self) -> (census: NestedPreflightCensus)
        ensures
            census == self.spec_reservation().census,
    {
        self.reservation.census
    }
}

/// One main-section record: the nested census and the observed top-level counts after it.
#[verifier::opaque]
pub open spec fn record_preflight(
    opcode: u8,
    body: Seq<u8>,
    limits: SummaryMaterializationLimits,
    census: NestedPreflightCensus,
    observed: SummaryRecordCensus,
) -> Result<(NestedPreflightCensus, SummaryRecordCensus), SummaryMaterializationError> {
    if census.main_summary_records + 1 > u64::MAX {
        Err(SummaryMaterializationError::ArithmeticOverflow)
    } else {
        let counted = NestedPreflightCensus {
            main_summary_records: (census.main_summary_records + 1) as u64,
            ..census
        };
        if opcode == OP_SCHEMA {
            if observed.schema_records + 1 > u64::MAX {
                Err(SummaryMaterializationError::ArithmeticOverflow)
            } else {
                match schema_preflight(body, counted) {
                    Err(error) => Err(error),
                    Ok(next) => Ok(
                        (
                            next,
                            SummaryRecordCensus {
                                schema_records: (observed.schema_records + 1) as u64,
                                ..observed
                            },
                        ),
                    ),
                }
            }
        } else if opcode == OP_CHANNEL {
            if observed.channel_records + 1 > u64::MAX {
                Err(SummaryMaterializationError::ArithmeticOverflow)
            } else {
                match channel_preflight(body, limits, counted) {
                    Err(error) => Err(error),
                    Ok(next) => Ok(
                        (
                            next,
                            SummaryRecordCensus {
                                channel_records: (observed.channel_records + 1) as u64,
                                ..observed
                            },
                        ),
                    ),
                }
            }
        } else if opcode == OP_CHUNK_INDEX {
            if observed.chunk_index_records + 1 > u64::MAX {
                Err(SummaryMaterializationError::ArithmeticOverflow)
            } else {
                match chunk_index_preflight(body, limits, counted) {
                    Err(error) => Err(error),
                    Ok(next) => Ok(
                        (
                            next,
                            SummaryRecordCensus {
                                chunk_index_records: (observed.chunk_index_records + 1) as u64,
                                ..observed
                            },
                        ),
                    ),
                }
            }
        } else if opcode == OP_ATTACHMENT_INDEX {
            match attachment_index_preflight(body, counted) {
                Err(error) => Err(error),
                Ok(next) => Ok((next, observed)),
            }
        } else if opcode == OP_STATISTICS {
            match statistics_preflight(body, limits, counted) {
                Err(error) => Err(error),
                Ok(next) => Ok((next, observed)),
            }
        } else if opcode == OP_METADATA_INDEX {
            match metadata_index_preflight(body, counted) {
                Err(error) => Err(error),
                Ok(next) => Ok((next, observed)),
            }
        } else if observed.unknown_records + 1 > u64::MAX {
            Err(SummaryMaterializationError::ArithmeticOverflow)
        } else {
            Ok(
                (
                    counted,
                    SummaryRecordCensus {
                        unknown_records: (observed.unknown_records + 1) as u64,
                        ..observed
                    },
                ),
            )
        }
    }
}

pub fn preflight_record(
    opcode: u8,
    body: &[u8],
    limits: &SummaryMaterializationLimits,
    census: &mut NestedPreflightCensus,
    observed: &mut SummaryRecordCensus,
) -> (result: Result<(), SummaryMaterializationError>)
    ensures
        match record_preflight(opcode, body@, *limits, *old(census), *old(observed)) {
            Ok((next, seen)) => result is Ok && *final(census) == next && *final(observed) == seen,
            Err(error) => result == Err::<(), SummaryMaterializationError>(error),
        },
{
    reveal(record_preflight);
    census.main_summary_records = checked_add(census.main_summary_records, 1)?;
    if opcode == OP_SCHEMA {
        observed.schema_records = checked_add(observed.schema_records, 1)?;
        preflight_schema(body, census)
    } else if opcode == OP_CHANNEL {
        observed.channel_records = checked_add(observed.channel_records, 1)?;
        preflight_channel(body, limits, census)
    } else if opcode == OP_CHUNK_INDEX {
        observed.chunk_index_records = checked_add(observed.chunk_index_records, 1)?;
        preflight_chunk_index(body, limits, census)
    } else if opcode == OP_ATTACHMENT_INDEX {
        preflight_attachment_index(body, census)
    } else if opcode == OP_STATISTICS {
        preflight_statistics(body, limits, census)
    } else if opcode == OP_METADATA_INDEX {
        preflight_metadata_index(body, census)
    } else {
        observed.unknown_records = checked_add(observed.unknown_records, 1)?;
        Ok(())
    }
}

/// The main Summary section `bytes[cursor..]` after the counts so far: the nested census and
/// the observed top-level counts.
pub open spec fn main_section_preflight(
    bytes: Seq<u8>,
    cursor: int,
    limits: SummaryMaterializationLimits,
    census: NestedPreflightCensus,
    observed: SummaryRecordCensus,
) -> Result<(NestedPreflightCensus, SummaryRecordCensus), SummaryMaterializationError>
    decreases bytes.len() - cursor,
{
    if cursor < 0 || cursor >= bytes.len() {
        Ok((census, observed))
    } else {
        match record_envelope_at(bytes, cursor) {
            Err(_) => Err(SummaryMaterializationError::PreparedCensusMismatch),
            Ok(envelope) => match record_preflight(
                envelope.opcode,
                bytes.subrange(cursor + RECORD_ENVELOPE_LEN, envelope.end as int),
                limits,
                census,
                observed,
            ) {
                Err(error) => Err(error),
                Ok((next, seen)) => if envelope.end <= cursor {
                    Ok((next, seen))
                } else {
                    main_section_preflight(bytes, envelope.end as int, limits, next, seen)
                },
            },
        }
    }
}

/// Whether the counts observed by preflight agree with the prepared top-level census.
pub open spec fn census_matches_prepared(
    observed: SummaryRecordCensus,
    main_records: u64,
    expected: SummaryRecordCensus,
) -> bool {
    &&& expected.summary_records >= expected.summary_offset_records
    &&& expected.summary_records - expected.summary_offset_records == main_records
    &&& expected.schema_records == observed.schema_records
    &&& expected.channel_records == observed.channel_records
    &&& expected.chunk_index_records == observed.chunk_index_records
    &&& expected.unknown_records == observed.unknown_records
}

/// The complete preflight of a Header body and a main Summary section: the nested census to
/// reserve, or the first failure.
pub open spec fn summary_preflight(
    header_body: Seq<u8>,
    main_summary: Seq<u8>,
    limits: SummaryMaterializationLimits,
    expected: SummaryRecordCensus,
) -> Result<NestedPreflightCensus, SummaryMaterializationError> {
    match header_preflight(header_body, empty_nested_census()) {
        Err(error) => Err(error),
        Ok(headed) => match main_section_preflight(
            main_summary,
            0,
            limits,
            headed,
            crate::remote_summary::empty_census(),
        ) {
            Err(error) => Err(error),
            Ok((census, observed)) => if census_matches_prepared(
                observed,
                census.main_summary_records,
                expected,
            ) {
                Ok(census)
            } else {
                Err(SummaryMaterializationError::PreparedCensusMismatch)
            },
        },
    }
}

/// Rewalks the complete prepared Header and main Summary section without allocating, then
/// reserves the census it found.
pub fn preflight_summary_records<'a>(
    prepared: PreparedSummaryRecords<'a>,
    budget: &mut SummaryMaterializationBudget,
) -> (result: Result<SummaryMaterializationToken<'a>, SummaryMaterializationError>)
    ensures
        final(budget).profile_id == old(budget).profile_id,
        final(budget).limits == old(budget).limits,
        final(budget).capacity == old(budget).capacity,
        match summary_preflight(
            prepared.spec_header_body(),
            prepared.spec_main_summary(),
            old(budget).limits,
            prepared.spec_census(),
        ) {
            Ok(census) => match usage_with(old(budget).usage, census) {
                Ok(next) => if usage_within(next, old(budget).capacity) {
                    result matches Ok(token) && token.spec_prepared() == prepared
                        && token.spec_reservation() == (SummaryMaterializationReservation {
                        profile_id: old(budget).profile_id,
                        census,
                    }) && final(budget).usage == next
                } else {
                    result matches Err(e) && e
                        == SummaryMaterializationError::MaterializationReservationLimitExceeded
                        && final(budget).usage == old(budget).usage
                },
                Err(error) => result matches Err(e) && e == error && final(budget).usage == old(
                    budget,
                ).usage,
            },
            Err(error) => result matches Err(e) && e == error && final(budget).usage == old(
                budget,
            ).usage,
        },
{
    let mut census = NestedPreflightCensus::default();
    let limits = budget.limits;
    preflight_header(prepared.header_body(), &mut census)?;
    let ghost headed = census;
    let bytes = prepared.main_summary_bytes();
    let mut cursor: usize = 0;
    let mut observed = SummaryRecordCensus::default();
    while cursor < bytes.len()
        invariant
            cursor <= bytes@.len(),
            bytes@ == prepared.spec_main_summary(),
            limits == old(budget).limits,
            budget.limits == old(budget).limits,
            budget.usage == old(budget).usage,
            budget.capacity == old(budget).capacity,
            budget.profile_id == old(budget).profile_id,
            header_preflight(prepared.spec_header_body(), empty_nested_census()) == Ok::<
                NestedPreflightCensus,
                SummaryMaterializationError,
            >(headed),
            main_section_preflight(
                bytes@,
                0,
                limits,
                headed,
                crate::remote_summary::empty_census(),
            ) == main_section_preflight(bytes@, cursor as int, limits, census, observed),
        decreases bytes@.len() - cursor,
    {
        let envelope = match next_record(bytes, cursor) {
            Ok(envelope) => envelope,
            Err(_) => {
                return Err(SummaryMaterializationError::PreparedCensusMismatch);
            },
        };
        let body = &bytes[cursor + RECORD_ENVELOPE_LEN..envelope.end];
        preflight_record(envelope.opcode, body, &limits, &mut census, &mut observed)?;
        cursor = envelope.end;
    }
    let expected = prepared.census();
    if expected.summary_records < expected.summary_offset_records {
        return Err(SummaryMaterializationError::PreparedCensusMismatch);
    }
    let expected_main_records = expected.summary_records - expected.summary_offset_records;
    if expected_main_records != census.main_summary_records || expected.schema_records
        != observed.schema_records || expected.channel_records != observed.channel_records
        || expected.chunk_index_records != observed.chunk_index_records
        || expected.unknown_records != observed.unknown_records {
        return Err(SummaryMaterializationError::PreparedCensusMismatch);
    }
    let reservation = budget.try_reserve(census)?;
    Ok(SummaryMaterializationToken { prepared, reservation })
}


/// Materialized Header and source-ordered bounded Summary records.
pub struct MaterializedSummaryRecords<'a> {
    prepared: PreparedSummaryRecords<'a>,
    header: HeaderRecordV1,
    records: Vec<BoundedSummaryRecord>,
    reservation: SummaryMaterializationReservation,
}

impl<'a> MaterializedSummaryRecords<'a> {
    pub closed spec fn spec_prepared(&self) -> PreparedSummaryRecords<'a> {
        self.prepared
    }

    pub closed spec fn spec_header(&self) -> HeaderRecordV1 {
        self.header
    }

    pub closed spec fn spec_records(&self) -> Seq<BoundedSummaryRecord> {
        self.records@
    }

    pub closed spec fn spec_reservation(&self) -> SummaryMaterializationReservation {
        self.reservation
    }

    pub fn header(&self) -> (header: &HeaderRecordV1)
        ensures
            *header == self.spec_header(),
    {
        &self.header
    }

    pub fn records(&self) -> (records: &[BoundedSummaryRecord])
        ensures
            records@ == self.spec_records(),
    {
        self.records.as_slice()
    }

    pub fn prepared(&self) -> (prepared: &PreparedSummaryRecords<'a>)
        ensures
            *prepared == self.spec_prepared(),
    {
        &self.prepared
    }

    pub fn top_level_census(&self) -> (census: SummaryRecordCensus)
        ensures
            census == self.spec_prepared().spec_census(),
    {
        self.prepared.census()
    }

    pub fn nested_census(&self) -> (census: NestedPreflightCensus)
        ensures
            census == self.spec_reservation().census,
    {
        self.reservation.census
    }
}

/// The Summary record kinds that materialization parses; every other opcode stays unparsed.
pub open spec fn is_materialized_opcode(opcode: u8) -> bool {
    opcode == OP_SCHEMA || opcode == OP_CHANNEL || opcode == OP_CHUNK_INDEX || opcode
        == OP_ATTACHMENT_INDEX || opcode == OP_STATISTICS || opcode == OP_METADATA_INDEX
}

/// The bounded record for one main-section record with opcode `opcode`, body `body` and
/// source ordinal `ordinal`.
pub open spec fn materialized_record(opcode: u8, body: Seq<u8>, ordinal: u64) -> Result<
    BoundedSummaryRecord,
    SummaryMaterializationError,
> {
    if is_materialized_opcode(opcode) {
        match mcap_parsed_record(opcode, body) {
            None => Err(SummaryMaterializationError::PreparedRecordRejected),
            Some(record) => Ok(BoundedSummaryRecord::Known(record)),
        }
    } else {
        Ok(BoundedSummaryRecord::Unknown { opcode, source_ordinal: ordinal })
    }
}

/// The bounded records of the main Summary section `bytes[cursor..]`, appended to `records`,
/// the next record having ordinal `ordinal`.
pub open spec fn materialized_section(
    bytes: Seq<u8>,
    cursor: int,
    ordinal: u64,
    records: Seq<BoundedSummaryRecord>,
) -> Result<Seq<BoundedSummaryRecord>, SummaryMaterializationError>
    decreases bytes.len() - cursor,
{
    if cursor < 0 || cursor >= bytes.len() {
        Ok(records)
    } else {
        match record_envelope_at(bytes, cursor) {
            Err(_) => Err(SummaryMaterializationError::PreparedCensusMismatch),
            Ok(envelope) => match materialized_record(
                envelope.opcode,
                bytes.subrange(cursor + RECORD_ENVELOPE_LEN, envelope.end as int),
                ordinal,
            ) {
                Err(error) => Err(error),
                Ok(record) => if ordinal + 1 > u64::MAX {
                    Err(SummaryMaterializationError::ArithmeticOverflow)
                } else if envelope.end <= cursor {
                    Ok(records.push(record))
                } else {
                    materialized_section(
                        bytes,
                        envelope.end as int,
                        (ordinal + 1) as u64,
                        records.push(record),
                    )
                },
            },
        }
    }
}

/// Materializes the Header and the known main-section records, consuming matching
/// whole-input preflight evidence.
pub fn materialize_summary_records<'a>(token: SummaryMaterializationToken<'a>) -> (result: Result<
    MaterializedSummaryRecords<'a>,
    SummaryMaterializationError,
>)
    ensures
        ({
            let prepared = token.spec_prepared();
            let census = token.spec_reservation().census;
            match mcap_parsed_record(OP_HEADER, prepared.spec_header_body()) {
                Some(ParsedMcapRecordV1::Header(header)) => if census.main_summary_records
                    > usize::MAX {
                    result matches Err(e) && e == SummaryMaterializationError::ArithmeticOverflow
                } else {
                    match materialized_section(prepared.spec_main_summary(), 0, 0, Seq::empty()) {
                        Ok(records) => if records.len() == census.main_summary_records {
                            result matches Ok(materialized) && materialized.spec_prepared()
                                == prepared && materialized.spec_header() == header
                                && materialized.spec_records() == records
                                && materialized.spec_reservation() == token.spec_reservation()
                        } else {
                            result matches Err(e) && e
                                == SummaryMaterializationError::PreparedCensusMismatch
                        },
                        Err(error) => result matches Err(e) && e == error,
                    }
                },
                _ => result matches Err(e) && e
                    == SummaryMaterializationError::PreparedRecordRejected,
            }
        }),
{
    let SummaryMaterializationToken { prepared, reservation } = token;
    let census = reservation.census;
    let header = match parse_record(OP_HEADER, prepared.header_body()) {
        Ok(ParsedMcapRecordV1::Header(header)) => header,
        _ => {
            return Err(SummaryMaterializationError::PreparedRecordRejected);
        },
    };
    if census.main_summary_records > usize::MAX as u64 {
        return Err(SummaryMaterializationError::ArithmeticOverflow);
    }
    let mut records: Vec<BoundedSummaryRecord> = Vec::with_capacity(
        census.main_summary_records as usize,
    );
    let bytes = prepared.main_summary_bytes();
    let mut cursor: usize = 0;
    let mut source_ordinal: u64 = 0;
    let ghost expected = materialized_section(bytes@, 0, 0, Seq::empty());
    while cursor < bytes.len()
        invariant
            cursor <= bytes@.len(),
            bytes@ == prepared.spec_main_summary(),
            prepared == token.spec_prepared(),
            census == token.spec_reservation().census,
            census.main_summary_records <= usize::MAX,
            mcap_parsed_record(OP_HEADER, prepared.spec_header_body()) == Some(
                ParsedMcapRecordV1::Header(header),
            ),
            source_ordinal == records@.len(),
            expected == materialized_section(bytes@, 0, 0, Seq::empty()),
            expected == materialized_section(bytes@, cursor as int, source_ordinal, records@),
        decreases bytes@.len() - cursor,
    {
        let envelope = match next_record(bytes, cursor) {
            Ok(envelope) => envelope,
            Err(_) => {
                return Err(SummaryMaterializationError::PreparedCensusMismatch);
            },
        };
        let body = &bytes[cursor + RECORD_ENVELOPE_LEN..envelope.end];
        let opcode = envelope.opcode;
        let record = if opcode == OP_SCHEMA || opcode == OP_CHANNEL || opcode == OP_CHUNK_INDEX
            || opcode == OP_ATTACHMENT_INDEX || opcode == OP_STATISTICS || opcode
            == OP_METADATA_INDEX {
            match parse_record(opcode, body) {
                Ok(record) => BoundedSummaryRecord::Known(record),
                Err(_) => {
                    return Err(SummaryMaterializationError::PreparedRecordRejected);
                },
            }
        } else {
            BoundedSummaryRecord::Unknown { opcode, source_ordinal }
        };
        records.push(record);
        source_ordinal = checked_add(source_ordinal, 1)?;
        cursor = envelope.end;
    }
    if source_ordinal != census.main_summary_records {
        return Err(SummaryMaterializationError::PreparedCensusMismatch);
    }
    Ok(MaterializedSummaryRecords { prepared, header, records, reservation })
}

} // verus!
