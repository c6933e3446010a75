//! Two-stage aggregate admission for ambiguous zero-time indexed Chunks: the per-stage census
//! arithmetic, the opening limits and the aggregate reservation ledger.
use crate::remote_summary::message_index::{
    channel_views, message_index_claim, prepare_message_index_region, raw_usage_covers,
    region_parse_outcome, released_raw_usage, MessageIndexEntryV1, MessageIndexRegionBudget,
    MessageIndexRegionParse, PreparedMessageIndexRegionParse, ValidatedChannelMessageIndex,
};
use crate::remote_summary::physical_regions::{
    self, canonical_descriptor, ByteRange, IndexConsistencyViolation, ValidatedPhysicalRegions,
};
use crate::remote_summary::summary_records::ChunkIndexRecordV1;
use vstd::prelude::*;

verus! {

/// The fixed bytes of one MessageIndex record: envelope, channel id and entries length.
pub const MESSAGE_INDEX_RECORD_FIXED_BYTES: u64 = 15;

/// One MessageIndex entry: a log time and an offset.
pub const MESSAGE_INDEX_ENTRY_BYTES: u64 = 16;

/// The smallest record: an opcode and a body length.
pub const MIN_RECORD_ENVELOPE_BYTES: u64 = 9;

/// The opening limits of one ambiguous-zero flow.
#[derive(Clone, Copy, Debug, PartialEq, Eq, Structural)]
pub struct AmbiguousZeroLimits {
    pub max_ambiguous_chunks: u64,
    pub max_message_index_bytes: u64,
    pub max_message_index_entries_upper: u64,
    pub max_message_index_range_requests: u64,
    pub max_classification_retained_bytes: u64,
    pub max_unresolved_chunks: u64,
    pub max_chunk_range_bytes: u64,
    pub max_compressed_bytes: u64,
    pub max_uncompressed_bytes: u64,
    pub max_chunk_range_requests: u64,
    pub max_scan_bytes: u64,
    pub max_scan_records_upper: u64,
}

#[derive(Clone, Copy, Debug, PartialEq, Eq, Structural)]
pub struct AmbiguousZeroStage1Census {
    pub ambiguous_chunks: u64,
    pub message_index_bytes: u64,
    pub message_index_entries_upper: u64,
    pub message_index_range_requests: u64,
    pub classification_retained_bytes: u64,
}

#[derive(Clone, Copy, Debug, PartialEq, Eq, Structural)]
pub struct AmbiguousZeroStage2Census {
    pub unresolved_chunks: u64,
    pub chunk_range_bytes: u64,
    pub compressed_bytes: u64,
    pub uncompressed_bytes: u64,
    pub chunk_range_requests: u64,
    pub scan_bytes: u64,
    pub scan_records_upper: u64,
}

impl Default for AmbiguousZeroStage1Census {
    fn default() -> (census: Self)
        ensures
            census == stage1_values_census(0, 0, 0, 0, 0),
    {
        AmbiguousZeroStage1Census {
            ambiguous_chunks: 0,
            message_index_bytes: 0,
            message_index_entries_upper: 0,
            message_index_range_requests: 0,
            classification_retained_bytes: 0,
        }
    }
}

impl Default for AmbiguousZeroStage2Census {
    fn default() -> (census: Self)
        ensures
            census == stage2_values_census(0, 0, 0, 0, 0, 0, 0),
    {
        AmbiguousZeroStage2Census {
            unresolved_chunks: 0,
            chunk_range_bytes: 0,
            compressed_bytes: 0,
            uncompressed_bytes: 0,
            chunk_range_requests: 0,
            scan_bytes: 0,
            scan_records_upper: 0,
        }
    }
}

pub open spec fn stage1_values_census(a: u64, b: u64, c: u64, d: u64, e: u64) -> AmbiguousZeroStage1Census {
    AmbiguousZeroStage1Census {
        ambiguous_chunks: a,
        message_index_bytes: b,
        message_index_entries_upper: c,
        message_index_range_requests: d,
        classification_retained_bytes: e,
    }
}

pub open spec fn stage2_values_census(a: u64, b: u64, c: u64, d: u64, e: u64, f: u64, g: u64) -> AmbiguousZeroStage2Census {
    AmbiguousZeroStage2Census {
        unresolved_chunks: a,
        chunk_range_bytes: b,
        compressed_bytes: c,
        uncompressed_bytes: d,
        chunk_range_requests: e,
        scan_bytes: f,
        scan_records_upper: g,
    }
}

/// The opening limit check of a first-stage census, in the order the limits are reported.
pub open spec fn stage1_limit_check(census: AmbiguousZeroStage1Census, limits: AmbiguousZeroLimits) -> Result<
    (),
    IndexConsistencyViolation,
> {
    if census.ambiguous_chunks > limits.max_ambiguous_chunks {
        Err(IndexConsistencyViolation::AmbiguousZeroChunkLimitExceeded)
    } else if census.message_index_bytes > limits.max_message_index_bytes {
        Err(IndexConsistencyViolation::AmbiguousZeroMessageIndexByteLimitExceeded)
    } else if census.message_index_entries_upper > limits.max_message_index_entries_upper {
        Err(IndexConsistencyViolation::AmbiguousZeroEntryUpperLimitExceeded)
    } else if census.message_index_range_requests > limits.max_message_index_range_requests {
        Err(IndexConsistencyViolation::AmbiguousZeroMessageIndexRangeLimitExceeded)
    } else if census.classification_retained_bytes > limits.max_classification_retained_bytes {
        Err(IndexConsistencyViolation::AmbiguousZeroRetainedByteLimitExceeded)
    } else {
        Ok(())
    }
}

pub fn check_stage1_limits(census: AmbiguousZeroStage1Census, limits: &AmbiguousZeroLimits) -> (result:
    Result<(), IndexConsistencyViolation>)
    ensures
        result == stage1_limit_check(census, *limits),
{
    if census.ambiguous_chunks > limits.max_ambiguous_chunks {
        return Err(IndexConsistencyViolation::AmbiguousZeroChunkLimitExceeded);
    }
    if census.message_index_bytes > limits.max_message_index_bytes {
        return Err(IndexConsistencyViolation::AmbiguousZeroMessageIndexByteLimitExceeded);
    }
    if census.message_index_entries_upper > limits.max_message_index_entries_upper {
        return Err(IndexConsistencyViolation::AmbiguousZeroEntryUpperLimitExceeded);
    }
    if census.message_index_range_requests > limits.max_message_index_range_requests {
        return Err(IndexConsistencyViolation::AmbiguousZeroMessageIndexRangeLimitExceeded);
    }
    if census.classification_retained_bytes > limits.max_classification_retained_bytes {
        return Err(IndexConsistencyViolation::AmbiguousZeroRetainedByteLimitExceeded);
    }
    Ok(())
}

/// The opening limit check of a second-stage census, in the order the limits are reported.
pub open spec fn stage2_limit_check(census: AmbiguousZeroStage2Census, limits: AmbiguousZeroLimits) -> Result<
    (),
    IndexConsistencyViolation,
> {
    if census.unresolved_chunks > limits.max_unresolved_chunks {
        Err(IndexConsistencyViolation::AmbiguousZeroUnresolvedChunkLimitExceeded)
    } else if census.chunk_range_bytes > limits.max_chunk_range_bytes {
        Err(IndexConsistencyViolation::AmbiguousZeroChunkRangeByteLimitExceeded)
    } else if census.compressed_bytes > limits.max_compressed_bytes {
        Err(IndexConsistencyViolation::AmbiguousZeroCompressedByteLimitExceeded)
    } else if census.uncompressed_bytes > limits.max_uncompressed_bytes {
        Err(IndexConsistencyViolation::AmbiguousZeroUncompressedByteLimitExceeded)
    } else if census.chunk_range_requests > limits.max_chunk_range_requests {
        Err(IndexConsistencyViolation::AmbiguousZeroChunkRangeLimitExceeded)
    } else if census.scan_bytes > limits.max_scan_bytes {
        Err(IndexConsistencyViolation::AmbiguousZeroScanByteLimitExceeded)
    } else if census.scan_records_upper > limits.max_scan_records_upper {
        Err(IndexConsistencyViolation::AmbiguousZeroScanRecordLimitExceeded)
    } else {
        Ok(())
    }
}

pub fn check_stage2_limits(census: AmbiguousZeroStage2Census, limits: &AmbiguousZeroLimits) -> (result:
    Result<(), IndexConsistencyViolation>)
    ensures
        result == stage2_limit_check(census, *limits),
{
    if census.unresolved_chunks > limits.max_unresolved_chunks {
        return Err(IndexConsistencyViolation::AmbiguousZeroUnresolvedChunkLimitExceeded);
    }
    if census.chunk_range_bytes > limits.max_chunk_range_bytes {
        return Err(IndexConsistencyViolation::AmbiguousZeroChunkRangeByteLimitExceeded);
    }
    if census.compressed_bytes > limits.max_compressed_bytes {
        return Err(IndexConsistencyViolation::AmbiguousZeroCompressedByteLimitExceeded);
    }
    if census.uncompressed_bytes > limits.max_uncompressed_bytes {
        return Err(IndexConsistencyViolation::AmbiguousZeroUncompressedByteLimitExceeded);
    }
    if census.chunk_range_requests > limits.max_chunk_range_requests {
        return Err(IndexConsistencyViolation::AmbiguousZeroChunkRangeLimitExceeded);
    }
    if census.scan_bytes > limits.max_scan_bytes {
        return Err(IndexConsistencyViolation::AmbiguousZeroScanByteLimitExceeded);
    }
    if census.scan_records_upper > limits.max_scan_records_upper {
        return Err(IndexConsistencyViolation::AmbiguousZeroScanRecordLimitExceeded);
    }
    Ok(())
}

/// The field-wise sum of two first-stage censuses, if no field overflows.
pub open spec fn stage1_sum(left: AmbiguousZeroStage1Census, right: AmbiguousZeroStage1Census) -> Result<
    AmbiguousZeroStage1Census,
    IndexConsistencyViolation,
> {
    if left.ambiguous_chunks + right.ambiguous_chunks > u64::MAX || left.message_index_bytes
        + right.message_index_bytes > u64::MAX || left.message_index_entries_upper
        + right.message_index_entries_upper > u64::MAX || left.message_index_range_requests
        + right.message_index_range_requests > u64::MAX || left.classification_retained_bytes
        + right.classification_retained_bytes > u64::MAX {
        Err(IndexConsistencyViolation::ArithmeticOverflow)
    } else {
        Ok(
            stage1_values_census(
                (left.ambiguous_chunks + right.ambiguous_chunks) as u64,
                (left.message_index_bytes + right.message_index_bytes) as u64,
                (left.message_index_entries_upper + right.message_index_entries_upper) as u64,
                (left.message_index_range_requests + right.message_index_range_requests) as u64,
                (left.classification_retained_bytes + right.classification_retained_bytes) as u64,
            ),
        )
    }
}

pub fn add_stage1(left: AmbiguousZeroStage1Census, right: AmbiguousZeroStage1Census) -> (sum: Result<
    AmbiguousZeroStage1Census,
    IndexConsistencyViolation,
>)
    ensures
        sum == stage1_sum(left, right),
{
    Ok(
        AmbiguousZeroStage1Census {
            ambiguous_chunks: checked_add(left.ambiguous_chunks, right.ambiguous_chunks)?,
            message_index_bytes: checked_add(left.message_index_bytes, right.message_index_bytes)?,
            message_index_entries_upper: checked_add(
                left.message_index_entries_upper,
                right.message_index_entries_upper,
            )?,
            message_index_range_requests: checked_add(
                left.message_index_range_requests,
                right.message_index_range_requests,
            )?,
            classification_retained_bytes: checked_add(
                left.classification_retained_bytes,
                right.classification_retained_bytes,
            )?,
        },
    )
}

/// The field-wise sum of two second-stage censuses, if no field overflows.
pub open spec fn stage2_sum(left: AmbiguousZeroStage2Census, right: AmbiguousZeroStage2Census) -> Result<
    AmbiguousZeroStage2Census,
    IndexConsistencyViolation,
> {
    if left.unresolved_chunks + right.unresolved_chunks > u64::MAX || left.chunk_range_bytes
        + right.chunk_range_bytes > u64::MAX || left.compressed_bytes + right.compressed_bytes
        > u64::MAX || left.uncompressed_bytes + right.uncompressed_bytes > u64::MAX
        || left.chunk_range_requests + right.chunk_range_requests > u64::MAX || left.scan_bytes
        + right.scan_bytes > u64::MAX || left.scan_records_upper + right.scan_records_upper
        > u64::MAX {
        Err(IndexConsistencyViolation::ArithmeticOverflow)
    } else {
        Ok(
            stage2_values_census(
                (left.unresolved_chunks + right.unresolved_chunks) as u64,
                (left.chunk_range_bytes + right.chunk_range_bytes) as u64,
                (left.compressed_bytes + right.compressed_bytes) as u64,
                (left.uncompressed_bytes + right.uncompressed_bytes) as u64,
                (left.chunk_range_requests + right.chunk_range_requests) as u64,
                (left.scan_bytes + right.scan_bytes) as u64,
                (left.scan_records_upper + right.scan_records_upper) as u64,
            ),
        )
    }
}

pub fn add_stage2(left: AmbiguousZeroStage2Census, right: AmbiguousZeroStage2Census) -> (sum: Result<
    AmbiguousZeroStage2Census,
    IndexConsistencyViolation,
>)
    ensures
        sum == stage2_sum(left, right),
{
    Ok(
        AmbiguousZeroStage2Census {
            unresolved_chunks: checked_add(left.unresolved_chunks, right.unresolved_chunks)?,
            chunk_range_bytes: checked_add(left.chunk_range_bytes, right.chunk_range_bytes)?,
            compressed_bytes: checked_add(left.compressed_bytes, right.compressed_bytes)?,
            uncompressed_bytes: checked_add(left.uncompressed_bytes, right.uncompressed_bytes)?,
            chunk_range_requests: checked_add(left.chunk_range_requests, right.chunk_range_requests)?,
            scan_bytes: checked_add(left.scan_bytes, right.scan_bytes)?,
            scan_records_upper: checked_add(left.scan_records_upper, right.scan_records_upper)?,
        },
    )
}

/// Every field of `left` covers the one of `right`.
pub open spec fn stage1_covers(left: AmbiguousZeroStage1Census, right: AmbiguousZeroStage1Census) -> bool {
    left.ambiguous_chunks >= right.ambiguous_chunks && left.message_index_bytes
        >= right.message_index_bytes && left.message_index_entries_upper
        >= right.message_index_entries_upper && left.message_index_range_requests
        >= right.message_index_range_requests && left.classification_retained_bytes
        >= right.classification_retained_bytes
}

pub open spec fn stage1_difference(left: AmbiguousZeroStage1Census, right: AmbiguousZeroStage1Census) -> AmbiguousZeroStage1Census {
    stage1_values_census(
        (left.ambiguous_chunks - right.ambiguous_chunks) as u64,
        (left.message_index_bytes - right.message_index_bytes) as u64,
        (left.message_index_entries_upper - right.message_index_entries_upper) as u64,
        (left.message_index_range_requests - right.message_index_range_requests) as u64,
        (left.classification_retained_bytes - right.classification_retained_bytes) as u64,
    )
}

/// Removes a live first-stage reservation from the aggregate.
pub fn sub_stage1(left: AmbiguousZeroStage1Census, right: AmbiguousZeroStage1Census) -> (difference:
    AmbiguousZeroStage1Census)
    requires
        stage1_covers(left, right),
    ensures
        difference == stage1_difference(left, right),
{
    AmbiguousZeroStage1Census {
        ambiguous_chunks: left.ambiguous_chunks - right.ambiguous_chunks,
        message_index_bytes: left.message_index_bytes - right.message_index_bytes,
        message_index_entries_upper: left.message_index_entries_upper
            - right.message_index_entries_upper,
        message_index_range_requests: left.message_index_range_requests
            - right.message_index_range_requests,
        classification_retained_bytes: left.classification_retained_bytes
            - right.classification_retained_bytes,
    }
}

pub open spec fn stage2_covers(left: AmbiguousZeroStage2Census, right: AmbiguousZeroStage2Census) -> bool {
    left.unresolved_chunks >= right.unresolved_chunks && left.chunk_range_bytes
        >= right.chunk_range_bytes && left.compressed_bytes >= right.compressed_bytes
        && left.uncompressed_bytes >= right.uncompressed_bytes && left.chunk_range_requests
        >= right.chunk_range_requests && left.scan_bytes >= right.scan_bytes
        && left.scan_records_upper >= right.scan_records_upper
}

pub open spec fn stage2_difference(left: AmbiguousZeroStage2Census, right: AmbiguousZeroStage2Census) -> AmbiguousZeroStage2Census {
    stage2_values_census(
        (left.unresolved_chunks - right.unresolved_chunks) as u64,
        (left.chunk_range_bytes - right.chunk_range_bytes) as u64,
        (left.compressed_bytes - right.compressed_bytes) as u64,
        (left.uncompressed_bytes - right.uncompressed_bytes) as u64,
        (left.chunk_range_requests - right.chunk_range_requests) as u64,
        (left.scan_bytes - right.scan_bytes) as u64,
        (left.scan_records_upper - right.scan_records_upper) as u64,
    )
}

/// Removes a live second-stage reservation from the aggregate.
pub fn sub_stage2(left: AmbiguousZeroStage2Census, right: AmbiguousZeroStage2Census) -> (difference:
    AmbiguousZeroStage2Census)
    requires
        stage2_covers(left, right),
    ensures
        difference == stage2_difference(left, right),
{
    AmbiguousZeroStage2Census {
        unresolved_chunks: left.unresolved_chunks - right.unresolved_chunks,
        chunk_range_bytes: left.chunk_range_bytes - right.chunk_range_bytes,
        compressed_bytes: left.compressed_bytes - right.compressed_bytes,
        uncompressed_bytes: left.uncompressed_bytes - right.uncompressed_bytes,
        chunk_range_requests: left.chunk_range_requests - right.chunk_range_requests,
        scan_bytes: left.scan_bytes - right.scan_bytes,
        scan_records_upper: left.scan_records_upper - right.scan_records_upper,
    }
}

pub fn stage1_fits(value: AmbiguousZeroStage1Census, cap: AmbiguousZeroStage1Census) -> (fits: bool)
    ensures
        fits == stage1_covers(cap, value),
{
    value.ambiguous_chunks <= cap.ambiguous_chunks && value.message_index_bytes
        <= cap.message_index_bytes && value.message_index_entries_upper
        <= cap.message_index_entries_upper && value.message_index_range_requests
        <= cap.message_index_range_requests && value.classification_retained_bytes
        <= cap.classification_retained_bytes
}

pub fn stage2_fits(value: AmbiguousZeroStage2Census, cap: AmbiguousZeroStage2Census) -> (fits: bool)
    ensures
        fits == stage2_covers(cap, value),
{
    value.unresolved_chunks <= cap.unresolved_chunks && value.chunk_range_bytes
        <= cap.chunk_range_bytes && value.compressed_bytes <= cap.compressed_bytes
        && value.uncompressed_bytes <= cap.uncompressed_bytes && value.chunk_range_requests
        <= cap.chunk_range_requests && value.scan_bytes <= cap.scan_bytes
        && value.scan_records_upper <= cap.scan_records_upper
}

/// The length of `range`, or the arithmetic violation for an inverted range.
pub fn range_len(range: ByteRange) -> (len: Result<u64, IndexConsistencyViolation>)
    ensures
        range.start <= range.end ==> len == Ok::<u64, IndexConsistencyViolation>(
            (range.end - range.start) as u64,
        ),
        range.start > range.end ==> len == Err::<u64, IndexConsistencyViolation>(
            IndexConsistencyViolation::ArithmeticOverflow,
        ),
{
    if range.end < range.start {
        Err(IndexConsistencyViolation::ArithmeticOverflow)
    } else {
        Ok(range.end - range.start)
    }
}

/// `value / divisor` rounded up.
pub fn div_ceil(value: u64, divisor: u64) -> (quotient: Result<u64, IndexConsistencyViolation>)
    requires
        divisor > 0,
    ensures
        value == 0 ==> quotient == Ok::<u64, IndexConsistencyViolation>(0),
        value > 0 ==> quotient == Ok::<u64, IndexConsistencyViolation>(
            (((value - 1) as int) / (divisor as int) + 1) as u64,
        ),
        quotient matches Ok(q) ==> q * divisor >= value && (q == 0 || (q - 1) * divisor < value),
{
    if value == 0 {
        return Ok(0);
    }
    let quotient = (value - 1) / divisor;
    assert(quotient + 1 <= u64::MAX) by (nonlinear_arith)
        requires
            quotient == ((value - 1) as int) / (divisor as int),
            divisor > 0,
            value >= 1,
    ;
    let result = checked_add(quotient, 1);
    assert((quotient + 1) * divisor >= value && quotient * divisor < value) by (nonlinear_arith)
        requires
            quotient == ((value - 1) as int) / (divisor as int),
            divisor > 0,
            value >= 1,
    ;
    result
}

pub fn checked_add(left: u64, right: u64) -> (sum: Result<u64, IndexConsistencyViolation>)
    ensures
        left + right <= u64::MAX ==> sum == Ok::<u64, IndexConsistencyViolation>((left + right) as u64),
        left + right > u64::MAX ==> sum == Err::<u64, IndexConsistencyViolation>(
            IndexConsistencyViolation::ArithmeticOverflow,
        ),
{
    physical_regions::checked_add(left, right)
}

pub fn checked_mul(left: u64, right: u64) -> (product: Result<u64, IndexConsistencyViolation>)
    ensures
        left * right <= u64::MAX ==> product == Ok::<u64, IndexConsistencyViolation>(
            (left * right) as u64,
        ),
        left * right > u64::MAX ==> product == Err::<u64, IndexConsistencyViolation>(
            IndexConsistencyViolation::ArithmeticOverflow,
        ),
{
    physical_regions::checked_mul(left, right)
}

impl AmbiguousZeroLimits {
    pub fn for_test(stage1: [u64; 5], stage2: [u64; 7]) -> (limits: Self)
        ensures
            limits == (AmbiguousZeroLimits {
                max_ambiguous_chunks: stage1@[0],
                max_message_index_bytes: stage1@[1],
                max_message_index_entries_upper: stage1@[2],
                max_message_index_range_requests: stage1@[3],
                max_classification_retained_bytes: stage1@[4],
                max_unresolved_chunks: stage2@[0],
                max_chunk_range_bytes: stage2@[1],
                max_compressed_bytes: stage2@[2],
                max_uncompressed_bytes: stage2@[3],
                max_chunk_range_requests: stage2@[4],
                max_scan_bytes: stage2@[5],
                max_scan_records_upper: stage2@[6],
            }),
    {
        AmbiguousZeroLimits {
            max_ambiguous_chunks: stage1[0],
            max_message_index_bytes: stage1[1],
            max_message_index_entries_upper: stage1[2],
            max_message_index_range_requests: stage1[3],
            max_classification_retained_bytes: stage1[4],
            max_unresolved_chunks: stage2[0],
            max_chunk_range_bytes: stage2[1],
            max_compressed_bytes: stage2[2],
            max_uncompressed_bytes: stage2[3],
            max_chunk_range_requests: stage2[4],
            max_scan_bytes: stage2[5],
            max_scan_records_upper: stage2[6],
        }
    }
}

pub fn stage1_values(census: AmbiguousZeroStage1Census) -> (values: [u64; 5])
    ensures
        values@ == seq![
            census.ambiguous_chunks,
            census.message_index_bytes,
            census.message_index_entries_upper,
            census.message_index_range_requests,
            census.classification_retained_bytes,
        ],
{
    let values = [
        census.ambiguous_chunks,
        census.message_index_bytes,
        census.message_index_entries_upper,
        census.message_index_range_requests,
        census.classification_retained_bytes,
    ];
    assert(values@ =~= seq![
        census.ambiguous_chunks,
        census.message_index_bytes,
        census.message_index_entries_upper,
        census.message_index_range_requests,
        census.classification_retained_bytes,
    ]);
    values
}

pub fn stage2_values(census: AmbiguousZeroStage2Census) -> (values: [u64; 7])
    ensures
        values@ == seq![
            census.unresolved_chunks,
            census.chunk_range_bytes,
            census.compressed_bytes,
            census.uncompressed_bytes,
            census.chunk_range_requests,
            census.scan_bytes,
            census.scan_records_upper,
        ],
{
    let values = [
        census.unresolved_chunks,
        census.chunk_range_bytes,
        census.compressed_bytes,
        census.uncompressed_bytes,
        census.chunk_range_requests,
        census.scan_bytes,
        census.scan_records_upper,
    ];
    assert(values@ =~= seq![
        census.unresolved_chunks,
        census.chunk_range_bytes,
        census.compressed_bytes,
        census.uncompressed_bytes,
        census.chunk_range_requests,
        census.scan_bytes,
        census.scan_records_upper,
    ]);
    values
}

/// Every field multiplied by `scale`; the products must fit.
pub fn scale_stage1(value: AmbiguousZeroStage1Census, scale: u64) -> (scaled: AmbiguousZeroStage1Census)
    requires
        value.ambiguous_chunks * scale <= u64::MAX,
        value.message_index_bytes * scale <= u64::MAX,
        value.message_index_entries_upper * scale <= u64::MAX,
        value.message_index_range_requests * scale <= u64::MAX,
        value.classification_retained_bytes * scale <= u64::MAX,
    ensures
        scaled == stage1_values_census(
            (value.ambiguous_chunks * scale) as u64,
            (value.message_index_bytes * scale) as u64,
            (value.message_index_entries_upper * scale) as u64,
            (value.message_index_range_requests * scale) as u64,
            (value.classification_retained_bytes * scale) as u64,
        ),
{
    AmbiguousZeroStage1Census {
        ambiguous_chunks: value.ambiguous_chunks * scale,
        message_index_bytes: value.message_index_bytes * scale,
        message_index_entries_upper: value.message_index_entries_upper * scale,
        message_index_range_requests: value.message_index_range_requests * scale,
        classification_retained_bytes: value.classification_retained_bytes * scale,
    }
}

/// Every field multiplied by `scale`; the products must fit.
pub fn scale_stage2(value: AmbiguousZeroStage2Census, scale: u64) -> (scaled: AmbiguousZeroStage2Census)
    requires
        value.unresolved_chunks * scale <= u64::MAX,
        value.chunk_range_bytes * scale <= u64::MAX,
        value.compressed_bytes * scale <= u64::MAX,
        value.uncompressed_bytes * scale <= u64::MAX,
        value.chunk_range_requests * scale <= u64::MAX,
        value.scan_bytes * scale <= u64::MAX,
        value.scan_records_upper * scale <= u64::MAX,
    ensures
        scaled == stage2_values_census(
            (value.unresolved_chunks * scale) as u64,
            (value.chunk_range_bytes * scale) as u64,
            (value.compressed_bytes * scale) as u64,
            (value.uncompressed_bytes * scale) as u64,
            (value.chunk_range_requests * scale) as u64,
            (value.scan_bytes * scale) as u64,
            (value.scan_records_upper * scale) as u64,
        ),
{
    AmbiguousZeroStage2Census {
        unresolved_chunks: value.unresolved_chunks * scale,
        chunk_range_bytes: value.chunk_range_bytes * scale,
        compressed_bytes: value.compressed_bytes * scale,
        uncompressed_bytes: value.uncompressed_bytes * scale,
        chunk_range_requests: value.chunk_range_requests * scale,
        scan_bytes: value.scan_bytes * scale,
        scan_records_upper: value.scan_records_upper * scale,
    }
}

/// Aggregate usage of both stages.
#[derive(Clone, Copy, Debug, PartialEq, Eq, Structural)]
pub struct AmbiguousZeroBudgetUsage {
    pub active_stage1: u64,
    pub stage1: AmbiguousZeroStage1Census,
    pub active_stage2: u64,
    pub stage2: AmbiguousZeroStage2Census,
}

#[derive(Clone, Copy, Debug, PartialEq, Eq, Structural)]
pub struct AmbiguousZeroBudgetCapacity {
    pub max_active_stage1: u64,
    pub stage1: AmbiguousZeroStage1Census,
    pub max_active_stage2: u64,
    pub stage2: AmbiguousZeroStage2Census,
}

/// The aggregate opening budget shared by all ambiguous-zero flows of one sealed profile.
pub struct AmbiguousZeroBudget {
    pub limits: AmbiguousZeroLimits,
    pub capacity: AmbiguousZeroBudgetCapacity,
    pub usage: AmbiguousZeroBudgetUsage,
}

/// One live first-stage reservation.
#[derive(Debug, PartialEq, Eq, Structural)]
pub struct AmbiguousZeroStage1Reservation {
    pub census: AmbiguousZeroStage1Census,
}

/// One live second-stage reservation.
#[derive(Debug, PartialEq, Eq, Structural)]
pub struct AmbiguousZeroStage2Reservation {
    pub census: AmbiguousZeroStage2Census,
}

/// The usage after admitting a first-stage census, all or nothing.
pub open spec fn stage1_reserved(
    usage: AmbiguousZeroBudgetUsage,
    capacity: AmbiguousZeroBudgetCapacity,
    census: AmbiguousZeroStage1Census,
) -> Result<AmbiguousZeroBudgetUsage, IndexConsistencyViolation> {
    if usage.active_stage1 + 1 > u64::MAX {
        Err(IndexConsistencyViolation::ArithmeticOverflow)
    } else {
        match stage1_sum(usage.stage1, census) {
            Err(error) => Err(error),
            Ok(stage1) => if usage.active_stage1 + 1 > capacity.max_active_stage1 || !stage1_covers(
                capacity.stage1,
                stage1,
            ) {
                Err(IndexConsistencyViolation::AmbiguousZeroStage1ReservationLimitExceeded)
            } else {
                Ok(
                    AmbiguousZeroBudgetUsage {
                        active_stage1: (usage.active_stage1 + 1) as u64,
                        stage1,
                        ..usage
                    },
                )
            },
        }
    }
}

/// The usage after admitting a second-stage census, all or nothing.
pub open spec fn stage2_reserved(
    usage: AmbiguousZeroBudgetUsage,
    capacity: AmbiguousZeroBudgetCapacity,
    census: AmbiguousZeroStage2Census,
) -> Result<AmbiguousZeroBudgetUsage, IndexConsistencyViolation> {
    if usage.active_stage2 + 1 > u64::MAX {
        Err(IndexConsistencyViolation::ArithmeticOverflow)
    } else {
        match stage2_sum(usage.stage2, census) {
            Err(error) => Err(error),
            Ok(stage2) => if usage.active_stage2 + 1 > capacity.max_active_stage2 || !stage2_covers(
                capacity.stage2,
                stage2,
            ) {
                Err(IndexConsistencyViolation::AmbiguousZeroStage2ReservationLimitExceeded)
            } else {
                Ok(
                    AmbiguousZeroBudgetUsage {
                        active_stage2: (usage.active_stage2 + 1) as u64,
                        stage2,
                        ..usage
                    },
                )
            },
        }
    }
}

impl AmbiguousZeroBudget {
    /// A budget whose aggregate capacity is `aggregate_scale` times the opening limits.
    pub fn for_test(
        limits: AmbiguousZeroLimits,
        max_active_stage1: u64,
        max_active_stage2: u64,
        aggregate_scale: u64,
    ) -> (budget: Self)
        requires
            limits.max_ambiguous_chunks * aggregate_scale <= u64::MAX,
            limits.max_message_index_bytes * aggregate_scale <= u64::MAX,
            limits.max_message_index_entries_upper * aggregate_scale <= u64::MAX,
            limits.max_message_index_range_requests * aggregate_scale <= u64::MAX,
            limits.max_classification_retained_bytes * aggregate_scale <= u64::MAX,
            limits.max_unresolved_chunks * aggregate_scale <= u64::MAX,
            limits.max_chunk_range_bytes * aggregate_scale <= u64::MAX,
            limits.max_compressed_bytes * aggregate_scale <= u64::MAX,
            limits.max_uncompressed_bytes * aggregate_scale <= u64::MAX,
            limits.max_chunk_range_requests * aggregate_scale <= u64::MAX,
            limits.max_scan_bytes * aggregate_scale <= u64::MAX,
            limits.max_scan_records_upper * aggregate_scale <= u64::MAX,
        ensures
            budget.limits == limits,
            budget.capacity.max_active_stage1 == max_active_stage1,
            budget.capacity.max_active_stage2 == max_active_stage2,
            budget.capacity.stage1 == stage1_values_census(
                (limits.max_ambiguous_chunks * aggregate_scale) as u64,
                (limits.max_message_index_bytes * aggregate_scale) as u64,
                (limits.max_message_index_entries_upper * aggregate_scale) as u64,
                (limits.max_message_index_range_requests * aggregate_scale) as u64,
                (limits.max_classification_retained_bytes * aggregate_scale) as u64,
            ),
            budget.capacity.stage2 == stage2_values_census(
                (limits.max_unresolved_chunks * aggregate_scale) as u64,
                (limits.max_chunk_range_bytes * aggregate_scale) as u64,
                (limits.max_compressed_bytes * aggregate_scale) as u64,
                (limits.max_uncompressed_bytes * aggregate_scale) as u64,
                (limits.max_chunk_range_requests * aggregate_scale) as u64,
                (limits.max_scan_bytes * aggregate_scale) as u64,
                (limits.max_scan_records_upper * aggregate_scale) as u64,
            ),
            budget.usage == (AmbiguousZeroBudgetUsage {
                active_stage1: 0,
                stage1: stage1_values_census(0, 0, 0, 0, 0),
                active_stage2: 0,
                stage2: stage2_values_census(0, 0, 0, 0, 0, 0, 0),
            }),
    {
        let stage1 = AmbiguousZeroStage1Census {
            ambiguous_chunks: limits.max_ambiguous_chunks,
            message_index_bytes: limits.max_message_index_bytes,
            message_index_entries_upper: limits.max_message_index_entries_upper,
            message_index_range_requests: limits.max_message_index_range_requests,
            classification_retained_bytes: limits.max_classification_retained_bytes,
        };
        let stage2 = AmbiguousZeroStage2Census {
            unresolved_chunks: limits.max_unresolved_chunks,
            chunk_range_bytes: limits.max_chunk_range_bytes,
            compressed_bytes: limits.max_compressed_bytes,
            uncompressed_bytes: limits.max_uncompressed_bytes,
            chunk_range_requests: limits.max_chunk_range_requests,
            scan_bytes: limits.max_scan_bytes,
            scan_records_upper: limits.max_scan_records_upper,
        };
        AmbiguousZeroBudget {
            limits,
            capacity: AmbiguousZeroBudgetCapacity {
                max_active_stage1,
                stage1: scale_stage1(stage1, aggregate_scale),
                max_active_stage2,
                stage2: scale_stage2(stage2, aggregate_scale),
            },
            usage: AmbiguousZeroBudgetUsage {
                active_stage1: 0,
                stage1: AmbiguousZeroStage1Census::default(),
                active_stage2: 0,
                stage2: AmbiguousZeroStage2Census::default(),
            },
        }
    }

    pub fn usage_for_test(&self) -> (values: [u64; 14])
        ensures
            values@ == seq![
                self.usage.active_stage1,
                self.usage.stage1.ambiguous_chunks,
                self.usage.stage1.message_index_bytes,
                self.usage.stage1.message_index_entries_upper,
                self.usage.stage1.message_index_range_requests,
                self.usage.stage1.classification_retained_bytes,
                self.usage.active_stage2,
                self.usage.stage2.unresolved_chunks,
                self.usage.stage2.chunk_range_bytes,
                self.usage.stage2.compressed_bytes,
                self.usage.stage2.uncompressed_bytes,
                self.usage.stage2.chunk_range_requests,
                self.usage.stage2.scan_bytes,
                self.usage.stage2.scan_records_upper,
            ],
    {
        let usage = self.usage;
        let values = [
            usage.active_stage1,
            usage.stage1.ambiguous_chunks,
            usage.stage1.message_index_bytes,
            usage.stage1.message_index_entries_upper,
            usage.stage1.message_index_range_requests,
            usage.stage1.classification_retained_bytes,
            usage.active_stage2,
            usage.stage2.unresolved_chunks,
            usage.stage2.chunk_range_bytes,
            usage.stage2.compressed_bytes,
            usage.stage2.uncompressed_bytes,
            usage.stage2.chunk_range_requests,
            usage.stage2.scan_bytes,
            usage.stage2.scan_records_upper,
        ];
        assert(values@ =~= seq![
            self.usage.active_stage1,
            self.usage.stage1.ambiguous_chunks,
            self.usage.stage1.message_index_bytes,
            self.usage.stage1.message_index_entries_upper,
            self.usage.stage1.message_index_range_requests,
            self.usage.stage1.classification_retained_bytes,
            self.usage.active_stage2,
            self.usage.stage2.unresolved_chunks,
            self.usage.stage2.chunk_range_bytes,
            self.usage.stage2.compressed_bytes,
            self.usage.stage2.uncompressed_bytes,
            self.usage.stage2.chunk_range_requests,
            self.usage.stage2.scan_bytes,
            self.usage.stage2.scan_records_upper,
        ]);
        values
    }

    /// Admits a first-stage census, all or nothing.
    pub fn try_reserve_stage1(&mut self, census: AmbiguousZeroStage1Census) -> (result: Result<
        AmbiguousZeroStage1Reservation,
        IndexConsistencyViolation,
    >)
        ensures
            final(self).limits == old(self).limits,
            final(self).capacity == old(self).capacity,
            match stage1_reserved(old(self).usage, old(self).capacity, census) {
                Ok(next) => result == Ok::<AmbiguousZeroStage1Reservation, IndexConsistencyViolation>(
                    AmbiguousZeroStage1Reservation { census },
                ) && final(self).usage == next,
                Err(error) => result == Err::<AmbiguousZeroStage1Reservation, IndexConsistencyViolation>(
                    error,
                ) && final(self).usage == old(self).usage,
            },
    {
        let active_stage1 = checked_add(self.usage.active_stage1, 1)?;
        let stage1 = add_stage1(self.usage.stage1, census)?;
        if active_stage1 > self.capacity.max_active_stage1 || !stage1_fits(stage1, self.capacity.stage1) {
            return Err(IndexConsistencyViolation::AmbiguousZeroStage1ReservationLimitExceeded);
        }
        self.usage = AmbiguousZeroBudgetUsage { active_stage1, stage1, ..self.usage };
        Ok(AmbiguousZeroStage1Reservation { census })
    }

    /// Admits a second-stage census, all or nothing.
    pub fn try_reserve_stage2(&mut self, census: AmbiguousZeroStage2Census) -> (result: Result<
        AmbiguousZeroStage2Reservation,
        IndexConsistencyViolation,
    >)
        ensures
            final(self).limits == old(self).limits,
            final(self).capacity == old(self).capacity,
            match stage2_reserved(old(self).usage, old(self).capacity, census) {
                Ok(next) => result == Ok::<AmbiguousZeroStage2Reservation, IndexConsistencyViolation>(
                    AmbiguousZeroStage2Reservation { census },
                ) && final(self).usage == next,
                Err(error) => result == Err::<AmbiguousZeroStage2Reservation, IndexConsistencyViolation>(
                    error,
                ) && final(self).usage == old(self).usage,
            },
    {
        let active_stage2 = checked_add(self.usage.active_stage2, 1)?;
        let stage2 = add_stage2(self.usage.stage2, census)?;
        if active_stage2 > self.capacity.max_active_stage2 || !stage2_fits(stage2, self.capacity.stage2) {
            return Err(IndexConsistencyViolation::AmbiguousZeroStage2ReservationLimitExceeded);
        }
        self.usage = AmbiguousZeroBudgetUsage { active_stage2, stage2, ..self.usage };
        Ok(AmbiguousZeroStage2Reservation { census })
    }

    /// Returns a live first-stage reservation.
    pub fn release_stage1(&mut self, reservation: AmbiguousZeroStage1Reservation)
        requires
            old(self).usage.active_stage1 >= 1,
            stage1_covers(old(self).usage.stage1, reservation.census),
        ensures
            final(self).limits == old(self).limits,
            final(self).capacity == old(self).capacity,
            final(self).usage == (AmbiguousZeroBudgetUsage {
                active_stage1: (old(self).usage.active_stage1 - 1) as u64,
                stage1: stage1_difference(old(self).usage.stage1, reservation.census),
                ..old(self).usage
            }),
    {
        let stage1 = sub_stage1(self.usage.stage1, reservation.census);
        self.usage = AmbiguousZeroBudgetUsage {
            active_stage1: self.usage.active_stage1 - 1,
            stage1,
            ..self.usage
        };
    }

    /// Returns a live second-stage reservation.
    pub fn release_stage2(&mut self, reservation: AmbiguousZeroStage2Reservation)
        requires
            old(self).usage.active_stage2 >= 1,
            stage2_covers(old(self).usage.stage2, reservation.census),
        ensures
            final(self).limits == old(self).limits,
            final(self).capacity == old(self).capacity,
            final(self).usage == (AmbiguousZeroBudgetUsage {
                active_stage2: (old(self).usage.active_stage2 - 1) as u64,
                stage2: stage2_difference(old(self).usage.stage2, reservation.census),
                ..old(self).usage
            }),
    {
        let stage2 = sub_stage2(self.usage.stage2, reservation.census);
        self.usage = AmbiguousZeroBudgetUsage {
            active_stage2: self.usage.active_stage2 - 1,
            stage2,
            ..self.usage
        };
    }
}

/// Subtracting what was just added gives back the original census.
pub proof fn lemma_stage1_add_then_sub(left: AmbiguousZeroStage1Census, right: AmbiguousZeroStage1Census)
    requires
        stage1_sum(left, right) is Ok,
    ensures
        stage1_covers(stage1_sum(left, right)->Ok_0, right),
        stage1_difference(stage1_sum(left, right)->Ok_0, right) == left,
{
}

/// Subtracting what was just added gives back the original census.
pub proof fn lemma_stage2_add_then_sub(left: AmbiguousZeroStage2Census, right: AmbiguousZeroStage2Census)
    requires
        stage2_sum(left, right) is Ok,
    ensures
        stage2_covers(stage2_sum(left, right)->Ok_0, right),
        stage2_difference(stage2_sum(left, right)->Ok_0, right) == left,
{
}

/// Releasing an admitted first-stage reservation restores the aggregate usage exactly.
pub proof fn lemma_stage1_reservation_round_trip(
    usage: AmbiguousZeroBudgetUsage,
    capacity: AmbiguousZeroBudgetCapacity,
    census: AmbiguousZeroStage1Census,
)
    requires
        stage1_reserved(usage, capacity, census) is Ok,
    ensures
        ({
            let next = stage1_reserved(usage, capacity, census)->Ok_0;
            next.active_stage1 >= 1 && stage1_covers(next.stage1, census)
                && (AmbiguousZeroBudgetUsage {
                active_stage1: (next.active_stage1 - 1) as u64,
                stage1: stage1_difference(next.stage1, census),
                ..next
            }) == usage
        }),
{
    lemma_stage1_add_then_sub(usage.stage1, census);
}

/// Releasing an admitted second-stage reservation restores the aggregate usage exactly.
pub proof fn lemma_stage2_reservation_round_trip(
    usage: AmbiguousZeroBudgetUsage,
    capacity: AmbiguousZeroBudgetCapacity,
    census: AmbiguousZeroStage2Census,
)
    requires
        stage2_reserved(usage, capacity, census) is Ok,
    ensures
        ({
            let next = stage2_reserved(usage, capacity, census)->Ok_0;
            next.active_stage2 >= 1 && stage2_covers(next.stage2, census)
                && (AmbiguousZeroBudgetUsage {
                active_stage2: (next.active_stage2 - 1) as u64,
                stage2: stage2_difference(next.stage2, census),
                ..next
            }) == usage
        }),
{
    lemma_stage2_add_then_sub(usage.stage2, census);
}


/// How one ambiguous Chunk stands after the MessageIndex preflight.
#[derive(Clone, Copy, Debug, PartialEq, Eq, Structural)]
pub enum AmbiguousChunkClassification {
    PendingMessageIndex,
    Unresolved,
    IndexNonEmptyZero,
}

/// The classification of the ambiguous Chunk at one canonical ordinal.
#[derive(Clone, Copy, Debug, PartialEq, Eq, Structural)]
pub struct AmbiguousChunkState {
    pub canonical_ordinal: usize,
    pub classification: AmbiguousChunkClassification,
}

/// Raw, pre-canonicalization proof that one indexed ambiguous Chunk is nonempty at time zero.
#[derive(Clone, Copy, Debug, PartialEq, Eq, Structural)]
pub struct AmbiguousZeroIndexResolution {
    canonical_ordinal: usize,
    raw_start: u64,
    raw_end: u64,
}

impl AmbiguousZeroIndexResolution {
    pub closed spec fn spec_canonical_ordinal(self) -> usize {
        self.canonical_ordinal
    }

    pub closed spec fn spec_raw_start(self) -> u64 {
        self.raw_start
    }

    pub closed spec fn spec_raw_end(self) -> u64 {
        self.raw_end
    }

    pub fn canonical_ordinal(self) -> (ordinal: usize)
        ensures
            ordinal == self.spec_canonical_ordinal(),
    {
        self.canonical_ordinal
    }

    /// The inclusive raw log-time extent that the index proved nonempty.
    pub fn raw_time_extent(self) -> (extent: std::ops::RangeInclusive<u64>)
        ensures
            extent@.start == self.spec_raw_start(),
            extent@.end == self.spec_raw_end(),
            !extent@.exhausted,
    {
        std::ops::RangeInclusive::new(self.raw_start, self.raw_end)
    }
}

/// The canonical ordinals of the chunks in `chunks` that have `classification`, in order.
pub open spec fn ordinals_classified(
    chunks: Seq<AmbiguousChunkState>,
    classification: AmbiguousChunkClassification,
) -> Seq<usize>
    decreases chunks.len(),
{
    if chunks.len() == 0 {
        Seq::empty()
    } else {
        let earlier = ordinals_classified(chunks.drop_last(), classification);
        if chunks.last().classification == classification {
            earlier.push(chunks.last().canonical_ordinal)
        } else {
            earlier
        }
    }
}

/// Counts the chunks that have `classification`.
pub fn classified_count(
    chunks: &[AmbiguousChunkState],
    classification: AmbiguousChunkClassification,
) -> (count: usize)
    ensures
        count == ordinals_classified(chunks@, classification).len(),
{
    let mut count: usize = 0;
    let mut index: usize = 0;
    while index < chunks.len()
        invariant
            index <= chunks@.len(),
            count == ordinals_classified(chunks@.take(index as int), classification).len(),
            count <= index,
        decreases chunks@.len() - index,
    {
        assert(chunks@.take(index as int + 1).drop_last() == chunks@.take(index as int));
        if chunks[index].classification == classification {
            count = count + 1;
        }
        index = index + 1;
    }
    assert(chunks@.take(index as int) == chunks@);
    count
}

/// The chunks that a validated MessageIndex proved nonempty at time zero, as resolutions with
/// the raw extent `0..=0`, in canonical order.
pub fn index_nonempty_zero(chunks: &[AmbiguousChunkState]) -> (resolutions: Vec<
    AmbiguousZeroIndexResolution,
>)
    ensures
        resolutions@.len() == ordinals_classified(
            chunks@,
            AmbiguousChunkClassification::IndexNonEmptyZero,
        ).len(),
        forall|i: int|
            0 <= i < resolutions@.len() ==> #[trigger] resolutions@[i].spec_canonical_ordinal()
                == ordinals_classified(chunks@, AmbiguousChunkClassification::IndexNonEmptyZero)[i],
        forall|i: int|
            0 <= i < resolutions@.len() ==> #[trigger] resolutions@[i].spec_raw_start() == 0
                && resolutions@[i].spec_raw_end() == 0,
{
    let ghost wanted = AmbiguousChunkClassification::IndexNonEmptyZero;
    let mut resolutions: Vec<AmbiguousZeroIndexResolution> = Vec::new();
    let mut index: usize = 0;
    while index < chunks.len()
        invariant
            index <= chunks@.len(),
            wanted == AmbiguousChunkClassification::IndexNonEmptyZero,
            resolutions@.len() == ordinals_classified(chunks@.take(index as int), wanted).len(),
            forall|i: int|
                0 <= i < resolutions@.len() ==> {
                    &&& #[trigger] resolutions@[i].canonical_ordinal == ordinals_classified(
                        chunks@.take(index as int),
                        wanted,
                    )[i]
                    &&& resolutions@[i].raw_start == 0
                    &&& resolutions@[i].raw_end == 0
                },
        decreases chunks@.len() - index,
    {
        assert(chunks@.take(index as int + 1).drop_last() == chunks@.take(index as int));
        let chunk = chunks[index];
        if chunk.classification == AmbiguousChunkClassification::IndexNonEmptyZero {
            resolutions.push(
                AmbiguousZeroIndexResolution {
                    canonical_ordinal: chunk.canonical_ordinal,
                    raw_start: 0,
                    raw_end: 0,
                },
            );
        }
        index = index + 1;
    }
    assert(chunks@.take(index as int) == chunks@);
    assert forall|i: int| #![trigger resolutions@[i]] 0 <= i < resolutions@.len() implies {
        &&& resolutions@[i].spec_canonical_ordinal() == ordinals_classified(chunks@, wanted)[i]
        &&& resolutions@[i].spec_raw_start() == 0
        &&& resolutions@[i].spec_raw_end() == 0
    } by {
        assert(resolutions@[i].canonical_ordinal == ordinals_classified(
            chunks@.take(index as int),
            wanted,
        )[i]);
        assert(resolutions@[i].raw_start == 0 && resolutions@[i].raw_end == 0);
    }
    resolutions
}

/// The usage after returning a live first-stage reservation.
pub open spec fn stage1_released(
    usage: AmbiguousZeroBudgetUsage,
    reservation: AmbiguousZeroStage1Reservation,
) -> AmbiguousZeroBudgetUsage {
    AmbiguousZeroBudgetUsage {
        active_stage1: (usage.active_stage1 - 1) as u64,
        stage1: stage1_difference(usage.stage1, reservation.census),
        ..usage
    }
}

/// A live first-stage reservation is covered by the usage it was added to.
pub open spec fn stage1_claim_covered(
    usage: AmbiguousZeroBudgetUsage,
    reservation: AmbiguousZeroStage1Reservation,
) -> bool {
    usage.active_stage1 >= 1 && stage1_covers(usage.stage1, reservation.census)
}

/// A Chunk whose descriptor gives no message time: both bounds are zero.
pub open spec fn is_ambiguous_zero(descriptor: ChunkIndexRecordV1) -> bool {
    descriptor.message_start_time == 0 && descriptor.message_end_time == 0
}

/// The first-stage census of the canonical regions from `k` on, added to `census`.
pub open spec fn stage1_scan(
    physical: ValidatedPhysicalRegions,
    k: int,
    census: AmbiguousZeroStage1Census,
) -> Result<AmbiguousZeroStage1Census, IndexConsistencyViolation>
    decreases physical.spec_units().len() - k,
{
    if k < 0 || k >= physical.spec_units().len() {
        Ok(census)
    } else {
        let descriptor = canonical_descriptor(physical, k);
        let region = physical.spec_units()[k].message_index_region;
        if !is_ambiguous_zero(descriptor) {
            stage1_scan(physical, k + 1, census)
        } else if census.ambiguous_chunks + 1 > u64::MAX || region.start > region.end {
            Err(IndexConsistencyViolation::ArithmeticOverflow)
        } else {
            let counted = AmbiguousZeroStage1Census {
                ambiguous_chunks: (census.ambiguous_chunks + 1) as u64,
                ..census
            };
            let region_bytes = (region.end - region.start) as u64;
            let fixed_bytes = descriptor.message_index_offsets@.len()
                * MESSAGE_INDEX_RECORD_FIXED_BYTES;
            if region_bytes == 0 {
                stage1_scan(physical, k + 1, counted)
            } else if fixed_bytes > u64::MAX {
                Err(IndexConsistencyViolation::ArithmeticOverflow)
            } else if region_bytes < fixed_bytes {
                Err(IndexConsistencyViolation::AmbiguousZeroMessageIndexShapeInvalid)
            } else if counted.message_index_entries_upper + region_bytes / MESSAGE_INDEX_ENTRY_BYTES
                > u64::MAX || counted.message_index_bytes + region_bytes > u64::MAX
                || counted.message_index_range_requests + 1 > u64::MAX {
                Err(IndexConsistencyViolation::ArithmeticOverflow)
            } else {
                stage1_scan(
                    physical,
                    k + 1,
                    AmbiguousZeroStage1Census {
                        message_index_entries_upper: (counted.message_index_entries_upper
                            + region_bytes / MESSAGE_INDEX_ENTRY_BYTES) as u64,
                        message_index_bytes: (counted.message_index_bytes + region_bytes) as u64,
                        message_index_range_requests: (counted.message_index_range_requests
                            + 1) as u64,
                        ..counted
                    },
                )
            }
        }
    }
}

/// The whole first-stage preflight: the census with its classification bytes, within the
/// opening limits; or the first failure.
pub open spec fn stage1_preflight(physical: ValidatedPhysicalRegions, limits: AmbiguousZeroLimits) -> Result<
    AmbiguousZeroStage1Census,
    IndexConsistencyViolation,
> {
    match stage1_scan(physical, 0, stage1_values_census(0, 0, 0, 0, 0)) {
        Err(error) => Err(error),
        Ok(census) => {
            let retained = census.ambiguous_chunks * vstd::layout::size_of::<AmbiguousChunkState>();
            if retained > u64::MAX {
                Err(IndexConsistencyViolation::ArithmeticOverflow)
            } else {
                let full = AmbiguousZeroStage1Census {
                    classification_retained_bytes: retained as u64,
                    ..census
                };
                match stage1_limit_check(full, limits) {
                    Err(error) => Err(error),
                    Ok(_) => Ok(full),
                }
            }
        },
    }
}

/// The classification states of the ambiguous Chunks among the first `k` canonical regions:
/// pending where the Message Index region holds bytes, unresolved where it is empty.
pub open spec fn stage1_chunks(physical: ValidatedPhysicalRegions, k: int) -> Seq<AmbiguousChunkState>
    decreases k,
{
    if k <= 0 {
        Seq::empty()
    } else {
        let earlier = stage1_chunks(physical, k - 1);
        let region = physical.spec_units()[k - 1].message_index_region;
        if is_ambiguous_zero(canonical_descriptor(physical, k - 1)) {
            earlier.push(
                AmbiguousChunkState {
                    canonical_ordinal: (k - 1) as usize,
                    classification: if region.start < region.end {
                        AmbiguousChunkClassification::PendingMessageIndex
                    } else {
                        AmbiguousChunkClassification::Unresolved
                    },
                },
            )
        } else {
            earlier
        }
    }
}

/// The allocation-free first-stage census of every ambiguous canonical region.
pub fn preflight_stage1(physical: &ValidatedPhysicalRegions<'_>, limits: &AmbiguousZeroLimits) -> (result: Result<
    AmbiguousZeroStage1Census,
    IndexConsistencyViolation,
>)
    ensures
        result == stage1_preflight(*physical, *limits),
{
    let mut census = AmbiguousZeroStage1Census::default();
    let count = physical.canonical_chunk_count();
    let mut k: usize = 0;
    while k < count
        invariant
            k <= count == physical.spec_units().len(),
            stage1_scan(*physical, 0, stage1_values_census(0, 0, 0, 0, 0)) == stage1_scan(
                *physical,
                k as int,
                census,
            ),
        decreases count - k,
    {
        let region = match physical.region(k) {
            Some(region) => region,
            None => vstd::pervasive::unreached(),
        };
        let descriptor = region.raw_descriptor();
        if descriptor.message_start_time == 0 && descriptor.message_end_time == 0 {
            census.ambiguous_chunks = checked_add(census.ambiguous_chunks, 1)?;
            let region_bytes = range_len(region.message_index_region())?;
            let record_count = descriptor.message_index_offsets.len() as u64;
            if region_bytes > 0 {
                let fixed_bytes = checked_mul(record_count, MESSAGE_INDEX_RECORD_FIXED_BYTES)?;
                if region_bytes < fixed_bytes {
                    return Err(IndexConsistencyViolation::AmbiguousZeroMessageIndexShapeInvalid);
                }
                let entries_upper = region_bytes / MESSAGE_INDEX_ENTRY_BYTES;
                census.message_index_entries_upper = checked_add(
                    census.message_index_entries_upper,
                    entries_upper,
                )?;
                census.message_index_bytes = checked_add(census.message_index_bytes, region_bytes)?;
                census.message_index_range_requests = checked_add(
                    census.message_index_range_requests,
                    1,
                )?;
            }
        }
        k = k + 1;
    }
    census.classification_retained_bytes = checked_mul(
        census.ambiguous_chunks,
        std::mem::size_of::<AmbiguousChunkState>() as u64,
    )?;
    check_stage1_limits(census, limits)?;
    Ok(census)
}

/// The first stage holds, in region order, exactly the canonical regions among the first `k`
/// whose Chunk Index has both message start time and message end time zero: each state names
/// such a region, and every such region has a state. A state waits for its Message Index
/// exactly where that region holds bytes, and is unresolved otherwise.
pub proof fn lemma_stage1_chunks_are_zero_time_regions(physical: ValidatedPhysicalRegions, k: int)
    requires
        0 <= k <= physical.spec_units().len() <= usize::MAX,
    ensures
        forall|j: int|
            0 <= j < stage1_chunks(physical, k).len() ==> {
                let ordinal = (#[trigger] stage1_chunks(physical, k)[j]).canonical_ordinal as int;
                &&& 0 <= ordinal < k
                &&& canonical_descriptor(physical, ordinal).message_start_time == 0
                &&& canonical_descriptor(physical, ordinal).message_end_time == 0
                &&& (stage1_chunks(physical, k)[j].classification
                    == AmbiguousChunkClassification::PendingMessageIndex
                    <==> physical.spec_units()[ordinal].message_index_region.start
                    < physical.spec_units()[ordinal].message_index_region.end)
                &&& (stage1_chunks(physical, k)[j].classification
                    == AmbiguousChunkClassification::PendingMessageIndex || stage1_chunks(
                    physical,
                    k,
                )[j].classification == AmbiguousChunkClassification::Unresolved)
            },
        forall|i: int, j: int|
            0 <= i < j < stage1_chunks(physical, k).len() ==> (#[trigger] stage1_chunks(
                physical,
                k,
            )[i]).canonical_ordinal < (#[trigger] stage1_chunks(physical, k)[j]).canonical_ordinal,
        forall|m: int|
            0 <= m < k && (#[trigger] canonical_descriptor(physical, m)).message_start_time == 0
                && canonical_descriptor(physical, m).message_end_time == 0 ==> exists|j: int|
                0 <= j < stage1_chunks(physical, k).len() && stage1_chunks(physical, k)[j].canonical_ordinal
                    == m,
    decreases k,
{
    if k > 0 {
        lemma_stage1_chunks_are_zero_time_regions(physical, k - 1);
        let earlier = stage1_chunks(physical, k - 1);
        let now = stage1_chunks(physical, k);
        assert forall|m: int|
            0 <= m < k && (#[trigger] canonical_descriptor(physical, m)).message_start_time == 0
                && canonical_descriptor(physical, m).message_end_time == 0 implies exists|j: int|
            0 <= j < now.len() && now[j].canonical_ordinal == m by {
            if m < k - 1 {
                let j = choose|j: int| 0 <= j < earlier.len() && earlier[j].canonical_ordinal == m;
                assert(now[j] == earlier[j]);
            } else {
                assert(is_ambiguous_zero(canonical_descriptor(physical, k - 1)));
                assert(now.len() == earlier.len() + 1);
                assert(now[earlier.len() as int].canonical_ordinal == m);
            }
        }
    }
}

/// The first-stage census counts exactly the regions that the first stage holds: a census that
/// passes from region `k` adds one ambiguous Chunk per state that the regions from `k` on add.
pub proof fn lemma_stage1_census_counts_stage1_chunks(
    physical: ValidatedPhysicalRegions,
    k: int,
    census: AmbiguousZeroStage1Census,
)
    requires
        0 <= k <= physical.spec_units().len(),
        stage1_scan(physical, k, census) is Ok,
    ensures
        stage1_scan(physical, k, census)->Ok_0.ambiguous_chunks == census.ambiguous_chunks + (
        stage1_chunks(physical, physical.spec_units().len() as int).len() - stage1_chunks(
            physical,
            k,
        ).len()),
    decreases physical.spec_units().len() - k,
{
    if k < physical.spec_units().len() {
        let descriptor = canonical_descriptor(physical, k);
        let region = physical.spec_units()[k].message_index_region;
        assert(stage1_chunks(physical, k + 1).len() == stage1_chunks(physical, k).len() + if is_ambiguous_zero(
            descriptor,
        ) {
            1int
        } else {
            0int
        });
        if !is_ambiguous_zero(descriptor) {
            lemma_stage1_census_counts_stage1_chunks(physical, k + 1, census);
        } else {
            let counted = AmbiguousZeroStage1Census {
                ambiguous_chunks: (census.ambiguous_chunks + 1) as u64,
                ..census
            };
            let region_bytes = (region.end - region.start) as u64;
            if region_bytes == 0 {
                lemma_stage1_census_counts_stage1_chunks(physical, k + 1, counted);
            } else {
                lemma_stage1_census_counts_stage1_chunks(
                    physical,
                    k + 1,
                    AmbiguousZeroStage1Census {
                        message_index_entries_upper: (counted.message_index_entries_upper
                            + region_bytes / MESSAGE_INDEX_ENTRY_BYTES) as u64,
                        message_index_bytes: (counted.message_index_bytes + region_bytes) as u64,
                        message_index_range_requests: (counted.message_index_range_requests
                            + 1) as u64,
                        ..counted
                    },
                );
            }
        }
    }
}

/// Builds the classification state of every ambiguous canonical region, into room claimed for
/// exactly `capacity` of them.
pub fn materialize_stage1(physical: &ValidatedPhysicalRegions<'_>, capacity: usize) -> (result: Result<
    Vec<AmbiguousChunkState>,
    IndexConsistencyViolation,
>)
    ensures
        result == Err::<Vec<AmbiguousChunkState>, IndexConsistencyViolation>(
            IndexConsistencyViolation::AmbiguousZeroStage1AllocationFailed,
        ) || (result matches Ok(chunks) && chunks@ == stage1_chunks(
            *physical,
            physical.spec_units().len() as int,
        ) && chunks@.len() == capacity),
        stage1_chunks(*physical, physical.spec_units().len() as int).len() != capacity ==> result
            == Err::<Vec<AmbiguousChunkState>, IndexConsistencyViolation>(
            IndexConsistencyViolation::AmbiguousZeroStage1AllocationFailed,
        ),
{
    let mut room: Vec<AmbiguousChunkState> = Vec::new();
    if !crate::remote_ros2_reflection::arenas::try_reserve_exact_room(&mut room, capacity) {
        return Err(IndexConsistencyViolation::AmbiguousZeroStage1AllocationFailed);
    }
    fill_stage1_chunks(physical, capacity, room)
}

/// Fills `room`, an empty vector claimed for `capacity` states, with the classification state
/// of every ambiguous canonical region: the states where there are exactly `capacity` of them,
/// the first-stage allocation failure otherwise.
pub fn fill_stage1_chunks(
    physical: &ValidatedPhysicalRegions<'_>,
    capacity: usize,
    room: Vec<AmbiguousChunkState>,
) -> (result: Result<Vec<AmbiguousChunkState>, IndexConsistencyViolation>)
    requires
        room@ == Seq::<AmbiguousChunkState>::empty(),
    ensures
        ({
            let chunks = stage1_chunks(*physical, physical.spec_units().len() as int);
            if chunks.len() == capacity {
                result matches Ok(filled) && filled@ == chunks
            } else {
                result == Err::<Vec<AmbiguousChunkState>, IndexConsistencyViolation>(
                    IndexConsistencyViolation::AmbiguousZeroStage1AllocationFailed,
                )
            }
        }),
{
    let mut chunks = room;
    proof {
        assert(chunks@ =~= stage1_chunks(*physical, 0));
    }
    let count = physical.canonical_chunk_count();
    let mut k: usize = 0;
    while k < count
        invariant
            k <= count == physical.spec_units().len(),
            chunks@ == stage1_chunks(*physical, k as int),
        decreases count - k,
    {
        let region = match physical.region(k) {
            Some(region) => region,
            None => vstd::pervasive::unreached(),
        };
        let descriptor = region.raw_descriptor();
        if descriptor.message_start_time == 0 && descriptor.message_end_time == 0 {
            let message_index_region = region.message_index_region();
            let classification = if message_index_region.start < message_index_region.end {
                AmbiguousChunkClassification::PendingMessageIndex
            } else {
                AmbiguousChunkClassification::Unresolved
            };
            chunks.push(AmbiguousChunkState { canonical_ordinal: k, classification });
        }
        k = k + 1;
    }
    if chunks.len() != capacity {
        return Err(IndexConsistencyViolation::AmbiguousZeroStage1AllocationFailed);
    }
    Ok(chunks)
}

/// The state of one first-stage flow: the classification states, the next Chunk to visit, the
/// MessageIndex entries seen so far and the first-stage reservation.
pub struct AmbiguousZeroStage1State {
    chunks: Vec<AmbiguousChunkState>,
    next_chunk: usize,
    observed_entries: u64,
    reservation: AmbiguousZeroStage1Reservation,
}

impl AmbiguousZeroStage1State {
    pub closed spec fn spec_chunks(&self) -> Seq<AmbiguousChunkState> {
        self.chunks@
    }

    pub closed spec fn spec_next_chunk(&self) -> usize {
        self.next_chunk
    }

    pub closed spec fn spec_observed_entries(&self) -> u64 {
        self.observed_entries
    }

    pub closed spec fn spec_reservation(&self) -> AmbiguousZeroStage1Reservation {
        self.reservation
    }

    pub fn chunks(&self) -> (chunks: &[AmbiguousChunkState])
        ensures
            chunks@ == self.spec_chunks(),
    {
        self.chunks.as_slice()
    }

    pub fn next_chunk(&self) -> (next: usize)
        ensures
            next == self.spec_next_chunk(),
    {
        self.next_chunk
    }

    pub fn observed_entries(&self) -> (entries: u64)
        ensures
            entries == self.spec_observed_entries(),
    {
        self.observed_entries
    }
}

/// The move-only first-stage flow. Every call to `next` yields at most one region parse.
pub struct AmbiguousZeroStage1<'a> {
    physical: ValidatedPhysicalRegions<'a>,
    state: AmbiguousZeroStage1State,
}

impl<'a> AmbiguousZeroStage1<'a> {
    pub closed spec fn spec_physical(&self) -> ValidatedPhysicalRegions<'a> {
        self.physical
    }

    pub closed spec fn spec_state(&self) -> AmbiguousZeroStage1State {
        self.state
    }

    pub fn state(&self) -> (state: &AmbiguousZeroStage1State)
        ensures
            *state == self.spec_state(),
    {
        &self.state
    }
}

/// What one step of the first stage yields: the next region parse, or the second-stage plan.
pub enum AmbiguousZeroStage1Turn<'a> {
    MessageIndex(PreparedAmbiguousZeroMessageIndex<'a>),
    BodyPlan(PreparedAmbiguousZeroBodyPlan<'a>),
}

/// A region parse of the first stage whose queue capacity is claimed.
pub struct PreparedAmbiguousZeroMessageIndex<'a> {
    parse: PreparedMessageIndexRegionParse<'a>,
    state: AmbiguousZeroStage1State,
}

impl<'a> PreparedAmbiguousZeroMessageIndex<'a> {
    pub closed spec fn spec_parse(&self) -> PreparedMessageIndexRegionParse<'a> {
        self.parse
    }

    pub closed spec fn spec_state(&self) -> AmbiguousZeroStage1State {
        self.state
    }

    pub fn expected_range(&self) -> (range: ByteRange)
        ensures
            range == self.spec_parse().spec_expected_range(),
    {
        self.parse.expected_range()
    }
}

/// The second-stage plan: which ambiguous Chunks still need a bounded body scan and which a
/// validated MessageIndex proved nonempty at time zero, with both stage reservations.
pub struct PreparedAmbiguousZeroBodyPlan<'a> {
    physical: ValidatedPhysicalRegions<'a>,
    chunks: Vec<AmbiguousChunkState>,
    stage1_reservation: AmbiguousZeroStage1Reservation,
    stage2_reservation: AmbiguousZeroStage2Reservation,
}

impl<'a> PreparedAmbiguousZeroBodyPlan<'a> {
    #[verifier::type_invariant]
    spec fn unresolved_regions_known(self) -> bool {
        forall|k: int|
            0 <= k < self.chunks@.len() && (#[trigger] self.chunks@[k]).classification
                == AmbiguousChunkClassification::Unresolved ==> self.chunks@[k].canonical_ordinal
                < self.physical.spec_units().len()
    }

    pub closed spec fn spec_physical(&self) -> ValidatedPhysicalRegions<'a> {
        self.physical
    }

    pub closed spec fn spec_chunks(&self) -> Seq<AmbiguousChunkState> {
        self.chunks@
    }

    pub closed spec fn spec_stage1_reservation(&self) -> AmbiguousZeroStage1Reservation {
        self.stage1_reservation
    }

    pub closed spec fn spec_stage2_reservation(&self) -> AmbiguousZeroStage2Reservation {
        self.stage2_reservation
    }
}

/// The first position from `k` whose Chunk still waits for its MessageIndex.
pub open spec fn first_pending_from(chunks: Seq<AmbiguousChunkState>, k: int) -> Option<int>
    decreases chunks.len() - k,
{
    if k < 0 || k >= chunks.len() {
        None
    } else if chunks[k].classification == AmbiguousChunkClassification::PendingMessageIndex {
        Some(k)
    } else {
        first_pending_from(chunks, k + 1)
    }
}

/// Whether some Chunk still waits for its MessageIndex.
pub open spec fn has_pending(chunks: Seq<AmbiguousChunkState>) -> bool {
    exists|k: int|
        0 <= k < chunks.len() && (#[trigger] chunks[k]).classification
            == AmbiguousChunkClassification::PendingMessageIndex
}

/// `value / divisor` rounded up.
pub open spec fn ceil_div(value: u64, divisor: u64) -> int {
    if value == 0 {
        0
    } else {
        (value - 1) / (divisor as int) + 1
    }
}

/// The second-stage census of the unresolved Chunks from `k` on, added to `census`.
pub open spec fn stage2_scan(
    physical: ValidatedPhysicalRegions,
    chunks: Seq<AmbiguousChunkState>,
    k: int,
    census: AmbiguousZeroStage2Census,
) -> Result<AmbiguousZeroStage2Census, IndexConsistencyViolation>
    decreases chunks.len() - k,
{
    if k < 0 || k >= chunks.len() {
        Ok(census)
    } else if chunks[k].classification != AmbiguousChunkClassification::Unresolved {
        stage2_scan(physical, chunks, k + 1, census)
    } else if chunks[k].canonical_ordinal >= physical.spec_units().len() {
        Err(IndexConsistencyViolation::UnknownCanonicalRegion)
    } else {
        let ordinal = chunks[k].canonical_ordinal as int;
        let descriptor = canonical_descriptor(physical, ordinal);
        let range = physical.spec_units()[ordinal].chunk_range;
        if census.unresolved_chunks + 1 > u64::MAX || range.start > range.end
            || census.chunk_range_bytes + (range.end - range.start) > u64::MAX
            || census.compressed_bytes + descriptor.compressed_size > u64::MAX
            || census.uncompressed_bytes + descriptor.uncompressed_size > u64::MAX
            || census.chunk_range_requests + 1 > u64::MAX || census.scan_bytes
            + descriptor.uncompressed_size > u64::MAX || census.scan_records_upper + ceil_div(
            descriptor.uncompressed_size,
            MIN_RECORD_ENVELOPE_BYTES,
        ) > u64::MAX {
            Err(IndexConsistencyViolation::ArithmeticOverflow)
        } else {
            stage2_scan(
                physical,
                chunks,
                k + 1,
                AmbiguousZeroStage2Census {
                    unresolved_chunks: (census.unresolved_chunks + 1) as u64,
                    chunk_range_bytes: (census.chunk_range_bytes + (range.end - range.start)) as u64,
                    compressed_bytes: (census.compressed_bytes + descriptor.compressed_size) as u64,
                    uncompressed_bytes: (census.uncompressed_bytes
                        + descriptor.uncompressed_size) as u64,
                    chunk_range_requests: (census.chunk_range_requests + 1) as u64,
                    scan_bytes: (census.scan_bytes + descriptor.uncompressed_size) as u64,
                    scan_records_upper: (census.scan_records_upper + ceil_div(
                        descriptor.uncompressed_size,
                        MIN_RECORD_ENVELOPE_BYTES,
                    )) as u64,
                },
            )
        }
    }
}

/// The second-stage admission: no Chunk pending, the census within the opening limits, and the
/// aggregate reservation; the census and the usage after it, or the first failure.
pub open spec fn stage2_admission(
    physical: ValidatedPhysicalRegions,
    chunks: Seq<AmbiguousChunkState>,
    limits: AmbiguousZeroLimits,
    usage: AmbiguousZeroBudgetUsage,
    capacity: AmbiguousZeroBudgetCapacity,
) -> Result<(AmbiguousZeroStage2Census, AmbiguousZeroBudgetUsage), IndexConsistencyViolation> {
    if has_pending(chunks) {
        Err(IndexConsistencyViolation::UnknownCanonicalRegion)
    } else {
        match stage2_scan(physical, chunks, 0, stage2_values_census(0, 0, 0, 0, 0, 0, 0)) {
            Err(error) => Err(error),
            Ok(census) => match stage2_limit_check(census, limits) {
                Err(error) => Err(error),
                Ok(_) => match stage2_reserved(usage, capacity, census) {
                    Err(error) => Err(error),
                    Ok(next) => Ok((census, next)),
                },
            },
        }
    }
}

/// The position of the first Chunk from `from` that waits for its MessageIndex.
pub fn first_pending(chunks: &[AmbiguousChunkState], from: usize) -> (found: Option<usize>)
    ensures
        found matches Some(k) ==> k < chunks@.len() && first_pending_from(chunks@, from as int)
            == Some(k as int),
        found is None ==> first_pending_from(chunks@, from as int) is None,
{
    let mut k = from;
    while k < chunks.len()
        invariant
            from <= k,
            first_pending_from(chunks@, from as int) == first_pending_from(chunks@, k as int),
        decreases chunks@.len() - k,
    {
        if chunks[k].classification == AmbiguousChunkClassification::PendingMessageIndex {
            return Some(k);
        }
        k = k + 1;
    }
    None
}

/// Whether some Chunk still waits for its MessageIndex.
pub fn any_pending(chunks: &[AmbiguousChunkState]) -> (pending: bool)
    ensures
        pending == has_pending(chunks@),
{
    let mut k: usize = 0;
    while k < chunks.len()
        invariant
            k <= chunks@.len(),
            forall|j: int|
                0 <= j < k ==> (#[trigger] chunks@[j]).classification
                    != AmbiguousChunkClassification::PendingMessageIndex,
        decreases chunks@.len() - k,
    {
        if chunks[k].classification == AmbiguousChunkClassification::PendingMessageIndex {
            return true;
        }
        k = k + 1;
    }
    false
}

/// The allocation-free second-stage census of every unresolved Chunk.
pub fn preflight_stage2(
    physical: &ValidatedPhysicalRegions<'_>,
    chunks: &[AmbiguousChunkState],
    limits: &AmbiguousZeroLimits,
) -> (result: Result<AmbiguousZeroStage2Census, IndexConsistencyViolation>)
    ensures
        result == match stage2_scan(*physical, chunks@, 0, stage2_values_census(0, 0, 0, 0, 0, 0, 0)) {
            Err(error) => Err(error),
            Ok(census) => match stage2_limit_check(census, *limits) {
                Err(error) => Err(error),
                Ok(_) => Ok::<AmbiguousZeroStage2Census, IndexConsistencyViolation>(census),
            },
        },
{
    let mut census = AmbiguousZeroStage2Census::default();
    let mut k: usize = 0;
    while k < chunks.len()
        invariant
            k <= chunks@.len(),
            stage2_scan(*physical, chunks@, 0, stage2_values_census(0, 0, 0, 0, 0, 0, 0))
                == stage2_scan(*physical, chunks@, k as int, census),
        decreases chunks@.len() - k,
    {
        let chunk = chunks[k];
        if chunk.classification == AmbiguousChunkClassification::Unresolved {
            let region = match physical.region(chunk.canonical_ordinal) {
                Some(region) => region,
                None => return Err(IndexConsistencyViolation::UnknownCanonicalRegion),
            };
            let descriptor = region.raw_descriptor();
            census.unresolved_chunks = checked_add(census.unresolved_chunks, 1)?;
            census.chunk_range_bytes = checked_add(
                census.chunk_range_bytes,
                range_len(region.chunk_range())?,
            )?;
            census.compressed_bytes = checked_add(census.compressed_bytes, descriptor.compressed_size)?;
            census.uncompressed_bytes = checked_add(
                census.uncompressed_bytes,
                descriptor.uncompressed_size,
            )?;
            census.chunk_range_requests = checked_add(census.chunk_range_requests, 1)?;
            census.scan_bytes = checked_add(census.scan_bytes, descriptor.uncompressed_size)?;
            census.scan_records_upper = checked_add(
                census.scan_records_upper,
                div_ceil(descriptor.uncompressed_size, MIN_RECORD_ENVELOPE_BYTES)?,
            )?;
        }
        k = k + 1;
    }
    check_stage2_limits(census, limits)?;
    Ok(census)
}

/// Opens the first stage: its census within the opening limits, the first-stage reservation,
/// and the classification state of every ambiguous canonical region.
pub fn prepare_ambiguous_zero_stage1<'a>(
    physical: ValidatedPhysicalRegions<'a>,
    budget: &mut AmbiguousZeroBudget,
) -> (result: Result<AmbiguousZeroStage1<'a>, IndexConsistencyViolation>)
    ensures
        final(budget).limits == old(budget).limits,
        final(budget).capacity == old(budget).capacity,
        match stage1_preflight(physical, old(budget).limits) {
            Err(error) => result == Err::<AmbiguousZeroStage1<'a>, IndexConsistencyViolation>(error)
                && final(budget).usage == old(budget).usage,
            Ok(census) => match stage1_reserved(old(budget).usage, old(budget).capacity, census) {
                Err(error) => result == Err::<AmbiguousZeroStage1<'a>, IndexConsistencyViolation>(
                    error,
                ) && final(budget).usage == old(budget).usage,
                Ok(next) => {
                    ||| census.ambiguous_chunks > usize::MAX && result == Err::<
                        AmbiguousZeroStage1<'a>,
                        IndexConsistencyViolation,
                    >(IndexConsistencyViolation::ArithmeticOverflow) && final(budget).usage
                        == old(budget).usage
                    ||| result == Err::<AmbiguousZeroStage1<'a>, IndexConsistencyViolation>(
                        IndexConsistencyViolation::AmbiguousZeroStage1AllocationFailed,
                    ) && final(budget).usage == old(budget).usage
                    ||| result matches Ok(stage1) && stage1.spec_physical() == physical
                        && stage1.spec_state().spec_chunks() == stage1_chunks(
                        physical,
                        physical.spec_units().len() as int,
                    ) && stage1.spec_state().spec_next_chunk() == 0
                        && stage1.spec_state().spec_observed_entries() == 0
                        && stage1.spec_state().spec_reservation() == (
                    AmbiguousZeroStage1Reservation { census }) && final(budget).usage == next
                },
            },
        },
{
    let limits = budget.limits;
    let census = preflight_stage1(&physical, &limits)?;
    let ghost before = budget.usage;
    let reservation = budget.try_reserve_stage1(census)?;
    proof {
        lemma_stage1_reservation_round_trip(before, budget.capacity, census);
    }
    if census.ambiguous_chunks > usize::MAX as u64 {
        budget.release_stage1(reservation);
        return Err(IndexConsistencyViolation::ArithmeticOverflow);
    }
    let chunks = match materialize_stage1(&physical, census.ambiguous_chunks as usize) {
        Ok(chunks) => chunks,
        Err(violation) => {
            budget.release_stage1(reservation);
            return Err(violation);
        },
    };
    Ok(
        AmbiguousZeroStage1 {
            physical,
            state: AmbiguousZeroStage1State {
                chunks,
                next_chunk: 0,
                observed_entries: 0,
                reservation,
            },
        },
    )
}

/// Closes the first stage: no Chunk may still wait for its MessageIndex; the unresolved Chunks'
/// census is checked and reserved. On a failure the first-stage reservation returns to `budget`.
pub fn prepare_stage2<'a>(stage1: AmbiguousZeroStage1<'a>, budget: &mut AmbiguousZeroBudget) -> (result: Result<
    PreparedAmbiguousZeroBodyPlan<'a>,
    IndexConsistencyViolation,
>)
    requires
        stage1_claim_covered(old(budget).usage, stage1.spec_state().spec_reservation()),
    ensures
        final(budget).limits == old(budget).limits,
        final(budget).capacity == old(budget).capacity,
        match stage2_admission(
            stage1.spec_physical(),
            stage1.spec_state().spec_chunks(),
            old(budget).limits,
            old(budget).usage,
            old(budget).capacity,
        ) {
            Err(error) => result == Err::<PreparedAmbiguousZeroBodyPlan<'a>, IndexConsistencyViolation>(
                error,
            ) && final(budget).usage == stage1_released(
                old(budget).usage,
                stage1.spec_state().spec_reservation(),
            ),
            Ok((census, next)) => result matches Ok(plan) && plan.spec_physical()
                == stage1.spec_physical() && plan.spec_chunks() == stage1.spec_state().spec_chunks()
                && plan.spec_stage1_reservation() == stage1.spec_state().spec_reservation()
                && plan.spec_stage2_reservation() == (AmbiguousZeroStage2Reservation { census })
                && final(budget).usage == next,
        },
{
    let AmbiguousZeroStage1 { physical, state } = stage1;
    let AmbiguousZeroStage1State { chunks, reservation, .. } = state;
    if any_pending(chunks.as_slice()) {
        budget.release_stage1(reservation);
        return Err(IndexConsistencyViolation::UnknownCanonicalRegion);
    }
    let limits = budget.limits;
    let census = match preflight_stage2(&physical, chunks.as_slice(), &limits) {
        Ok(census) => census,
        Err(violation) => {
            budget.release_stage1(reservation);
            return Err(violation);
        },
    };
    let stage2_reservation = match budget.try_reserve_stage2(census) {
        Ok(reservation) => reservation,
        Err(violation) => {
            budget.release_stage1(reservation);
            return Err(violation);
        },
    };
    proof {
        lemma_stage2_scan_regions_known(
            physical,
            chunks@,
            0,
            stage2_values_census(0, 0, 0, 0, 0, 0, 0),
        );
    }
    Ok(
        PreparedAmbiguousZeroBodyPlan {
            physical,
            chunks,
            stage1_reservation: reservation,
            stage2_reservation,
        },
    )
}

/// The entries of one record from `j` on, all at time zero, counted after `count`.
pub open spec fn record_zero_time_entries(entries: Seq<MessageIndexEntryV1>, j: int, count: u64) -> Result<
    u64,
    IndexConsistencyViolation,
>
    decreases entries.len() - j,
{
    if j < 0 || j >= entries.len() {
        Ok(count)
    } else if entries[j].log_time != 0 {
        Err(IndexConsistencyViolation::AmbiguousZeroIndexTimeMismatch)
    } else if count + 1 > u64::MAX {
        Err(IndexConsistencyViolation::ArithmeticOverflow)
    } else {
        record_zero_time_entries(entries, j + 1, (count + 1) as u64)
    }
}

/// The entries of the decoded records from `k` on, all at time zero, counted after `count`.
pub open spec fn region_zero_time_entries(
    records: Seq<(u16, u64, Seq<MessageIndexEntryV1>)>,
    k: int,
    count: u64,
) -> Result<u64, IndexConsistencyViolation>
    decreases records.len() - k,
{
    if k < 0 || k >= records.len() {
        Ok(count)
    } else {
        match record_zero_time_entries(records[k].2, 0, count) {
            Err(violation) => Err(violation),
            Ok(total) => region_zero_time_entries(records, k + 1, total),
        }
    }
}

/// The first-stage step after one region's MessageIndex: its entries join the observed count
/// within the reserved upper bound, and the pending Chunk at `next_chunk` becomes unresolved
/// (no entry) or nonempty at zero.
pub open spec fn stage1_classified(
    chunks: Seq<AmbiguousChunkState>,
    next_chunk: usize,
    observed_entries: u64,
    entries_upper: u64,
    region_entries: Result<u64, IndexConsistencyViolation>,
) -> Result<(Seq<AmbiguousChunkState>, u64), IndexConsistencyViolation> {
    match region_entries {
        Err(violation) => Err(violation),
        Ok(entries) => if observed_entries + entries > u64::MAX {
            Err(IndexConsistencyViolation::ArithmeticOverflow)
        } else if observed_entries + entries > entries_upper {
            Err(IndexConsistencyViolation::AmbiguousZeroObservedEntryUpperExceeded)
        } else if next_chunk >= chunks.len() || chunks[next_chunk as int].classification
            != AmbiguousChunkClassification::PendingMessageIndex {
            Err(IndexConsistencyViolation::UnknownCanonicalRegion)
        } else {
            Ok(
                (
                    chunks.update(
                        next_chunk as int,
                        AmbiguousChunkState {
                            classification: if entries == 0 {
                                AmbiguousChunkClassification::Unresolved
                            } else {
                                AmbiguousChunkClassification::IndexNonEmptyZero
                            },
                            ..chunks[next_chunk as int]
                        },
                    ),
                    (observed_entries + entries) as u64,
                ),
            )
        },
    }
}

/// Counts the entries of parsed records, each of which must be at time zero.
pub fn count_zero_time_entries(channels: &[ValidatedChannelMessageIndex]) -> (result: Result<
    u64,
    IndexConsistencyViolation,
>)
    ensures
        result == region_zero_time_entries(channel_views(channels@), 0, 0),
{
    let ghost views = channel_views(channels@);
    let mut count: u64 = 0;
    let mut k: usize = 0;
    while k < channels.len()
        invariant
            k <= channels@.len(),
            views == channel_views(channels@),
            region_zero_time_entries(views, 0, 0) == region_zero_time_entries(views, k as int, count),
        decreases channels@.len() - k,
    {
        let entries = channels[k].entries();
        assert(views[k as int].2 == entries@);
        let ghost before = count;
        let mut j: usize = 0;
        while j < entries.len()
            invariant
                j <= entries@.len(),
                k < channels@.len(),
                views == channel_views(channels@),
                views[k as int].2 == entries@,
                region_zero_time_entries(views, 0, 0) == region_zero_time_entries(
                    views,
                    k as int,
                    before,
                ),
                record_zero_time_entries(entries@, 0, before) == record_zero_time_entries(
                    entries@,
                    j as int,
                    count,
                ),
            decreases entries@.len() - j,
        {
            if entries[j].log_time != 0 {
                return Err(IndexConsistencyViolation::AmbiguousZeroIndexTimeMismatch);
            }
            count = checked_add(count, 1)?;
            j = j + 1;
        }
        k = k + 1;
    }
    Ok(count)
}

/// Applies one region's parsed records to the first-stage state.
pub fn apply_region_entries(state: &mut AmbiguousZeroStage1State, channels: &[ValidatedChannelMessageIndex]) -> (result: Result<
    (),
    IndexConsistencyViolation,
>)
    ensures
        final(state).spec_reservation() == old(state).spec_reservation(),
        match stage1_classified(
            old(state).spec_chunks(),
            old(state).spec_next_chunk(),
            old(state).spec_observed_entries(),
            old(state).spec_reservation().census.message_index_entries_upper,
            region_zero_time_entries(channel_views(channels@), 0, 0),
        ) {
            Err(violation) => result == Err::<(), IndexConsistencyViolation>(violation),
            Ok((chunks, observed)) => result is Ok && final(state).spec_chunks() == chunks
                && final(state).spec_observed_entries() == observed
                && final(state).spec_next_chunk() == old(state).spec_next_chunk() + 1,
        },
{
    let region_entries = count_zero_time_entries(channels)?;
    let observed = checked_add(state.observed_entries, region_entries)?;
    if observed > state.reservation.census.message_index_entries_upper {
        return Err(IndexConsistencyViolation::AmbiguousZeroObservedEntryUpperExceeded);
    }
    if state.next_chunk >= state.chunks.len() {
        return Err(IndexConsistencyViolation::UnknownCanonicalRegion);
    }
    let chunk = state.chunks[state.next_chunk];
    if chunk.classification != AmbiguousChunkClassification::PendingMessageIndex {
        return Err(IndexConsistencyViolation::UnknownCanonicalRegion);
    }
    let classification = if region_entries == 0 {
        AmbiguousChunkClassification::Unresolved
    } else {
        AmbiguousChunkClassification::IndexNonEmptyZero
    };
    state.chunks.set(state.next_chunk, AmbiguousChunkState { classification, ..chunk });
    state.observed_entries = observed;
    state.next_chunk = state.next_chunk + 1;
    Ok(())
}

impl<'a> AmbiguousZeroStage1<'a> {
    /// One step of the first stage: the claimed parse of the next Chunk that waits for its
    /// MessageIndex, or, when none is left, the second-stage plan. On a failure the first-stage
    /// reservation returns to `budget`.
    pub fn next(
        self,
        message_index_budget: &mut MessageIndexRegionBudget,
        budget: &mut AmbiguousZeroBudget,
    ) -> (result: Result<AmbiguousZeroStage1Turn<'a>, IndexConsistencyViolation>)
        requires
            stage1_claim_covered(old(budget).usage, self.spec_state().spec_reservation()),
        ensures
            final(budget).limits == old(budget).limits,
            final(budget).capacity == old(budget).capacity,
            final(message_index_budget).limits == old(message_index_budget).limits,
            final(message_index_budget).capacity == old(message_index_budget).capacity,
            match first_pending_from(
                self.spec_state().spec_chunks(),
                self.spec_state().spec_next_chunk() as int,
            ) {
                Some(k) => match message_index_claim(
                    self.spec_physical(),
                    self.spec_state().spec_chunks()[k].canonical_ordinal as int,
                    old(message_index_budget).usage,
                    old(message_index_budget).capacity,
                ) {
                    Err(violation) => result == Err::<
                        AmbiguousZeroStage1Turn<'a>,
                        IndexConsistencyViolation,
                    >(violation) && final(message_index_budget).usage
                        == old(message_index_budget).usage && final(budget).usage
                        == stage1_released(old(budget).usage, self.spec_state().spec_reservation()),
                    Ok((range, next)) => result matches Ok(AmbiguousZeroStage1Turn::MessageIndex(prepared))
                        && prepared.spec_parse().spec_physical() == self.spec_physical()
                        && prepared.spec_parse().spec_canonical_ordinal()
                        == self.spec_state().spec_chunks()[k].canonical_ordinal
                        && prepared.spec_parse().spec_expected_range() == range
                        && prepared.spec_parse().spec_raw_reservation().raw_input_bytes == range.end
                        - range.start && prepared.spec_state().spec_chunks()
                        == self.spec_state().spec_chunks() && prepared.spec_state().spec_next_chunk()
                        == k && prepared.spec_state().spec_observed_entries()
                        == self.spec_state().spec_observed_entries()
                        && prepared.spec_state().spec_reservation()
                        == self.spec_state().spec_reservation() && final(message_index_budget).usage
                        == next && final(budget).usage == old(budget).usage,
                },
                None => final(message_index_budget).usage == old(message_index_budget).usage
                    && match stage2_admission(
                    self.spec_physical(),
                    self.spec_state().spec_chunks(),
                    old(budget).limits,
                    old(budget).usage,
                    old(budget).capacity,
                ) {
                    Err(violation) => result == Err::<
                        AmbiguousZeroStage1Turn<'a>,
                        IndexConsistencyViolation,
                    >(violation) && final(budget).usage == stage1_released(
                        old(budget).usage,
                        self.spec_state().spec_reservation(),
                    ),
                    Ok((census, next)) => result matches Ok(AmbiguousZeroStage1Turn::BodyPlan(plan))
                        && plan.spec_physical() == self.spec_physical() && plan.spec_chunks()
                        == self.spec_state().spec_chunks() && plan.spec_stage1_reservation()
                        == self.spec_state().spec_reservation() && plan.spec_stage2_reservation() == (
                    AmbiguousZeroStage2Reservation { census }) && final(budget).usage == next,
                },
            },
    {
        match first_pending(self.state.chunks.as_slice(), self.state.next_chunk) {
            None => {
                let plan = prepare_stage2(self, budget)?;
                Ok(AmbiguousZeroStage1Turn::BodyPlan(plan))
            },
            Some(k) => {
                let canonical_ordinal = self.state.chunks[k].canonical_ordinal;
                let AmbiguousZeroStage1 { physical, state } = self;
                let AmbiguousZeroStage1State { chunks, observed_entries, reservation, .. } = state;
                match prepare_message_index_region(physical, canonical_ordinal, message_index_budget) {
                    Ok(parse) => Ok(
                        AmbiguousZeroStage1Turn::MessageIndex(
                            PreparedAmbiguousZeroMessageIndex {
                                parse,
                                state: AmbiguousZeroStage1State {
                                    chunks,
                                    next_chunk: k,
                                    observed_entries,
                                    reservation,
                                },
                            },
                        ),
                    ),
                    Err(violation) => {
                        budget.release_stage1(reservation);
                        Err(violation)
                    },
                }
            },
        }
    }
}

impl<'a> PreparedAmbiguousZeroMessageIndex<'a> {
    /// Installs the raw region bytes read at `file_start`. On a failure the raw claim returns to
    /// `message_index_budget` and the first-stage reservation to `budget`.
    pub fn install_raw(
        self,
        file_start: u64,
        bytes: Vec<u8>,
        message_index_budget: &mut MessageIndexRegionBudget,
        budget: &mut AmbiguousZeroBudget,
    ) -> (result: Result<AmbiguousZeroMessageIndexParse<'a>, IndexConsistencyViolation>)
        requires
            raw_usage_covers(old(message_index_budget).usage, self.spec_parse().spec_raw_reservation()),
            stage1_claim_covered(old(budget).usage, self.spec_state().spec_reservation()),
        ensures
            final(budget).limits == old(budget).limits,
            final(budget).capacity == old(budget).capacity,
            final(message_index_budget).limits == old(message_index_budget).limits,
            final(message_index_budget).capacity == old(message_index_budget).capacity,
            file_start == self.spec_parse().spec_expected_range().start && file_start + bytes@.len()
                == self.spec_parse().spec_expected_range().end ==> (result matches Ok(parse)
                && parse.spec_parse().spec_physical() == self.spec_parse().spec_physical()
                && parse.spec_parse().spec_canonical_ordinal()
                == self.spec_parse().spec_canonical_ordinal()
                && parse.spec_parse().spec_expected_range()
                == self.spec_parse().spec_expected_range() && parse.spec_parse().spec_raw_bytes()
                == bytes@ && parse.spec_parse().spec_raw_reservation()
                == self.spec_parse().spec_raw_reservation() && parse.spec_state()
                == self.spec_state() && final(message_index_budget).usage
                == old(message_index_budget).usage && final(budget).usage == old(budget).usage),
            !(file_start == self.spec_parse().spec_expected_range().start && file_start
                + bytes@.len() == self.spec_parse().spec_expected_range().end) ==> (result
                == Err::<AmbiguousZeroMessageIndexParse<'a>, IndexConsistencyViolation>(
                if file_start + bytes@.len() > u64::MAX {
                    IndexConsistencyViolation::ArithmeticOverflow
                } else {
                    IndexConsistencyViolation::MessageIndexRawInputMismatch
                },
            ) && final(message_index_budget).usage == released_raw_usage(
                old(message_index_budget).usage,
                self.spec_parse().spec_raw_reservation(),
            ) && final(budget).usage == stage1_released(
                old(budget).usage,
                self.spec_state().spec_reservation(),
            )),
    {
        let PreparedAmbiguousZeroMessageIndex { parse, state } = self;
        match parse.install_raw(file_start, bytes, message_index_budget) {
            Ok(parse) => Ok(AmbiguousZeroMessageIndexParse { parse, state }),
            Err(violation) => {
                let AmbiguousZeroStage1State { reservation, .. } = state;
                budget.release_stage1(reservation);
                Err(violation)
            },
        }
    }
}

/// A first-stage region parse whose raw bytes are installed.
pub struct AmbiguousZeroMessageIndexParse<'a> {
    parse: MessageIndexRegionParse<'a>,
    state: AmbiguousZeroStage1State,
}

impl<'a> AmbiguousZeroMessageIndexParse<'a> {
    pub closed spec fn spec_parse(&self) -> MessageIndexRegionParse<'a> {
        self.parse
    }

    pub closed spec fn spec_state(&self) -> AmbiguousZeroStage1State {
        self.state
    }

    /// Parses the region and classifies its Chunk: unresolved when the index holds no entry,
    /// nonempty at zero otherwise; every entry must be at time zero. All region claims return to
    /// `message_index_budget`; on a failure the first-stage reservation returns to `budget`.
    pub fn execute(
        self,
        message_index_budget: &mut MessageIndexRegionBudget,
        budget: &mut AmbiguousZeroBudget,
    ) -> (result: Result<AmbiguousZeroStage1<'a>, IndexConsistencyViolation>)
        requires
            raw_usage_covers(old(message_index_budget).usage, self.spec_parse().spec_raw_reservation()),
            stage1_claim_covered(old(budget).usage, self.spec_state().spec_reservation()),
        ensures
            final(budget).limits == old(budget).limits,
            final(budget).capacity == old(budget).capacity,
            final(message_index_budget).limits == old(message_index_budget).limits,
            final(message_index_budget).capacity == old(message_index_budget).capacity,
            final(message_index_budget).usage == released_raw_usage(
                old(message_index_budget).usage,
                self.spec_parse().spec_raw_reservation(),
            ),
            result is Err ==> final(budget).usage == stage1_released(
                old(budget).usage,
                self.spec_state().spec_reservation(),
            ),
            ({
                let parse = self.spec_parse();
                let ordinal = parse.spec_canonical_ordinal() as int;
                let outcome = if ordinal >= parse.spec_physical().spec_units().len() {
                    Err(IndexConsistencyViolation::UnknownCanonicalRegion)
                } else {
                    region_parse_outcome(
                        parse.spec_raw_bytes(),
                        parse.spec_expected_range().start,
                        canonical_descriptor(parse.spec_physical(), ordinal).message_index_offsets@,
                        old(message_index_budget).limits,
                        old(message_index_budget).usage,
                        old(message_index_budget).capacity,
                    )
                };
                match outcome {
                    Err(violation) => result == Err::<AmbiguousZeroStage1<'a>, IndexConsistencyViolation>(
                        violation,
                    ) || result == Err::<AmbiguousZeroStage1<'a>, IndexConsistencyViolation>(
                        IndexConsistencyViolation::MessageIndexResultAllocationFailed,
                    ),
                    Ok(decoded) => match stage1_classified(
                        self.spec_state().spec_chunks(),
                        self.spec_state().spec_next_chunk(),
                        self.spec_state().spec_observed_entries(),
                        self.spec_state().spec_reservation().census.message_index_entries_upper,
                        region_zero_time_entries(decoded, 0, 0),
                    ) {
                        Err(violation) => result == Err::<
                            AmbiguousZeroStage1<'a>,
                            IndexConsistencyViolation,
                        >(violation) || result == Err::<
                            AmbiguousZeroStage1<'a>,
                            IndexConsistencyViolation,
                        >(IndexConsistencyViolation::MessageIndexResultAllocationFailed),
                        Ok((chunks, observed)) => result == Err::<
                            AmbiguousZeroStage1<'a>,
                            IndexConsistencyViolation,
                        >(IndexConsistencyViolation::MessageIndexResultAllocationFailed) || (
                        result matches Ok(stage1) && stage1.spec_physical() == parse.spec_physical()
                            && stage1.spec_state().spec_chunks() == chunks
                            && stage1.spec_state().spec_observed_entries() == observed
                            && stage1.spec_state().spec_next_chunk()
                            == self.spec_state().spec_next_chunk() + 1
                            && stage1.spec_state().spec_reservation()
                            == self.spec_state().spec_reservation() && final(budget).usage
                            == old(budget).usage),
                    },
                }
            }),
    {
        let AmbiguousZeroMessageIndexParse { parse, state } = self;
        let ghost raw = parse.spec_raw_reservation();
        let ghost before = message_index_budget.usage;
        let validated = match parse.execute(message_index_budget) {
            Ok(validated) => validated,
            Err(violation) => {
                let AmbiguousZeroStage1State { reservation, .. } = state;
                budget.release_stage1(reservation);
                return Err(violation);
            },
        };
        proof {
            crate::remote_summary::message_index::lemma_result_reservation_round_trip(
                before,
                message_index_budget.capacity,
                validated.spec_result_reservation().census,
            );
            assert(channel_views(validated.spec_channels()) =~= region_parse_outcome(
                parse.spec_raw_bytes(),
                parse.spec_expected_range().start,
                canonical_descriptor(
                    parse.spec_physical(),
                    parse.spec_canonical_ordinal() as int,
                ).message_index_offsets@,
                message_index_budget.limits,
                before,
                message_index_budget.capacity,
            )->Ok_0);
        }
        let mut state = state;
        let applied = apply_region_entries(&mut state, validated.channels());
        let physical = validated.into_physical(message_index_budget);
        match applied {
            Ok(()) => Ok(AmbiguousZeroStage1 { physical, state }),
            Err(violation) => {
                let AmbiguousZeroStage1State { reservation, .. } = state;
                budget.release_stage1(reservation);
                Err(violation)
            },
        }
    }
}

/// A second-stage census that succeeds names only known canonical regions for its unresolved
/// Chunks.
proof fn lemma_stage2_scan_regions_known(
    physical: ValidatedPhysicalRegions,
    chunks: Seq<AmbiguousChunkState>,
    k: int,
    census: AmbiguousZeroStage2Census,
)
    requires
        0 <= k,
        stage2_scan(physical, chunks, k, census) is Ok,
    ensures
        forall|j: int|
            k <= j < chunks.len() && (#[trigger] chunks[j]).classification
                == AmbiguousChunkClassification::Unresolved ==> chunks[j].canonical_ordinal
                < physical.spec_units().len(),
    decreases chunks.len() - k,
{
    if k < chunks.len() {
        if chunks[k].classification != AmbiguousChunkClassification::Unresolved {
            lemma_stage2_scan_regions_known(physical, chunks, k + 1, census);
        } else {
            let ordinal = chunks[k].canonical_ordinal as int;
            let descriptor = canonical_descriptor(physical, ordinal);
            let range = physical.spec_units()[ordinal].chunk_range;
            let next = AmbiguousZeroStage2Census {
                unresolved_chunks: (census.unresolved_chunks + 1) as u64,
                chunk_range_bytes: (census.chunk_range_bytes + (range.end - range.start)) as u64,
                compressed_bytes: (census.compressed_bytes + descriptor.compressed_size) as u64,
                uncompressed_bytes: (census.uncompressed_bytes + descriptor.uncompressed_size) as u64,
                chunk_range_requests: (census.chunk_range_requests + 1) as u64,
                scan_bytes: (census.scan_bytes + descriptor.uncompressed_size) as u64,
                scan_records_upper: (census.scan_records_upper + ceil_div(
                    descriptor.uncompressed_size,
                    MIN_RECORD_ENVELOPE_BYTES,
                )) as u64,
            };
            lemma_stage2_scan_regions_known(physical, chunks, k + 1, next);
        }
    }
}

/// One unresolved Chunk's bounded descriptor: its ordinal, its Chunk record range and its
/// descriptor. It is no Range-request claim.
pub struct AmbiguousZeroUnresolvedChunk<'a> {
    pub canonical_ordinal: usize,
    pub chunk_range: ByteRange,
    pub descriptor: &'a ChunkIndexRecordV1,
}

impl<'a> AmbiguousZeroUnresolvedChunk<'a> {
    pub fn canonical_ordinal(&self) -> (ordinal: usize)
        ensures
            ordinal == self.canonical_ordinal,
    {
        self.canonical_ordinal
    }

    pub fn chunk_range(&self) -> (range: ByteRange)
        ensures
            range == self.chunk_range,
    {
        self.chunk_range
    }

    pub fn compression(&self) -> (compression: &str)
        ensures
            compression@ == self.descriptor.compression@,
    {
        self.descriptor.compression.as_str()
    }

    pub fn compressed_size(&self) -> (size: u64)
        ensures
            size == self.descriptor.compressed_size,
    {
        self.descriptor.compressed_size
    }

    pub fn uncompressed_size(&self) -> (size: u64)
        ensures
            size == self.descriptor.uncompressed_size,
    {
        self.descriptor.uncompressed_size
    }
}

/// The both-stage reservations that a resolution seed carries.
pub struct PreparedAmbiguousZeroAggregateReservations {
    pub stage1: AmbiguousZeroStage1Reservation,
    pub stage2: AmbiguousZeroStage2Reservation,
}

/// The move-only seed of the resolution stage: the physical capability, the classification
/// states and both reservations, taken over as one owner.
pub struct PreparedAmbiguousZeroResolutionSeed<'a> {
    pub physical: ValidatedPhysicalRegions<'a>,
    pub ambiguous_chunks: Vec<AmbiguousChunkState>,
    pub aggregate_reservations: PreparedAmbiguousZeroAggregateReservations,
}

impl<'a> PreparedAmbiguousZeroBodyPlan<'a> {
    pub fn physical(&self) -> (physical: &ValidatedPhysicalRegions<'a>)
        ensures
            *physical == self.spec_physical(),
    {
        &self.physical
    }

    pub fn index_nonempty_zero_count(&self) -> (count: usize)
        ensures
            count == ordinals_classified(
                self.spec_chunks(),
                AmbiguousChunkClassification::IndexNonEmptyZero,
            ).len(),
    {
        classified_count(self.chunks.as_slice(), AmbiguousChunkClassification::IndexNonEmptyZero)
    }

    pub fn unresolved_count(&self) -> (count: usize)
        ensures
            count == ordinals_classified(
                self.spec_chunks(),
                AmbiguousChunkClassification::Unresolved,
            ).len(),
    {
        classified_count(self.chunks.as_slice(), AmbiguousChunkClassification::Unresolved)
    }

    pub fn resolution_classifications_v1(&self) -> (chunks: &[AmbiguousChunkState])
        ensures
            chunks@ == self.spec_chunks(),
    {
        self.chunks.as_slice()
    }

    /// The retained footprint of the physical evidence and the classification states.
    pub fn retained_resolution_evidence_bytes_v1(&self) -> (bytes: Result<u64, IndexConsistencyViolation>)
        ensures
            match bytes {
                Ok(total) => self.spec_physical().spec_retained_bytes() matches Ok(physical)
                    && total == physical + self.spec_chunks().len() * vstd::layout::size_of::<
                    AmbiguousChunkState,
                >(),
                Err(violation) => violation == IndexConsistencyViolation::ArithmeticOverflow,
            },
            (self.spec_physical().spec_retained_bytes() matches Ok(physical) && physical
                + self.spec_chunks().len() * vstd::layout::size_of::<AmbiguousChunkState>()
                <= u64::MAX) ==> bytes is Ok,
    {
        let physical = self.physical.retained_bytes_v1()?;
        let classifications = checked_mul(
            self.chunks.len() as u64,
            std::mem::size_of::<AmbiguousChunkState>() as u64,
        )?;
        checked_add(physical, classifications)
    }

    /// The canonical ordinals that a validated MessageIndex proved nonempty at time zero.
    pub fn index_nonempty_zero_ordinals(&self) -> (ordinals: Vec<usize>)
        ensures
            ordinals@ == ordinals_classified(
                self.spec_chunks(),
                AmbiguousChunkClassification::IndexNonEmptyZero,
            ),
    {
        let resolutions = index_nonempty_zero(self.chunks.as_slice());
        let mut ordinals: Vec<usize> = Vec::new();
        let mut k: usize = 0;
        while k < resolutions.len()
            invariant
                k <= resolutions@.len(),
                resolutions@.len() == ordinals_classified(
                    self.spec_chunks(),
                    AmbiguousChunkClassification::IndexNonEmptyZero,
                ).len(),
                forall|i: int|
                    0 <= i < resolutions@.len() ==> #[trigger] resolutions@[i].spec_canonical_ordinal()
                        == ordinals_classified(
                        self.spec_chunks(),
                        AmbiguousChunkClassification::IndexNonEmptyZero,
                    )[i],
                ordinals@ == ordinals_classified(
                    self.spec_chunks(),
                    AmbiguousChunkClassification::IndexNonEmptyZero,
                ).subrange(0, k as int),
            decreases resolutions@.len() - k,
        {
            ordinals.push(resolutions[k].canonical_ordinal());
            proof {
                assert(ordinals@ =~= ordinals_classified(
                    self.spec_chunks(),
                    AmbiguousChunkClassification::IndexNonEmptyZero,
                ).subrange(0, k + 1));
            }
            k = k + 1;
        }
        proof {
            assert(ordinals@ =~= ordinals_classified(
                self.spec_chunks(),
                AmbiguousChunkClassification::IndexNonEmptyZero,
            ));
        }
        ordinals
    }

    /// The resolutions of the Chunks that a validated MessageIndex proved nonempty at zero.
    pub fn index_nonempty_zero(&self) -> (resolutions: Vec<AmbiguousZeroIndexResolution>)
        ensures
            resolutions@.len() == ordinals_classified(
                self.spec_chunks(),
                AmbiguousChunkClassification::IndexNonEmptyZero,
            ).len(),
            forall|i: int|
                0 <= i < resolutions@.len() ==> #[trigger] resolutions@[i].spec_canonical_ordinal()
                    == ordinals_classified(
                    self.spec_chunks(),
                    AmbiguousChunkClassification::IndexNonEmptyZero,
                )[i],
            forall|i: int|
                0 <= i < resolutions@.len() ==> #[trigger] resolutions@[i].spec_raw_start() == 0
                    && resolutions@[i].spec_raw_end() == 0,
    {
        index_nonempty_zero(self.chunks.as_slice())
    }

    /// The bounded descriptors of the Chunks that still need a body scan, in canonical order.
    pub fn unresolved_chunks(&self) -> (chunks: Vec<AmbiguousZeroUnresolvedChunk<'_>>)
        ensures
            chunks@.len() == ordinals_classified(
                self.spec_chunks(),
                AmbiguousChunkClassification::Unresolved,
            ).len(),
            forall|i: int|
                0 <= i < chunks@.len() ==> {
                    let ordinal = ordinals_classified(
                        self.spec_chunks(),
                        AmbiguousChunkClassification::Unresolved,
                    )[i];
                    &&& (#[trigger] chunks@[i]).canonical_ordinal == ordinal
                    &&& chunks@[i].chunk_range == self.spec_physical().spec_units()[ordinal as int].chunk_range
                    &&& *chunks@[i].descriptor == canonical_descriptor(self.spec_physical(), ordinal as int)
                },
    {
        proof {
            use_type_invariant(self);
        }
        let ghost wanted = AmbiguousChunkClassification::Unresolved;
        let mut result: Vec<AmbiguousZeroUnresolvedChunk<'_>> = Vec::new();
        let mut index: usize = 0;
        while index < self.chunks.len()
            invariant
                index <= self.spec_chunks().len(),
                wanted == AmbiguousChunkClassification::Unresolved,
                forall|k: int|
                    0 <= k < self.spec_chunks().len() && (#[trigger] self.spec_chunks()[k]).classification
                        == AmbiguousChunkClassification::Unresolved ==> self.spec_chunks()[k].canonical_ordinal
                        < self.spec_physical().spec_units().len(),
                result@.len() == ordinals_classified(self.spec_chunks().take(index as int), wanted).len(),
                forall|i: int|
                    0 <= i < result@.len() ==> {
                        let ordinal = ordinals_classified(self.spec_chunks().take(index as int), wanted)[i];
                        &&& (#[trigger] result@[i]).canonical_ordinal == ordinal
                        &&& result@[i].chunk_range == self.spec_physical().spec_units()[ordinal as int].chunk_range
                        &&& *result@[i].descriptor == canonical_descriptor(self.spec_physical(), ordinal as int)
                    },
            decreases self.spec_chunks().len() - index,
        {
            assert(self.spec_chunks().take(index as int + 1).drop_last() == self.spec_chunks().take(
                index as int,
            ));
            let chunk = self.chunks[index];
            if chunk.classification == AmbiguousChunkClassification::Unresolved {
                let region = match self.physical.region(chunk.canonical_ordinal) {
                    Some(region) => region,
                    None => vstd::pervasive::unreached(),
                };
                result.push(
                    AmbiguousZeroUnresolvedChunk {
                        canonical_ordinal: chunk.canonical_ordinal,
                        chunk_range: region.chunk_range(),
                        descriptor: region.raw_descriptor(),
                    },
                );
            }
            index = index + 1;
        }
        assert(self.spec_chunks().take(index as int) == self.spec_chunks());
        result
    }

    /// Hands the whole plan to the resolution stage as one move-only seed.
    pub fn into_resolution_seed(self) -> (seed: PreparedAmbiguousZeroResolutionSeed<'a>)
        ensures
            seed.physical == self.spec_physical(),
            seed.ambiguous_chunks@ == self.spec_chunks(),
            seed.aggregate_reservations.stage1 == self.spec_stage1_reservation(),
            seed.aggregate_reservations.stage2 == self.spec_stage2_reservation(),
    {
        let PreparedAmbiguousZeroBodyPlan { physical, chunks, stage1_reservation, stage2_reservation } =
            self;
        PreparedAmbiguousZeroResolutionSeed {
            physical,
            ambiguous_chunks: chunks,
            aggregate_reservations: PreparedAmbiguousZeroAggregateReservations {
                stage1: stage1_reservation,
                stage2: stage2_reservation,
            },
        }
    }

    pub fn reservation_census_for_test(&self) -> (values: ([u64; 5], [u64; 7]))
        ensures
            values.0@ == seq![
                self.spec_stage1_reservation().census.ambiguous_chunks,
                self.spec_stage1_reservation().census.message_index_bytes,
                self.spec_stage1_reservation().census.message_index_entries_upper,
                self.spec_stage1_reservation().census.message_index_range_requests,
                self.spec_stage1_reservation().census.classification_retained_bytes,
            ],
            values.1@ == seq![
                self.spec_stage2_reservation().census.unresolved_chunks,
                self.spec_stage2_reservation().census.chunk_range_bytes,
                self.spec_stage2_reservation().census.compressed_bytes,
                self.spec_stage2_reservation().census.uncompressed_bytes,
                self.spec_stage2_reservation().census.chunk_range_requests,
                self.spec_stage2_reservation().census.scan_bytes,
                self.spec_stage2_reservation().census.scan_records_upper,
            ],
    {
        (stage1_values(self.stage1_reservation.census), stage2_values(self.stage2_reservation.census))
    }
}

} // verus!
