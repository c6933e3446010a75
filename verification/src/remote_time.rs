//! Checked time canonicalization for remote MCAP inputs.
//!
//! Raw MCAP nanoseconds are unsigned; the temporal domain is the non-negative half of `i64`
//! minus the static sentinel, which no unsigned value can reach.
use core::cmp::Ordering;
use re_log_types::{TimeInt, TimeType, TryFromIntError};
use vstd::prelude::*;
use vstd::std_specs::cmp::PartialOrdSpec;

verus! {

#[verifier::external_type_specification]
#[verifier::external_body]
pub struct ExTimeInt(TimeInt);

#[verifier::external_type_specification]
#[verifier::external_body]
pub struct ExTryFromIntError(TryFromIntError);

#[verifier::external_type_specification]
#[verifier::external_body]
pub struct ExTimeType(TimeType);

/// An unconverted nanosecond value read from an MCAP record or index.
///
/// The raw value deliberately has no integer getter; it only enters the temporal domain through
/// [`canonicalize_raw_mcap_time`].
#[derive(Clone, Copy, Debug, PartialEq, Eq, Structural, Ord)]
pub struct RawMcapTime {
    raw: u64,
}

/// The order of two raw times: the order of their values.
pub open spec fn raw_time_order(left: u64, right: u64) -> Option<Ordering> {
    if left < right {
        Some(Ordering::Less)
    } else if left == right {
        Some(Ordering::Equal)
    } else {
        Some(Ordering::Greater)
    }
}

impl PartialOrd for RawMcapTime {
    fn partial_cmp(&self, other: &Self) -> (result: Option<Ordering>) {
        if self.raw < other.raw {
            Some(Ordering::Less)
        } else if self.raw == other.raw {
            Some(Ordering::Equal)
        } else {
            Some(Ordering::Greater)
        }
    }
}

impl vstd::std_specs::cmp::PartialOrdSpecImpl for RawMcapTime {
    open spec fn obeys_partial_cmp_spec() -> bool {
        true
    }

    open spec fn partial_cmp_spec(&self, other: &Self) -> Option<Ordering> {
        raw_time_order(self@, other@)
    }
}

impl View for RawMcapTime {
    type V = u64;

    closed spec fn view(&self) -> u64 {
        self.raw
    }
}

impl RawMcapTime {
    /// Wraps one raw MCAP `u64` without changing its value.
    pub fn new(raw: u64) -> (time: Self)
        ensures
            time@ == raw,
    {
        RawMcapTime { raw }
    }
}

/// A raw time is its value: two raw times are equal exactly when their values are, and they
/// order as their values do.
pub proof fn lemma_raw_time_is_its_value(left: RawMcapTime, right: RawMcapTime)
    ensures
        left == right <==> left@ == right@,
        left.partial_cmp_spec(&right) == raw_time_order(left@, right@),
        left.partial_cmp_spec(&right) == Some(Ordering::Less) <==> left@ < right@,
        left.partial_cmp_spec(&right) == Some(Ordering::Greater) <==> left@ > right@,
{
}

/// A raw MCAP value that is outside the non-static temporal domain.
///
/// The rejected value is intentionally not retained.
#[derive(Clone, Copy, Debug, PartialEq, Eq)]
pub struct InvalidTemporalValue;

impl InvalidTemporalValue {
    /// The human-readable description of this error.
    pub fn message(&self) -> (text: &'static str)
        ensures
            text@ == "raw MCAP time is outside the valid temporal domain"@,
    {
        "raw MCAP time is outside the valid temporal domain"
    }
}

/// Whether a raw MCAP time lies in the canonical temporal domain.
pub open spec fn is_canonical_raw_time(raw: u64) -> bool {
    raw <= i64::MAX
}

/// Converts raw MCAP nanoseconds into the canonical signed nanosecond count.
///
/// The conversion applies a zero offset, never saturates and never infers an epoch or unit.
pub fn canonical_raw_mcap_nanos(raw: RawMcapTime) -> (nanos: Result<i64, InvalidTemporalValue>)
    ensures
        nanos is Ok <==> is_canonical_raw_time(raw@),
        nanos matches Ok(value) ==> value as int == raw@ as int,
{
    if raw.raw > 0x7fff_ffff_ffff_ffffu64 {
        Err(InvalidTemporalValue)
    } else {
        Ok(raw.raw as i64)
    }
}

/// The nanosecond count that `TimeInt::as_i64` returns for `time`: the value it holds, and
/// `i64::MIN` for the static sentinel.
pub uninterp spec fn time_int_value(time: TimeInt) -> i64;

/// Calls `TimeInt::try_from(i64)` of `re_log_types`.
///
/// Its source rejects exactly `i64::MIN`, the static sentinel, and otherwise stores the value
/// unchanged as a temporal time, whose `as_i64` gives it back.
#[verifier::external_body]
fn time_int_try_from_i64(value: i64) -> (time: Result<TimeInt, TryFromIntError>)
    ensures
        time is Ok <==> value != i64::MIN,
        time matches Ok(t) ==> time_int_value(t) == value,
{
    TimeInt::try_from(value)
}

/// Converts raw MCAP nanoseconds into the canonical temporal representation.
///
/// This is the only raw-time conversion entry point. It succeeds exactly on the non-negative
/// half of the `u64` range; the upper half is rejected without saturation. The time returned
/// holds the raw value unchanged: zero offset, no saturation, never the static sentinel (whose
/// value is `i64::MIN`).
pub fn canonicalize_raw_mcap_time(raw: RawMcapTime) -> (time: Result<TimeInt, InvalidTemporalValue>)
    ensures
        time is Ok <==> is_canonical_raw_time(raw@),
        time matches Ok(t) ==> time_int_value(t) == raw@ as i64 && time_int_value(t) as int
            == raw@ as int,
{
    let nanos = match canonical_raw_mcap_nanos(raw) {
        Ok(nanos) => nanos,
        Err(error) => return Err(error),
    };
    match time_int_try_from_i64(nanos) {
        Ok(time) => Ok(time),
        Err(_static_sentinel) => Err(InvalidTemporalValue),
    }
}

/// The two timeline interpretations accepted by remote MCAP open options.
#[derive(Clone, Copy, Debug, PartialEq, Eq)]
pub enum RemoteMcapTimeType {
    /// Nanoseconds since the Unix epoch.
    TimestampNs,
    /// A nanosecond duration with no epoch interpretation.
    DurationNs,
}

impl Default for RemoteMcapTimeType {
    fn default() -> (value: Self)
        ensures
            value == RemoteMcapTimeType::TimestampNs,
    {
        RemoteMcapTimeType::TimestampNs
    }
}

/// A generic timeline type that remote MCAP open options do not support.
#[derive(Clone, Copy, Debug, PartialEq, Eq)]
pub struct UnsupportedMcapTimeType;

impl UnsupportedMcapTimeType {
    /// The human-readable description of this error.
    pub fn message(&self) -> (text: &'static str)
        ensures
            text@ == "remote MCAP time type must be timestamp_ns or duration_ns"@,
    {
        "remote MCAP time type must be timestamp_ns or duration_ns"
    }
}


/// The interpretations that a generic timeline type names.
#[derive(Clone, Copy, Debug, PartialEq, Eq, Structural)]
pub enum TimeTypeKindV1 {
    Sequence,
    DurationNs,
    TimestampNs,
}

/// Which variant of `re_log_types::TimeType` (a fieldless enum of three variants) a value is.
pub uninterp spec fn time_type_variant(value: TimeType) -> TimeTypeKindV1;

/// Tells the variants of `re_log_types::TimeType` apart by a match with one arm per variant.
/// Claimed: the kind returned is the variant of `value`.
#[verifier::external_body]
fn time_type_kind(value: TimeType) -> (kind: TimeTypeKindV1)
    ensures
        kind == time_type_variant(value),
{
    match value {
        TimeType::Sequence => TimeTypeKindV1::Sequence,
        TimeType::DurationNs => TimeTypeKindV1::DurationNs,
        TimeType::TimestampNs => TimeTypeKindV1::TimestampNs,
    }
}

/// Builds the `re_log_types::TimeType` variant named by `kind`. Claimed: the value built is of
/// that variant.
#[verifier::external_body]
fn time_type_of_kind(kind: TimeTypeKindV1) -> (value: TimeType)
    ensures
        time_type_variant(value) == kind,
{
    match kind {
        TimeTypeKindV1::Sequence => TimeType::Sequence,
        TimeTypeKindV1::DurationNs => TimeType::DurationNs,
        TimeTypeKindV1::TimestampNs => TimeType::TimestampNs,
    }
}

impl RemoteMcapTimeType {
    /// The remote interpretation of a generic timeline kind: sequences are not supported.
    pub fn from_time_type_kind(kind: TimeTypeKindV1) -> (time_type: Result<
        RemoteMcapTimeType,
        UnsupportedMcapTimeType,
    >)
        ensures
            kind == TimeTypeKindV1::TimestampNs ==> time_type == Ok::<
                RemoteMcapTimeType,
                UnsupportedMcapTimeType,
            >(RemoteMcapTimeType::TimestampNs),
            kind == TimeTypeKindV1::DurationNs ==> time_type == Ok::<
                RemoteMcapTimeType,
                UnsupportedMcapTimeType,
            >(RemoteMcapTimeType::DurationNs),
            kind == TimeTypeKindV1::Sequence ==> time_type == Err::<
                RemoteMcapTimeType,
                UnsupportedMcapTimeType,
            >(UnsupportedMcapTimeType),
    {
        match kind {
            TimeTypeKindV1::TimestampNs => Ok(RemoteMcapTimeType::TimestampNs),
            TimeTypeKindV1::DurationNs => Ok(RemoteMcapTimeType::DurationNs),
            TimeTypeKindV1::Sequence => Err(UnsupportedMcapTimeType),
        }
    }

    /// The generic timeline kind of this interpretation.
    pub fn kind(self) -> (kind: TimeTypeKindV1)
        ensures
            self == RemoteMcapTimeType::TimestampNs ==> kind == TimeTypeKindV1::TimestampNs,
            self == RemoteMcapTimeType::DurationNs ==> kind == TimeTypeKindV1::DurationNs,
    {
        match self {
            RemoteMcapTimeType::TimestampNs => TimeTypeKindV1::TimestampNs,
            RemoteMcapTimeType::DurationNs => TimeTypeKindV1::DurationNs,
        }
    }

    /// The remote interpretation of a generic `re_log_types` timeline type.
    pub fn try_from_time_type(value: TimeType) -> (time_type: Result<
        RemoteMcapTimeType,
        UnsupportedMcapTimeType,
    >)
        ensures
            time_type == match time_type_variant(value) {
                TimeTypeKindV1::TimestampNs => Ok::<RemoteMcapTimeType, UnsupportedMcapTimeType>(
                    RemoteMcapTimeType::TimestampNs,
                ),
                TimeTypeKindV1::DurationNs => Ok::<RemoteMcapTimeType, UnsupportedMcapTimeType>(
                    RemoteMcapTimeType::DurationNs,
                ),
                TimeTypeKindV1::Sequence => Err::<RemoteMcapTimeType, UnsupportedMcapTimeType>(
                    UnsupportedMcapTimeType,
                ),
            },
    {
        RemoteMcapTimeType::from_time_type_kind(time_type_kind(value))
    }

    /// The generic `re_log_types` timeline type of this interpretation.
    pub fn into_time_type(self) -> (value: TimeType)
        ensures
            time_type_variant(value) == match self {
                RemoteMcapTimeType::TimestampNs => TimeTypeKindV1::TimestampNs,
                RemoteMcapTimeType::DurationNs => TimeTypeKindV1::DurationNs,
            },
    {
        time_type_of_kind(self.kind())
    }
}

} // verus!
