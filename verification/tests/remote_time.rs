use re_log_types::{TimeInt, TimeType, TryFromIntError};
use re_mcap::remote_time::{
    canonical_raw_mcap_nanos, canonicalize_raw_mcap_time, InvalidTemporalValue, RawMcapTime,
    RemoteMcapTimeType, TimeTypeKindV1, UnsupportedMcapTimeType,
};

#[test]
fn canonicalization_preserves_every_boundary_and_rejects_only_the_upper_half() {
    for raw in [0, 1, i64::MAX as u64 - 1, i64::MAX as u64] {
        let canonical = canonicalize_raw_mcap_time(RawMcapTime::new(raw)).unwrap();
        assert!(!canonical.is_static());
        assert_eq!(
            canonical.as_i64(),
            i64::try_from(raw).expect("boundary is within the canonical domain")
        );
    }

    for raw in [i64::MAX as u64 + 1, u64::MAX] {
        assert_eq!(
            canonicalize_raw_mcap_time(RawMcapTime::new(raw)),
            Err(InvalidTemporalValue)
        );
    }
}

#[test]
fn i64_max_is_temporal_and_the_static_sentinel_cannot_enter_from_raw_u64() {
    let maximum = canonicalize_raw_mcap_time(RawMcapTime::new(i64::MAX as u64)).unwrap();
    assert_eq!(maximum, TimeInt::MAX);
    assert_ne!(maximum, TimeInt::STATIC);

    assert_eq!(TimeInt::try_from(i64::MIN), Err(TryFromIntError));
    assert_eq!(
        canonicalize_raw_mcap_time(RawMcapTime::new(i64::MIN as u64)),
        Err(InvalidTemporalValue)
    );
}

#[test]
fn boot_relative_and_epoch_like_values_never_trigger_heuristics_or_offsets() {
    for raw in [
        0,
        42,
        1_000_000_000,
        86_400_000_000_000,
        1_700_000_000_000_000_000,
    ] {
        assert_eq!(
            canonicalize_raw_mcap_time(RawMcapTime::new(raw))
                .unwrap()
                .as_i64(),
            i64::try_from(raw).expect("fixture value is within the canonical domain")
        );
    }
}

#[test]
fn remote_time_type_defaults_to_timestamp_and_statically_excludes_sequence() {
    assert_eq!(
        RemoteMcapTimeType::default(),
        RemoteMcapTimeType::TimestampNs
    );
    assert_eq!(
        RemoteMcapTimeType::try_from_time_type(TimeType::TimestampNs),
        Ok(RemoteMcapTimeType::TimestampNs)
    );
    assert_eq!(
        RemoteMcapTimeType::try_from_time_type(TimeType::DurationNs),
        Ok(RemoteMcapTimeType::DurationNs)
    );
    assert_eq!(
        RemoteMcapTimeType::try_from_time_type(TimeType::Sequence),
        Err(UnsupportedMcapTimeType)
    );
    assert_eq!(
        RemoteMcapTimeType::TimestampNs.into_time_type(),
        TimeType::TimestampNs
    );
    assert_eq!(
        RemoteMcapTimeType::DurationNs.into_time_type(),
        TimeType::DurationNs
    );
}

#[test]
fn timestamp_and_duration_interpretations_share_the_exact_canonical_number() {
    for raw in [0, 42, 9_876_543_210, i64::MAX as u64] {
        let canonical = canonicalize_raw_mcap_time(RawMcapTime::new(raw)).unwrap();
        let timestamp = (RemoteMcapTimeType::TimestampNs.into_time_type(), canonical);
        let duration = (RemoteMcapTimeType::DurationNs.into_time_type(), canonical);
        assert_eq!(timestamp.0, TimeType::TimestampNs);
        assert_eq!(duration.0, TimeType::DurationNs);
        assert_eq!(timestamp.1, duration.1);
        assert_eq!(
            timestamp.1.as_i64(),
            i64::try_from(raw).expect("fixture value is within the canonical domain")
        );
    }
}

#[test]
fn deterministic_property_samples_are_exact_and_never_saturate() {
    let mut state = 0x6a09_e667_f3bc_c909_u64;
    for _ in 0..100_000 {
        state = state
            .wrapping_mul(6_364_136_223_846_793_005)
            .wrapping_add(1_442_695_040_888_963_407);

        let valid = state & (i64::MAX as u64);
        assert_eq!(
            canonicalize_raw_mcap_time(RawMcapTime::new(valid))
                .unwrap()
                .as_i64(),
            i64::try_from(valid).expect("the high-bit mask creates a valid value")
        );

        let invalid = state | (1_u64 << 63);
        assert_eq!(
            canonicalize_raw_mcap_time(RawMcapTime::new(invalid)),
            Err(InvalidTemporalValue)
        );
    }
}

#[test]
fn canonical_nanos_are_the_raw_value_on_the_lower_half() {
    assert_eq!(canonical_raw_mcap_nanos(RawMcapTime::new(0)), Ok(0));
    assert_eq!(
        canonical_raw_mcap_nanos(RawMcapTime::new(i64::MAX as u64)),
        Ok(i64::MAX)
    );
    assert_eq!(
        canonical_raw_mcap_nanos(RawMcapTime::new(i64::MAX as u64 + 1)),
        Err(InvalidTemporalValue)
    );
}

#[test]
fn timeline_kinds_map_one_to_one() {
    assert_eq!(
        RemoteMcapTimeType::from_time_type_kind(TimeTypeKindV1::Sequence),
        Err(UnsupportedMcapTimeType)
    );
    assert_eq!(
        RemoteMcapTimeType::DurationNs.kind(),
        TimeTypeKindV1::DurationNs
    );
    assert_eq!(
        InvalidTemporalValue.message(),
        "raw MCAP time is outside the valid temporal domain"
    );
    assert_eq!(
        UnsupportedMcapTimeType.message(),
        "remote MCAP time type must be timestamp_ns or duration_ns"
    );
}

#[test]
fn raw_times_compare_and_order_as_their_values() {
    assert_eq!(RawMcapTime::new(42), RawMcapTime::new(42));
    assert_ne!(RawMcapTime::new(42), RawMcapTime::new(43));
    assert!(RawMcapTime::new(0) < RawMcapTime::new(1));
    assert!(RawMcapTime::new(u64::MAX) > RawMcapTime::new(0x7fff_ffff_ffff_ffff));
    assert_eq!(
        RawMcapTime::new(7).cmp(&RawMcapTime::new(7)),
        std::cmp::Ordering::Equal
    );
    assert_eq!(
        RawMcapTime::new(3).partial_cmp(&RawMcapTime::new(9)),
        Some(std::cmp::Ordering::Less)
    );
}
