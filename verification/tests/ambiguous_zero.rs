use re_mcap::remote_summary::ambiguous_zero::{
    add_stage1, add_stage2, check_stage1_limits, check_stage2_limits, checked_mul, div_ceil,
    range_len, stage1_values, stage2_values, sub_stage1, AmbiguousZeroBudget,
    AmbiguousZeroLimits, AmbiguousZeroStage1Census, AmbiguousZeroStage2Census,
    MIN_RECORD_ENVELOPE_BYTES,
};
use re_mcap::remote_summary::physical_regions::{ByteRange, IndexConsistencyViolation};

#[test]
fn aggregate_arithmetic_is_checked_before_any_reservation() {
    let stage1 = AmbiguousZeroStage1Census {
        message_index_bytes: u64::MAX,
        ..Default::default()
    };
    assert_eq!(
        add_stage1(
            stage1,
            AmbiguousZeroStage1Census {
                message_index_bytes: 1,
                ..Default::default()
            },
        )
        .unwrap_err(),
        IndexConsistencyViolation::ArithmeticOverflow
    );

    let stage2 = AmbiguousZeroStage2Census {
        compressed_bytes: u64::MAX,
        ..Default::default()
    };
    assert_eq!(
        add_stage2(
            stage2,
            AmbiguousZeroStage2Census {
                compressed_bytes: 1,
                ..Default::default()
            },
        )
        .unwrap_err(),
        IndexConsistencyViolation::ArithmeticOverflow
    );
    assert_eq!(
        checked_mul(u64::MAX, 2).unwrap_err(),
        IndexConsistencyViolation::ArithmeticOverflow
    );
    assert_eq!(
        div_ceil(u64::MAX, MIN_RECORD_ENVELOPE_BYTES).unwrap(),
        u64::MAX / MIN_RECORD_ENVELOPE_BYTES + 1
    );
}

fn census1(values: [u64; 5]) -> AmbiguousZeroStage1Census {
    AmbiguousZeroStage1Census {
        ambiguous_chunks: values[0],
        message_index_bytes: values[1],
        message_index_entries_upper: values[2],
        message_index_range_requests: values[3],
        classification_retained_bytes: values[4],
    }
}

fn census2(values: [u64; 7]) -> AmbiguousZeroStage2Census {
    AmbiguousZeroStage2Census {
        unresolved_chunks: values[0],
        chunk_range_bytes: values[1],
        compressed_bytes: values[2],
        uncompressed_bytes: values[3],
        chunk_range_requests: values[4],
        scan_bytes: values[5],
        scan_records_upper: values[6],
    }
}

#[test]
fn div_ceil_rounds_up_exactly() {
    assert_eq!(div_ceil(0, 9), Ok(0));
    assert_eq!(div_ceil(1, 9), Ok(1));
    assert_eq!(div_ceil(9, 9), Ok(1));
    assert_eq!(div_ceil(10, 9), Ok(2));
    assert_eq!(div_ceil(18, 9), Ok(2));
}

#[test]
fn range_len_rejects_inverted_ranges() {
    assert_eq!(range_len(ByteRange { start: 3, end: 10 }), Ok(7));
    assert_eq!(
        range_len(ByteRange { start: 10, end: 3 }),
        Err(IndexConsistencyViolation::ArithmeticOverflow)
    );
}

#[test]
fn sum_then_difference_restores_the_census() {
    let left = census1([1, 2, 3, 4, 5]);
    let right = census1([10, 20, 30, 40, 50]);
    let sum = add_stage1(left, right).unwrap();
    assert_eq!(stage1_values(sum), [11, 22, 33, 44, 55]);
    assert_eq!(sub_stage1(sum, right), left);
}

#[test]
fn stage_limits_report_the_first_exceeded_dimension() {
    let limits = AmbiguousZeroLimits::for_test([1, 2, 3, 4, 5], [1, 2, 3, 4, 5, 6, 7]);
    assert_eq!(check_stage1_limits(census1([1, 2, 3, 4, 5]), &limits), Ok(()));
    assert_eq!(
        check_stage1_limits(census1([2, 3, 3, 4, 5]), &limits),
        Err(IndexConsistencyViolation::AmbiguousZeroChunkLimitExceeded)
    );
    assert_eq!(
        check_stage1_limits(census1([1, 2, 3, 4, 6]), &limits),
        Err(IndexConsistencyViolation::AmbiguousZeroRetainedByteLimitExceeded)
    );
    assert_eq!(check_stage2_limits(census2([1, 2, 3, 4, 5, 6, 7]), &limits), Ok(()));
    assert_eq!(
        check_stage2_limits(census2([1, 2, 3, 4, 5, 7, 8]), &limits),
        Err(IndexConsistencyViolation::AmbiguousZeroScanByteLimitExceeded)
    );
    assert_eq!(stage2_values(census2([1, 2, 3, 4, 5, 6, 7])), [1, 2, 3, 4, 5, 6, 7]);
}

#[test]
fn reservations_are_all_or_nothing_and_release_restores_usage() {
    let limits = AmbiguousZeroLimits::for_test([2, 100, 100, 2, 100], [2, 100, 100, 100, 2, 100, 100]);
    let mut budget = AmbiguousZeroBudget::for_test(limits, 2, 1, 2);
    let before = budget.usage_for_test();
    let first = budget.try_reserve_stage1(census1([2, 100, 50, 2, 10])).unwrap();
    let after_first = budget.usage_for_test();
    assert_eq!(after_first[0], 1);
    assert_eq!(after_first[1], 2);
    let second = budget.try_reserve_stage1(census1([2, 100, 50, 2, 10])).unwrap();
    assert_eq!(
        budget.try_reserve_stage1(census1([1, 1, 1, 1, 1])).unwrap_err(),
        IndexConsistencyViolation::AmbiguousZeroStage1ReservationLimitExceeded
    );
    let full = budget.usage_for_test();
    budget.release_stage1(second);
    assert_eq!(budget.usage_for_test(), after_first);
    budget.release_stage1(first);
    assert_eq!(budget.usage_for_test(), before);

    let stage2 = budget.try_reserve_stage2(census2([1, 1, 1, 1, 1, 1, 1])).unwrap();
    assert_eq!(
        budget.try_reserve_stage2(census2([0, 0, 0, 0, 0, 0, 0])).unwrap_err(),
        IndexConsistencyViolation::AmbiguousZeroStage2ReservationLimitExceeded
    );
    budget.release_stage2(stage2);
    assert_eq!(budget.usage_for_test(), before);
    assert_eq!(full[0], 2);
}
