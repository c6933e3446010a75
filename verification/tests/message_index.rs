use re_mcap::remote_summary::ambiguous_zero::{
    classified_count, index_nonempty_zero, AmbiguousChunkClassification, AmbiguousChunkState,
};
use re_mcap::remote_summary::materialization::SummaryMaterializationError;
use re_mcap::remote_summary::message_index::{
    decode_entries_into, map_nested_error, next_envelope, preflight_region, result_retained_bytes,
    MessageIndexEntryV1, MessageIndexRegionCensus, MessageIndexRegionLimits, RecordEnvelope,
    ValidatedChannelMessageIndex,
};
use re_mcap::remote_summary::physical_regions::IndexConsistencyViolation;
use re_mcap::remote_typed_output::{RemoteTypedFieldContractV1, RemoteTypedScalarKindV1};

fn message_index_record(channel_id: u16, entries: &[(u64, u64)]) -> Vec<u8> {
    let mut body = Vec::new();
    body.extend_from_slice(&channel_id.to_le_bytes());
    body.extend_from_slice(&((entries.len() * 16) as u32).to_le_bytes());
    for (log_time, offset) in entries {
        body.extend_from_slice(&log_time.to_le_bytes());
        body.extend_from_slice(&offset.to_le_bytes());
    }
    let mut record = vec![0x07];
    record.extend_from_slice(&(body.len() as u64).to_le_bytes());
    record.extend_from_slice(&body);
    record
}

fn generous() -> MessageIndexRegionLimits {
    MessageIndexRegionLimits::for_test(16, 16, 64, 1_000_000)
}

#[test]
fn envelopes_are_bounds_checked() {
    let record = message_index_record(3, &[(1, 2)]);
    assert_eq!(
        next_envelope(&record, 0),
        Ok(RecordEnvelope {
            opcode: 0x07,
            start: 0,
            body_start: 9,
            end: record.len(),
        })
    );
    assert_eq!(
        next_envelope(&record[..8], 0),
        Err(IndexConsistencyViolation::MessageIndexRecordEnvelopeInvalid)
    );
    assert_eq!(
        next_envelope(&record[..record.len() - 1], 0),
        Err(IndexConsistencyViolation::MessageIndexRecordOutOfBounds)
    );
    assert_eq!(
        next_envelope(&record, usize::MAX - 3),
        Err(IndexConsistencyViolation::ArithmeticOverflow)
    );
}

#[test]
fn region_preflight_counts_records_and_entries_against_the_descriptor() {
    let first = message_index_record(3, &[(1, 10), (2, 20)]);
    let second = message_index_record(5, &[(4, 40)]);
    let mut region = first.clone();
    region.extend_from_slice(&second);
    let offsets = [(3_u16, 1_000_u64), (5_u16, 1_000 + first.len() as u64)];
    let census = preflight_region(&region, 1_000, &offsets, &generous()).unwrap();
    assert_eq!(census.records, 2);
    assert_eq!(census.entries, 3);
    assert_eq!(census.retained_bytes, result_retained_bytes(2, 3).unwrap());
    assert_eq!(
        census,
        MessageIndexRegionCensus {
            records: 2,
            entries: 3,
            retained_bytes: 2 * std::mem::size_of::<ValidatedChannelMessageIndex>() as u64
                + 3 * std::mem::size_of::<MessageIndexEntryV1>() as u64,
        }
    );
}

#[test]
fn region_preflight_rejects_mapping_opcode_and_limit_violations() {
    let first = message_index_record(3, &[(1, 10)]);
    let offsets = [(3_u16, 7_u64)];
    assert_eq!(
        preflight_region(&first, 8, &offsets, &generous()),
        Err(IndexConsistencyViolation::MessageIndexMappingMismatch)
    );
    let offsets = [(3_u16, 7_u64), (4_u16, 99_u64)];
    assert_eq!(
        preflight_region(&first, 7, &offsets, &generous()),
        Err(IndexConsistencyViolation::MessageIndexMappingMismatch)
    );
    let mut wrong = first.clone();
    wrong[0] = 0x05;
    assert_eq!(
        preflight_region(&wrong, 7, &offsets, &generous()),
        Err(IndexConsistencyViolation::MessageIndexRecordWrongOpcode)
    );
    let tight = MessageIndexRegionLimits::for_test(0, 16, 64, 1_000_000);
    assert_eq!(
        preflight_region(&first, 7, &offsets, &tight),
        Err(IndexConsistencyViolation::MessageIndexRecordLimitExceeded)
    );
    let few_entries = MessageIndexRegionLimits::for_test(16, 0, 64, 1_000_000);
    assert_eq!(
        preflight_region(&first, 7, &offsets, &few_entries),
        Err(IndexConsistencyViolation::MessageIndexEntryLimitExceeded)
    );
    let single = [(3_u16, 7_u64)];
    let no_bytes = MessageIndexRegionLimits::for_test(16, 16, 64, 0);
    assert_eq!(
        preflight_region(&first, 7, &single, &no_bytes),
        Err(IndexConsistencyViolation::MessageIndexResultRetainedByteLimitExceeded)
    );
    assert_eq!(
        preflight_region(&[], 7, &[], &generous()),
        Ok(MessageIndexRegionCensus {
            records: 0,
            entries: 0,
            retained_bytes: 0,
        })
    );
}

#[test]
fn nested_preflight_errors_map_to_region_violations() {
    assert_eq!(
        map_nested_error(SummaryMaterializationError::ArithmeticOverflow),
        IndexConsistencyViolation::ArithmeticOverflow
    );
    assert_eq!(
        map_nested_error(SummaryMaterializationError::MessageIndexEntryLimitExceeded),
        IndexConsistencyViolation::MessageIndexEntryLimitExceeded
    );
    assert_eq!(
        map_nested_error(SummaryMaterializationError::MessageIndexAggregateEntryLimitExceeded),
        IndexConsistencyViolation::MessageIndexAggregateEntryLimitExceeded
    );
    assert_eq!(
        map_nested_error(SummaryMaterializationError::RecordTrailingBytes),
        IndexConsistencyViolation::MessageIndexRecordBodyInvalid
    );
}

#[test]
fn ambiguous_chunk_classifications_select_the_indexed_zero_chunks() {
    let chunks = [
        AmbiguousChunkState {
            canonical_ordinal: 4,
            classification: AmbiguousChunkClassification::IndexNonEmptyZero,
        },
        AmbiguousChunkState {
            canonical_ordinal: 7,
            classification: AmbiguousChunkClassification::Unresolved,
        },
        AmbiguousChunkState {
            canonical_ordinal: 9,
            classification: AmbiguousChunkClassification::IndexNonEmptyZero,
        },
    ];
    let resolutions = index_nonempty_zero(&chunks);
    assert_eq!(resolutions.len(), 2);
    assert_eq!(resolutions[0].canonical_ordinal(), 4);
    assert_eq!(resolutions[1].canonical_ordinal(), 9);
    assert_eq!(resolutions[1].raw_time_extent(), 0..=0);
    assert_eq!(
        classified_count(&chunks, AmbiguousChunkClassification::Unresolved),
        1
    );
    assert_eq!(
        classified_count(&chunks, AmbiguousChunkClassification::PendingMessageIndex),
        0
    );
}

#[test]
fn typed_field_contracts_keep_their_name_and_kind() {
    let field = RemoteTypedFieldContractV1::new(3, RemoteTypedScalarKindV1::Float64, "x".to_owned());
    assert_eq!(field.name_v1(), "x");
    assert_eq!(field.kind_v1(), RemoteTypedScalarKindV1::Float64);
}

#[test]
fn reserved_entries_decode_exactly_or_reject_the_body() {
    let mut body = 3_u16.to_le_bytes().to_vec();
    body.extend_from_slice(&16_u32.to_le_bytes());
    body.extend_from_slice(&7_u64.to_le_bytes());
    body.extend_from_slice(&900_u64.to_le_bytes());
    let decoded = decode_entries_into(&body, 1, Vec::with_capacity(1)).unwrap();
    assert_eq!(decoded, vec![MessageIndexEntryV1 { log_time: 7, offset: 900 }]);
    assert_eq!(
        decode_entries_into(&body, 2, Vec::new()).err(),
        Some(IndexConsistencyViolation::MessageIndexRecordBodyInvalid)
    );
    assert_eq!(
        decode_entries_into(&body, 0, Vec::new()).err(),
        Some(IndexConsistencyViolation::MessageIndexRecordBodyInvalid)
    );
}
