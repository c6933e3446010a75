use re_mcap::remote_summary::ambiguous_zero::{
    prepare_ambiguous_zero_stage1, AmbiguousChunkClassification, AmbiguousZeroBudget,
    AmbiguousZeroLimits, AmbiguousZeroStage1Turn,
};
use re_mcap::remote_summary::definitions::{validate_summary_definitions, ValidatedSummaryDefinitions};
use re_mcap::remote_summary::materialization::{
    materialize_summary_records, preflight_summary_records, NestedPreflightCensus,
    SummaryMaterializationBudget, SummaryMaterializationLimits,
};
use re_mcap::remote_summary::message_index::{
    prepare_message_index_region, MessageIndexEntryV1, MessageIndexRegionBudget,
    MessageIndexRegionLimits,
};
use re_mcap::remote_summary::physical_regions::{
    validate_physical_regions, ByteRange, IndexConsistencyViolation, PhysicalRegionBudget,
    PhysicalRegionLimits, ValidatedPhysicalRegions,
};
use re_mcap::remote_summary::{
    prepare_summary_records, RemoteMcapSlice, SummaryCensusError, SummaryCensusLimits,
    ValidatedFixedLayout,
};

/// The absolute end of the Header body in every test file.
const HEADER_BODY_START: u64 = 17;

fn string(text: &str) -> Vec<u8> {
    let mut bytes = (text.len() as u32).to_le_bytes().to_vec();
    bytes.extend_from_slice(text.as_bytes());
    bytes
}

fn record(opcode: u8, body: &[u8]) -> Vec<u8> {
    let mut bytes = vec![opcode];
    bytes.extend_from_slice(&(body.len() as u64).to_le_bytes());
    bytes.extend_from_slice(body);
    bytes
}

fn header_body() -> Vec<u8> {
    let mut body = string("");
    body.extend_from_slice(&string("test"));
    body
}

fn schema(id: u16) -> Vec<u8> {
    let mut body = id.to_le_bytes().to_vec();
    body.extend_from_slice(&string("pkg/msg/Empty"));
    body.extend_from_slice(&string("ros2msg"));
    body.extend_from_slice(&string(""));
    record(0x03, &body)
}

fn channel(id: u16, schema_id: u16) -> Vec<u8> {
    let mut body = id.to_le_bytes().to_vec();
    body.extend_from_slice(&schema_id.to_le_bytes());
    body.extend_from_slice(&string("/topic"));
    body.extend_from_slice(&string("cdr"));
    body.extend_from_slice(&0_u32.to_le_bytes());
    record(0x04, &body)
}

/// A Chunk Index for the Chunk at `start` of `length` bytes, followed by `message_index_length`
/// bytes of Message Index records whose starts `offsets` lists.
fn chunk_index(
    times: (u64, u64),
    start: u64,
    length: u64,
    offsets: &[(u16, u64)],
    message_index_length: u64,
) -> Vec<u8> {
    let mut body = times.0.to_le_bytes().to_vec();
    body.extend_from_slice(&times.1.to_le_bytes());
    body.extend_from_slice(&start.to_le_bytes());
    body.extend_from_slice(&length.to_le_bytes());
    body.extend_from_slice(&((offsets.len() * 10) as u32).to_le_bytes());
    for (channel_id, offset) in offsets {
        body.extend_from_slice(&channel_id.to_le_bytes());
        body.extend_from_slice(&offset.to_le_bytes());
    }
    body.extend_from_slice(&message_index_length.to_le_bytes());
    body.extend_from_slice(&string(""));
    body.extend_from_slice(&100_u64.to_le_bytes());
    body.extend_from_slice(&200_u64.to_le_bytes());
    record(0x08, &body)
}

fn census_limits() -> SummaryCensusLimits {
    SummaryCensusLimits {
        max_header_body_bytes: 1 << 20,
        max_summary_bytes: 1 << 20,
        max_summary_records: 64,
        max_schema_records: 16,
        max_channel_records: 16,
        max_chunk_index_records: 16,
    }
}

fn materialization_budget() -> SummaryMaterializationBudget {
    let big = 1 << 40;
    SummaryMaterializationBudget::for_test(
        1,
        SummaryMaterializationLimits::for_test(16, 1 << 16, 1 << 16, 1 << 30, 64, 64),
        4,
        NestedPreflightCensus {
            main_summary_records: big,
            owned_string_count: big,
            owned_string_bytes: big,
            schema_data_bytes: big,
            channel_metadata_entries: big,
            fixed_map_entries: big,
            nested_encoded_bytes: big,
            nested_retained_bytes: big,
        },
    )
}

/// The validated definitions of a file whose Header body is `header`, whose data section ends at
/// `data_end`, and whose Summary is `summary`.
fn definitions<'a>(
    header: &'a [u8],
    summary: &'a [u8],
    data_end: u64,
) -> ValidatedSummaryDefinitions<'a> {
    let header_end = HEADER_BODY_START + header.len() as u64;
    let layout = ValidatedFixedLayout {
        header_body_start: HEADER_BODY_START,
        header_body_end: header_end,
        summary_start: data_end + 13,
        summary_offset_start: None,
        summary,
    };
    let prepared = prepare_summary_records(
        layout,
        RemoteMcapSlice::new(HEADER_BODY_START, header),
        &census_limits(),
    )
    .unwrap();
    let mut budget = materialization_budget();
    let token = preflight_summary_records(prepared, &mut budget).unwrap();
    let materialized = materialize_summary_records(token).unwrap();
    validate_summary_definitions(materialized).unwrap()
}

fn limits() -> PhysicalRegionLimits {
    PhysicalRegionLimits::for_test(8, 1 << 20, 1 << 20, 16, 1 << 20, 1 << 20, 1 << 20)
}

fn budget() -> PhysicalRegionBudget {
    PhysicalRegionBudget::for_test(limits(), 4, 64, 1 << 20)
}

fn summary(chunk_indexes: &[Vec<u8>]) -> Vec<u8> {
    let mut bytes = schema(1);
    bytes.extend_from_slice(&channel(1, 1));
    bytes.extend_from_slice(&channel(2, 1));
    for chunk_index in chunk_indexes {
        bytes.extend_from_slice(chunk_index);
    }
    bytes
}

fn validate<'a>(
    header: &'a [u8],
    summary: &'a [u8],
    data_end: u64,
    budget: &mut PhysicalRegionBudget,
) -> Result<ValidatedPhysicalRegions<'a>, IndexConsistencyViolation> {
    validate_physical_regions(definitions(header, summary, data_end), budget)
}

#[test]
fn canonical_regions_come_out_ordered_by_start_with_their_ranges() {
    let header = header_body();
    let data_start = HEADER_BODY_START + header.len() as u64;
    let later = chunk_index((5, 9), data_start + 100, 40, &[(1, data_start + 140)], 30);
    let earlier = chunk_index((1, 4), data_start, 50, &[(2, data_start + 50)], 20);
    let bytes = summary(&[later, earlier]);
    let mut budget = budget();
    let physical = validate(&header, &bytes, data_start + 1_000, &mut budget).unwrap();
    assert_eq!(physical.canonical_chunk_count(), 2);
    assert_eq!(
        physical.data_records_range(),
        ByteRange { start: data_start, end: data_start + 1_000 }
    );
    let first = physical.region(0).unwrap();
    assert_eq!(first.chunk_range(), ByteRange { start: data_start, end: data_start + 50 });
    assert_eq!(
        first.message_index_region(),
        ByteRange { start: data_start + 50, end: data_start + 70 }
    );
    assert_eq!(first.unit_range(), ByteRange { start: data_start, end: data_start + 70 });
    assert_eq!(first.raw_descriptor().message_start_time, 1);
    let second = physical.region(1).unwrap();
    assert_eq!(second.unit_range(), ByteRange { start: data_start + 100, end: data_start + 170 });
    assert!(physical.region(2).is_none());
    assert_eq!(physical.regions().len(), 2);
    let (active, chunks, bytes_reserved) = budget.usage_for_test();
    assert_eq!((active, chunks), (1, 2));
    assert!(bytes_reserved > 0);
    assert!(physical.retained_bytes_v1().unwrap() >= bytes_reserved);
}

#[test]
fn exact_duplicate_descriptors_count_once_and_conflicting_ones_are_refused() {
    let header = header_body();
    let data_start = HEADER_BODY_START + header.len() as u64;
    let descriptor = chunk_index((1, 2), data_start, 20, &[], 0);
    let bytes = summary(&[descriptor.clone(), descriptor]);
    let mut budget = budget();
    let physical = validate(&header, &bytes, data_start + 100, &mut budget).unwrap();
    assert_eq!(physical.canonical_chunk_count(), 1);

    let conflicting = summary(&[
        chunk_index((1, 2), data_start, 20, &[], 0),
        chunk_index((1, 3), data_start, 20, &[], 0),
    ]);
    let mut budget = self::budget();
    assert!(matches!(
        validate(&header, &conflicting, data_start + 100, &mut budget),
        Err(IndexConsistencyViolation::ConflictingChunkIndex)
    ));
    assert_eq!(budget.usage_for_test(), (0, 0, 0));
}

#[test]
fn overlapping_units_are_refused_and_the_reservation_returns() {
    let header = header_body();
    let data_start = HEADER_BODY_START + header.len() as u64;
    let bytes = summary(&[
        chunk_index((1, 2), data_start, 30, &[], 0),
        chunk_index((1, 2), data_start + 20, 30, &[], 0),
    ]);
    let mut budget = budget();
    assert!(matches!(
        validate(&header, &bytes, data_start + 100, &mut budget),
        Err(IndexConsistencyViolation::PhysicalRegionOverlap)
    ));
    assert_eq!(budget.usage_for_test(), (0, 0, 0));

    let touching = summary(&[
        chunk_index((1, 2), data_start + 30, 30, &[], 0),
        chunk_index((1, 2), data_start, 30, &[], 0),
    ]);
    assert!(validate(&header, &touching, data_start + 100, &mut budget).is_ok());
}

#[test]
fn descriptor_shape_violations_have_their_own_errors() {
    let header = header_body();
    let data_start = HEADER_BODY_START + header.len() as u64;
    let cases = [
        (chunk_index((1, 2), data_start, 8, &[], 0), IndexConsistencyViolation::ChunkRecordTooShort),
        (
            chunk_index((1, 2), data_start, 90, &[], 20),
            IndexConsistencyViolation::PhysicalRegionOutsideDataSection,
        ),
        (
            chunk_index((1, 2), data_start, 20, &[], 10),
            IndexConsistencyViolation::MessageIndexPresenceMismatch,
        ),
        (
            chunk_index((1, 2), data_start, 20, &[(1, data_start + 10)], 10),
            IndexConsistencyViolation::MessageIndexOffsetOutsideOwningRegion,
        ),
        (
            chunk_index((1, 2), data_start, 20, &[(1, data_start + 20), (2, data_start + 20)], 10),
            IndexConsistencyViolation::DuplicateMessageIndexOffset,
        ),
        (
            chunk_index((1, 2), u64::MAX - 5, 20, &[], 0),
            IndexConsistencyViolation::ArithmeticOverflow,
        ),
    ];
    for (descriptor, expected) in cases {
        let bytes = summary(&[descriptor]);
        let mut budget = budget();
        assert!(
            matches!(validate(&header, &bytes, data_start + 100, &mut budget), Err(e) if e == expected),
            "{expected:?}"
        );
        assert_eq!(budget.usage_for_test(), (0, 0, 0));
    }
}

#[test]
fn data_section_and_limits_are_checked_before_reserving() {
    let header = header_body();
    let data_start = HEADER_BODY_START + header.len() as u64;
    let bytes = summary(&[chunk_index((1, 2), data_start, 20, &[], 0)]);
    let mut budget = budget();
    assert!(matches!(
        validate(&header, &bytes, data_start - 1, &mut budget),
        Err(IndexConsistencyViolation::InvalidDataSectionEvidence)
    ));

    let two = summary(&[
        chunk_index((1, 2), data_start, 20, &[], 0),
        chunk_index((1, 2), data_start + 20, 20, &[], 0),
    ]);
    let one_chunk = PhysicalRegionLimits::for_test(1, 1 << 20, 1 << 20, 16, 1 << 20, 1 << 20, 1 << 20);
    let mut budget = PhysicalRegionBudget::for_test(one_chunk, 4, 64, 1 << 20);
    assert!(matches!(
        validate(&header, &two, data_start + 100, &mut budget),
        Err(IndexConsistencyViolation::CanonicalChunkLimitExceeded)
    ));

    let no_bytes = PhysicalRegionLimits::for_test(8, 1 << 20, 1 << 20, 16, 1 << 20, 1 << 20, 0);
    let mut budget = PhysicalRegionBudget::for_test(no_bytes, 4, 64, 1 << 20);
    assert!(matches!(
        validate(&header, &two, data_start + 100, &mut budget),
        Err(IndexConsistencyViolation::DescriptorRetainedByteLimitExceeded)
    ));

    let mut budget = PhysicalRegionBudget::for_test(limits(), 4, 1, 1 << 20);
    assert!(matches!(
        validate(&header, &two, data_start + 100, &mut budget),
        Err(IndexConsistencyViolation::DescriptorReservationLimitExceeded)
    ));
    assert_eq!(budget.usage_for_test(), (0, 0, 0));
}

fn message_index_record(channel_id: u16, entries: &[(u64, u64)]) -> Vec<u8> {
    let mut body = channel_id.to_le_bytes().to_vec();
    body.extend_from_slice(&((entries.len() * 16) as u32).to_le_bytes());
    for (log_time, offset) in entries {
        body.extend_from_slice(&log_time.to_le_bytes());
        body.extend_from_slice(&offset.to_le_bytes());
    }
    record(0x07, &body)
}

fn region_budget() -> MessageIndexRegionBudget {
    MessageIndexRegionBudget::for_test(
        MessageIndexRegionLimits::for_test(16, 16, 64, 1 << 20),
        4,
        1 << 20,
        4,
        64,
        256,
        1 << 20,
    )
}

#[test]
fn a_message_index_region_parses_through_its_claims_and_gives_them_back() {
    let header = header_body();
    let data_start = HEADER_BODY_START + header.len() as u64;
    let first = message_index_record(1, &[(10, 1), (11, 2)]);
    let second = message_index_record(2, &[(12, 3)]);
    let region_start = data_start + 20;
    let mut region = first.clone();
    region.extend_from_slice(&second);
    let offsets = [(1, region_start), (2, region_start + first.len() as u64)];
    let bytes = summary(&[chunk_index((10, 12), data_start, 20, &offsets, region.len() as u64)]);
    let mut physical_budget = budget();
    let physical = validate(&header, &bytes, data_start + 200, &mut physical_budget).unwrap();

    let mut budget = region_budget();
    let prepared = prepare_message_index_region(physical, 0, &mut budget).unwrap();
    assert_eq!(
        prepared.expected_range(),
        ByteRange { start: region_start, end: region_start + region.len() as u64 }
    );
    assert_eq!(budget.usage_for_test(), (1, region.len() as u64, 0, 0, 0, 0));
    let parse = prepared.install_raw(region_start, region.clone(), &mut budget).unwrap();
    let parsed = parse.execute(&mut budget).unwrap();
    let channels = parsed.channels();
    assert_eq!(channels.len(), 2);
    assert_eq!(channels[0].channel_id(), 1);
    assert_eq!(channels[0].absolute_record_start(), region_start);
    assert_eq!(
        channels[0].entries(),
        &[MessageIndexEntryV1 { log_time: 10, offset: 1 }, MessageIndexEntryV1 { log_time: 11, offset: 2 }]
    );
    assert_eq!(channels[1].channel_id(), 2);
    assert_eq!(channels[1].entries().len(), 1);
    let usage = budget.usage_for_test();
    assert_eq!((usage.0, usage.1, usage.2, usage.3, usage.4), (0, 0, 1, 2, 3));
    let physical = parsed.into_physical(&mut budget);
    assert_eq!(budget.usage_for_test(), (0, 0, 0, 0, 0, 0));
    assert!(matches!(
        prepare_message_index_region(physical, 1, &mut budget),
        Err(IndexConsistencyViolation::UnknownCanonicalRegion)
    ));
}

#[test]
fn a_region_read_at_the_wrong_place_is_refused_and_its_claim_returns() {
    let header = header_body();
    let data_start = HEADER_BODY_START + header.len() as u64;
    let record = message_index_record(1, &[(10, 1)]);
    let region_start = data_start + 20;
    let bytes = summary(&[chunk_index((10, 10), data_start, 20, &[(1, region_start)], record.len() as u64)]);
    let mut physical_budget = budget();
    let physical = validate(&header, &bytes, data_start + 200, &mut physical_budget).unwrap();
    let mut budget = region_budget();
    let prepared = prepare_message_index_region(physical, 0, &mut budget).unwrap();
    assert!(matches!(
        prepared.install_raw(region_start + 1, record.clone(), &mut budget),
        Err(IndexConsistencyViolation::MessageIndexRawInputMismatch)
    ));
    assert_eq!(budget.usage_for_test(), (0, 0, 0, 0, 0, 0));
}

#[test]
fn the_ambiguous_zero_flow_classifies_each_zero_time_chunk() {
    let header = header_body();
    let data_start = HEADER_BODY_START + header.len() as u64;
    let indexed = message_index_record(1, &[(0, 5)]);
    let indexed_start = data_start + 20;
    let bytes = summary(&[
        chunk_index((0, 0), data_start, 20, &[(1, indexed_start)], indexed.len() as u64),
        chunk_index((0, 0), data_start + 100, 20, &[], 0),
        chunk_index((3, 4), data_start + 200, 20, &[], 0),
    ]);
    let mut physical_budget = budget();
    let physical = validate(&header, &bytes, data_start + 400, &mut physical_budget).unwrap();

    let limits = AmbiguousZeroLimits::for_test([4, 1 << 20, 1 << 20, 4, 1 << 20], [4, 1 << 20, 1 << 20, 1 << 20, 4, 1 << 20, 1 << 20]);
    let mut budget = AmbiguousZeroBudget::for_test(limits, 2, 2, 2);
    let mut region_budget = region_budget();
    let stage1 = prepare_ambiguous_zero_stage1(physical, &mut budget).unwrap();
    assert_eq!(stage1.state().chunks().len(), 2);
    assert_eq!(
        stage1.state().chunks()[0].classification,
        AmbiguousChunkClassification::PendingMessageIndex
    );
    assert_eq!(stage1.state().chunks()[1].classification, AmbiguousChunkClassification::Unresolved);

    let prepared = match stage1.next(&mut region_budget, &mut budget).unwrap() {
        AmbiguousZeroStage1Turn::MessageIndex(prepared) => prepared,
        AmbiguousZeroStage1Turn::BodyPlan(_) => panic!("the indexed Chunk is still pending"),
    };
    assert_eq!(
        prepared.expected_range(),
        ByteRange { start: indexed_start, end: indexed_start + indexed.len() as u64 }
    );
    let parse = prepared
        .install_raw(indexed_start, indexed.clone(), &mut region_budget, &mut budget)
        .unwrap();
    let stage1 = parse.execute(&mut region_budget, &mut budget).unwrap();
    assert_eq!(region_budget.usage_for_test(), (0, 0, 0, 0, 0, 0));
    assert_eq!(stage1.state().observed_entries(), 1);
    assert_eq!(stage1.state().next_chunk(), 1);

    let plan = match stage1.next(&mut region_budget, &mut budget).unwrap() {
        AmbiguousZeroStage1Turn::BodyPlan(plan) => plan,
        AmbiguousZeroStage1Turn::MessageIndex(_) => panic!("no Chunk is pending any more"),
    };
    assert_eq!(plan.index_nonempty_zero_count(), 1);
    assert_eq!(plan.unresolved_count(), 1);
    assert_eq!(plan.index_nonempty_zero_ordinals(), vec![0]);
    let resolutions = plan.index_nonempty_zero();
    assert_eq!(resolutions[0].raw_time_extent(), 0..=0);
    let unresolved = plan.unresolved_chunks();
    assert_eq!(unresolved.len(), 1);
    assert_eq!(unresolved[0].canonical_ordinal(), 1);
    assert_eq!(
        unresolved[0].chunk_range(),
        ByteRange { start: data_start + 100, end: data_start + 120 }
    );
    assert_eq!(unresolved[0].compression(), "");
    assert_eq!(unresolved[0].compressed_size(), 100);
    assert_eq!(unresolved[0].uncompressed_size(), 200);
    let (stage1_census, stage2_census) = plan.reservation_census_for_test();
    assert_eq!(stage1_census[0], 2);
    assert_eq!(stage1_census[1], indexed.len() as u64);
    assert_eq!(stage1_census[3], 1);
    assert_eq!(stage2_census, [1, 20, 100, 200, 1, 200, 23]);
    assert!(plan.retained_resolution_evidence_bytes_v1().is_ok());
    let seed = plan.into_resolution_seed();
    assert_eq!(seed.ambiguous_chunks.len(), 2);
}

#[test]
fn a_nonzero_index_time_fails_the_ambiguous_flow_and_returns_its_reservation() {
    let header = header_body();
    let data_start = HEADER_BODY_START + header.len() as u64;
    let indexed = message_index_record(1, &[(7, 5)]);
    let indexed_start = data_start + 20;
    let bytes = summary(&[chunk_index((0, 0), data_start, 20, &[(1, indexed_start)], indexed.len() as u64)]);
    let mut physical_budget = budget();
    let physical = validate(&header, &bytes, data_start + 400, &mut physical_budget).unwrap();
    let limits = AmbiguousZeroLimits::for_test([4, 1 << 20, 1 << 20, 4, 1 << 20], [4, 1 << 20, 1 << 20, 1 << 20, 4, 1 << 20, 1 << 20]);
    let mut budget = AmbiguousZeroBudget::for_test(limits, 2, 2, 2);
    let before = budget.usage_for_test();
    let mut region_budget = region_budget();
    let stage1 = prepare_ambiguous_zero_stage1(physical, &mut budget).unwrap();
    let prepared = match stage1.next(&mut region_budget, &mut budget).unwrap() {
        AmbiguousZeroStage1Turn::MessageIndex(prepared) => prepared,
        AmbiguousZeroStage1Turn::BodyPlan(_) => panic!("the indexed Chunk is still pending"),
    };
    let parse = prepared
        .install_raw(indexed_start, indexed.clone(), &mut region_budget, &mut budget)
        .unwrap();
    assert!(matches!(
        parse.execute(&mut region_budget, &mut budget),
        Err(IndexConsistencyViolation::AmbiguousZeroIndexTimeMismatch)
    ));
    assert_eq!(budget.usage_for_test(), before);
    assert_eq!(region_budget.usage_for_test(), (0, 0, 0, 0, 0, 0));
}

#[test]
fn record_limits_accept_exact_counts_and_reject_one_less() {
    let header = header_body();
    let data_start = HEADER_BODY_START + header.len() as u64;
    let first = chunk_index((1, 4), data_start, 50, &[(1, data_start + 50)], 20);
    let second = chunk_index((5, 9), data_start + 100, 40, &[(2, data_start + 140)], 30);
    let mut bytes = schema(1);
    bytes.extend_from_slice(&schema(2));
    bytes.extend_from_slice(&channel(1, 1));
    bytes.extend_from_slice(&channel(2, 2));
    bytes.extend_from_slice(&first);
    bytes.extend_from_slice(&second);
    let layout = || ValidatedFixedLayout {
        header_body_start: HEADER_BODY_START,
        header_body_end: data_start,
        summary_start: data_start + 1_000 + 13,
        summary_offset_start: None,
        summary: &bytes,
    };
    let exact = SummaryCensusLimits {
        max_header_body_bytes: header.len() as u64,
        max_summary_bytes: bytes.len() as u64,
        max_summary_records: 6,
        max_schema_records: 2,
        max_channel_records: 2,
        max_chunk_index_records: 2,
    };
    let prepare = |limits: &SummaryCensusLimits| {
        prepare_summary_records(layout(), RemoteMcapSlice::new(HEADER_BODY_START, &header), limits)
            .map(|prepared| prepared.census())
    };
    let census = prepare(&exact).unwrap();
    assert_eq!(census.summary_records, 6);
    assert_eq!(census.schema_records, 2);
    assert_eq!(census.channel_records, 2);
    assert_eq!(census.chunk_index_records, 2);

    let lowered = [
        (SummaryCensusLimits { max_summary_records: 5, ..exact }, SummaryCensusError::SummaryRecordLimitExceeded),
        (SummaryCensusLimits { max_schema_records: 1, ..exact }, SummaryCensusError::SchemaRecordLimitExceeded),
        (SummaryCensusLimits { max_channel_records: 1, ..exact }, SummaryCensusError::ChannelRecordLimitExceeded),
        (
            SummaryCensusLimits { max_chunk_index_records: 1, ..exact },
            SummaryCensusError::ChunkIndexRecordLimitExceeded,
        ),
        (SummaryCensusLimits { max_header_body_bytes: 0, ..exact }, SummaryCensusError::HeaderBytesLimitExceeded),
        (
            SummaryCensusLimits { max_summary_bytes: bytes.len() as u64 - 1, ..exact },
            SummaryCensusError::SummaryBytesLimitExceeded,
        ),
    ];
    for (limits, expected) in lowered {
        assert_eq!(prepare(&limits).err(), Some(expected));
    }
}
