use re_mcap::remote_ros2_reflection::admission::{
    begin_remote_ros2_admission_v1, preflight_remote_decoder_topic_signatures_v1,
    RemoteDefinitionsCapability, RemoteDefinitionsSourceState,
};
use re_mcap::remote_ros2_reflection::arenas::{
    PreparedRemoteRos2CensusV1, Ros2InitializedRemoteDefinitionsV1,
};
use re_mcap::remote_ros2_reflection::budget::{
    RemoteRos2BudgetCapacity, RemoteRos2BudgetState, RemoteRos2BudgetUsage,
};
use re_mcap::remote_ros2_reflection::policy::{
    freeze_remote_decoder_policy_v1, RemoteDecoderPolicyWireV1,
};
use re_mcap::remote_ros2_reflection::steps::{
    RemoteRos2InitializationError, RemoteRos2ResourceLimit, UnsupportedForRemote,
};
use re_mcap::remote_ros2_reflection::transition::text_for_record_span;
use re_mcap::remote_ros2_reflection::types::UnfrozenRemoteRos2LimitsV1;
use re_mcap::remote_ros2_reflection::walk::{
    materialize_remote_ros2_definitions_v1, prepare_remote_ros2_census_v1,
};
use re_mcap::remote_summary::definitions::{validate_summary_definitions, ValidatedSummaryDefinitions};
use re_mcap::remote_summary::materialization::{
    materialize_summary_records, preflight_summary_records, NestedPreflightCensus,
    SummaryMaterializationBudget, SummaryMaterializationLimits,
};
use re_mcap::remote_summary::{
    prepare_summary_records, RemoteMcapSlice, SummaryCensusLimits, ValidatedFixedLayout,
};

const BODY_START: u64 = 17;

const ADMISSION_IDENTITIES: [&str; 4] = [
    "semantic_ros2:v1-empty",
    "ros2_reflection:v1",
    "protobuf:v1",
    "raw:v1",
];

fn admission_wire() -> RemoteDecoderPolicyWireV1<'static> {
    RemoteDecoderPolicyWireV1 {
        identity: 1,
        allowlist_version: 1,
        assignment_version: 1,
        grammar_version: 1,
        decoder_identities: &ADMISSION_IDENTITIES,
        fallback_identity: "raw:v1",
    }
}

fn admission_limits() -> UnfrozenRemoteRos2LimitsV1 {
    UnfrozenRemoteRos2LimitsV1 {
        max_schemas: 32,
        max_definition_bytes: 1_000_000,
        max_specifications: 256,
        max_fields: 4_096,
        max_constants: 4_096,
        max_members: 8_192,
        max_line_bytes: 16_384,
        max_token_bytes: 1_024,
        max_identifier_bytes: 1_024,
        max_default_bytes: 16_384,
        max_string_literal_bytes: 16_384,
        max_string_bound: 1_000_000,
        max_array_bound: 1_000_000,
        max_dependency_edges: 4_096,
        max_dependency_depth: 32,
        max_signature_steps: 1_000_000,
        max_projection_steps: 1_000_000,
        max_recognition_steps: 1_000_000,
        max_census_steps: 1_000_000,
        max_materialization_steps: 1_000_000,
        max_retained_bytes: 16_000_000,
        max_working_bytes: 16_000_000,
    }
}

fn admission_budget(state: &RemoteDefinitionsSourceState) -> RemoteRos2BudgetState {
    RemoteRos2BudgetState {
        limits: admission_limits(),
        capacity: RemoteRos2BudgetCapacity {
            max_active_initializers: 8,
            max_working_bytes: 64_000_000,
            max_retained_results: 8,
            max_retained_bytes: 64_000_000,
        },
        usage: RemoteRos2BudgetUsage::default(),
        poisoned: false,
        generation: state.generation,
        source_identity: state.identity,
        viewer_scope_identity: state.viewer_scope,
        policy_wire_identity: admission_wire().identity,
    }
}

fn encoded_string(text: &str) -> Vec<u8> {
    let mut bytes = (text.len() as u32).to_le_bytes().to_vec();
    bytes.extend_from_slice(text.as_bytes());
    bytes
}

fn encoded_record(opcode: u8, body: &[u8]) -> Vec<u8> {
    let mut bytes = vec![opcode];
    bytes.extend_from_slice(&(body.len() as u64).to_le_bytes());
    bytes.extend_from_slice(body);
    bytes
}

fn admission_header() -> Vec<u8> {
    let mut body = encoded_string("");
    body.extend_from_slice(&encoded_string("test"));
    body
}

/// A Summary with one Schema record and one Channel record that uses it.
fn admission_summary(schema_name: &str, encoding: &str, data: &[u8], message_encoding: &str) -> Vec<u8> {
    let mut schema = 7_u16.to_le_bytes().to_vec();
    schema.extend_from_slice(&encoded_string(schema_name));
    schema.extend_from_slice(&encoded_string(encoding));
    schema.extend_from_slice(&(data.len() as u32).to_le_bytes());
    schema.extend_from_slice(data);
    let mut channel = 1_u16.to_le_bytes().to_vec();
    channel.extend_from_slice(&7_u16.to_le_bytes());
    channel.extend_from_slice(&encoded_string("/root"));
    channel.extend_from_slice(&encoded_string(message_encoding));
    channel.extend_from_slice(&0_u32.to_le_bytes());
    let mut bytes = encoded_record(0x03, &schema);
    bytes.extend_from_slice(&encoded_record(0x04, &channel));
    bytes
}

fn admission_definitions<'a>(header: &'a [u8], summary: &'a [u8]) -> ValidatedSummaryDefinitions<'a> {
    let header_end = BODY_START + header.len() as u64;
    let layout = ValidatedFixedLayout {
        header_body_start: BODY_START,
        header_body_end: header_end,
        summary_start: header_end + 100,
        summary_offset_start: None,
        summary,
    };
    let limits = SummaryCensusLimits {
        max_header_body_bytes: 1 << 20,
        max_summary_bytes: 1 << 20,
        max_summary_records: 64,
        max_schema_records: 16,
        max_channel_records: 16,
        max_chunk_index_records: 16,
    };
    let prepared =
        prepare_summary_records(layout, RemoteMcapSlice::new(BODY_START, header), &limits).unwrap();
    let big = 1 << 40;
    let mut budget = SummaryMaterializationBudget::for_test(
        1,
        SummaryMaterializationLimits::for_test(16, 1 << 16, 1 << 16, 1 << 30, 64, 64),
        4,
        NestedPreflightCensus {
            main_summary_records: big,
            owned_string_count: big,
            owned_string_bytes: big,
            schema_data_bytes: big,
            channel_metadata_entries: big,
            fixed_map_entries: big,
            nested_encoded_bytes: big,
            nested_retained_bytes: big,
        },
    );
    let token = preflight_summary_records(prepared, &mut budget).unwrap();
    validate_summary_definitions(materialize_summary_records(token).unwrap()).unwrap()
}

fn admission_prepare<'definitions, 'input, 'source, 'wire>(
    definitions: &'definitions ValidatedSummaryDefinitions<'input>,
    state: &'source RemoteDefinitionsSourceState,
    wire: &'wire RemoteDecoderPolicyWireV1<'wire>,
    budget: &mut RemoteRos2BudgetState,
) -> Result<PreparedRemoteRos2CensusV1<'definitions, 'input, 'source, 'wire>, RemoteRos2InitializationError>
{
    let policy = freeze_remote_decoder_policy_v1(wire).expect("test policy is canonical");
    let owner = begin_remote_ros2_admission_v1(
        RemoteDefinitionsCapability { definitions, source: state, generation: 1 },
        policy,
        budget,
    )?;
    let evidence = preflight_remote_decoder_topic_signatures_v1(owner)?;
    prepare_remote_ros2_census_v1(evidence, budget)
}

#[test]
fn allocation_free_census_validates_full_schema_and_reserves_exact_peak() {
    let header = admission_header();
    let summary = admission_summary(
        "pkg/Root",
        "ros2msg",
        b"int32 count 2\nChild child\n=====\nMSG: pkg/Child\nstring<=8 label \"ok\"\n",
        "not-cdr-but-still-observed",
    );
    let definitions = admission_definitions(&header, &summary);
    let state = RemoteDefinitionsSourceState { generation: 1, identity: 1, viewer_scope: 1 };
    let wire = admission_wire();
    let mut budget = admission_budget(&state);
    let prepared = admission_prepare(&definitions, &state, &wire, &mut budget)
        .expect("the strict admitted schema completes its census");
    assert_eq!(prepared.census.schemas, 1);
    assert_eq!(prepared.census.specifications, 2);
    assert_eq!(prepared.census.fields, 3); // count, child, label
    assert_eq!(prepared.census.dependency_edges, 1);
    assert!(prepared.census.census_steps > 0);
    assert!(prepared.census.materialization_steps > 0);
    assert_eq!(
        budget.usage,
        RemoteRos2BudgetUsage {
            active_initializers: 1,
            working_bytes: prepared.census.working_bytes,
            retained_results: 1,
            retained_bytes: prepared.census.retained_bytes,
        }
    );
    budget.release_work(prepared.reservation);
    assert_eq!(budget.usage, RemoteRos2BudgetUsage::default());
}

#[test]
fn stale_source_fails_without_budget_ownership() {
    let header = admission_header();
    let summary = admission_summary("pkg/Root", "ros2msg", b"int32 value", "cdr");
    let definitions = admission_definitions(&header, &summary);
    let state = RemoteDefinitionsSourceState { generation: 2, identity: 1, viewer_scope: 1 };
    let wire = admission_wire();
    let mut budget = admission_budget(&state);
    assert_eq!(
        admission_prepare(&definitions, &state, &wire, &mut budget).err(),
        Some(RemoteRos2InitializationError::StaleSource)
    );
    assert_eq!(budget.usage, RemoteRos2BudgetUsage::default());
}

#[test]
fn materialization_uses_exact_borrowed_arenas_and_retains_only_result_budget() {
    let header = admission_header();
    let summary = admission_summary(
        "pkg/Root",
        "ros2msg",
        b"int32 count\nChild child\n===\nMSG: pkg/Child\nstring label\n",
        "cdr",
    );
    let definitions = admission_definitions(&header, &summary);
    let state = RemoteDefinitionsSourceState { generation: 1, identity: 1, viewer_scope: 1 };
    let wire = admission_wire();
    let mut budget = admission_budget(&state);
    let prepared = admission_prepare(&definitions, &state, &wire, &mut budget).unwrap();
    let retained = prepared.census.retained_bytes;
    let result: Ros2InitializedRemoteDefinitionsV1 =
        materialize_remote_ros2_definitions_v1(prepared, &mut budget)
            .expect("the fully preflighted schema materializes");

    assert_eq!(result.arenas.schemas.len(), 1);
    assert_eq!(result.arenas.specifications.len(), 2);
    assert_eq!(result.arenas.members.len(), 3);
    assert_eq!(result.arenas.resolutions.len(), 1);
    assert_eq!(result.arenas.schemas.capacity(), 1);
    assert_eq!(result.arenas.specifications.capacity(), 2);
    assert_eq!(
        text_for_record_span(&definitions, result.arenas.specifications.get(0).unwrap().name)
            .unwrap(),
        b"pkg/Root"
    );
    assert_eq!(
        text_for_record_span(&definitions, result.arenas.specifications.get(1).unwrap().name)
            .unwrap(),
        b"pkg/Child"
    );
    assert_eq!(result.arenas.resolutions.get(0).unwrap().target_specification_index, 1);
    assert_eq!(
        budget.usage,
        RemoteRos2BudgetUsage {
            active_initializers: 0,
            working_bytes: 0,
            retained_results: 1,
            retained_bytes: retained,
        }
    );
    budget.release_result(result.reservation);
    assert_eq!(budget.usage, RemoteRos2BudgetUsage::default());
}

#[test]
fn empty_ros_set_still_advances_same_source_and_policy_typestate() {
    let header = admission_header();
    let summary = admission_summary("pkg.Message", "protobuf", &[0x0a, 0x00], "protobuf");
    let definitions = admission_definitions(&header, &summary);
    let state = RemoteDefinitionsSourceState { generation: 1, identity: 1, viewer_scope: 1 };
    let wire = admission_wire();
    let mut budget = admission_budget(&state);
    let prepared = admission_prepare(&definitions, &state, &wire, &mut budget).unwrap();
    let result = materialize_remote_ros2_definitions_v1(prepared, &mut budget)
        .expect("an empty ROS 2 set still advances the ordered typestate");
    assert!(result.arenas.schemas.as_slice().is_empty());
    assert!(result.arenas.specifications.as_slice().is_empty());
    assert!(result.arenas.members.as_slice().is_empty());
    assert!(result.arenas.resolutions.as_slice().is_empty());
    assert!(std::ptr::eq(result.source.definitions, &definitions));
    assert!(std::ptr::eq(result.policy.wire(), &wire));
    budget.release_result(result.reservation);
    assert_eq!(budget.usage, RemoteRos2BudgetUsage::default());
}

#[test]
fn exact_peak_capacity_allows_small_concurrency_and_invalid_census_claims_nothing() {
    let header = admission_header();
    let valid_summary = admission_summary("pkg/Root", "ros2msg", b"int32 value", "cdr");
    let valid_definitions = admission_definitions(&header, &valid_summary);
    let invalid_summary = admission_summary("pkg/Root", "ros2msg", b"wstring value", "cdr");
    let invalid_definitions = admission_definitions(&header, &invalid_summary);
    let state = RemoteDefinitionsSourceState { generation: 1, identity: 1, viewer_scope: 1 };
    let wire = admission_wire();
    let mut measuring_budget = admission_budget(&state);
    let measured =
        admission_prepare(&valid_definitions, &state, &wire, &mut measuring_budget).unwrap();
    let exact_working = measured.census.working_bytes;
    let exact_retained = measured.census.retained_bytes;
    assert!(exact_working < measuring_budget.limits.max_working_bytes);
    assert!(exact_retained < measuring_budget.limits.max_retained_bytes);
    measuring_budget.release_work(measured.reservation);

    let mut constrained = admission_budget(&state);
    constrained.capacity = RemoteRos2BudgetCapacity {
        max_active_initializers: 2,
        max_working_bytes: exact_working * 2,
        max_retained_results: 2,
        max_retained_bytes: exact_retained * 2,
    };
    let first = admission_prepare(&valid_definitions, &state, &wire, &mut constrained).unwrap();
    let before_invalid = constrained.usage;
    assert!(matches!(
        admission_prepare(&invalid_definitions, &state, &wire, &mut constrained),
        Err(RemoteRos2InitializationError::UnsupportedForRemote(
            UnsupportedForRemote::Ros2Wstring
        ))
    ));
    assert_eq!(constrained.usage, before_invalid);
    let second = admission_prepare(&valid_definitions, &state, &wire, &mut constrained).unwrap();
    assert_eq!(
        constrained.usage.active_initializers, 2,
        "exact reservations, rather than configured maxima, share aggregate capacity"
    );
    constrained.release_work(first.reservation);
    constrained.release_work(second.reservation);
    assert_eq!(constrained.usage, RemoteRos2BudgetUsage::default());
}

#[test]
fn malformed_wstring_dependency_and_resource_limits_are_typed_and_rollback() {
    let cases: [(&[u8], RemoteRos2InitializationError); 3] = [
        (
            b"wstring value",
            RemoteRos2InitializationError::UnsupportedForRemote(UnsupportedForRemote::Ros2Wstring),
        ),
        (
            b"Child child\n===\nMSG: pkg/Child\nwstring[] value",
            RemoteRos2InitializationError::UnsupportedForRemote(UnsupportedForRemote::Ros2Wstring),
        ),
        (b"int32 broken=[1]", RemoteRos2InitializationError::InvalidRemoteSchema),
    ];
    let header = admission_header();
    for (data, expected) in cases {
        let summary = admission_summary("pkg/Root", "ros2msg", data, "cdr");
        let definitions = admission_definitions(&header, &summary);
        let state = RemoteDefinitionsSourceState { generation: 1, identity: 1, viewer_scope: 1 };
        let wire = admission_wire();
        let mut budget = admission_budget(&state);
        assert_eq!(
            admission_prepare(&definitions, &state, &wire, &mut budget).err(),
            Some(expected)
        );
        assert_eq!(budget.usage, RemoteRos2BudgetUsage::default());
    }

    let summary = admission_summary("pkg/Root", "ros2msg", b"int32 value", "cdr");
    let definitions = admission_definitions(&header, &summary);
    let state = RemoteDefinitionsSourceState { generation: 1, identity: 1, viewer_scope: 1 };
    let wire = admission_wire();
    let mut budget = admission_budget(&state);
    budget.limits.max_fields = 0;
    assert_eq!(
        admission_prepare(&definitions, &state, &wire, &mut budget).err(),
        Some(RemoteRos2InitializationError::ResourceLimitExceeded(
            RemoteRos2ResourceLimit::FieldCount
        ))
    );
    assert_eq!(budget.usage, RemoteRos2BudgetUsage::default());
}

/// A Summary with the given Schema records `(id, name, encoding, data)` followed by the given
/// Channel records `(id, schema id, topic, message encoding)`.
fn admission_records(schemas: &[(u16, &str, &str, &[u8])], channels: &[(u16, u16, &str, &str)]) -> Vec<u8> {
    let mut bytes = Vec::new();
    for (id, name, encoding, data) in schemas {
        let mut schema = id.to_le_bytes().to_vec();
        schema.extend_from_slice(&encoded_string(name));
        schema.extend_from_slice(&encoded_string(encoding));
        schema.extend_from_slice(&(data.len() as u32).to_le_bytes());
        schema.extend_from_slice(data);
        bytes.extend_from_slice(&encoded_record(0x03, &schema));
    }
    for (id, schema_id, topic, message_encoding) in channels {
        let mut channel = id.to_le_bytes().to_vec();
        channel.extend_from_slice(&schema_id.to_le_bytes());
        channel.extend_from_slice(&encoded_string(topic));
        channel.extend_from_slice(&encoded_string(message_encoding));
        channel.extend_from_slice(&0_u32.to_le_bytes());
        bytes.extend_from_slice(&encoded_record(0x04, &channel));
    }
    bytes
}

fn admission_preflight(
    definitions: &ValidatedSummaryDefinitions<'_>,
    state: &RemoteDefinitionsSourceState,
    wire: &RemoteDecoderPolicyWireV1<'_>,
    budget: &RemoteRos2BudgetState,
) -> Result<(), RemoteRos2InitializationError> {
    let policy = freeze_remote_decoder_policy_v1(wire).expect("test policy is canonical");
    let owner = begin_remote_ros2_admission_v1(
        RemoteDefinitionsCapability { definitions, source: state, generation: 1 },
        policy,
        budget,
    )?;
    preflight_remote_decoder_topic_signatures_v1(owner).map(|_evidence| ())
}

fn preflight_records(
    schemas: &[(u16, &str, &str, &[u8])],
    channels: &[(u16, u16, &str, &str)],
) -> Result<(), RemoteRos2InitializationError> {
    let header = admission_header();
    let summary = admission_records(schemas, channels);
    let definitions = admission_definitions(&header, &summary);
    let state = RemoteDefinitionsSourceState { generation: 1, identity: 1, viewer_scope: 1 };
    let wire = admission_wire();
    let budget = admission_budget(&state);
    admission_preflight(&definitions, &state, &wire, &budget)
}

#[test]
fn same_topic_signature_is_order_independent_and_covers_all_encodings() {
    for reverse in [false, true] {
        let mut schemas: Vec<(u16, &str, &str, &[u8])> = vec![
            (7, "pkg/Valid", "ros2msg", b"int32 value"),
            (8, "pkg/Wide", "ros2msg", b"wstring value"),
        ];
        let mut channels = vec![(1, 7, "/same", "not-cdr"), (2, 8, "/same", "not-cdr")];
        if reverse {
            schemas.reverse();
            channels.reverse();
        }
        let error = preflight_records(&schemas, &channels)
            .err()
            .expect("different same-topic schema signatures conflict");
        assert_eq!(error, RemoteRos2InitializationError::ConflictingTopicDecoderSignature);
    }

    assert_eq!(
        preflight_records(
            &[(7, "pkg/A", "protobuf", &[1, 2]), (8, "pkg/B", "protobuf", &[1, 3])],
            &[(1, 7, "/same", "protobuf"), (2, 8, "/same", "protobuf")],
        )
        .err(),
        Some(RemoteRos2InitializationError::ConflictingTopicDecoderSignature)
    );
}

#[test]
fn identical_same_topic_signatures_ignore_schema_and_channel_ids() {
    preflight_records(
        &[(7, "pkg/Msg", "ros2msg", b"int32 value"), (8, "pkg/Msg", "ros2msg", b"int32 value")],
        &[(1, 7, "/same", "cdr"), (2, 8, "/same", "cdr")],
    )
    .expect("IDs do not participate in the same-topic signature");
}

#[test]
fn decoder_signature_field_matrix_and_canonical_duplicates_are_exact() {
    let left: (u16, &str, &str, &[u8]) = (7, "pkg/Msg", "ros2msg", b"int32 value");
    let right: (u16, &str, &str, &[u8]) = (8, "pkg/Msg", "ros2msg", b"int32 value");
    let cases: [((u16, &str, &str, &[u8]), (u16, u16, &str, &str)); 5] = [
        (right, (2, 8, "/same", "cdr-alt")),
        (right, (2, 0, "/same", "cdr")),
        ((8, "pkg/Other", "ros2msg", b"int32 value"), (2, 8, "/same", "cdr")),
        ((8, "pkg/Msg", "protobuf", b"int32 value"), (2, 8, "/same", "cdr")),
        ((8, "pkg/Msg", "ros2msg", b"uint32 value"), (2, 8, "/same", "cdr")),
    ];
    for (right_schema, right_channel) in cases {
        assert_eq!(
            preflight_records(&[left, right_schema], &[(1, 7, "/same", "cdr"), right_channel])
                .err(),
            Some(RemoteRos2InitializationError::ConflictingTopicDecoderSignature)
        );
    }

    preflight_records(
        &[(7, "pkg/A", "ros2msg", b"int32 value"), (8, "pkg/B", "protobuf", &[1, 2, 3])],
        &[(1, 7, "/a", "cdr"), (2, 8, "/b", "protobuf")],
    )
    .expect("decoder signatures are compared only within one exact topic");

    for reverse in [false, true] {
        let mut schemas = vec![left, right];
        let mut channels = vec![(1, 7, "/same", "cdr"), (2, 8, "/same", "cdr")];
        if reverse {
            schemas.reverse();
            channels.reverse();
        }
        preflight_records(&schemas, &channels)
            .expect("identical canonical signatures are source-order independent");
    }

    preflight_records(&[left, left], &[(1, 7, "/same", "cdr"), (1, 7, "/same", "cdr")])
        .expect("exact duplicate records do not mint a second canonical signature");
}

#[test]
fn signature_conflict_precedes_budget_contention_and_spends_no_initializer_ownership() {
    let header = admission_header();
    let summary = admission_records(
        &[(7, "pkg/A", "ros2msg", b"int32 value"), (8, "pkg/B", "ros2msg", b"uint32 value")],
        &[(1, 7, "/same", "cdr"), (2, 8, "/same", "cdr")],
    );
    let definitions = admission_definitions(&header, &summary);
    let state = RemoteDefinitionsSourceState { generation: 1, identity: 1, viewer_scope: 1 };
    let wire = admission_wire();
    let mut constrained = admission_budget(&state);
    constrained.capacity.max_active_initializers = 0;
    assert_eq!(
        admission_prepare(&definitions, &state, &wire, &mut constrained).err(),
        Some(RemoteRos2InitializationError::ConflictingTopicDecoderSignature)
    );
    assert_eq!(constrained.usage, RemoteRos2BudgetUsage::default());
}

fn rejects_one_less(
    definitions: &ValidatedSummaryDefinitions<'_>,
    state: &RemoteDefinitionsSourceState,
    wire: &RemoteDecoderPolicyWireV1<'_>,
    exact: UnfrozenRemoteRos2LimitsV1,
    field: fn(&mut UnfrozenRemoteRos2LimitsV1) -> &mut u64,
    name: &str,
    kind: RemoteRos2ResourceLimit,
) {
    let mut limited = exact;
    let value = field(&mut limited);
    *value = value.checked_sub(1).unwrap();
    let mut limited_budget = admission_budget(state);
    limited_budget.limits = limited;
    assert_eq!(
        admission_prepare(definitions, state, wire, &mut limited_budget).err(),
        Some(RemoteRos2InitializationError::ResourceLimitExceeded(kind)),
        "one unit below the exact {} boundary must fail",
        name,
    );
    assert_eq!(limited_budget.usage, RemoteRos2BudgetUsage::default());
}

#[test]
fn every_v1_limit_accepts_exact_boundary_and_rejects_the_next_unit() {
    let definition = "int32 count 2\nstring<=8[<=3] labels [\"a\",\"b\"]\nChild child\nuint8 FLAG=1\n===\nMSG: pkg/Child\nfloat64 value 1.5\n";
    let header = admission_header();
    let summary = admission_summary("pkg/Root", "ros2msg", definition.as_bytes(), "not-cdr");
    let definitions = admission_definitions(&header, &summary);
    let state = RemoteDefinitionsSourceState { generation: 1, identity: 1, viewer_scope: 1 };
    let wire = admission_wire();
    let mut generous_budget = admission_budget(&state);
    let generous = admission_prepare(&definitions, &state, &wire, &mut generous_budget).unwrap();
    let census = generous.census;
    generous_budget.release_work(generous.reservation);

    let mut exact = admission_limits();
    exact.max_schemas = census.schemas;
    exact.max_definition_bytes = census.definition_bytes;
    exact.max_specifications = census.specifications;
    exact.max_fields = census.fields;
    exact.max_constants = census.constants;
    exact.max_members = census.members;
    exact.max_line_bytes = u64::try_from(definition.lines().map(str::len).max().unwrap()).unwrap();
    exact.max_token_bytes = u64::try_from("string<=8[<=3]".len()).unwrap();
    exact.max_identifier_bytes = u64::try_from("pkg/Child".len()).unwrap();
    exact.max_default_bytes = u64::try_from("[\"a\",\"b\"]".len()).unwrap();
    exact.max_string_literal_bytes = 1;
    exact.max_string_bound = 8;
    exact.max_array_bound = 3;
    exact.max_dependency_edges = census.dependency_edges;
    exact.max_dependency_depth = 1;
    exact.max_census_steps = census.census_steps;
    exact.max_materialization_steps = census.materialization_steps;
    exact.max_projection_steps = census.projection_steps;
    exact.max_recognition_steps = census.recognition_steps;
    exact.max_retained_bytes = census.retained_bytes;
    exact.max_working_bytes = census.working_bytes;

    let mut exact_budget = admission_budget(&state);
    exact_budget.limits = exact;
    let exact_prepared = admission_prepare(&definitions, &state, &wire, &mut exact_budget)
        .expect("every exact V1 limit boundary is admitted");
    exact_budget.release_work(exact_prepared.reservation);
    assert_eq!(exact_budget.usage, RemoteRos2BudgetUsage::default());

    let cases: [(fn(&mut UnfrozenRemoteRos2LimitsV1) -> &mut u64, &str, RemoteRos2ResourceLimit); 21] = [
        (|l| &mut l.max_schemas, "max_schemas", RemoteRos2ResourceLimit::SchemaCount),
        (|l| &mut l.max_definition_bytes, "max_definition_bytes", RemoteRos2ResourceLimit::DefinitionBytes),
        (|l| &mut l.max_specifications, "max_specifications", RemoteRos2ResourceLimit::SpecificationCount),
        (|l| &mut l.max_fields, "max_fields", RemoteRos2ResourceLimit::FieldCount),
        (|l| &mut l.max_constants, "max_constants", RemoteRos2ResourceLimit::ConstantCount),
        (|l| &mut l.max_members, "max_members", RemoteRos2ResourceLimit::MemberCount),
        (|l| &mut l.max_line_bytes, "max_line_bytes", RemoteRos2ResourceLimit::LineBytes),
        (|l| &mut l.max_token_bytes, "max_token_bytes", RemoteRos2ResourceLimit::TokenBytes),
        (|l| &mut l.max_identifier_bytes, "max_identifier_bytes", RemoteRos2ResourceLimit::IdentifierBytes),
        (|l| &mut l.max_default_bytes, "max_default_bytes", RemoteRos2ResourceLimit::DefaultBytes),
        (|l| &mut l.max_string_literal_bytes, "max_string_literal_bytes", RemoteRos2ResourceLimit::StringLiteralBytes),
        (|l| &mut l.max_string_bound, "max_string_bound", RemoteRos2ResourceLimit::StringBound),
        (|l| &mut l.max_array_bound, "max_array_bound", RemoteRos2ResourceLimit::ArrayBound),
        (|l| &mut l.max_dependency_edges, "max_dependency_edges", RemoteRos2ResourceLimit::DependencyEdges),
        (|l| &mut l.max_dependency_depth, "max_dependency_depth", RemoteRos2ResourceLimit::DependencyDepth),
        (|l| &mut l.max_census_steps, "max_census_steps", RemoteRos2ResourceLimit::CensusSteps),
        (|l| &mut l.max_materialization_steps, "max_materialization_steps", RemoteRos2ResourceLimit::MaterializationSteps),
        (|l| &mut l.max_projection_steps, "max_projection_steps", RemoteRos2ResourceLimit::ProjectionSteps),
        (|l| &mut l.max_recognition_steps, "max_recognition_steps", RemoteRos2ResourceLimit::RecognitionSteps),
        (|l| &mut l.max_retained_bytes, "max_retained_bytes", RemoteRos2ResourceLimit::RetainedBytes),
        (|l| &mut l.max_working_bytes, "max_working_bytes", RemoteRos2ResourceLimit::WorkingBytes),
    ];
    for (field, name, kind) in cases {
        rejects_one_less(&definitions, &state, &wire, exact, field, name, kind);
    }
}
