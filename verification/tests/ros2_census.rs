use re_mcap::remote_ros2_reflection::arenas::{
    allocate_remote_ros2_arenas, checked_remote_protobuf_projection_step_bound_v1,
    compute_arena_peak, locked_wasm_allocation_footprint_v1, sealed_fixed_working_bytes_v1,
    LOCKED_WASM_DLMALLOC_PAGE_V1,
};
use re_mcap::remote_ros2_reflection::materialization::CountingMaterializationSink;
use re_mcap::remote_ros2_reflection::census::{census_one_schema, RemoteRos2Census};
use re_mcap::remote_ros2_reflection::dependencies::RemoteRos2FixedScratchV1;
use re_mcap::remote_ros2_reflection::steps::{
    RemoteRos2InitializationError, RemoteRos2ResourceLimit, RemoteRos2StepOwnershipV1,
    UnsupportedForRemote,
};
use re_mcap::remote_ros2_reflection::types::{SchemaView, UnfrozenRemoteRos2LimitsV1};

fn generous_limits() -> UnfrozenRemoteRos2LimitsV1 {
    UnfrozenRemoteRos2LimitsV1 {
        max_schemas: 32,
        max_definition_bytes: 1_000_000,
        max_specifications: 256,
        max_fields: 4_096,
        max_constants: 4_096,
        max_members: 8_192,
        max_line_bytes: 16_384,
        max_token_bytes: 1_024,
        max_identifier_bytes: 1_024,
        max_default_bytes: 16_384,
        max_string_literal_bytes: 16_384,
        max_string_bound: 1_000_000,
        max_array_bound: 1_000_000,
        max_dependency_edges: 4_096,
        max_dependency_depth: 32,
        max_signature_steps: 1_000_000,
        max_projection_steps: 1_000_000,
        max_recognition_steps: 1_000_000,
        max_census_steps: 1_000_000,
        max_materialization_steps: 1_000_000,
        max_retained_bytes: 16_000_000,
        max_working_bytes: 16_000_000,
    }
}

fn census_with(
    name: &str,
    data: &[u8],
    limits: &UnfrozenRemoteRos2LimitsV1,
) -> (Result<(), RemoteRos2InitializationError>, RemoteRos2Census, u64) {
    let schema = SchemaView {
        id: 7,
        record_index: 0,
        name: name.as_bytes(),
        data,
    };
    let mut census = RemoteRos2Census::default();
    let mut meter = RemoteRos2StepOwnershipV1::with_limit(
        limits.max_census_steps,
        RemoteRos2ResourceLimit::CensusSteps,
    );
    let mut scratch = RemoteRos2FixedScratchV1::new();
    let result = census_one_schema(schema, limits, &mut census, &mut meter, &mut scratch);
    (result, census, meter.consumed())
}

fn census(name: &str, data: &[u8]) -> Result<RemoteRos2Census, RemoteRos2InitializationError> {
    let (result, census, _) = census_with(name, data, &generous_limits());
    result.map(|()| census)
}

const GRAMMAR: RemoteRos2InitializationError =
    RemoteRos2InitializationError::UnsupportedForRemote(UnsupportedForRemote::GrammarFeature);
const DEPENDENCY: RemoteRos2InitializationError =
    RemoteRos2InitializationError::UnsupportedForRemote(UnsupportedForRemote::DependencyGraph);
const INVALID: RemoteRos2InitializationError = RemoteRos2InitializationError::InvalidRemoteSchema;

#[test]
fn strict_grammar_rejects_malformed_sections_names_types_arrays_and_literals() {
    let malformed: &[(&str, &[u8], RemoteRos2InitializationError)] = &[
        ("pkg/Root", b"int32", INVALID),
        ("pkg/Root", b"int32 value\n===\n", GRAMMAR),
        ("pkg/Root", b"int32 value\n===\nMSG: \nuint32 other", GRAMMAR),
        ("pkg/Root", b"unknown<=2 value", GRAMMAR),
        ("pkg/Root", b"int32[bad] value", INVALID),
        ("pkg/Root", b"int32[2] value [1]", GRAMMAR),
        ("pkg/Root", b"bool value maybe", INVALID),
        ("pkg/Root", b"string value \"unterminated", GRAMMAR),
        ("pkg/Root", b"int32 value\nuint32 value", GRAMMAR),
        ("pkg/Root", b"int32 DUP=1\nint32 DUP=2", GRAMMAR),
        (
            "pkg/Root",
            b"A value\n===\nMSG: pkg/A\nint32 one\n===\nMSG: pkg/A\nint32 two",
            DEPENDENCY,
        ),
        ("bad name", b"int32 value", GRAMMAR),
    ];
    for (name, data, expected) in malformed {
        assert_eq!(census(name, data).err(), Some(*expected), "{name}: {data:?}");
    }
}

#[test]
fn local_valid_outside_subset_and_local_invalid_literals_have_stable_classification() {
    for definition in [
        "int8 value 128",
        "int16 value 32768",
        "int32 value 2147483648",
        "uint8 value 256",
        "uint16 value 65536",
        "uint32 value 4294967296",
        "int8 TOO_LARGE=128",
        "int32 UpperCase",
        "int32 bad__name",
        "int32[] values [1,,2]",
        "int32[] values [1,2,]",
        "string value \"unterminated",
    ] {
        assert_eq!(
            census("pkg/Root", definition.as_bytes()).err(),
            Some(GRAMMAR),
            "{definition}"
        );
    }
    for definition in [
        "int64 value 999999999999999999999999",
        "uint64 value -1",
        "float64 value not-a-number",
    ] {
        assert_eq!(
            census("pkg/Root", definition.as_bytes()).err(),
            Some(INVALID),
            "{definition}"
        );
    }
    for definition in [
        "float32 value 1e100",
        "float64 value -1.7976931348623157e308",
        "float32 VALUE=3.25",
        "float64 VALUE=-0.0",
    ] {
        assert!(census("pkg/Root", definition.as_bytes()).is_ok(), "{definition}");
    }
}

#[test]
fn local_validity_precedes_strict_subset_classification() {
    let cases = [
        ("int32 lower=1", Some(INVALID)),
        ("int32[1] CONST=[1]", Some(INVALID)),
        ("string EMPTY=", None),
        ("Foo] value", Some(GRAMMAR)),
        ("pkg/ value", Some(INVALID)),
        ("/Type value", Some(INVALID)),
        ("//Type value", Some(GRAMMAR)),
        ("///Type value", Some(GRAMMAR)),
        ("/pkg/Type value", Some(GRAMMAR)),
        ("pkg//Type value", Some(GRAMMAR)),
    ];
    for (definition, expected) in cases {
        assert_eq!(
            census("pkg/Root", definition.as_bytes()).err(),
            expected,
            "{definition}"
        );
    }
}

#[test]
fn missing_duplicate_and_cyclic_dependencies_fail_before_reservation() {
    assert_eq!(census("pkg/Root", b"Missing value").err(), Some(DEPENDENCY));
    assert_eq!(
        census("pkg/Root", b"int32 value\nuint32 value").err(),
        Some(GRAMMAR)
    );
    assert_eq!(
        census(
            "pkg/Root",
            b"A root\n===\nMSG: pkg/A\nB next\n===\nMSG: pkg/B\nA next\n"
        )
        .err(),
        Some(DEPENDENCY)
    );
}

const EXACT_DEFINITION: &str = "int32 count 2\n\
string<=8[<=3] labels [\"a\",\"b\"]\n\
Child child\n\
uint8 FLAG=1\n\
===\nMSG: pkg/Child\n\
float64 value 1.5\n";

#[test]
fn census_counts_every_schema_specification_member_and_edge() {
    let counted = census("pkg/Root", EXACT_DEFINITION.as_bytes()).unwrap();
    assert_eq!(counted.schemas, 1);
    assert_eq!(counted.definition_bytes, EXACT_DEFINITION.len() as u64);
    assert_eq!(counted.specifications, 2);
    assert_eq!(counted.fields, 4);
    assert_eq!(counted.constants, 1);
    assert_eq!(counted.members, 5);
    assert_eq!(counted.dependency_edges, 1);
}

#[test]
fn every_census_limit_accepts_exact_boundary_and_rejects_the_next_unit() {
    let generous = generous_limits();
    let (result, counted, steps) = census_with("pkg/Root", EXACT_DEFINITION.as_bytes(), &generous);
    result.unwrap();

    let mut exact = generous;
    exact.max_schemas = counted.schemas;
    exact.max_definition_bytes = counted.definition_bytes;
    exact.max_specifications = counted.specifications;
    exact.max_fields = counted.fields;
    exact.max_constants = counted.constants;
    exact.max_members = counted.members;
    exact.max_line_bytes = EXACT_DEFINITION.lines().map(str::len).max().unwrap() as u64;
    exact.max_token_bytes = "string<=8[<=3]".len() as u64;
    exact.max_identifier_bytes = "pkg/Child".len() as u64;
    exact.max_default_bytes = "[\"a\",\"b\"]".len() as u64;
    exact.max_string_literal_bytes = 1;
    exact.max_string_bound = 8;
    exact.max_array_bound = 3;
    exact.max_dependency_edges = counted.dependency_edges;
    exact.max_dependency_depth = 1;
    exact.max_census_steps = steps;
    let (exact_result, exact_census, exact_steps) =
        census_with("pkg/Root", EXACT_DEFINITION.as_bytes(), &exact);
    exact_result.expect("every exact boundary is admitted");
    assert_eq!(exact_census, counted);
    assert_eq!(exact_steps, steps);

    let cases: [(fn(&mut UnfrozenRemoteRos2LimitsV1), RemoteRos2ResourceLimit); 16] = [
        (|l| l.max_schemas -= 1, RemoteRos2ResourceLimit::SchemaCount),
        (|l| l.max_definition_bytes -= 1, RemoteRos2ResourceLimit::DefinitionBytes),
        (|l| l.max_specifications -= 1, RemoteRos2ResourceLimit::SpecificationCount),
        (|l| l.max_fields -= 1, RemoteRos2ResourceLimit::FieldCount),
        (|l| l.max_constants -= 1, RemoteRos2ResourceLimit::ConstantCount),
        (|l| l.max_members -= 1, RemoteRos2ResourceLimit::MemberCount),
        (|l| l.max_line_bytes -= 1, RemoteRos2ResourceLimit::LineBytes),
        (|l| l.max_token_bytes -= 1, RemoteRos2ResourceLimit::TokenBytes),
        (|l| l.max_identifier_bytes -= 1, RemoteRos2ResourceLimit::IdentifierBytes),
        (|l| l.max_default_bytes -= 1, RemoteRos2ResourceLimit::DefaultBytes),
        (|l| l.max_string_literal_bytes -= 1, RemoteRos2ResourceLimit::StringLiteralBytes),
        (|l| l.max_string_bound -= 1, RemoteRos2ResourceLimit::StringBound),
        (|l| l.max_array_bound -= 1, RemoteRos2ResourceLimit::ArrayBound),
        (|l| l.max_dependency_edges -= 1, RemoteRos2ResourceLimit::DependencyEdges),
        (|l| l.max_dependency_depth -= 1, RemoteRos2ResourceLimit::DependencyDepth),
        (|l| l.max_census_steps -= 1, RemoteRos2ResourceLimit::CensusSteps),
    ];
    for (lower, kind) in cases {
        let mut limited = exact;
        lower(&mut limited);
        let (result, census_after, _) =
            census_with("pkg/Root", EXACT_DEFINITION.as_bytes(), &limited);
        assert_eq!(
            result,
            Err(RemoteRos2InitializationError::ResourceLimitExceeded(kind)),
            "{kind:?}"
        );
        assert_eq!(census_after, RemoteRos2Census::default());
    }
}

#[test]
fn locked_wasm_allocator_contract_and_fixed_scratch_are_precharged() {
    assert_eq!(
        locked_wasm_allocation_footprint_v1(1, 1).unwrap(),
        LOCKED_WASM_DLMALLOC_PAGE_V1
    );
    assert_eq!(
        locked_wasm_allocation_footprint_v1(65_500, 1).unwrap(),
        2 * LOCKED_WASM_DLMALLOC_PAGE_V1
    );
    assert!(locked_wasm_allocation_footprint_v1(1, 16).unwrap() >= LOCKED_WASM_DLMALLOC_PAGE_V1);
    assert_eq!(locked_wasm_allocation_footprint_v1(0, 8).unwrap(), 0);
    assert!(sealed_fixed_working_bytes_v1().unwrap() > 0);

    let mut counted = RemoteRos2Census {
        schemas: 1,
        specifications: 2,
        members: 3,
        dependency_edges: 1,
        ..RemoteRos2Census::default()
    };
    compute_arena_peak(&mut counted, &generous_limits()).unwrap();
    assert!(counted.retained_bytes >= 4 * LOCKED_WASM_DLMALLOC_PAGE_V1);
    assert_eq!(
        counted.working_bytes,
        counted.retained_bytes + sealed_fixed_working_bytes_v1().unwrap()
    );

    let mut limits = generous_limits();
    limits.max_retained_bytes = counted.retained_bytes - 1;
    let mut again = RemoteRos2Census {
        schemas: 1,
        specifications: 2,
        members: 3,
        dependency_edges: 1,
        ..RemoteRos2Census::default()
    };
    let before = again;
    assert_eq!(
        compute_arena_peak(&mut again, &limits),
        Err(RemoteRos2InitializationError::ResourceLimitExceeded(
            RemoteRos2ResourceLimit::RetainedBytes
        ))
    );
    assert_eq!(again, before);
}

#[test]
fn projection_step_bound_is_the_frozen_cubic_polynomial() {
    assert_eq!(checked_remote_protobuf_projection_step_bound_v1(2, 14), Ok(14));
    assert_eq!(
        checked_remote_protobuf_projection_step_bound_v1(2, 13),
        Err(RemoteRos2InitializationError::ResourceLimitExceeded(
            RemoteRos2ResourceLimit::ProjectionSteps
        ))
    );
    assert_eq!(
        checked_remote_protobuf_projection_step_bound_v1(u64::MAX, u64::MAX),
        Err(RemoteRos2InitializationError::ResourceLimitExceeded(
            RemoteRos2ResourceLimit::Arithmetic
        ))
    );
    assert_eq!(checked_remote_protobuf_projection_step_bound_v1(0, 0), Ok(0));
}

#[test]
fn arenas_are_allocated_with_exact_census_capacities() {
    let counted = RemoteRos2Census {
        schemas: 1,
        specifications: 2,
        members: 3,
        dependency_edges: 4,
        ..RemoteRos2Census::default()
    };
    let mut meter =
        RemoteRos2StepOwnershipV1::with_limit(4, RemoteRos2ResourceLimit::MaterializationSteps);
    let directory = allocate_remote_ros2_arenas(counted, &mut meter).unwrap();
    assert_eq!(meter.remaining(), 0);
    assert_eq!(directory.schemas.capacity(), 1);
    assert_eq!(directory.specifications.capacity(), 2);
    assert_eq!(directory.members.capacity(), 3);
    assert_eq!(directory.resolutions.capacity(), 4);
    assert_eq!(directory.members.len(), 0);

    let mut short =
        RemoteRos2StepOwnershipV1::with_limit(3, RemoteRos2ResourceLimit::MaterializationSteps);
    assert_eq!(
        allocate_remote_ros2_arenas(counted, &mut short).err(),
        Some(RemoteRos2InitializationError::ResourceLimitExceeded(
            RemoteRos2ResourceLimit::MaterializationSteps
        ))
    );
    assert_eq!(short.remaining(), 0);

    let mut value = usize::MAX;
    assert!(CountingMaterializationSink::increment(&mut value).is_err());
    let mut value = 1;
    CountingMaterializationSink::increment(&mut value).unwrap();
    assert_eq!(value, 2);
}
