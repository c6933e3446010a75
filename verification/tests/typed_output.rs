use re_mcap::remote_time::RemoteMcapTimeType;
use re_mcap::remote_typed_output::{
    issue_from_live_factory_v1, RemoteTypedComponentV1, RemoteTypedDomainOutputV1,
    RemoteTypedFieldContractV1, RemoteTypedOutputDescriptorV1, RemoteTypedOutputKindV1,
    RemoteTypedProtobufCensusV1, RemoteTypedProtobufEnumV1, RemoteTypedProtobufEnumValueV1,
    RemoteTypedProtobufFieldV1, RemoteTypedProtobufKindV1, RemoteTypedProtobufOneofV1,
    RemoteTypedScalarKindV1,
};

fn domain(entity_path: &str, archetype: Option<&str>) -> RemoteTypedDomainOutputV1 {
    RemoteTypedDomainOutputV1 {
        entity_path_raw: entity_path.to_owned(),
        component: RemoteTypedComponentV1 {
            component: "message".to_owned(),
            archetype: archetype.map(str::to_owned),
            component_type: None,
        },
        timeline_log_time: "message_log_time".to_owned(),
        timeline_publish_time: "message_publish_time".to_owned(),
    }
}

fn protobuf_field(tag: u32, name: &str, kind: RemoteTypedProtobufKindV1, repeated: bool) -> RemoteTypedProtobufFieldV1 {
    RemoteTypedProtobufFieldV1 {
        owner_message: 0,
        tag,
        name: name.to_owned(),
        kind,
        nullable: false,
        supports_presence: false,
        repeated,
        oneof_index: None,
        proto3_optional: false,
        packed: None,
        default: None,
    }
}

fn scalar_descriptor() -> RemoteTypedOutputDescriptorV1 {
    issue_from_live_factory_v1(
        7,
        RemoteTypedOutputKindV1::Ros2Reflection,
        [9; 16],
        3,
        vec![
            RemoteTypedFieldContractV1::new(1, RemoteTypedScalarKindV1::Int64, "value".to_owned()),
            RemoteTypedFieldContractV1::new(2, RemoteTypedScalarKindV1::Bool, "flag".to_owned()),
        ],
        vec![],
        vec![],
        vec![],
        None,
        domain("/test", None),
        RemoteMcapTimeType::TimestampNs,
    )
}

fn protobuf_descriptor() -> RemoteTypedOutputDescriptorV1 {
    let mut with_default = protobuf_field(4, "d", RemoteTypedProtobufKindV1::Bytes, false);
    with_default.default = Some(vec![1, 2, 3]);
    issue_from_live_factory_v1(
        1,
        RemoteTypedOutputKindV1::Protobuf,
        [7; 16],
        7,
        vec![],
        vec![
            protobuf_field(1, "a", RemoteTypedProtobufKindV1::Message(2), true),
            protobuf_field(2, "bb", RemoteTypedProtobufKindV1::MapField(3), false),
            protobuf_field(3, "c", RemoteTypedProtobufKindV1::Enum(0), true),
            with_default,
        ],
        vec![
            RemoteTypedProtobufOneofV1 { owner_message: 0, index: 0, name: "o".to_owned(), synthetic: false },
            RemoteTypedProtobufOneofV1 { owner_message: 0, index: 1, name: "_p".to_owned(), synthetic: true },
        ],
        vec![RemoteTypedProtobufEnumV1 {
            index: 0,
            values: vec![
                RemoteTypedProtobufEnumValueV1 { number: 0, name: "ZERO".to_owned() },
                RemoteTypedProtobufEnumValueV1 { number: 1, name: "ONE".to_owned() },
            ],
        }],
        Some(0),
        domain("/protobuf", Some("rerun.archetypes.Points3D")),
        RemoteMcapTimeType::DurationNs,
    )
}

#[test]
fn scalar_field_lookup_finds_tag_and_kind() {
    let descriptor = scalar_descriptor();
    assert!(!descriptor.is_protobuf_v1());
    assert_eq!(descriptor.channel_id_v1(), 7);
    assert!(descriptor.accepts_field_v1(1, RemoteTypedScalarKindV1::Int64));
    assert!(!descriptor.accepts_field_v1(1, RemoteTypedScalarKindV1::Bool));
    assert!(!descriptor.accepts_field_v1(3, RemoteTypedScalarKindV1::Int64));
    assert_eq!(descriptor.field_kind_v1(2), Some(RemoteTypedScalarKindV1::Bool));
    assert_eq!(descriptor.field_kind_v1(9), None);
    assert!(descriptor.single_field_v1().is_none());
    assert_eq!(descriptor.protobuf_census_v1(), None);
    assert_eq!(descriptor.entity_path_raw_v1(), "/test");
    assert_eq!(descriptor.timeline_log_time_v1(), "message_log_time");
    assert_eq!(descriptor.timeline_publish_time_v1(), "message_publish_time");
    assert_eq!(descriptor.time_type_v1(), RemoteMcapTimeType::TimestampNs);
    // "/test" + "value" + "flag" + "message"
    assert_eq!(descriptor.retained_metadata_bytes_v1(), Some(5 + 5 + 4 + 7));
}

#[test]
fn a_single_scalar_field_is_returned_alone() {
    let descriptor = issue_from_live_factory_v1(
        1,
        RemoteTypedOutputKindV1::Ros2Reflection,
        [0; 16],
        1,
        vec![RemoteTypedFieldContractV1::new(5, RemoteTypedScalarKindV1::Float64, "x".to_owned())],
        vec![],
        vec![],
        vec![],
        None,
        domain("/a", None),
        RemoteMcapTimeType::TimestampNs,
    );
    let field = descriptor.single_field_v1().unwrap();
    assert_eq!(field.name_v1(), "x");
    assert_eq!(field.kind_v1(), RemoteTypedScalarKindV1::Float64);
}

#[test]
fn protobuf_census_counts_each_table() {
    let descriptor = protobuf_descriptor();
    assert!(descriptor.is_protobuf_v1());
    assert_eq!(descriptor.protobuf_root_message_v1(), Some(0));
    assert_eq!(descriptor.protobuf_fields_v1().len(), 4);
    assert_eq!(descriptor.protobuf_oneofs_v1().len(), 2);
    assert_eq!(descriptor.protobuf_enums_v1().len(), 1);
    assert_eq!(
        descriptor.protobuf_census_v1(),
        Some(RemoteTypedProtobufCensusV1 {
            fields: 4,
            repeated_fields: 2,
            message_fields: 1,
            map_fields: 1,
            real_oneofs: 1,
            enum_fields: 1,
            enum_values: 2,
        })
    );
}

#[test]
fn retained_metadata_counts_every_name_and_default() {
    let descriptor = protobuf_descriptor();
    // "/protobuf" 9, field names 1 + 2 + 1 + 1, default 3, oneofs 1 + 2, enum values 4 + 3,
    // "message" 7, archetype 25.
    let expected = 9 + (1 + 2 + 1 + 1) + 3 + (1 + 2) + (4 + 3) + 7 + 25;
    assert_eq!(descriptor.retained_metadata_bytes_v1(), Some(expected));
    assert_eq!(descriptor.component_v1().archetype.as_deref(), Some("rerun.archetypes.Points3D"));
}
