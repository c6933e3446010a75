use re_mcap::remote_ros2_reflection::policy::{
    freeze_remote_decoder_policy_v1, RemoteDecoderPolicyError, RemoteDecoderPolicyWireV1,
};

const CANONICAL_IDENTITIES: [&str; 4] = [
    "semantic_ros2:v1-empty",
    "ros2_reflection:v1",
    "protobuf:v1",
    "raw:v1",
];

fn canonical_policy_wire() -> RemoteDecoderPolicyWireV1<'static> {
    RemoteDecoderPolicyWireV1 {
        identity: 1,
        allowlist_version: 1,
        assignment_version: 1,
        grammar_version: 1,
        decoder_identities: &CANONICAL_IDENTITIES,
        fallback_identity: "raw:v1",
    }
}

#[test]
fn policy_must_be_exact_before_signature_or_census() {
    let mut reordered = CANONICAL_IDENTITIES;
    reordered.swap(0, 1);
    let duplicated = [
        CANONICAL_IDENTITIES[0],
        CANONICAL_IDENTITIES[1],
        CANONICAL_IDENTITIES[1],
        CANONICAL_IDENTITIES[3],
    ];
    for bad in [
        RemoteDecoderPolicyWireV1 {
            allowlist_version: 99,
            ..canonical_policy_wire()
        },
        RemoteDecoderPolicyWireV1 {
            decoder_identities: &reordered,
            ..canonical_policy_wire()
        },
        RemoteDecoderPolicyWireV1 {
            decoder_identities: &duplicated,
            ..canonical_policy_wire()
        },
    ] {
        assert!(freeze_remote_decoder_policy_v1(&bad).is_err());
    }
}

#[test]
fn canonical_policy_freezes_and_keeps_its_wire() {
    let wire = canonical_policy_wire();
    let frozen = freeze_remote_decoder_policy_v1(&wire).unwrap();
    assert_eq!(frozen.wire().fallback_identity, "raw:v1");
}

#[test]
fn every_policy_error_variant_has_its_input() {
    let versions = RemoteDecoderPolicyWireV1 {
        grammar_version: 2,
        ..canonical_policy_wire()
    };
    assert_eq!(
        freeze_remote_decoder_policy_v1(&versions).err(),
        Some(RemoteDecoderPolicyError::UnknownVersion)
    );
    let assignment = RemoteDecoderPolicyWireV1 {
        assignment_version: 0,
        ..canonical_policy_wire()
    };
    assert_eq!(
        freeze_remote_decoder_policy_v1(&assignment).err(),
        Some(RemoteDecoderPolicyError::UnknownVersion)
    );
    let short = ["semantic_ros2:v1-empty", "ros2_reflection:v1", "protobuf:v1"];
    let identities = RemoteDecoderPolicyWireV1 {
        decoder_identities: &short,
        ..canonical_policy_wire()
    };
    assert_eq!(
        freeze_remote_decoder_policy_v1(&identities).err(),
        Some(RemoteDecoderPolicyError::NonCanonicalDecoderIdentity)
    );
    let fallback = RemoteDecoderPolicyWireV1 {
        fallback_identity: "protobuf:v1",
        ..canonical_policy_wire()
    };
    assert_eq!(
        freeze_remote_decoder_policy_v1(&fallback).err(),
        Some(RemoteDecoderPolicyError::NonCanonicalFallbackIdentity)
    );
}

#[test]
fn versions_are_checked_before_identities() {
    let both = RemoteDecoderPolicyWireV1 {
        allowlist_version: 2,
        fallback_identity: "other",
        ..canonical_policy_wire()
    };
    assert_eq!(
        freeze_remote_decoder_policy_v1(&both).err(),
        Some(RemoteDecoderPolicyError::UnknownVersion)
    );
}
