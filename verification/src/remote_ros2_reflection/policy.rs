//! The exact V1 decoder policy that a remote admission is bound to.
use vstd::prelude::*;

verus! {

/// Allocation-free wire view of the decoder policy identity. `identity` tells one wire from
/// another with the same content.
pub struct RemoteDecoderPolicyWireV1<'wire> {
    pub identity: u64,
    pub allowlist_version: u16,
    pub assignment_version: u16,
    pub grammar_version: u16,
    pub decoder_identities: &'wire [&'wire str],
    pub fallback_identity: &'wire str,
}

#[derive(Clone, Copy, Debug, PartialEq, Eq, Structural)]
pub enum RemoteDecoderPolicyError {
    UnknownVersion,
    NonCanonicalDecoderIdentity,
    NonCanonicalFallbackIdentity,
}

impl RemoteDecoderPolicyError {
    /// The user-facing description of the error.
    pub fn message(&self) -> (text: &'static str)
        ensures
            text@ == match self {
                RemoteDecoderPolicyError::UnknownVersion => "remote decoder policy version is unsupported"@,
                RemoteDecoderPolicyError::NonCanonicalDecoderIdentity => "remote decoder policy identities are not canonical"@,
                RemoteDecoderPolicyError::NonCanonicalFallbackIdentity => "remote decoder fallback identity is not canonical"@,
            },
    {
        match self {
            RemoteDecoderPolicyError::UnknownVersion => "remote decoder policy version is unsupported",
            RemoteDecoderPolicyError::NonCanonicalDecoderIdentity => "remote decoder policy identities are not canonical",
            RemoteDecoderPolicyError::NonCanonicalFallbackIdentity => "remote decoder fallback identity is not canonical",
        }
    }
}

/// Sealed, move-only proof of the exact V1 decoder policy.
pub struct FrozenRemoteDecoderPolicyV1<'wire> {
    wire: &'wire RemoteDecoderPolicyWireV1<'wire>,
}

impl<'wire> FrozenRemoteDecoderPolicyV1<'wire> {
    pub closed spec fn spec_wire(&self) -> &'wire RemoteDecoderPolicyWireV1<'wire> {
        self.wire
    }

    pub fn wire(&self) -> (wire: &'wire RemoteDecoderPolicyWireV1<'wire>)
        ensures
            wire == self.spec_wire(),
    {
        self.wire
    }
}

pub const REMOTE_POLICY_VERSION_V1: u16 = 1;

pub const REMOTE_ALLOWLIST_VERSION_V1: u16 = 1;

pub const REMOTE_GRAMMAR_VERSION_V1: u16 = 1;

/// The UTF-8 bytes of a string slice.
pub open spec fn str_bytes(text: &str) -> Seq<u8> {
    <str as vstd::string::StringSliceAdditionalSpecFns>::spec_bytes(text)
}

/// The canonical decoder identities, in order, as UTF-8 bytes: `semantic_ros2:v1-empty`,
/// `ros2_reflection:v1`, `protobuf:v1` and `raw:v1`.
pub open spec fn canonical_decoder_identities() -> Seq<Seq<u8>> {
    seq![
        seq![
            0x73u8, 0x65, 0x6d, 0x61, 0x6e, 0x74, 0x69, 0x63, 0x5f, 0x72, 0x6f, 0x73, 0x32, 0x3a,
            0x76, 0x31, 0x2d, 0x65, 0x6d, 0x70, 0x74, 0x79,
        ],
        seq![
            0x72u8, 0x6f, 0x73, 0x32, 0x5f, 0x72, 0x65, 0x66, 0x6c, 0x65, 0x63, 0x74, 0x69, 0x6f,
            0x6e, 0x3a, 0x76, 0x31,
        ],
        seq![0x70u8, 0x72, 0x6f, 0x74, 0x6f, 0x62, 0x75, 0x66, 0x3a, 0x76, 0x31],
        seq![0x72u8, 0x61, 0x77, 0x3a, 0x76, 0x31],
    ]
}

/// The canonical fallback identity `raw:v1`.
pub open spec fn canonical_fallback_identity() -> Seq<u8> {
    seq![0x72u8, 0x61, 0x77, 0x3a, 0x76, 0x31]
}

pub open spec fn identities_are_canonical(identities: Seq<&str>) -> bool {
    identities.len() == 4 && forall|i: int|
        0 <= i < 4 ==> str_bytes(#[trigger] identities[i]) == canonical_decoder_identities()[i]
}

/// The policy check: exact versions first, then the exact identity list, then the fallback.
pub open spec fn policy_check(wire: RemoteDecoderPolicyWireV1) -> Result<(), RemoteDecoderPolicyError> {
    if wire.allowlist_version != 1 || wire.assignment_version != 1 || wire.grammar_version != 1 {
        Err(RemoteDecoderPolicyError::UnknownVersion)
    } else if !identities_are_canonical(wire.decoder_identities@) {
        Err(RemoteDecoderPolicyError::NonCanonicalDecoderIdentity)
    } else if str_bytes(wire.fallback_identity) != canonical_fallback_identity() {
        Err(RemoteDecoderPolicyError::NonCanonicalFallbackIdentity)
    } else {
        Ok(())
    }
}

fn bytes_are(bytes: &[u8], expected: &[u8]) -> (equal: bool)
    ensures
        equal == (bytes@ == expected@),
{
    crate::remote_ros2_reflection::names::bytes_equal(bytes, expected)
}

fn identity_at_is(identities: &[&str], index: usize, expected: &[u8]) -> (equal: bool)
    requires
        index < identities@.len(),
    ensures
        equal == (str_bytes(identities@[index as int]) == expected@),
{
    let identity: &str = identities[index];
    bytes_are(identity.as_bytes(), expected)
}

/// Freezes the policy when it is exactly the V1 policy.
pub fn freeze_remote_decoder_policy_v1<'wire>(wire: &'wire RemoteDecoderPolicyWireV1<'wire>) -> (result:
    Result<FrozenRemoteDecoderPolicyV1<'wire>, RemoteDecoderPolicyError>)
    ensures
        match policy_check(*wire) {
            Ok(()) => result matches Ok(frozen) && frozen.spec_wire() == wire,
            Err(error) => result matches Err(e) && e == error,
        },
{
    if wire.allowlist_version != REMOTE_ALLOWLIST_VERSION_V1 || wire.assignment_version
        != REMOTE_POLICY_VERSION_V1 || wire.grammar_version != REMOTE_GRAMMAR_VERSION_V1 {
        return Err(RemoteDecoderPolicyError::UnknownVersion);
    }
    let identities = wire.decoder_identities;
    let canonical = identities.len() == 4 && identity_at_is(
        identities,
        0,
        &[
            0x73u8, 0x65, 0x6d, 0x61, 0x6e, 0x74, 0x69, 0x63, 0x5f, 0x72, 0x6f, 0x73, 0x32, 0x3a,
            0x76, 0x31, 0x2d, 0x65, 0x6d, 0x70, 0x74, 0x79,
        ],
    ) && identity_at_is(
        identities,
        1,
        &[
            0x72u8, 0x6f, 0x73, 0x32, 0x5f, 0x72, 0x65, 0x66, 0x6c, 0x65, 0x63, 0x74, 0x69, 0x6f,
            0x6e, 0x3a, 0x76, 0x31,
        ],
    ) && identity_at_is(
        identities,
        2,
        &[0x70u8, 0x72, 0x6f, 0x74, 0x6f, 0x62, 0x75, 0x66, 0x3a, 0x76, 0x31],
    ) && identity_at_is(identities, 3, &[0x72u8, 0x61, 0x77, 0x3a, 0x76, 0x31]);
    proof {
        if canonical {
            assert(identities_are_canonical(wire.decoder_identities@));
        }
        if identities_are_canonical(wire.decoder_identities@) {
            assert(str_bytes(wire.decoder_identities@[0]) == canonical_decoder_identities()[0]);
            assert(str_bytes(wire.decoder_identities@[1]) == canonical_decoder_identities()[1]);
            assert(str_bytes(wire.decoder_identities@[2]) == canonical_decoder_identities()[2]);
            assert(str_bytes(wire.decoder_identities@[3]) == canonical_decoder_identities()[3]);
        }
    }
    if !canonical {
        return Err(RemoteDecoderPolicyError::NonCanonicalDecoderIdentity);
    }
    if !bytes_are(wire.fallback_identity.as_bytes(), &[0x72u8, 0x61, 0x77, 0x3a, 0x76, 0x31]) {
        return Err(RemoteDecoderPolicyError::NonCanonicalFallbackIdentity);
    }
    Ok(FrozenRemoteDecoderPolicyV1 { wire })
}

} // verus!
