//! The fixed arenas that hold an admitted ROS 2 definition set, and the exact linear-memory
//! footprint that each arena allocation is charged before it exists.
use crate::remote_ros2_reflection::admission::{
    RemoteDecoderTopicSignatureEvidenceV1, RemoteDefinitionsCapability,
};
use crate::remote_ros2_reflection::budget::{RemoteRos2ResultReservation, RemoteRos2WorkReservation};
use crate::remote_ros2_reflection::census::RemoteRos2Census;
use crate::remote_ros2_reflection::policy::FrozenRemoteDecoderPolicyV1;
use crate::remote_ros2_reflection::dependencies::RemoteRos2FixedScratchV1;
use crate::remote_ros2_reflection::materialization::CountingMaterializationSink;
use crate::remote_ros2_reflection::members::ParsedMemberKindV1;
use crate::remote_ros2_reflection::steps::{
    self, RemoteRos2InitializationError, RemoteRos2ResourceLimit, RemoteRos2StepOwnershipV1,
};
use crate::remote_ros2_reflection::types::{ParsedTypeV1, SourceTextSpan, UnfrozenRemoteRos2LimitsV1};
use vstd::prelude::*;

verus! {

pub const LOCKED_WASM_DLMALLOC_ALIGNMENT_V1: u64 = 8;

pub const LOCKED_WASM_DLMALLOC_CHUNK_OVERHEAD_V1: u64 = 4;

pub const LOCKED_WASM_DLMALLOC_MIN_CHUNK_V1: u64 = 16;

pub const LOCKED_WASM_DLMALLOC_TOP_FOOT_V1: u64 = 40;

pub const LOCKED_WASM_DLMALLOC_PAGE_V1: u64 = 65536;

/// Ceiling of the compiler-created frames and spills of the admission, checked on the release
/// artifact.
pub const LOCKED_REMOTE_ROS2_FRAME_SPILL_CEILING_V1: u64 = 16384;

/// One member record of an admitted specification.
#[derive(Clone, Copy, Debug, PartialEq, Eq, Structural)]
pub struct ParsedMemberV1 {
    pub specification_index: usize,
    pub kind: ParsedMemberKindV1,
    pub name: SourceTextSpan,
    pub ty: ParsedTypeV1,
    pub literal: Option<SourceTextSpan>,
}

/// One specification record: its schema, its name and its members `members_start..members_end`.
#[derive(Clone, Copy, Debug, PartialEq, Eq, Structural)]
pub struct ParsedSpecificationV1 {
    pub schema_index: usize,
    pub name: SourceTextSpan,
    pub members_start: usize,
    pub members_end: usize,
}

/// One schema record: its id, its Summary record index and its specifications.
#[derive(Clone, Copy, Debug, PartialEq, Eq, Structural)]
pub struct ParsedSchemaV1 {
    pub schema_id: u16,
    pub schema_record_index: usize,
    pub specifications_start: usize,
    pub specifications_end: usize,
}

/// The dependency specification that one nested member type resolves to.
#[derive(Clone, Copy, Debug, PartialEq, Eq, Structural)]
pub struct ComplexTypeResolutionV1 {
    pub member_index: usize,
    pub target_specification_index: usize,
}

/// `value` rounded up to a multiple of `alignment`, or the arithmetic error where the rounding
/// overflows a `u64`.
pub open spec fn aligned_up(value: u64, alignment: u64) -> Result<u64, RemoteRos2InitializationError> {
    if value + alignment - 1 > u64::MAX {
        Err(steps::limit_error(RemoteRos2ResourceLimit::Arithmetic))
    } else {
        Ok((((value + alignment - 1) / alignment as int) * alignment) as u64)
    }
}

pub fn align_up_checked(value: u64, alignment: u64) -> (aligned: Result<
    u64,
    RemoteRos2InitializationError,
>)
    requires
        alignment > 0,
    ensures
        aligned == aligned_up(value, alignment),
{
    let padded = match value.checked_add(alignment - 1) {
        Some(padded) => padded,
        None => {
            return Err(
                RemoteRos2InitializationError::ResourceLimitExceeded(
                    RemoteRos2ResourceLimit::Arithmetic,
                ),
            );
        },
    };
    let quotient = padded / alignment;
    assert(quotient * alignment <= padded) by (nonlinear_arith)
        requires
            quotient == padded / alignment,
            alignment > 0,
    ;
    Ok(quotient * alignment)
}

/// The dlmalloc chunk size that serves a request of `request` bytes.
pub open spec fn request_chunk(request: u64) -> Result<u64, RemoteRos2InitializationError> {
    if request < LOCKED_WASM_DLMALLOC_MIN_CHUNK_V1 - LOCKED_WASM_DLMALLOC_CHUNK_OVERHEAD_V1 - 1 {
        Ok(LOCKED_WASM_DLMALLOC_MIN_CHUNK_V1)
    } else if request + LOCKED_WASM_DLMALLOC_CHUNK_OVERHEAD_V1 > u64::MAX {
        Err(steps::limit_error(RemoteRos2ResourceLimit::Arithmetic))
    } else {
        aligned_up(
            (request + LOCKED_WASM_DLMALLOC_CHUNK_OVERHEAD_V1) as u64,
            LOCKED_WASM_DLMALLOC_ALIGNMENT_V1,
        )
    }
}

fn request_to_chunk(request: u64) -> (chunk: Result<u64, RemoteRos2InitializationError>)
    ensures
        chunk == request_chunk(request),
{
    if request < LOCKED_WASM_DLMALLOC_MIN_CHUNK_V1 - LOCKED_WASM_DLMALLOC_CHUNK_OVERHEAD_V1 - 1 {
        Ok(LOCKED_WASM_DLMALLOC_MIN_CHUNK_V1)
    } else {
        align_up_checked(
            steps::checked_add(request, LOCKED_WASM_DLMALLOC_CHUNK_OVERHEAD_V1)?,
            LOCKED_WASM_DLMALLOC_ALIGNMENT_V1,
        )
    }
}

/// The linear-memory footprint charged for one allocation of `size` bytes aligned to `align`:
/// nothing for an empty allocation, else the whole memory growth that the chunk serving it
/// (through the over-allocating path above the allocator's own alignment) together with the top
/// foot could cause, in pages.
pub open spec fn allocation_footprint(size: u64, align: u64) -> Result<
    u64,
    RemoteRos2InitializationError,
> {
    if size == 0 {
        Ok(0)
    } else {
        let chunk = if align <= LOCKED_WASM_DLMALLOC_ALIGNMENT_V1 {
            request_chunk(size)
        } else {
            match request_chunk(size) {
                Err(error) => Err(error),
                Ok(payload) => if payload + align > u64::MAX || payload + align
                    + (LOCKED_WASM_DLMALLOC_MIN_CHUNK_V1 - LOCKED_WASM_DLMALLOC_CHUNK_OVERHEAD_V1)
                    > u64::MAX {
                    Err(steps::limit_error(RemoteRos2ResourceLimit::Arithmetic))
                } else {
                    request_chunk(
                        (payload + align + (LOCKED_WASM_DLMALLOC_MIN_CHUNK_V1
                            - LOCKED_WASM_DLMALLOC_CHUNK_OVERHEAD_V1)) as u64,
                    )
                },
            }
        };
        match chunk {
            Err(error) => Err(error),
            Ok(chunk) => if chunk + LOCKED_WASM_DLMALLOC_TOP_FOOT_V1 + LOCKED_WASM_DLMALLOC_ALIGNMENT_V1
                > u64::MAX {
                Err(steps::limit_error(RemoteRos2ResourceLimit::Arithmetic))
            } else {
                aligned_up(
                    (chunk + LOCKED_WASM_DLMALLOC_TOP_FOOT_V1 + LOCKED_WASM_DLMALLOC_ALIGNMENT_V1) as u64,
                    LOCKED_WASM_DLMALLOC_PAGE_V1,
                )
            },
        }
    }
}

/// Upper bound on the linear-memory footprint attributable to one allocation of the given layout
/// size and alignment.
pub fn locked_wasm_allocation_footprint_v1(size: usize, align: usize) -> (footprint: Result<
    u64,
    RemoteRos2InitializationError,
>)
    ensures
        footprint == allocation_footprint(size as u64, align as u64),
{
    let requested = size as u64;
    if requested == 0 {
        return Ok(0);
    }
    let alignment = align as u64;
    let chunk = if alignment <= LOCKED_WASM_DLMALLOC_ALIGNMENT_V1 {
        request_to_chunk(requested)?
    } else {
        let aligned_payload = request_to_chunk(requested)?;
        let memalign_request = steps::checked_add(
            steps::checked_add(aligned_payload, alignment)?,
            LOCKED_WASM_DLMALLOC_MIN_CHUNK_V1 - LOCKED_WASM_DLMALLOC_CHUNK_OVERHEAD_V1,
        )?;
        request_to_chunk(memalign_request)?
    };
    align_up_checked(
        steps::checked_add(
            chunk,
            LOCKED_WASM_DLMALLOC_TOP_FOOT_V1 + LOCKED_WASM_DLMALLOC_ALIGNMENT_V1,
        )?,
        LOCKED_WASM_DLMALLOC_PAGE_V1,
    )
}

/// The byte size of an array of `count` elements of `element_size` bytes aligned to `align`, or
/// none where it overflows or exceeds the largest object size.
pub open spec fn array_layout_size(count: nat, element_size: nat, align: nat) -> Option<nat> {
    if count * element_size > isize::MAX - (align - 1) {
        None
    } else {
        Some(count * element_size)
    }
}

/// The footprint charged for an arena of `count` elements of `T`.
pub open spec fn arena_footprint<T>(count: u64) -> Result<u64, RemoteRos2InitializationError> {
    if count > usize::MAX {
        Err(steps::limit_error(RemoteRos2ResourceLimit::Arithmetic))
    } else {
        match array_layout_size(
            count as nat,
            vstd::layout::size_of::<T>(),
            vstd::layout::align_of::<T>(),
        ) {
            None => Err(steps::limit_error(RemoteRos2ResourceLimit::Arithmetic)),
            Some(size) => allocation_footprint(size as u64, vstd::layout::align_of::<T>() as u64),
        }
    }
}

pub fn arena_allocation_footprint<T>(count: u64) -> (footprint: Result<
    u64,
    RemoteRos2InitializationError,
>)
    ensures
        footprint == arena_footprint::<T>(count),
{
    let count = steps::checked_usize(count)?;
    vstd::layout::layout_for_type_is_valid::<T>();
    let element_size = std::mem::size_of::<T>();
    let align = std::mem::align_of::<T>();
    if align - 1 > isize::MAX as usize {
        return Err(
            RemoteRos2InitializationError::ResourceLimitExceeded(
                RemoteRos2ResourceLimit::Arithmetic,
            ),
        );
    }
    let limit = isize::MAX as usize - (align - 1);
    let size = match count.checked_mul(element_size) {
        Some(size) => size,
        None => {
            return Err(
                RemoteRos2InitializationError::ResourceLimitExceeded(
                    RemoteRos2ResourceLimit::Arithmetic,
                ),
            );
        },
    };
    if size > limit {
        return Err(
            RemoteRos2InitializationError::ResourceLimitExceeded(
                RemoteRos2ResourceLimit::Arithmetic,
            ),
        );
    }
    locked_wasm_allocation_footprint_v1(size, align)
}


/// Reserves room for exactly `additional` more elements (`Vec::try_reserve_exact`); whether the
/// allocator grants it is not known in advance.
#[verifier::external_body]
pub(crate) fn try_reserve_exact_room<T>(storage: &mut Vec<T>, additional: usize) -> (reserved: bool)
    ensures
        final(storage)@ == old(storage)@,
{
    storage.try_reserve_exact(additional).is_ok()
}

/// A fixed-capacity arena: its one allocation is explicitly fallible and it never grows.
pub struct FixedArena<T> {
    storage: Vec<T>,
    capacity: usize,
}

impl<T> FixedArena<T> {
    pub closed spec fn items(&self) -> Seq<T> {
        self.storage@
    }

    pub closed spec fn spec_capacity(&self) -> nat {
        self.capacity as nat
    }

    /// An empty arena with room for exactly `capacity` elements, or the allocation failure.
    pub fn try_new(capacity: usize) -> (arena: Result<Self, RemoteRos2InitializationError>)
        ensures
            arena matches Ok(arena) ==> arena.items() == Seq::<T>::empty() && arena.spec_capacity()
                == capacity,
            arena matches Err(error) ==> error == RemoteRos2InitializationError::FallibleAllocationFailed,
    {
        let mut storage: Vec<T> = Vec::new();
        if !try_reserve_exact_room(&mut storage, capacity) {
            return Err(RemoteRos2InitializationError::FallibleAllocationFailed);
        }
        Ok(FixedArena { storage, capacity })
    }

    pub fn len(&self) -> (len: usize)
        ensures
            len == self.items().len(),
    {
        self.storage.len()
    }

    pub fn capacity(&self) -> (capacity: usize)
        ensures
            capacity == self.spec_capacity(),
    {
        self.capacity
    }

    /// Appends `value`; the census guarantees the room for it.
    pub fn push(&mut self, value: T) -> (result: Result<(), RemoteRos2InitializationError>)
        requires
            old(self).items().len() < old(self).spec_capacity(),
        ensures
            result is Ok,
            final(self).items() == old(self).items().push(value),
            final(self).spec_capacity() == old(self).spec_capacity(),
    {
        self.storage.push(value);
        Ok(())
    }

    pub fn as_slice(&self) -> (items: &[T])
        ensures
            items@ == self.items(),
    {
        self.storage.as_slice()
    }

    pub fn get(&self, index: usize) -> (item: Result<&T, RemoteRos2InitializationError>)
        requires
            index < self.items().len(),
        ensures
            item matches Ok(item) && *item == self.items()[index as int],
    {
        Ok(&self.storage[index])
    }
}

/// The four arenas of an admitted definition set.
pub struct Ros2ArenaDirectoryV1 {
    pub schemas: FixedArena<ParsedSchemaV1>,
    pub specifications: FixedArena<ParsedSpecificationV1>,
    pub members: FixedArena<ParsedMemberV1>,
    pub resolutions: FixedArena<ComplexTypeResolutionV1>,
}

/// The sealed result of a ROS 2 admission: the source and policy it is bound to, its arenas,
/// the step bounds of the later stages and its retained-bytes reservation.
pub struct Ros2InitializedRemoteDefinitionsV1<'definitions, 'input, 'source, 'wire> {
    pub source: RemoteDefinitionsCapability<'definitions, 'input, 'source>,
    pub policy: FrozenRemoteDecoderPolicyV1<'wire>,
    pub arenas: Ros2ArenaDirectoryV1,
    pub projection_steps: u64,
    pub recognition_steps: u64,
    pub reservation: RemoteRos2ResultReservation,
}

/// The sealed output of the census: the signature evidence, the exact counts, the working
/// reservation and the exact materialization step owner.
pub struct PreparedRemoteRos2CensusV1<'definitions, 'input, 'source, 'wire> {
    pub evidence: RemoteDecoderTopicSignatureEvidenceV1<'definitions, 'input, 'source, 'wire>,
    pub census: RemoteRos2Census,
    pub reservation: RemoteRos2WorkReservation,
    pub materialization_steps: RemoteRos2StepOwnershipV1,
}

/// The bytes of the sealed owner objects, whose storage does not depend on the input, plus the
/// ceiling of compiler frames and spills.
pub open spec fn sealed_working_bytes() -> Result<u64, RemoteRos2InitializationError> {
    let bytes = vstd::layout::size_of::<RemoteRos2FixedScratchV1>() + vstd::layout::size_of::<
        Ros2ArenaDirectoryV1,
    >() + vstd::layout::size_of::<CountingMaterializationSink>() + vstd::layout::size_of::<
        PreparedRemoteRos2CensusV1<'static, 'static, 'static, 'static>,
    >();
    if bytes > usize::MAX || bytes + LOCKED_REMOTE_ROS2_FRAME_SPILL_CEILING_V1 > u64::MAX {
        Err(steps::limit_error(RemoteRos2ResourceLimit::Arithmetic))
    } else {
        Ok((bytes + LOCKED_REMOTE_ROS2_FRAME_SPILL_CEILING_V1) as u64)
    }
}

fn checked_usize_add(left: usize, right: usize) -> (sum: Result<usize, RemoteRos2InitializationError>)
    ensures
        left + right <= usize::MAX ==> sum == Ok::<usize, RemoteRos2InitializationError>(
            (left + right) as usize,
        ),
        left + right > usize::MAX ==> sum == Err::<usize, RemoteRos2InitializationError>(
            steps::limit_error(RemoteRos2ResourceLimit::Arithmetic),
        ),
{
    match left.checked_add(right) {
        Some(sum) => Ok(sum),
        None => Err(
            RemoteRos2InitializationError::ResourceLimitExceeded(RemoteRos2ResourceLimit::Arithmetic),
        ),
    }
}

pub fn sealed_fixed_working_bytes_v1() -> (bytes: Result<u64, RemoteRos2InitializationError>)
    ensures
        bytes == sealed_working_bytes(),
{
    let bytes = checked_usize_add(
        checked_usize_add(
            checked_usize_add(
                std::mem::size_of::<RemoteRos2FixedScratchV1>(),
                std::mem::size_of::<Ros2ArenaDirectoryV1>(),
            )?,
            std::mem::size_of::<CountingMaterializationSink>(),
        )?,
        std::mem::size_of::<PreparedRemoteRos2CensusV1<'static, 'static, 'static, 'static>>(),
    )?;
    steps::checked_add(bytes as u64, LOCKED_REMOTE_ROS2_FRAME_SPILL_CEILING_V1)
}

/// The inline bytes of the sealed admission result.
pub fn remote_ros2_result_inline_bytes_v1() -> (bytes: Result<u64, RemoteRos2InitializationError>)
    ensures
        vstd::layout::size_of::<Ros2InitializedRemoteDefinitionsV1<'static, 'static, 'static, 'static>>() <= usize::MAX,
        bytes == Ok::<u64, RemoteRos2InitializationError>(
            vstd::layout::size_of::<Ros2InitializedRemoteDefinitionsV1<'static, 'static, 'static, 'static>>() as u64,
        ),
{
    Ok(std::mem::size_of::<Ros2InitializedRemoteDefinitionsV1<'static, 'static, 'static, 'static>>() as u64)
}

/// The retained bytes of the arenas and the sealed result for the counts of `census`, and the
/// working bytes that add the sealed owner objects, or the first arithmetic or limit error.
pub open spec fn arena_peak(census: RemoteRos2Census, limits: UnfrozenRemoteRos2LimitsV1) -> Result<
    (u64, u64),
    RemoteRos2InitializationError,
> {
    match arena_footprint::<ParsedSchemaV1>(census.schemas) {
        Err(error) => Err(error),
        Ok(schema_bytes) => match arena_footprint::<ParsedSpecificationV1>(census.specifications) {
            Err(error) => Err(error),
            Ok(specification_bytes) => match arena_footprint::<ParsedMemberV1>(census.members) {
                Err(error) => Err(error),
                Ok(member_bytes) => match arena_footprint::<ComplexTypeResolutionV1>(
                    census.dependency_edges,
                ) {
                    Err(error) => Err(error),
                    Ok(resolution_bytes) => {
                        let inline = vstd::layout::size_of::<Ros2InitializedRemoteDefinitionsV1<'static, 'static, 'static, 'static>>();
                        if schema_bytes + specification_bytes > u64::MAX || member_bytes
                            + resolution_bytes > u64::MAX || schema_bytes + specification_bytes
                            + member_bytes + resolution_bytes > u64::MAX || schema_bytes
                            + specification_bytes + member_bytes + resolution_bytes + inline
                            > u64::MAX {
                            Err(steps::limit_error(RemoteRos2ResourceLimit::Arithmetic))
                        } else {
                            let retained = schema_bytes + specification_bytes + member_bytes
                                + resolution_bytes + inline;
                            if retained > limits.max_retained_bytes {
                                Err(steps::limit_error(RemoteRos2ResourceLimit::RetainedBytes))
                            } else {
                                match sealed_working_bytes() {
                                    Err(error) => Err(error),
                                    Ok(sealed) => if retained + sealed > u64::MAX {
                                        Err(steps::limit_error(RemoteRos2ResourceLimit::Arithmetic))
                                    } else if retained + sealed > limits.max_working_bytes {
                                        Err(steps::limit_error(RemoteRos2ResourceLimit::WorkingBytes))
                                    } else {
                                        Ok((retained as u64, (retained + sealed) as u64))
                                    },
                                }
                            }
                        }
                    },
                },
            },
        },
    }
}

/// Sets the exact retained and working byte peaks of `census`, which change only when both fit
/// their limits.
pub fn compute_arena_peak(census: &mut RemoteRos2Census, limits: &UnfrozenRemoteRos2LimitsV1) -> (result:
    Result<(), RemoteRos2InitializationError>)
    ensures
        match arena_peak(*old(census), *limits) {
            Ok((retained, working)) => result is Ok && *final(census) == (RemoteRos2Census {
                retained_bytes: retained,
                working_bytes: working,
                ..*old(census)
            }),
            Err(error) => result == Err::<(), RemoteRos2InitializationError>(error)
                && *final(census) == *old(census),
        },
{
    let schema_bytes = arena_allocation_footprint::<ParsedSchemaV1>(census.schemas)?;
    let specification_bytes = arena_allocation_footprint::<ParsedSpecificationV1>(
        census.specifications,
    )?;
    let member_bytes = arena_allocation_footprint::<ParsedMemberV1>(census.members)?;
    let resolution_bytes = arena_allocation_footprint::<ComplexTypeResolutionV1>(
        census.dependency_edges,
    )?;
    let retained = steps::checked_add(
        steps::checked_add(schema_bytes, specification_bytes)?,
        steps::checked_add(member_bytes, resolution_bytes)?,
    )?;
    let retained = steps::checked_add(retained, remote_ros2_result_inline_bytes_v1()?)?;
    if retained > limits.max_retained_bytes {
        return Err(
            RemoteRos2InitializationError::ResourceLimitExceeded(
                RemoteRos2ResourceLimit::RetainedBytes,
            ),
        );
    }
    let working = steps::checked_add(retained, sealed_fixed_working_bytes_v1()?)?;
    if working > limits.max_working_bytes {
        return Err(
            RemoteRos2InitializationError::ResourceLimitExceeded(
                RemoteRos2ResourceLimit::WorkingBytes,
            ),
        );
    }
    census.retained_bytes = retained;
    census.working_bytes = working;
    Ok(())
}

/// Charges the four arena allocation actions.
pub fn consume_arena_allocation_steps(meter: &mut RemoteRos2StepOwnershipV1) -> (result: Result<
    (),
    RemoteRos2InitializationError,
>)
    ensures
        steps::metered(*old(meter), Ok(()), 4, result, *final(meter)),
{
    let ghost initial = *meter;
    proof {
        steps::lemma_metered_pure(initial, Ok::<(), RemoteRos2InitializationError>(()));
    }
    let mut arena: usize = 0;
    while arena < 4
        invariant
            arena <= 4,
            initial == *old(meter),
            steps::metered(initial, Ok(()), arena as nat, Ok(()), *meter),
        decreases 4 - arena,
    {
        let ghost before = *meter;
        let step = meter.consume();
        if step.is_err() {
            proof {
                steps::lemma_charge_stop(
                    initial,
                    arena as nat,
                    before,
                    step,
                    *meter,
                    Ok::<(), RemoteRos2InitializationError>(()),
                    4,
                );
            }
            return Err(step.unwrap_err());
        }
        proof {
            steps::lemma_charge_ok(initial, arena as nat, before, step, *meter);
        }
        arena = arena + 1;
    }
    Ok(())
}

/// The exact projection step bound `n^3 + n^2 + n` for `n` Summary records: one canonicality scan
/// per record and one nested channel scan per candidate schema.
pub open spec fn projection_step_bound(record_count: u64, max_projection_steps: u64) -> Result<
    u64,
    RemoteRos2InitializationError,
> {
    let n = record_count as int;
    if n * n * n + n * n + n > u64::MAX {
        Err(steps::limit_error(RemoteRos2ResourceLimit::Arithmetic))
    } else if n * n * n + n * n + n > max_projection_steps {
        Err(steps::limit_error(RemoteRos2ResourceLimit::ProjectionSteps))
    } else {
        Ok((n * n * n + n * n + n) as u64)
    }
}

pub fn checked_remote_protobuf_projection_step_bound_v1(
    record_count: u64,
    max_projection_steps: u64,
) -> (bound: Result<u64, RemoteRos2InitializationError>)
    ensures
        bound == projection_step_bound(record_count, max_projection_steps),
{
    let n = record_count;
    let ghost cube_int = n * n * n;
    proof {
        assert(n * n <= n * n * n || n == 0) by (nonlinear_arith);
        assert(n * n * n >= 0) by (nonlinear_arith);
    }
    let square = match n.checked_mul(n) {
        Some(square) => square,
        None => {
            proof {
                assert(n * n * n >= n * n) by (nonlinear_arith)
                    requires
                        n * n > u64::MAX,
                ;
            }
            return Err(
                RemoteRos2InitializationError::ResourceLimitExceeded(
                    RemoteRos2ResourceLimit::Arithmetic,
                ),
            );
        },
    };
    let cube = match square.checked_mul(n) {
        Some(cube) => cube,
        None => {
            return Err(
                RemoteRos2InitializationError::ResourceLimitExceeded(
                    RemoteRos2ResourceLimit::Arithmetic,
                ),
            );
        },
    };
    let steps_total = steps::checked_add(steps::checked_add(cube, square)?, n)?;
    if steps_total > max_projection_steps {
        return Err(
            RemoteRos2InitializationError::ResourceLimitExceeded(
                RemoteRos2ResourceLimit::ProjectionSteps,
            ),
        );
    }
    Ok(steps_total)
}


/// The first failure of the arena allocations that does not depend on the allocator: before
/// each of the four arenas one step of `limit` and a capacity that fits a `usize`.
pub open spec fn arena_allocation_failure(
    census: RemoteRos2Census,
    remaining: nat,
    limit: RemoteRos2ResourceLimit,
) -> Option<RemoteRos2InitializationError> {
    let arithmetic = steps::limit_error(RemoteRos2ResourceLimit::Arithmetic);
    if remaining < 1 {
        Some(steps::limit_error(limit))
    } else if census.schemas > usize::MAX {
        Some(arithmetic)
    } else if remaining < 2 {
        Some(steps::limit_error(limit))
    } else if census.specifications > usize::MAX {
        Some(arithmetic)
    } else if remaining < 3 {
        Some(steps::limit_error(limit))
    } else if census.members > usize::MAX {
        Some(arithmetic)
    } else if remaining < 4 {
        Some(steps::limit_error(limit))
    } else if census.dependency_edges > usize::MAX {
        Some(arithmetic)
    } else {
        None
    }
}

/// Allocates the four arenas with exactly the census capacities, charging one step before each
/// allocation. Whether the allocator grants an arena is not known in advance; every other
/// failure is the first missing step or a count that does not fit a `usize`.
pub fn allocate_remote_ros2_arenas(
    census: RemoteRos2Census,
    meter: &mut RemoteRos2StepOwnershipV1,
) -> (directory: Result<Ros2ArenaDirectoryV1, RemoteRos2InitializationError>)
    ensures
        final(meter).limit() == old(meter).limit(),
        final(meter).consumed_steps() + final(meter).remaining_steps() == old(
            meter,
        ).consumed_steps() + old(meter).remaining_steps(),
        directory matches Ok(directory) ==> {
            &&& old(meter).remaining_steps() >= 4
            &&& final(meter).remaining_steps() == old(meter).remaining_steps() - 4
            &&& directory.schemas.items().len() == 0
            &&& directory.schemas.spec_capacity() == census.schemas
            &&& directory.specifications.items().len() == 0
            &&& directory.specifications.spec_capacity() == census.specifications
            &&& directory.members.items().len() == 0
            &&& directory.members.spec_capacity() == census.members
            &&& directory.resolutions.items().len() == 0
            &&& directory.resolutions.spec_capacity() == census.dependency_edges
        },
        directory matches Err(error) ==> {
            ||| error == RemoteRos2InitializationError::FallibleAllocationFailed
            ||| (error == steps::limit_error(old(meter).limit()) && old(meter).remaining_steps()
                < 4 && final(meter).remaining_steps() == 0)
            ||| (error == steps::limit_error(RemoteRos2ResourceLimit::Arithmetic) && (
            census.schemas > usize::MAX || census.specifications > usize::MAX || census.members
                > usize::MAX || census.dependency_edges > usize::MAX))
        },
        match arena_allocation_failure(census, old(meter).remaining_steps(), old(meter).limit()) {
            None => directory is Ok || directory == Err::<
                Ros2ArenaDirectoryV1,
                RemoteRos2InitializationError,
            >(RemoteRos2InitializationError::FallibleAllocationFailed),
            Some(error) => directory == Err::<Ros2ArenaDirectoryV1, RemoteRos2InitializationError>(
                error,
            ) || directory == Err::<Ros2ArenaDirectoryV1, RemoteRos2InitializationError>(
                RemoteRos2InitializationError::FallibleAllocationFailed,
            ),
        },
{
    let ghost initial = *meter;
    meter.consume()?;
    let schemas = FixedArena::try_new(steps::checked_usize(census.schemas)?)?;
    meter.consume()?;
    let specifications = FixedArena::try_new(steps::checked_usize(census.specifications)?)?;
    meter.consume()?;
    let members = FixedArena::try_new(steps::checked_usize(census.members)?)?;
    meter.consume()?;
    let resolutions = FixedArena::try_new(steps::checked_usize(census.dependency_edges)?)?;
    Ok(Ros2ArenaDirectoryV1 { schemas, specifications, members, resolutions })
}

} // verus!
