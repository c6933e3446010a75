//! Error types and the metered step owner shared by every remote ROS 2 stage.
//!
//! Every scan charges one step per inspected byte. A metered computation either finishes within
//! the owner's remaining steps, with its own outcome, or stops with the owner's resource-limit
//! error once the steps run out.
use vstd::prelude::*;

verus! {

#[derive(Clone, Copy, Debug, PartialEq, Eq, Structural)]
pub enum UnsupportedForRemote {
    Ros2Wstring,
    GrammarFeature,
    DependencyGraph,
}

#[derive(Clone, Copy, Debug, PartialEq, Eq, Structural)]
pub enum RemoteRos2ResourceLimit {
    SchemaCount,
    DefinitionBytes,
    SpecificationCount,
    FieldCount,
    ConstantCount,
    MemberCount,
    LineBytes,
    TokenBytes,
    IdentifierBytes,
    DefaultBytes,
    StringLiteralBytes,
    StringBound,
    ArrayBound,
    DependencyEdges,
    DependencyDepth,
    SignatureSteps,
    ProjectionSteps,
    RecognitionSteps,
    CensusSteps,
    MaterializationSteps,
    RetainedBytes,
    WorkingBytes,
    ReservationCapacity,
    Arithmetic,
}

#[derive(Clone, Copy, Debug, PartialEq, Eq, Structural)]
pub enum RemoteRos2InitializationError {
    InvalidRemoteSchema,
    UnsupportedForRemote(UnsupportedForRemote),
    ResourceLimitExceeded(RemoteRos2ResourceLimit),
    FallibleAllocationFailed,
    StaleSource,
    ConflictingTopicDecoderSignature,
}

impl RemoteRos2InitializationError {
    /// The user-facing description of the error.
    pub fn message(&self) -> (text: &'static str)
        ensures
            text@ == match self {
                RemoteRos2InitializationError::InvalidRemoteSchema => "remote ROS 2 schema is invalid"@,
                RemoteRos2InitializationError::UnsupportedForRemote(
                    UnsupportedForRemote::Ros2Wstring,
                ) => "remote ROS 2 schema uses unsupported wstring data"@,
                RemoteRos2InitializationError::UnsupportedForRemote(
                    UnsupportedForRemote::GrammarFeature,
                ) => "remote ROS 2 schema uses a grammar feature outside the V1 profile"@,
                RemoteRos2InitializationError::UnsupportedForRemote(
                    UnsupportedForRemote::DependencyGraph,
                ) => "remote ROS 2 schema dependency graph is unsupported"@,
                RemoteRos2InitializationError::ResourceLimitExceeded(_) => "remote ROS 2 schema exceeds a resource limit"@,
                RemoteRos2InitializationError::FallibleAllocationFailed => "remote ROS 2 schema allocation failed"@,
                RemoteRos2InitializationError::StaleSource => "remote ROS 2 source is stale"@,
                RemoteRos2InitializationError::ConflictingTopicDecoderSignature => "remote MCAP topic has conflicting decoder signatures"@,
            },
    {
        match self {
            RemoteRos2InitializationError::InvalidRemoteSchema => "remote ROS 2 schema is invalid",
            RemoteRos2InitializationError::UnsupportedForRemote(
                UnsupportedForRemote::Ros2Wstring,
            ) => "remote ROS 2 schema uses unsupported wstring data",
            RemoteRos2InitializationError::UnsupportedForRemote(
                UnsupportedForRemote::GrammarFeature,
            ) => "remote ROS 2 schema uses a grammar feature outside the V1 profile",
            RemoteRos2InitializationError::UnsupportedForRemote(
                UnsupportedForRemote::DependencyGraph,
            ) => "remote ROS 2 schema dependency graph is unsupported",
            RemoteRos2InitializationError::ResourceLimitExceeded(_) => "remote ROS 2 schema exceeds a resource limit",
            RemoteRos2InitializationError::FallibleAllocationFailed => "remote ROS 2 schema allocation failed",
            RemoteRos2InitializationError::StaleSource => "remote ROS 2 source is stale",
            RemoteRos2InitializationError::ConflictingTopicDecoderSignature => "remote MCAP topic has conflicting decoder signatures",
        }
    }
}

/// Shorthand for the resource-limit error of one limit.
pub open spec fn limit_error(kind: RemoteRos2ResourceLimit) -> RemoteRos2InitializationError {
    RemoteRos2InitializationError::ResourceLimitExceeded(kind)
}

/// Shorthand for an error outside the remote V1 subset.
pub open spec fn unsupported(reason: UnsupportedForRemote) -> RemoteRos2InitializationError {
    RemoteRos2InitializationError::UnsupportedForRemote(reason)
}

/// An exact step budget: `remaining` steps may still be consumed, `consumed` were.
pub struct RemoteRos2StepOwnershipV1 {
    remaining: u64,
    consumed: u64,
    limit_kind: RemoteRos2ResourceLimit,
}

impl RemoteRos2StepOwnershipV1 {
    #[verifier::type_invariant]
    spec fn balanced(self) -> bool {
        self.consumed + self.remaining <= u64::MAX
    }

    pub closed spec fn remaining_steps(self) -> nat {
        self.remaining as nat
    }

    pub closed spec fn consumed_steps(self) -> nat {
        self.consumed as nat
    }

    pub closed spec fn limit(self) -> RemoteRos2ResourceLimit {
        self.limit_kind
    }

    pub fn with_limit(remaining: u64, limit_kind: RemoteRos2ResourceLimit) -> (steps: Self)
        ensures
            steps.remaining_steps() == remaining,
            steps.consumed_steps() == 0,
            steps.limit() == limit_kind,
    {
        RemoteRos2StepOwnershipV1 { remaining, consumed: 0, limit_kind }
    }

    pub fn remaining(&self) -> (remaining: u64)
        ensures
            remaining == self.remaining_steps(),
    {
        self.remaining
    }

    pub fn consumed(&self) -> (consumed: u64)
        ensures
            consumed == self.consumed_steps(),
    {
        self.consumed
    }

    /// Charges one step.
    pub fn consume(&mut self) -> (result: Result<(), RemoteRos2InitializationError>)
        ensures
            metered(*old(self), Ok(()), 1, result, *final(self)),
    {
        proof {
            use_type_invariant(&*self);
        }
        if self.remaining == 0 {
            return Err(RemoteRos2InitializationError::ResourceLimitExceeded(self.limit_kind));
        }
        self.remaining = self.remaining - 1;
        self.consumed = self.consumed + 1;
        Ok(())
    }

    /// Charges one loop iteration.
    pub fn step(&mut self) -> (result: Result<(), RemoteRos2InitializationError>)
        ensures
            metered(*old(self), Ok(()), 1, result, *final(self)),
    {
        self.consume()
    }

    /// Charges one step per byte.
    pub fn consume_bytes(&mut self, bytes: usize) -> (result: Result<
        (),
        RemoteRos2InitializationError,
    >)
        ensures
            metered(*old(self), Ok(()), bytes as nat, result, *final(self)),
    {
        let ghost start = *self;
        let mut charged: usize = 0;
        proof {
            lemma_metered_pure(start, Ok::<(), RemoteRos2InitializationError>(()));
        }
        while charged < bytes
            invariant
                charged <= bytes,
                start == *old(self),
                metered(start, Ok(()), charged as nat, Ok(()), *self),
            decreases bytes - charged,
        {
            let ghost before = *self;
            let step = self.consume();
            match step {
                Ok(()) => {
                    proof {
                        lemma_metered_then(
                            start,
                            Ok::<(), RemoteRos2InitializationError>(()),
                            charged as nat,
                            Ok(()),
                            before,
                            Ok::<(), RemoteRos2InitializationError>(()),
                            1,
                            step,
                            *self,
                        );
                    }
                },
                Err(error) => {
                    proof {
                        lemma_metered_then_stop(
                            start,
                            Ok::<(), RemoteRos2InitializationError>(()),
                            charged as nat,
                            Ok(()),
                            before,
                            Ok::<(), RemoteRos2InitializationError>(()),
                            1,
                            step,
                            *self,
                            Ok::<(), RemoteRos2InitializationError>(()),
                            bytes as nat,
                        );
                    }
                    return Err(error);
                },
            }
            charged = charged + 1;
        }
        Ok(())
    }

    /// Materialization must spend its exact step owner.
    pub fn ensure_exhausted(&self) -> (result: Result<(), RemoteRos2InitializationError>)
        requires
            self.remaining_steps() == 0,
        ensures
            result is Ok,
    {
        if self.remaining == 0 {
            Ok(())
        } else {
            Err(RemoteRos2InitializationError::ResourceLimitExceeded(self.limit_kind))
        }
    }
}

/// A metered computation with the given outcome and step cost ran from `before` to `after`:
/// within the remaining steps it returns its outcome and spends exactly its cost; beyond them it
/// stops with the owner's resource-limit error after spending every remaining step.
pub open spec fn metered<T>(
    before: RemoteRos2StepOwnershipV1,
    outcome: Result<T, RemoteRos2InitializationError>,
    cost: nat,
    result: Result<T, RemoteRos2InitializationError>,
    after: RemoteRos2StepOwnershipV1,
) -> bool {
    &&& after.limit() == before.limit()
    &&& after.consumed_steps() + after.remaining_steps() == before.consumed_steps()
        + before.remaining_steps()
    &&& if cost <= before.remaining_steps() {
        &&& result == outcome
        &&& after.remaining_steps() == before.remaining_steps() - cost
    } else {
        &&& result == Err::<T, RemoteRos2InitializationError>(limit_error(before.limit()))
        &&& after.remaining_steps() == 0
    }
}

/// A metered sub-computation run with `budget` steps of kind `limit` left: its outcome and the
/// steps left after it, or the resource error with no step left.
pub open spec fn within_budget<T>(
    budget: nat,
    limit: RemoteRos2ResourceLimit,
    outcome: Result<T, RemoteRos2InitializationError>,
    cost: nat,
) -> (Result<T, RemoteRos2InitializationError>, nat) {
    if cost <= budget {
        (outcome, (budget - cost) as nat)
    } else {
        (Err(limit_error(limit)), 0)
    }
}

pub proof fn lemma_metered_budget<T>(
    before: RemoteRos2StepOwnershipV1,
    outcome: Result<T, RemoteRos2InitializationError>,
    cost: nat,
    result: Result<T, RemoteRos2InitializationError>,
    after: RemoteRos2StepOwnershipV1,
)
    requires
        metered(before, outcome, cost, result, after),
    ensures
        (result, after.remaining_steps()) == within_budget(
            before.remaining_steps(),
            before.limit(),
            outcome,
            cost,
        ),
        after.limit() == before.limit(),
        after.consumed_steps() + after.remaining_steps() == before.consumed_steps()
            + before.remaining_steps(),
{
}

/// A computation that charges nothing.
pub proof fn lemma_metered_pure<T>(
    steps: RemoteRos2StepOwnershipV1,
    outcome: Result<T, RemoteRos2InitializationError>,
)
    ensures
        metered(steps, outcome, 0, outcome, steps),
{
}

/// Sequencing: a successful metered run followed by another.
pub proof fn lemma_metered_then<A, B>(
    s0: RemoteRos2StepOwnershipV1,
    first: Result<A, RemoteRos2InitializationError>,
    first_cost: nat,
    first_result: Result<A, RemoteRos2InitializationError>,
    s1: RemoteRos2StepOwnershipV1,
    second: Result<B, RemoteRos2InitializationError>,
    second_cost: nat,
    second_result: Result<B, RemoteRos2InitializationError>,
    s2: RemoteRos2StepOwnershipV1,
)
    requires
        metered(s0, first, first_cost, first_result, s1),
        first_result is Ok,
        metered(s1, second, second_cost, second_result, s2),
    ensures
        first_result == first,
        first_cost <= s0.remaining_steps(),
        metered(s0, second, first_cost + second_cost, second_result, s2),
{
}

/// Stopping: a failed metered run ends the enclosing computation.
pub proof fn lemma_metered_stop<A, B>(
    s0: RemoteRos2StepOwnershipV1,
    first: Result<A, RemoteRos2InitializationError>,
    first_cost: nat,
    first_result: Result<A, RemoteRos2InitializationError>,
    s1: RemoteRos2StepOwnershipV1,
    outcome: Result<B, RemoteRos2InitializationError>,
    cost: nat,
)
    requires
        metered(s0, first, first_cost, first_result, s1),
        first_result is Err,
        first is Err ==> outcome == Err::<B, RemoteRos2InitializationError>(first->Err_0) && cost
            == first_cost,
        first is Ok ==> cost >= first_cost,
    ensures
        metered(s0, outcome, cost, Err::<B, RemoteRos2InitializationError>(first_result->Err_0), s1),
{
}

/// A run that succeeded so far, followed by a failed run, ends the enclosing computation.
pub proof fn lemma_metered_then_stop<A, B, C>(
    s0: RemoteRos2StepOwnershipV1,
    first: Result<A, RemoteRos2InitializationError>,
    first_cost: nat,
    first_result: Result<A, RemoteRos2InitializationError>,
    s1: RemoteRos2StepOwnershipV1,
    second: Result<B, RemoteRos2InitializationError>,
    second_cost: nat,
    second_result: Result<B, RemoteRos2InitializationError>,
    s2: RemoteRos2StepOwnershipV1,
    outcome: Result<C, RemoteRos2InitializationError>,
    cost: nat,
)
    requires
        metered(s0, first, first_cost, first_result, s1),
        first_result is Ok,
        metered(s1, second, second_cost, second_result, s2),
        second_result is Err,
        second is Err ==> outcome == Err::<C, RemoteRos2InitializationError>(second->Err_0) && cost
            == first_cost + second_cost,
        second is Ok ==> cost >= first_cost + second_cost,
    ensures
        metered(
            s0,
            outcome,
            cost,
            Err::<C, RemoteRos2InitializationError>(second_result->Err_0),
            s2,
        ),
{
}

/// A run that finished within its steps may be read as any outcome of the same cost.
pub proof fn lemma_metered_settle<A, B>(
    s0: RemoteRos2StepOwnershipV1,
    outcome: Result<A, RemoteRos2InitializationError>,
    cost: nat,
    result: Result<A, RemoteRos2InitializationError>,
    s1: RemoteRos2StepOwnershipV1,
    settled: Result<B, RemoteRos2InitializationError>,
)
    requires
        metered(s0, outcome, cost, result, s1),
        result is Ok,
    ensures
        result == outcome,
        metered(s0, settled, cost, settled, s1),
{
}

/// One more charged step after `charged` successful ones.
pub proof fn lemma_charge_ok(
    start: RemoteRos2StepOwnershipV1,
    charged: nat,
    before: RemoteRos2StepOwnershipV1,
    step: Result<(), RemoteRos2InitializationError>,
    after: RemoteRos2StepOwnershipV1,
)
    requires
        metered(start, Ok(()), charged, Ok(()), before),
        metered(before, Ok(()), 1, step, after),
        step is Ok,
    ensures
        metered(start, Ok(()), charged + 1, Ok(()), after),
{
}

/// A charge that ran out of steps after `charged` successful ones ends the computation.
pub proof fn lemma_charge_stop<T>(
    start: RemoteRos2StepOwnershipV1,
    charged: nat,
    before: RemoteRos2StepOwnershipV1,
    step: Result<(), RemoteRos2InitializationError>,
    after: RemoteRos2StepOwnershipV1,
    outcome: Result<T, RemoteRos2InitializationError>,
    cost: nat,
)
    requires
        metered(start, Ok(()), charged, Ok(()), before),
        metered(before, Ok(()), 1, step, after),
        step is Err,
        cost >= charged + 1,
    ensures
        metered(start, outcome, cost, Err::<T, RemoteRos2InitializationError>(step->Err_0), after),
{
}

/// `left + right`, or the arithmetic resource error.
pub fn checked_add(left: u64, right: u64) -> (sum: Result<u64, RemoteRos2InitializationError>)
    ensures
        left + right <= u64::MAX ==> sum == Ok::<u64, RemoteRos2InitializationError>(
            (left + right) as u64,
        ),
        left + right > u64::MAX ==> sum == Err::<u64, RemoteRos2InitializationError>(
            limit_error(RemoteRos2ResourceLimit::Arithmetic),
        ),
{
    match left.checked_add(right) {
        Some(sum) => Ok(sum),
        None => Err(RemoteRos2InitializationError::ResourceLimitExceeded(
            RemoteRos2ResourceLimit::Arithmetic,
        )),
    }
}

/// `value` as a `usize`, or the arithmetic resource error.
pub fn checked_usize(value: u64) -> (converted: Result<usize, RemoteRos2InitializationError>)
    ensures
        value <= usize::MAX ==> converted == Ok::<usize, RemoteRos2InitializationError>(
            value as usize,
        ),
        value > usize::MAX ==> converted == Err::<usize, RemoteRos2InitializationError>(
            limit_error(RemoteRos2ResourceLimit::Arithmetic),
        ),
{
    if value > usize::MAX as u64 {
        Err(RemoteRos2InitializationError::ResourceLimitExceeded(
            RemoteRos2ResourceLimit::Arithmetic,
        ))
    } else {
        Ok(value as usize)
    }
}

/// `value` as a `u32`, or the arithmetic resource error.
pub fn checked_u32(value: usize) -> (converted: Result<u32, RemoteRos2InitializationError>)
    ensures
        value <= u32::MAX ==> converted == Ok::<u32, RemoteRos2InitializationError>(
            value as u32,
        ),
        value > u32::MAX ==> converted == Err::<u32, RemoteRos2InitializationError>(
            limit_error(RemoteRos2ResourceLimit::Arithmetic),
        ),
{
    if value > u32::MAX as usize {
        Err(RemoteRos2InitializationError::ResourceLimitExceeded(
            RemoteRos2ResourceLimit::Arithmetic,
        ))
    } else {
        Ok(value as u32)
    }
}

/// Adds `increment` to a counter whose total may not exceed `limit`.
pub fn increment_limited(
    value: &mut u64,
    increment: u64,
    limit: u64,
    kind: RemoteRos2ResourceLimit,
) -> (result: Result<(), RemoteRos2InitializationError>)
    ensures
        *old(value) + increment > u64::MAX ==> result == Err::<(), RemoteRos2InitializationError>(
            limit_error(RemoteRos2ResourceLimit::Arithmetic),
        ) && *final(value) == *old(value),
        *old(value) + increment <= u64::MAX && *old(value) + increment > limit ==> result == Err::<
            (),
            RemoteRos2InitializationError,
        >(limit_error(kind)) && *final(value) == *old(value),
        *old(value) + increment <= limit ==> result is Ok && *final(value) == *old(value)
            + increment,
{
    let next = checked_add(*value, increment)?;
    if next > limit {
        return Err(RemoteRos2InitializationError::ResourceLimitExceeded(kind));
    }
    *value = next;
    Ok(())
}

} // verus!
