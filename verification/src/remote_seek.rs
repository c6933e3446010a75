//! Ownership vocabulary of remote seek commits: generations, batch identities, facade recovery
//! evidence, frozen commit locks and the terminal failure latch.
use vstd::prelude::*;

verus! {

/// The raw value that marks the static time (no time point).
pub const STATIC_TIME_RAW: i64 = i64::MIN;

#[derive(Clone, Copy, Debug, PartialEq, Eq, Structural)]
pub enum RemoteSeekErrorV1 {
    ArithmeticOverflow,
    InvalidGeneration,
    StaleGeneration,
    NoActiveDemand,
    EmptyCommitSet,
    CommitSetGenerationMismatch,
    CommitSetMismatch,
    TargetMismatch,
    NotInitialPresentation,
    NotCommittedPresentation,
    NotSupersedable,
    NotCommitLocked,
    FacadeNotClosedForMutation,
    FacadeClosedForNonPhysicalCommit,
    ClosureRevalidationFailed,
    FacadeRecoveryStateMismatch,
    PendingNavigationIntentMissing,
    PendingNavigationIntentUnresolved,
    MutationNotStarted,
    MutationAlreadyStarted,
    TerminalAlreadyFrozen,
    TerminalState,
    InvalidTarget,
    InvalidFailureTransition,
}

/// Opaque generation identity of one navigation demand.
#[derive(Clone, Copy, Debug, PartialEq, Eq, Structural)]
pub struct RemoteSeekGenerationV1(u64);

impl RemoteSeekGenerationV1 {
    pub closed spec fn value(self) -> u64 {
        self.0
    }

    pub fn initial_v1() -> (generation: Self)
        ensures
            generation.value() == 0,
    {
        RemoteSeekGenerationV1(0)
    }

    pub fn from_u64_v1(value: u64) -> (generation: Self)
        ensures
            generation.value() == value,
    {
        RemoteSeekGenerationV1(value)
    }

    pub fn as_u64_v1(self) -> (value: u64)
        ensures
            value == self.value(),
    {
        self.0
    }

    /// The following generation, unless the counter is exhausted.
    pub fn next_v1(self) -> (next: Result<Self, RemoteSeekErrorV1>)
        ensures
            self.value() < u64::MAX ==> (next matches Ok(generation) && generation.value() == self.value() + 1),
            self.value() == u64::MAX ==> next == Err::<Self, RemoteSeekErrorV1>(
                RemoteSeekErrorV1::ArithmeticOverflow,
            ),
    {
        match self.0.checked_add(1) {
            Some(value) => Ok(RemoteSeekGenerationV1(value)),
            None => Err(RemoteSeekErrorV1::ArithmeticOverflow),
        }
    }
}

/// Opaque identity of one staged batch.
#[derive(Clone, Copy, Debug, PartialEq, Eq, Structural)]
pub struct RemoteSeekBatchIdV1(u64);

impl RemoteSeekBatchIdV1 {
    pub closed spec fn value(self) -> u64 {
        self.0
    }

    pub fn from_u64_v1(value: u64) -> (batch: Self)
        ensures
            batch.value() == value,
    {
        RemoteSeekBatchIdV1(value)
    }

    pub fn as_u64_v1(self) -> (value: u64)
        ensures
            value == self.value(),
    {
        self.0
    }
}

/// Facade recovery evidence supplied by the frame driver.
#[derive(Clone, Copy, Debug, PartialEq, Eq, Structural)]
pub enum RemoteSeekFacadeRecoveryV1 {
    NotRequired,
    RevalidatedWithoutReopen,
    RevalidatedAndReopened,
    FailedToRevalidate,
}

impl RemoteSeekFacadeRecoveryV1 {
    pub fn closure_revalidated_v1(self) -> (revalidated: bool)
        ensures
            revalidated == (self == RemoteSeekFacadeRecoveryV1::RevalidatedWithoutReopen || self
                == RemoteSeekFacadeRecoveryV1::RevalidatedAndReopened),
    {
        match self {
            RemoteSeekFacadeRecoveryV1::RevalidatedWithoutReopen
            | RemoteSeekFacadeRecoveryV1::RevalidatedAndReopened => true,
            _ => false,
        }
    }

    pub fn facade_reopened_v1(self) -> (reopened: bool)
        ensures
            reopened == (self == RemoteSeekFacadeRecoveryV1::RevalidatedAndReopened),
    {
        match self {
            RemoteSeekFacadeRecoveryV1::RevalidatedAndReopened => true,
            _ => false,
        }
    }
}

/// The facade state that a recovery must explain.
#[derive(Clone, Copy, Debug, PartialEq, Eq, Structural)]
pub enum RemoteSeekFacadePriorStateV1 {
    InitialPresentation,
    CommittedOpen,
    CommittedClosed,
}

/// A failed revalidation is reported as such; otherwise the evidence must match the prior
/// facade state exactly.
pub open spec fn facade_recovery_check(
    prior_state: RemoteSeekFacadePriorStateV1,
    recovery: RemoteSeekFacadeRecoveryV1,
) -> Result<(), RemoteSeekErrorV1> {
    if recovery == RemoteSeekFacadeRecoveryV1::FailedToRevalidate {
        Err(RemoteSeekErrorV1::ClosureRevalidationFailed)
    } else if (prior_state == RemoteSeekFacadePriorStateV1::InitialPresentation && recovery
        == RemoteSeekFacadeRecoveryV1::NotRequired) || (prior_state
        == RemoteSeekFacadePriorStateV1::CommittedOpen && recovery
        == RemoteSeekFacadeRecoveryV1::RevalidatedWithoutReopen) || (prior_state
        == RemoteSeekFacadePriorStateV1::CommittedClosed && recovery
        == RemoteSeekFacadeRecoveryV1::RevalidatedAndReopened) {
        Ok(())
    } else {
        Err(RemoteSeekErrorV1::FacadeRecoveryStateMismatch)
    }
}

pub fn validate_facade_recovery_v1(
    prior_state: RemoteSeekFacadePriorStateV1,
    recovery: RemoteSeekFacadeRecoveryV1,
) -> (result: Result<(), RemoteSeekErrorV1>)
    ensures
        result == facade_recovery_check(prior_state, recovery),
{
    if let RemoteSeekFacadeRecoveryV1::FailedToRevalidate = recovery {
        return Err(RemoteSeekErrorV1::ClosureRevalidationFailed);
    }
    match (prior_state, recovery) {
        (RemoteSeekFacadePriorStateV1::InitialPresentation, RemoteSeekFacadeRecoveryV1::NotRequired)
        | (
            RemoteSeekFacadePriorStateV1::CommittedOpen,
            RemoteSeekFacadeRecoveryV1::RevalidatedWithoutReopen,
        )
        | (
            RemoteSeekFacadePriorStateV1::CommittedClosed,
            RemoteSeekFacadeRecoveryV1::RevalidatedAndReopened,
        ) => Ok(()),
        _ => Err(RemoteSeekErrorV1::FacadeRecoveryStateMismatch),
    }
}

/// Immutable commit-set identity frozen before the first physical Store insertion: the
/// generation and the raw identities of its batches.
pub struct RemoteSeekCommitSetV1 {
    generation: RemoteSeekGenerationV1,
    batch_ids: std::collections::BTreeSet<u64>,
}

impl RemoteSeekCommitSetV1 {
    pub closed spec fn spec_generation(&self) -> RemoteSeekGenerationV1 {
        self.generation
    }

    pub closed spec fn spec_batch_ids(&self) -> Set<u64> {
        self.batch_ids@
    }

    pub fn new_v1(generation: RemoteSeekGenerationV1, batch_ids: std::collections::BTreeSet<u64>) -> (set:
        Self)
        ensures
            set.spec_generation() == generation,
            set.spec_batch_ids() == batch_ids@,
    {
        RemoteSeekCommitSetV1 { generation, batch_ids }
    }

    pub fn generation_v1(&self) -> (generation: RemoteSeekGenerationV1)
        ensures
            generation == self.spec_generation(),
    {
        self.generation
    }

    pub fn batch_ids_v1(&self) -> (batch_ids: &std::collections::BTreeSet<u64>)
        ensures
            batch_ids@ == self.spec_batch_ids(),
    {
        &self.batch_ids
    }
}

/// Frozen `(generation, target, commit set)` of one locked commit.
pub struct RemoteSeekCommitLockV1 {
    generation: RemoteSeekGenerationV1,
    target: i64,
    commit_set: RemoteSeekCommitSetV1,
}

/// A commit lock needs a time point target, a commit set of the same generation, and at least
/// one batch.
pub open spec fn commit_lock_check(
    generation: RemoteSeekGenerationV1,
    target: i64,
    commit_set_generation: RemoteSeekGenerationV1,
    batch_ids: Set<u64>,
) -> Result<(), RemoteSeekErrorV1> {
    if target == STATIC_TIME_RAW {
        Err(RemoteSeekErrorV1::InvalidTarget)
    } else if commit_set_generation != generation {
        Err(RemoteSeekErrorV1::CommitSetGenerationMismatch)
    } else if batch_ids.is_empty() {
        Err(RemoteSeekErrorV1::EmptyCommitSet)
    } else {
        Ok(())
    }
}

impl RemoteSeekCommitLockV1 {
    #[verifier::type_invariant]
    spec fn well_formed(self) -> bool {
        commit_lock_check(
            self.generation,
            self.target,
            self.commit_set.spec_generation(),
            self.commit_set.spec_batch_ids(),
        ) is Ok
    }

    pub closed spec fn spec_generation(&self) -> RemoteSeekGenerationV1 {
        self.generation
    }

    pub closed spec fn spec_target(&self) -> i64 {
        self.target
    }

    pub closed spec fn spec_commit_set(&self) -> &RemoteSeekCommitSetV1 {
        &self.commit_set
    }

    /// Freezes a commit for a time point `target` (its raw value).
    pub fn new_v1(generation: RemoteSeekGenerationV1, target: i64, commit_set: RemoteSeekCommitSetV1) -> (lock:
        Result<Self, RemoteSeekErrorV1>)
        ensures
            match commit_lock_check(
                generation,
                target,
                commit_set.spec_generation(),
                commit_set.spec_batch_ids(),
            ) {
                Ok(()) => lock matches Ok(lock) && lock.spec_generation() == generation
                    && lock.spec_target() == target && lock.spec_commit_set().spec_batch_ids()
                    == commit_set.spec_batch_ids() && lock.spec_commit_set().spec_generation()
                    == generation,
                Err(error) => lock matches Err(e) && e == error,
            },
    {
        if target == STATIC_TIME_RAW {
            return Err(RemoteSeekErrorV1::InvalidTarget);
        }
        if commit_set.generation_v1() != generation {
            return Err(RemoteSeekErrorV1::CommitSetGenerationMismatch);
        }
        if commit_set.batch_ids_v1().is_empty() {
            return Err(RemoteSeekErrorV1::EmptyCommitSet);
        }
        Ok(RemoteSeekCommitLockV1 { generation, target, commit_set })
    }

    pub fn generation_v1(&self) -> (generation: RemoteSeekGenerationV1)
        ensures
            generation == self.spec_generation(),
    {
        self.generation
    }

    pub fn target_v1(&self) -> (target: i64)
        ensures
            target == self.spec_target(),
            target != STATIC_TIME_RAW,
    {
        proof {
            use_type_invariant(self);
        }
        self.target
    }

    pub fn commit_set_v1(&self) -> (commit_set: &RemoteSeekCommitSetV1)
        ensures
            commit_set == self.spec_commit_set(),
            commit_set.spec_generation() == self.spec_generation(),
            !commit_set.spec_batch_ids().is_empty(),
    {
        proof {
            use_type_invariant(self);
        }
        &self.commit_set
    }
}

/// Pre-mutation failures that can still roll back to the committed cursor.
#[derive(Clone, Copy, Debug, PartialEq, Eq, Structural)]
pub enum RemoteSeekPreMutationFailureV1 {
    RetryExhausted,
    TemporalDecode,
    RegistrationPreflight,
}

/// Post-first-insertion failures that irreversibly poison the remote Store.
#[derive(Clone, Copy, Debug, PartialEq, Eq, Structural)]
pub enum RemoteSeekPostMutationFailureV1 {
    Insertion,
    Residency,
    Ack,
    PresentationCommit,
}

/// First-terminal-cause-wins latch reason.
#[derive(Clone, Copy, Debug, PartialEq, Eq, Structural)]
pub enum RemoteSeekTerminalCauseV1 {
    InitialPresentationFailed,
    PresentationCommitPoisoned(RemoteSeekPostMutationFailureV1),
}

#[derive(Clone, Copy, Debug, PartialEq, Eq, Structural)]
pub struct RemoteSeekTerminalFailureV1 {
    cause: RemoteSeekTerminalCauseV1,
}

impl RemoteSeekTerminalFailureV1 {
    pub closed spec fn spec_cause(self) -> RemoteSeekTerminalCauseV1 {
        self.cause
    }

    pub fn initial_presentation_failed_v1() -> (failure: Self)
        ensures
            failure.spec_cause() == RemoteSeekTerminalCauseV1::InitialPresentationFailed,
    {
        RemoteSeekTerminalFailureV1 { cause: RemoteSeekTerminalCauseV1::InitialPresentationFailed }
    }

    pub fn presentation_commit_poisoned_v1(cause: RemoteSeekPostMutationFailureV1) -> (failure: Self)
        ensures
            failure.spec_cause() == RemoteSeekTerminalCauseV1::PresentationCommitPoisoned(cause),
    {
        RemoteSeekTerminalFailureV1 { cause: RemoteSeekTerminalCauseV1::PresentationCommitPoisoned(cause) }
    }

    pub fn cause_v1(&self) -> (cause: RemoteSeekTerminalCauseV1)
        ensures
            cause == self.spec_cause(),
    {
        self.cause
    }

    pub fn is_initial_presentation_failed_v1(&self) -> (initial: bool)
        ensures
            initial == (self.spec_cause() == RemoteSeekTerminalCauseV1::InitialPresentationFailed),
    {
        match self.cause {
            RemoteSeekTerminalCauseV1::InitialPresentationFailed => true,
            _ => false,
        }
    }
}

/// How a work result may be retained while the demand can still be superseded.
#[derive(Clone, Copy, Debug, PartialEq, Eq, Structural)]
pub enum RemoteSeekResultDispositionV1 {
    CurrentGeneration,
    SupersededCacheOnly,
}

/// One finished unit of work: its generation and batch.
#[derive(Clone, Copy, Debug, PartialEq, Eq, Structural)]
pub struct RemoteSeekWorkResultV1 {
    pub generation: RemoteSeekGenerationV1,
    pub batch_id: RemoteSeekBatchIdV1,
}

impl RemoteSeekWorkResultV1 {
    pub fn new_v1(generation: RemoteSeekGenerationV1, batch_id: RemoteSeekBatchIdV1) -> (result: Self)
        ensures
            result.generation == generation,
            result.batch_id == batch_id,
    {
        RemoteSeekWorkResultV1 { generation, batch_id }
    }
}

/// Each new generation is strictly newer than the one before it.
pub proof fn lemma_next_generation_is_newer(generation: RemoteSeekGenerationV1, next: RemoteSeekGenerationV1)
    requires
        next.value() == generation.value() + 1,
    ensures
        generation.value() < next.value(),
        next != generation,
{
}

} // verus!
