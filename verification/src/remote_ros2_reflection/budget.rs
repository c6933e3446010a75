//! The source/profile budget of remote ROS 2 initialization: every admitted initializer
//! reserves its working and retained bytes, narrows them once its exact peak is known, keeps
//! only the retained part after completion, and returns everything it still holds.
use crate::remote_ros2_reflection::steps::{
    self, RemoteRos2InitializationError, RemoteRos2ResourceLimit,
};
use crate::remote_ros2_reflection::types::UnfrozenRemoteRos2LimitsV1;
use vstd::prelude::*;

verus! {

/// What the budget currently lends out.
#[derive(Clone, Copy, Debug, PartialEq, Eq, Structural)]
pub struct RemoteRos2BudgetUsage {
    pub active_initializers: u64,
    pub working_bytes: u64,
    pub retained_results: u64,
    pub retained_bytes: u64,
}

impl Default for RemoteRos2BudgetUsage {
    fn default() -> (usage: Self)
        ensures
            usage == (RemoteRos2BudgetUsage {
                active_initializers: 0,
                working_bytes: 0,
                retained_results: 0,
                retained_bytes: 0,
            }),
    {
        RemoteRos2BudgetUsage {
            active_initializers: 0,
            working_bytes: 0,
            retained_results: 0,
            retained_bytes: 0,
        }
    }
}

/// The aggregate capacity of one budget.
#[derive(Clone, Copy, Debug, PartialEq, Eq, Structural)]
pub struct RemoteRos2BudgetCapacity {
    pub max_active_initializers: u64,
    pub max_working_bytes: u64,
    pub max_retained_results: u64,
    pub max_retained_bytes: u64,
}

/// The ledger of one source/profile budget.
///
/// `poisoned` records that a release found the ledger inconsistent with the reservation it
/// returned; a poisoned budget admits nothing more. The generation and the source, viewer-scope
/// and policy-wire identities name the owner the budget was opened for.
pub struct RemoteRos2BudgetState {
    pub limits: UnfrozenRemoteRos2LimitsV1,
    pub capacity: RemoteRos2BudgetCapacity,
    pub usage: RemoteRos2BudgetUsage,
    pub poisoned: bool,
    pub generation: u64,
    pub source_identity: u64,
    pub viewer_scope_identity: u64,
    pub policy_wire_identity: u64,
}

/// Working and retained bytes held by one admitted initializer.
#[derive(Debug, PartialEq, Eq, Structural)]
pub struct RemoteRos2WorkReservation {
    pub working_bytes: u64,
    pub retained_bytes: u64,
}

/// Retained bytes held by one completed initialization result.
#[derive(Debug, PartialEq, Eq, Structural)]
pub struct RemoteRos2ResultReservation {
    pub retained_bytes: u64,
}

/// The usage after admitting one initializer with the given bytes, or the first failure.
pub open spec fn reserved_usage(
    usage: RemoteRos2BudgetUsage,
    capacity: RemoteRos2BudgetCapacity,
    limits: UnfrozenRemoteRos2LimitsV1,
    working_bytes: u64,
    retained_bytes: u64,
) -> Result<RemoteRos2BudgetUsage, RemoteRos2InitializationError> {
    if working_bytes > limits.max_working_bytes {
        Err(steps::limit_error(RemoteRos2ResourceLimit::WorkingBytes))
    } else if retained_bytes > limits.max_retained_bytes {
        Err(steps::limit_error(RemoteRos2ResourceLimit::RetainedBytes))
    } else if usage.active_initializers + 1 > u64::MAX || usage.working_bytes + working_bytes
        > u64::MAX || usage.retained_results + 1 > u64::MAX || usage.retained_bytes
        + retained_bytes > u64::MAX {
        Err(steps::limit_error(RemoteRos2ResourceLimit::Arithmetic))
    } else {
        let next = RemoteRos2BudgetUsage {
            active_initializers: (usage.active_initializers + 1) as u64,
            working_bytes: (usage.working_bytes + working_bytes) as u64,
            retained_results: (usage.retained_results + 1) as u64,
            retained_bytes: (usage.retained_bytes + retained_bytes) as u64,
        };
        if next.active_initializers > capacity.max_active_initializers || next.working_bytes
            > capacity.max_working_bytes || next.retained_results > capacity.max_retained_results
            || next.retained_bytes > capacity.max_retained_bytes {
            Err(steps::limit_error(RemoteRos2ResourceLimit::ReservationCapacity))
        } else {
            Ok(next)
        }
    }
}

/// The usage after a live initializer holding the given bytes is returned, if the ledger
/// covers it.
pub open spec fn released_work_usage(
    usage: RemoteRos2BudgetUsage,
    working_bytes: u64,
    retained_bytes: u64,
) -> Option<RemoteRos2BudgetUsage> {
    if usage.active_initializers >= 1 && usage.working_bytes >= working_bytes
        && usage.retained_results >= 1 && usage.retained_bytes >= retained_bytes {
        Some(
            RemoteRos2BudgetUsage {
                active_initializers: (usage.active_initializers - 1) as u64,
                working_bytes: (usage.working_bytes - working_bytes) as u64,
                retained_results: (usage.retained_results - 1) as u64,
                retained_bytes: (usage.retained_bytes - retained_bytes) as u64,
            },
        )
    } else {
        None
    }
}

/// The usage after a completed result holding `retained_bytes` is returned, if the ledger
/// covers it.
pub open spec fn released_result_usage(usage: RemoteRos2BudgetUsage, retained_bytes: u64) -> Option<
    RemoteRos2BudgetUsage,
> {
    if usage.retained_results >= 1 && usage.retained_bytes >= retained_bytes {
        Some(
            RemoteRos2BudgetUsage {
                retained_results: (usage.retained_results - 1) as u64,
                retained_bytes: (usage.retained_bytes - retained_bytes) as u64,
                ..usage
            },
        )
    } else {
        None
    }
}

/// The usage after completing a live initializer: it stops being active and gives back its
/// working bytes, keeping its retained share.
pub open spec fn completed_usage(usage: RemoteRos2BudgetUsage, working_bytes: u64) -> RemoteRos2BudgetUsage {
    RemoteRos2BudgetUsage {
        active_initializers: (usage.active_initializers - 1) as u64,
        working_bytes: (usage.working_bytes - working_bytes) as u64,
        ..usage
    }
}

/// Returns one live initializer's share of the usage, or `None` if the ledger does not cover it.
pub fn checked_release_work_usage(
    usage: RemoteRos2BudgetUsage,
    working_bytes: u64,
    retained_bytes: u64,
) -> (released: Option<RemoteRos2BudgetUsage>)
    ensures
        released == released_work_usage(usage, working_bytes, retained_bytes),
{
    if usage.active_initializers < 1 || usage.working_bytes < working_bytes
        || usage.retained_results < 1 || usage.retained_bytes < retained_bytes {
        return None;
    }
    Some(
        RemoteRos2BudgetUsage {
            active_initializers: usage.active_initializers - 1,
            working_bytes: usage.working_bytes - working_bytes,
            retained_results: usage.retained_results - 1,
            retained_bytes: usage.retained_bytes - retained_bytes,
        },
    )
}

impl RemoteRos2BudgetState {
    /// Admits one initializer with the given working and retained bytes, all or nothing.
    pub fn reserve(&mut self, working_bytes: u64, retained_bytes: u64) -> (result: Result<
        RemoteRos2WorkReservation,
        RemoteRos2InitializationError,
    >)
        requires
            !old(self).poisoned,
        ensures
            final(self).limits == old(self).limits,
            final(self).capacity == old(self).capacity,
            final(self).poisoned == old(self).poisoned,
            final(self).generation == old(self).generation,
            match reserved_usage(
                old(self).usage,
                old(self).capacity,
                old(self).limits,
                working_bytes,
                retained_bytes,
            ) {
                Ok(next) => result == Ok::<RemoteRos2WorkReservation, RemoteRos2InitializationError>(
                    RemoteRos2WorkReservation { working_bytes, retained_bytes },
                ) && final(self).usage == next,
                Err(error) => result == Err::<
                    RemoteRos2WorkReservation,
                    RemoteRos2InitializationError,
                >(error) && final(self).usage == old(self).usage,
            },
    {
        if working_bytes > self.limits.max_working_bytes {
            return Err(
                RemoteRos2InitializationError::ResourceLimitExceeded(
                    RemoteRos2ResourceLimit::WorkingBytes,
                ),
            );
        }
        if retained_bytes > self.limits.max_retained_bytes {
            return Err(
                RemoteRos2InitializationError::ResourceLimitExceeded(
                    RemoteRos2ResourceLimit::RetainedBytes,
                ),
            );
        }
        let usage = self.usage;
        let next = RemoteRos2BudgetUsage {
            active_initializers: steps::checked_add(usage.active_initializers, 1)?,
            working_bytes: steps::checked_add(usage.working_bytes, working_bytes)?,
            retained_results: steps::checked_add(usage.retained_results, 1)?,
            retained_bytes: steps::checked_add(usage.retained_bytes, retained_bytes)?,
        };
        let capacity = self.capacity;
        if next.active_initializers > capacity.max_active_initializers || next.working_bytes
            > capacity.max_working_bytes || next.retained_results > capacity.max_retained_results
            || next.retained_bytes > capacity.max_retained_bytes {
            return Err(
                RemoteRos2InitializationError::ResourceLimitExceeded(
                    RemoteRos2ResourceLimit::ReservationCapacity,
                ),
            );
        }
        self.usage = next;
        Ok(RemoteRos2WorkReservation { working_bytes, retained_bytes })
    }

    /// Returns a live initializer's reservation. A ledger that does not cover it is poisoned
    /// and left unchanged otherwise.
    pub fn release_work(&mut self, reservation: RemoteRos2WorkReservation)
        ensures
            final(self).limits == old(self).limits,
            final(self).capacity == old(self).capacity,
            final(self).generation == old(self).generation,
            match released_work_usage(
                old(self).usage,
                reservation.working_bytes,
                reservation.retained_bytes,
            ) {
                Some(next) => final(self).usage == next && final(self).poisoned == old(
                    self,
                ).poisoned,
                None => final(self).usage == old(self).usage && final(self).poisoned,
            },
    {
        match checked_release_work_usage(
            self.usage,
            reservation.working_bytes,
            reservation.retained_bytes,
        ) {
            Some(next) => {
                self.usage = next;
            },
            None => {
                self.poisoned = true;
            },
        }
    }

    /// Returns a completed result's reservation. A ledger that does not cover it is poisoned
    /// and left unchanged otherwise.
    pub fn release_result(&mut self, reservation: RemoteRos2ResultReservation)
        ensures
            final(self).limits == old(self).limits,
            final(self).capacity == old(self).capacity,
            final(self).generation == old(self).generation,
            match released_result_usage(old(self).usage, reservation.retained_bytes) {
                Some(next) => final(self).usage == next && final(self).poisoned == old(
                    self,
                ).poisoned,
                None => final(self).usage == old(self).usage && final(self).poisoned,
            },
    {
        if self.usage.retained_results < 1 || self.usage.retained_bytes
            < reservation.retained_bytes {
            self.poisoned = true;
            return;
        }
        self.usage.retained_results = self.usage.retained_results - 1;
        self.usage.retained_bytes = self.usage.retained_bytes - reservation.retained_bytes;
    }
}

impl RemoteRos2WorkReservation {
    /// Shrinks a live reservation to its exact working and retained bytes, returning the
    /// difference to the budget. A reservation never widens.
    pub fn narrow(
        &mut self,
        budget: &mut RemoteRos2BudgetState,
        working_bytes: u64,
        retained_bytes: u64,
    )
        requires
            working_bytes <= old(self).working_bytes,
            retained_bytes <= old(self).retained_bytes,
            old(budget).usage.working_bytes >= old(self).working_bytes,
            old(budget).usage.retained_bytes >= old(self).retained_bytes,
        ensures
            *final(self) == (RemoteRos2WorkReservation { working_bytes, retained_bytes }),
            final(budget).limits == old(budget).limits,
            final(budget).capacity == old(budget).capacity,
            final(budget).poisoned == old(budget).poisoned,
            final(budget).generation == old(budget).generation,
            final(budget).usage == (RemoteRos2BudgetUsage {
                working_bytes: (old(budget).usage.working_bytes - (old(self).working_bytes
                    - working_bytes)) as u64,
                retained_bytes: (old(budget).usage.retained_bytes - (old(self).retained_bytes
                    - retained_bytes)) as u64,
                ..old(budget).usage
            }),
    {
        budget.usage.working_bytes = budget.usage.working_bytes - (self.working_bytes
            - working_bytes);
        budget.usage.retained_bytes = budget.usage.retained_bytes - (self.retained_bytes
            - retained_bytes);
        self.working_bytes = working_bytes;
        self.retained_bytes = retained_bytes;
    }

    /// Completes the initializer: it stops being active and returns its working bytes; the
    /// retained bytes now belong to the result.
    pub fn complete(self, budget: &mut RemoteRos2BudgetState) -> (result: RemoteRos2ResultReservation)
        requires
            old(budget).usage.active_initializers >= 1,
            old(budget).usage.working_bytes >= self.working_bytes,
        ensures
            result == (RemoteRos2ResultReservation { retained_bytes: self.retained_bytes }),
            final(budget).limits == old(budget).limits,
            final(budget).capacity == old(budget).capacity,
            final(budget).poisoned == old(budget).poisoned,
            final(budget).generation == old(budget).generation,
            final(budget).usage == completed_usage(old(budget).usage, self.working_bytes),
    {
        budget.usage.active_initializers = budget.usage.active_initializers - 1;
        budget.usage.working_bytes = budget.usage.working_bytes - self.working_bytes;
        RemoteRos2ResultReservation { retained_bytes: self.retained_bytes }
    }
}

/// Returning an admitted initializer's reservation restores the budget usage exactly.
pub proof fn lemma_reserve_then_release_work(
    usage: RemoteRos2BudgetUsage,
    capacity: RemoteRos2BudgetCapacity,
    limits: UnfrozenRemoteRos2LimitsV1,
    working_bytes: u64,
    retained_bytes: u64,
)
    requires
        reserved_usage(usage, capacity, limits, working_bytes, retained_bytes) is Ok,
    ensures
        released_work_usage(
            reserved_usage(usage, capacity, limits, working_bytes, retained_bytes)->Ok_0,
            working_bytes,
            retained_bytes,
        ) == Some(usage),
{
}

/// Completing an admitted initializer and then returning its result restores the budget usage
/// exactly.
pub proof fn lemma_reserve_complete_then_release_result(
    usage: RemoteRos2BudgetUsage,
    capacity: RemoteRos2BudgetCapacity,
    limits: UnfrozenRemoteRos2LimitsV1,
    working_bytes: u64,
    retained_bytes: u64,
)
    requires
        reserved_usage(usage, capacity, limits, working_bytes, retained_bytes) is Ok,
    ensures
        released_result_usage(
            completed_usage(
                reserved_usage(usage, capacity, limits, working_bytes, retained_bytes)->Ok_0,
                working_bytes,
            ),
            retained_bytes,
        ) == Some(usage),
{
}

/// Narrowing an admitted reservation and then returning it restores the budget usage exactly.
pub proof fn lemma_reserve_narrow_then_release_work(
    usage: RemoteRos2BudgetUsage,
    capacity: RemoteRos2BudgetCapacity,
    limits: UnfrozenRemoteRos2LimitsV1,
    working_bytes: u64,
    retained_bytes: u64,
    narrowed_working_bytes: u64,
    narrowed_retained_bytes: u64,
)
    requires
        reserved_usage(usage, capacity, limits, working_bytes, retained_bytes) is Ok,
        narrowed_working_bytes <= working_bytes,
        narrowed_retained_bytes <= retained_bytes,
    ensures
        ({
            let reserved = reserved_usage(usage, capacity, limits, working_bytes, retained_bytes)->Ok_0;
            let narrowed = RemoteRos2BudgetUsage {
                working_bytes: (reserved.working_bytes - (working_bytes - narrowed_working_bytes)) as u64,
                retained_bytes: (reserved.retained_bytes - (retained_bytes - narrowed_retained_bytes)) as u64,
                ..reserved
            };
            released_work_usage(narrowed, narrowed_working_bytes, narrowed_retained_bytes) == Some(
                usage,
            )
        }),
{
}

} // verus!
