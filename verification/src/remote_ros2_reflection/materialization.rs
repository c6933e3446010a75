//! Materialization of an admitted ROS 2 schema into schema, specification, member and
//! resolution records, through one sink that either counts them (the dry run that fixes the
//! exact step owner) or stores them in the fixed arenas.
use crate::remote_ros2_reflection::arenas::{
    ComplexTypeResolutionV1, FixedArena, ParsedMemberV1, ParsedSchemaV1, ParsedSpecificationV1,
    Ros2ArenaDirectoryV1,
};
use crate::remote_ros2_reflection::census::RemoteRos2Census;
use crate::remote_ros2_reflection::dependencies;
use crate::remote_ros2_reflection::members::ParsedMemberKindV1;
use crate::remote_ros2_reflection::specs::{self, MemberIter, SpecIter, SpecIterState};
use crate::remote_ros2_reflection::steps::{
    self, RemoteRos2InitializationError, RemoteRos2ResourceLimit, RemoteRos2StepOwnershipV1,
};
use crate::remote_ros2_reflection::types::{
    self, ArraySizeV1, ElementTypeV1, ParsedTypeV1, PrimitiveTypeV1, SchemaView,
    UnfrozenRemoteRos2LimitsV1,
};
use vstd::prelude::*;

verus! {

/// The records a sink holds: schemas, specifications, members and resolutions.
pub struct EmittedRecordsV1 {
    pub schemas: Seq<ParsedSchemaV1>,
    pub specifications: Seq<ParsedSpecificationV1>,
    pub members: Seq<ParsedMemberV1>,
    pub resolutions: Seq<ComplexTypeResolutionV1>,
}

/// Whether `later` holds every record of `earlier` as a prefix.
pub open spec fn extends(earlier: EmittedRecordsV1, later: EmittedRecordsV1) -> bool {
    &&& earlier.schemas.len() <= later.schemas.len()
    &&& earlier.specifications.len() <= later.specifications.len()
    &&& earlier.members.len() <= later.members.len()
    &&& earlier.resolutions.len() <= later.resolutions.len()
}

/// The synthetic padding member of a specification without fields.
pub open spec fn padding_member(schema: SchemaView, specification_index: nat) -> ParsedMemberV1 {
    ParsedMemberV1 {
        specification_index: specification_index as usize,
        kind: ParsedMemberKindV1::SyntheticPadding,
        name: types::SourceTextSpan {
            schema_record_index: schema.record_index,
            kind: types::SourceTextKind::SyntheticPadding,
            start: 0,
            len: types::synthetic_padding_name().len() as u32,
        },
        ty: ParsedTypeV1 {
            element: ElementTypeV1::Primitive(PrimitiveTypeV1::UInt8),
            array: ArraySizeV1::Scalar,
        },
        literal: None,
    }
}

/// The first pass: the number of specifications, one step and one iteration per specification.
pub open spec fn specification_count_walk(
    schema: SchemaView,
    limit: RemoteRos2ResourceLimit,
    state: SpecIterState,
    count: nat,
    budget: nat,
) -> (Result<nat, RemoteRos2InitializationError>, nat)
    decreases budget,
{
    if budget == 0 {
        (Err(steps::limit_error(limit)), 0)
    } else {
        let step = specs::spec_iter_step(schema, state);
        let next = steps::within_budget((budget - 1) as nat, limit, step.0, step.1);
        match next.0 {
            Err(error) => (Err(error), next.1),
            Ok(None) => (Ok(count), next.1),
            Ok(Some(_)) => if count + 1 > usize::MAX {
                (Err(steps::limit_error(RemoteRos2ResourceLimit::Arithmetic)), next.1)
            } else {
                specification_count_walk(schema, limit, step.2, count + 1, next.1)
            },
        }
    }
}

/// The member records of one specification from `cursor` on: each iteration charges a step and
/// finds the next member, charges a step and emits its record, and for a nested type resolves
/// the dependency, charges a step and emits the resolution to the schema-wide specification
/// index.
pub open spec fn member_walk(
    schema: SchemaView,
    limits: UnfrozenRemoteRos2LimitsV1,
    limit: RemoteRos2ResourceLimit,
    local_index: nat,
    spec_count: nat,
    specification_start: nat,
    specification_index: nat,
    body_end: int,
    cursor: int,
    out: EmittedRecordsV1,
    budget: nat,
) -> (Result<(), RemoteRos2InitializationError>, nat, EmittedRecordsV1)
    decreases schema.data@.len() - cursor,
    when 0 <= cursor && schema.data@.len() <= usize::MAX
{
    if budget == 0 {
        (Err(steps::limit_error(limit)), 0, out)
    } else {
        let search = specs::member_search(
            schema.data@,
            schema.record_index,
            cursor,
            body_end,
            limits,
        );
        let found = steps::within_budget((budget - 1) as nat, limit, search.0, search.1);
        match found.0 {
            Err(error) => (Err(error), found.1, out),
            Ok(None) => (Ok(()), found.1, out),
            Ok(Some(member)) => if found.1 == 0 {
                (Err(steps::limit_error(limit)), 0, out)
            } else {
                proof {
                    specs::lemma_member_search_advances(
                        schema.data@,
                        schema.record_index,
                        cursor,
                        body_end,
                        limits,
                    );
                }
                let member_index = out.members.len();
                let with_member = EmittedRecordsV1 {
                    members: out.members.push(
                        ParsedMemberV1 {
                            specification_index: specification_index as usize,
                            kind: member.kind,
                            name: member.name,
                            ty: member.ty,
                            literal: member.literal,
                        },
                    ),
                    ..out
                };
                match member.ty.element {
                    ElementTypeV1::Primitive(_) => member_walk(
                        schema,
                        limits,
                        limit,
                        local_index,
                        spec_count,
                        specification_start,
                        specification_index,
                        body_end,
                        search.2,
                        with_member,
                        (found.1 - 1) as nat,
                    ),
                    ElementTypeV1::Complex(type_span) => {
                        let resolution = dependencies::complex_type_resolution(
                            schema,
                            local_index,
                            type_span,
                            spec_count,
                        );
                        let resolved = steps::within_budget(
                            (found.1 - 1) as nat,
                            limit,
                            resolution.0,
                            resolution.1,
                        );
                        match resolved.0 {
                            Err(error) => (Err(error), resolved.1, with_member),
                            Ok(target) => if resolved.1 == 0 {
                                (Err(steps::limit_error(limit)), 0, with_member)
                            } else if specification_start + target > usize::MAX {
                                (
                                    Err(steps::limit_error(RemoteRos2ResourceLimit::Arithmetic)),
                                    (resolved.1 - 1) as nat,
                                    with_member,
                                )
                            } else {
                                member_walk(
                                    schema,
                                    limits,
                                    limit,
                                    local_index,
                                    spec_count,
                                    specification_start,
                                    specification_index,
                                    body_end,
                                    search.2,
                                    EmittedRecordsV1 {
                                        resolutions: with_member.resolutions.push(
                                            ComplexTypeResolutionV1 {
                                                member_index: member_index as usize,
                                                target_specification_index: (specification_start
                                                    + target) as usize,
                                            },
                                        ),
                                        ..with_member
                                    },
                                    (resolved.1 - 1) as nat,
                                )
                            },
                        }
                    },
                }
            },
        }
    }
}

/// The records of one found specification: its members, a padding member where it has no
/// fields, then one step and the specification record.
pub open spec fn specification_records(
    schema: SchemaView,
    limits: UnfrozenRemoteRos2LimitsV1,
    limit: RemoteRos2ResourceLimit,
    spec_count: nat,
    specification_start: nat,
    schema_index: nat,
    local_index: nat,
    spec: specs::SpecView,
    out: EmittedRecordsV1,
    budget: nat,
) -> (Result<(), RemoteRos2InitializationError>, nat, EmittedRecordsV1) {
    let specification_index = out.specifications.len();
    let member_start = out.members.len();
    let walked = member_walk(
        schema,
        limits,
        limit,
        local_index,
        spec_count,
        specification_start,
        specification_index,
        spec.body_end as int,
        spec.body_start as int,
        out,
        budget,
    );
    match walked.0 {
        Err(error) => (Err(error), walked.1, walked.2),
        Ok(()) => {
            let outcome = specs::summary_scan(
                schema.data@,
                schema.record_index,
                spec.body_start as int,
                spec.body_end as int,
                limits,
                0,
                0,
                None,
                true,
            );
            let summary = steps::within_budget(walked.1, limit, outcome.0, outcome.1);
            match summary.0 {
                Err(error) => (Err(error), summary.1, walked.2),
                Ok(summary_value) => if summary_value.needs_padding && summary.1 == 0 {
                    (Err(steps::limit_error(limit)), 0, walked.2)
                } else {
                    let padded = if summary_value.needs_padding {
                        EmittedRecordsV1 {
                            members: walked.2.members.push(
                                padding_member(schema, specification_index),
                            ),
                            ..walked.2
                        }
                    } else {
                        walked.2
                    };
                    let left: nat = if summary_value.needs_padding {
                        (summary.1 - 1) as nat
                    } else {
                        summary.1
                    };
                    if left == 0 {
                        (Err(steps::limit_error(limit)), 0, padded)
                    } else {
                        (
                            Ok(()),
                            (left - 1) as nat,
                            EmittedRecordsV1 {
                                specifications: padded.specifications.push(
                                    ParsedSpecificationV1 {
                                        schema_index: schema_index as usize,
                                        name: spec.name,
                                        members_start: member_start as usize,
                                        members_end: padded.members.len() as usize,
                                    },
                                ),
                                ..padded
                            },
                        )
                    }
                },
            }
        },
    }
}

/// The specification records from the local specification `local_index` on: each charges a
/// step, finds the specification and emits its records.
pub open spec fn specification_walk(
    schema: SchemaView,
    limits: UnfrozenRemoteRos2LimitsV1,
    limit: RemoteRos2ResourceLimit,
    spec_count: nat,
    specification_start: nat,
    schema_index: nat,
    state: SpecIterState,
    local_index: nat,
    out: EmittedRecordsV1,
    budget: nat,
) -> (Result<(), RemoteRos2InitializationError>, nat, EmittedRecordsV1)
    decreases spec_count - local_index,
{
    if local_index >= spec_count {
        (Ok(()), budget, out)
    } else if budget == 0 {
        (Err(steps::limit_error(limit)), 0, out)
    } else {
        let step = specs::spec_iter_step(schema, state);
        let next = steps::within_budget((budget - 1) as nat, limit, step.0, step.1);
        match next.0 {
            Err(error) => (Err(error), next.1, out),
            Ok(None) => (Err(RemoteRos2InitializationError::InvalidRemoteSchema), next.1, out),
            Ok(Some(spec)) => {
                let done = specification_records(
                    schema,
                    limits,
                    limit,
                    spec_count,
                    specification_start,
                    schema_index,
                    local_index,
                    spec,
                    out,
                    next.1,
                );
                match done.0 {
                    Err(error) => (Err(error), done.1, done.2),
                    Ok(()) => specification_walk(
                        schema,
                        limits,
                        limit,
                        spec_count,
                        specification_start,
                        schema_index,
                        step.2,
                        local_index + 1,
                        done.2,
                        done.1,
                    ),
                }
            },
        }
    }
}

/// The materialization of one schema after the records in `out`: the specification count pass,
/// the specification walk, then one step and the schema record.
pub open spec fn schema_materialization(
    schema: SchemaView,
    limits: UnfrozenRemoteRos2LimitsV1,
    limit: RemoteRos2ResourceLimit,
    out: EmittedRecordsV1,
    budget: nat,
) -> (Result<(), RemoteRos2InitializationError>, nat, EmittedRecordsV1) {
    let schema_index = out.schemas.len();
    let specification_start = out.specifications.len();
    let counted = specification_count_walk(schema, limit, specs::initial_spec_state(), 0, budget);
    match counted.0 {
        Err(error) => (Err(error), counted.1, out),
        Ok(spec_count) => {
            let walked = specification_walk(
                schema,
                limits,
                limit,
                spec_count,
                specification_start,
                schema_index,
                specs::initial_spec_state(),
                0,
                out,
                counted.1,
            );
            match walked.0 {
                Err(error) => (Err(error), walked.1, walked.2),
                Ok(()) => if walked.1 == 0 {
                    (Err(steps::limit_error(limit)), 0, walked.2)
                } else {
                    (
                        Ok(()),
                        (walked.1 - 1) as nat,
                        EmittedRecordsV1 {
                            schemas: walked.2.schemas.push(
                                ParsedSchemaV1 {
                                    schema_id: schema.id,
                                    schema_record_index: schema.record_index,
                                    specifications_start: specification_start as usize,
                                    specifications_end: walked.2.specifications.len() as usize,
                                },
                            ),
                            ..walked.2
                        },
                    )
                },
            }
        },
    }
}


pub proof fn lemma_member_walk_extends(
    schema: SchemaView,
    limits: UnfrozenRemoteRos2LimitsV1,
    limit: RemoteRos2ResourceLimit,
    local_index: nat,
    spec_count: nat,
    specification_start: nat,
    specification_index: nat,
    body_end: int,
    cursor: int,
    out: EmittedRecordsV1,
    budget: nat,
)
    requires
        0 <= cursor,
        schema.data@.len() <= usize::MAX,
    ensures
        extends(
            out,
            member_walk(
                schema,
                limits,
                limit,
                local_index,
                spec_count,
                specification_start,
                specification_index,
                body_end,
                cursor,
                out,
                budget,
            ).2,
        ),
        member_walk(
            schema,
            limits,
            limit,
            local_index,
            spec_count,
            specification_start,
            specification_index,
            body_end,
            cursor,
            out,
            budget,
        ).2.schemas == out.schemas,
        member_walk(
            schema,
            limits,
            limit,
            local_index,
            spec_count,
            specification_start,
            specification_index,
            body_end,
            cursor,
            out,
            budget,
        ).2.specifications == out.specifications,
    decreases schema.data@.len() - cursor,
{
    if budget > 0 {
        let search = specs::member_search(
            schema.data@,
            schema.record_index,
            cursor,
            body_end,
            limits,
        );
        let found = steps::within_budget((budget - 1) as nat, limit, search.0, search.1);
        if let Ok(Some(member)) = found.0 {
            if found.1 > 0 {
                specs::lemma_member_search_advances(
                    schema.data@,
                    schema.record_index,
                    cursor,
                    body_end,
                    limits,
                );
                let member_index = out.members.len();
                let with_member = EmittedRecordsV1 {
                    members: out.members.push(
                        ParsedMemberV1 {
                            specification_index: specification_index as usize,
                            kind: member.kind,
                            name: member.name,
                            ty: member.ty,
                            literal: member.literal,
                        },
                    ),
                    ..out
                };
                match member.ty.element {
                    ElementTypeV1::Primitive(_) => {
                        lemma_member_walk_extends(
                            schema,
                            limits,
                            limit,
                            local_index,
                            spec_count,
                            specification_start,
                            specification_index,
                            body_end,
                            search.2,
                            with_member,
                            (found.1 - 1) as nat,
                        );
                    },
                    ElementTypeV1::Complex(type_span) => {
                        let resolution = dependencies::complex_type_resolution(
                            schema,
                            local_index,
                            type_span,
                            spec_count,
                        );
                        let resolved = steps::within_budget(
                            (found.1 - 1) as nat,
                            limit,
                            resolution.0,
                            resolution.1,
                        );
                        if let Ok(target) = resolved.0 {
                            if resolved.1 > 0 && specification_start + target <= usize::MAX {
                                lemma_member_walk_extends(
                                    schema,
                                    limits,
                                    limit,
                                    local_index,
                                    spec_count,
                                    specification_start,
                                    specification_index,
                                    body_end,
                                    search.2,
                                    EmittedRecordsV1 {
                                        resolutions: with_member.resolutions.push(
                                            ComplexTypeResolutionV1 {
                                                member_index: member_index as usize,
                                                target_specification_index: (specification_start
                                                    + target) as usize,
                                            },
                                        ),
                                        ..with_member
                                    },
                                    (resolved.1 - 1) as nat,
                                );
                            }
                        }
                    },
                }
            }
        }
    }
}

pub proof fn lemma_specification_records_extends(
    schema: SchemaView,
    limits: UnfrozenRemoteRos2LimitsV1,
    limit: RemoteRos2ResourceLimit,
    spec_count: nat,
    specification_start: nat,
    schema_index: nat,
    local_index: nat,
    spec: specs::SpecView,
    out: EmittedRecordsV1,
    budget: nat,
)
    requires
        schema.data@.len() <= usize::MAX,
    ensures
        extends(
            out,
            specification_records(
                schema,
                limits,
                limit,
                spec_count,
                specification_start,
                schema_index,
                local_index,
                spec,
                out,
                budget,
            ).2,
        ),
        extends(
            member_walk(
                schema,
                limits,
                limit,
                local_index,
                spec_count,
                specification_start,
                out.specifications.len(),
                spec.body_end as int,
                spec.body_start as int,
                out,
                budget,
            ).2,
            specification_records(
                schema,
                limits,
                limit,
                spec_count,
                specification_start,
                schema_index,
                local_index,
                spec,
                out,
                budget,
            ).2,
        ),
        specification_records(
            schema,
            limits,
            limit,
            spec_count,
            specification_start,
            schema_index,
            local_index,
            spec,
            out,
            budget,
        ).2.schemas == out.schemas,
{
    lemma_member_walk_extends(
        schema,
        limits,
        limit,
        local_index,
        spec_count,
        specification_start,
        out.specifications.len(),
        spec.body_end as int,
        spec.body_start as int,
        out,
        budget,
    );
}

pub proof fn lemma_specification_walk_extends(
    schema: SchemaView,
    limits: UnfrozenRemoteRos2LimitsV1,
    limit: RemoteRos2ResourceLimit,
    spec_count: nat,
    specification_start: nat,
    schema_index: nat,
    state: SpecIterState,
    local_index: nat,
    out: EmittedRecordsV1,
    budget: nat,
)
    requires
        schema.data@.len() <= usize::MAX,
    ensures
        extends(
            out,
            specification_walk(
                schema,
                limits,
                limit,
                spec_count,
                specification_start,
                schema_index,
                state,
                local_index,
                out,
                budget,
            ).2,
        ),
        specification_walk(
            schema,
            limits,
            limit,
            spec_count,
            specification_start,
            schema_index,
            state,
            local_index,
            out,
            budget,
        ).2.schemas == out.schemas,
    decreases spec_count - local_index,
{
    if local_index < spec_count && budget > 0 {
        let step = specs::spec_iter_step(schema, state);
        let next = steps::within_budget((budget - 1) as nat, limit, step.0, step.1);
        if let Ok(Some(spec)) = next.0 {
            lemma_specification_records_extends(
                schema,
                limits,
                limit,
                spec_count,
                specification_start,
                schema_index,
                local_index,
                spec,
                out,
                next.1,
            );
            let done = specification_records(
                schema,
                limits,
                limit,
                spec_count,
                specification_start,
                schema_index,
                local_index,
                spec,
                out,
                next.1,
            );
            if done.0 is Ok {
                lemma_specification_walk_extends(
                    schema,
                    limits,
                    limit,
                    spec_count,
                    specification_start,
                    schema_index,
                    step.2,
                    local_index + 1,
                    done.2,
                    done.1,
                );
            }
        }
    }
}

/// Where materialized records go: a sink reports how many records of each kind it holds and
/// appends one record at a time within its capacities.
pub trait RemoteRos2MaterializationSink {
    spec fn emitted(&self) -> EmittedRecordsV1;

    /// The capacities of the schema, specification, member and resolution records.
    spec fn capacities(&self) -> (nat, nat, nat, nat);

    fn schema_len(&self) -> (len: usize)
        ensures
            len == self.emitted().schemas.len(),
    ;

    fn specification_len(&self) -> (len: usize)
        ensures
            len == self.emitted().specifications.len(),
    ;

    fn member_len(&self) -> (len: usize)
        ensures
            len == self.emitted().members.len(),
    ;

    fn push_schema(&mut self, value: ParsedSchemaV1) -> (result: Result<
        (),
        RemoteRos2InitializationError,
    >)
        requires
            old(self).emitted().schemas.len() < old(self).capacities().0,
        ensures
            result is Ok,
            final(self).emitted() == (EmittedRecordsV1 {
                schemas: old(self).emitted().schemas.push(value),
                ..old(self).emitted()
            }),
            final(self).capacities() == old(self).capacities(),
    ;

    fn push_specification(&mut self, value: ParsedSpecificationV1) -> (result: Result<
        (),
        RemoteRos2InitializationError,
    >)
        requires
            old(self).emitted().specifications.len() < old(self).capacities().1,
        ensures
            result is Ok,
            final(self).emitted() == (EmittedRecordsV1 {
                specifications: old(self).emitted().specifications.push(value),
                ..old(self).emitted()
            }),
            final(self).capacities() == old(self).capacities(),
    ;

    fn push_member(&mut self, value: ParsedMemberV1) -> (result: Result<
        (),
        RemoteRos2InitializationError,
    >)
        requires
            old(self).emitted().members.len() < old(self).capacities().2,
        ensures
            result is Ok,
            final(self).emitted() == (EmittedRecordsV1 {
                members: old(self).emitted().members.push(value),
                ..old(self).emitted()
            }),
            final(self).capacities() == old(self).capacities(),
    ;

    fn push_resolution(&mut self, value: ComplexTypeResolutionV1) -> (result: Result<
        (),
        RemoteRos2InitializationError,
    >)
        requires
            old(self).emitted().resolutions.len() < old(self).capacities().3,
        ensures
            result is Ok,
            final(self).emitted() == (EmittedRecordsV1 {
                resolutions: old(self).emitted().resolutions.push(value),
                ..old(self).emitted()
            }),
            final(self).capacities() == old(self).capacities(),
    ;
}

/// The record counts of the dry materialization run.
pub struct CountingMaterializationSink {
    schemas: usize,
    specifications: usize,
    members: usize,
    resolutions: usize,
    records: Ghost<EmittedRecordsV1>,
}

impl CountingMaterializationSink {
    #[verifier::type_invariant]
    spec fn counts_match(self) -> bool {
        &&& self.schemas == self.records@.schemas.len()
        &&& self.specifications == self.records@.specifications.len()
        &&& self.members == self.records@.members.len()
        &&& self.resolutions == self.records@.resolutions.len()
    }

    pub closed spec fn spec_counts(&self) -> (nat, nat, nat, nat) {
        (
            self.schemas as nat,
            self.specifications as nat,
            self.members as nat,
            self.resolutions as nat,
        )
    }

    pub fn new() -> (sink: Self)
        ensures
            sink.spec_counts() == (0nat, 0nat, 0nat, 0nat),
            sink.capacities() == (usize::MAX as nat, usize::MAX as nat, usize::MAX as nat, usize::MAX as nat),
            sink.emitted() == (EmittedRecordsV1 {
                schemas: Seq::empty(),
                specifications: Seq::empty(),
                members: Seq::empty(),
                resolutions: Seq::empty(),
            }),
    {
        CountingMaterializationSink {
            schemas: 0,
            specifications: 0,
            members: 0,
            resolutions: 0,
            records: Ghost(
                EmittedRecordsV1 {
                    schemas: Seq::empty(),
                    specifications: Seq::empty(),
                    members: Seq::empty(),
                    resolutions: Seq::empty(),
                },
            ),
        }
    }

    /// Counts one more record.
    pub fn increment(value: &mut usize) -> (result: Result<(), RemoteRos2InitializationError>)
        ensures
            *old(value) < usize::MAX ==> result is Ok && *final(value) == *old(value) + 1,
            *old(value) == usize::MAX ==> result == Err::<(), RemoteRos2InitializationError>(
                steps::limit_error(RemoteRos2ResourceLimit::Arithmetic),
            ) && *final(value) == *old(value),
    {
        if *value == usize::MAX {
            return Err(
                RemoteRos2InitializationError::ResourceLimitExceeded(
                    RemoteRos2ResourceLimit::Arithmetic,
                ),
            );
        }
        *value = *value + 1;
        Ok(())
    }

    /// The counted schema, specification, member and resolution records.
    pub fn counts(&self) -> (counts: (usize, usize, usize, usize))
        ensures
            (counts.0 as nat, counts.1 as nat, counts.2 as nat, counts.3 as nat) == self.spec_counts(),
    {
        (self.schemas, self.specifications, self.members, self.resolutions)
    }

    /// Checks that the dry run emitted exactly the records that the grammar census counted.
    pub fn verify(&self, census: RemoteRos2Census) -> (result: Result<(), RemoteRos2InitializationError>)
        ensures
            result is Ok <==> counts_match(self.emitted(), census),
            result is Err ==> result == Err::<(), RemoteRos2InitializationError>(
                RemoteRos2InitializationError::InvalidRemoteSchema,
            ),
    {
        proof {
            use_type_invariant(self);
        }
        if self.schemas as u64 == census.schemas && self.specifications as u64
            == census.specifications && self.members as u64 == census.members
            && self.resolutions as u64 == census.dependency_edges {
            Ok(())
        } else {
            Err(RemoteRos2InitializationError::InvalidRemoteSchema)
        }
    }
}

/// Whether the records of a walk are exactly as many as the census counted.
pub open spec fn counts_match(records: EmittedRecordsV1, census: RemoteRos2Census) -> bool {
    &&& records.schemas.len() == census.schemas
    &&& records.specifications.len() == census.specifications
    &&& records.members.len() == census.members
    &&& records.resolutions.len() == census.dependency_edges
}

impl RemoteRos2MaterializationSink for CountingMaterializationSink {
    closed spec fn emitted(&self) -> EmittedRecordsV1 {
        self.records@
    }

    closed spec fn capacities(&self) -> (nat, nat, nat, nat) {
        (usize::MAX as nat, usize::MAX as nat, usize::MAX as nat, usize::MAX as nat)
    }

    fn schema_len(&self) -> (len: usize) {
        proof {
            use_type_invariant(self);
        }
        self.schemas
    }

    fn specification_len(&self) -> (len: usize) {
        proof {
            use_type_invariant(self);
        }
        self.specifications
    }

    fn member_len(&self) -> (len: usize) {
        proof {
            use_type_invariant(self);
        }
        self.members
    }

    fn push_schema(&mut self, value: ParsedSchemaV1) -> (result: Result<
        (),
        RemoteRos2InitializationError,
    >) {
        proof {
            use_type_invariant(&*self);
        }
        let mut count = self.schemas;
        let counted = Self::increment(&mut count);
        let ghost records = EmittedRecordsV1 { schemas: self.records@.schemas.push(value), ..self.records@ };
        *self = CountingMaterializationSink {
            schemas: count,
            specifications: self.specifications,
            members: self.members,
            resolutions: self.resolutions,
            records: Ghost(records),
        };
        counted
    }

    fn push_specification(&mut self, value: ParsedSpecificationV1) -> (result: Result<
        (),
        RemoteRos2InitializationError,
    >) {
        proof {
            use_type_invariant(&*self);
        }
        let mut count = self.specifications;
        let counted = Self::increment(&mut count);
        let ghost records = EmittedRecordsV1 {
            specifications: self.records@.specifications.push(value),
            ..self.records@
        };
        *self = CountingMaterializationSink {
            schemas: self.schemas,
            specifications: count,
            members: self.members,
            resolutions: self.resolutions,
            records: Ghost(records),
        };
        counted
    }

    fn push_member(&mut self, value: ParsedMemberV1) -> (result: Result<
        (),
        RemoteRos2InitializationError,
    >) {
        proof {
            use_type_invariant(&*self);
        }
        let mut count = self.members;
        let counted = Self::increment(&mut count);
        let ghost records = EmittedRecordsV1 { members: self.records@.members.push(value), ..self.records@ };
        *self = CountingMaterializationSink {
            schemas: self.schemas,
            specifications: self.specifications,
            members: count,
            resolutions: self.resolutions,
            records: Ghost(records),
        };
        counted
    }

    fn push_resolution(&mut self, value: ComplexTypeResolutionV1) -> (result: Result<
        (),
        RemoteRos2InitializationError,
    >) {
        proof {
            use_type_invariant(&*self);
        }
        let mut count = self.resolutions;
        let counted = Self::increment(&mut count);
        let ghost records = EmittedRecordsV1 {
            resolutions: self.records@.resolutions.push(value),
            ..self.records@
        };
        *self = CountingMaterializationSink {
            schemas: self.schemas,
            specifications: self.specifications,
            members: self.members,
            resolutions: count,
            records: Ghost(records),
        };
        counted
    }
}

impl RemoteRos2MaterializationSink for Ros2ArenaDirectoryV1 {
    closed spec fn emitted(&self) -> EmittedRecordsV1 {
        EmittedRecordsV1 {
            schemas: self.schemas.items(),
            specifications: self.specifications.items(),
            members: self.members.items(),
            resolutions: self.resolutions.items(),
        }
    }

    closed spec fn capacities(&self) -> (nat, nat, nat, nat) {
        (
            self.schemas.spec_capacity(),
            self.specifications.spec_capacity(),
            self.members.spec_capacity(),
            self.resolutions.spec_capacity(),
        )
    }

    fn schema_len(&self) -> (len: usize) {
        self.schemas.len()
    }

    fn specification_len(&self) -> (len: usize) {
        self.specifications.len()
    }

    fn member_len(&self) -> (len: usize) {
        self.members.len()
    }

    fn push_schema(&mut self, value: ParsedSchemaV1) -> (result: Result<
        (),
        RemoteRos2InitializationError,
    >) {
        self.schemas.push(value)
    }

    fn push_specification(&mut self, value: ParsedSpecificationV1) -> (result: Result<
        (),
        RemoteRos2InitializationError,
    >) {
        self.specifications.push(value)
    }

    fn push_member(&mut self, value: ParsedMemberV1) -> (result: Result<
        (),
        RemoteRos2InitializationError,
    >) {
        self.members.push(value)
    }

    fn push_resolution(&mut self, value: ComplexTypeResolutionV1) -> (result: Result<
        (),
        RemoteRos2InitializationError,
    >) {
        self.resolutions.push(value)
    }
}


/// Materializing one schema only appends records.
pub proof fn lemma_schema_materialization_extends(
    schema: SchemaView,
    limits: UnfrozenRemoteRos2LimitsV1,
    limit: RemoteRos2ResourceLimit,
    out: EmittedRecordsV1,
    budget: nat,
)
    requires
        schema.data@.len() <= usize::MAX,
    ensures
        extends(out, schema_materialization(schema, limits, limit, out, budget).2),
{
    let counted = specification_count_walk(schema, limit, specs::initial_spec_state(), 0, budget);
    if let Ok(spec_count) = counted.0 {
        lemma_specification_walk_extends(
            schema,
            limits,
            limit,
            spec_count,
            out.specifications.len(),
            out.schemas.len(),
            specs::initial_spec_state(),
            0,
            out,
            counted.1,
        );
    }
}

/// The number of records of every kind.
pub open spec fn record_total(records: EmittedRecordsV1) -> nat {
    records.schemas.len() + records.specifications.len() + records.members.len()
        + records.resolutions.len()
}

/// The specification count pass never ends with more steps than it began with.
pub proof fn lemma_specification_count_walk_budget(
    schema: SchemaView,
    limit: RemoteRos2ResourceLimit,
    state: SpecIterState,
    count: nat,
    budget: nat,
)
    ensures
        specification_count_walk(schema, limit, state, count, budget).1 <= budget,
    decreases budget,
{
    if budget > 0 {
        let step = specs::spec_iter_step(schema, state);
        let next = steps::within_budget((budget - 1) as nat, limit, step.0, step.1);
        if let Ok(Some(_)) = next.0 {
            if count + 1 <= usize::MAX {
                lemma_specification_count_walk_budget(schema, limit, step.2, count + 1, next.1);
            }
        }
    }
}

/// Every member or resolution record that the member walk emits costs at least one step.
pub proof fn lemma_member_walk_budget(
    schema: SchemaView,
    limits: UnfrozenRemoteRos2LimitsV1,
    limit: RemoteRos2ResourceLimit,
    local_index: nat,
    spec_count: nat,
    specification_start: nat,
    specification_index: nat,
    body_end: int,
    cursor: int,
    out: EmittedRecordsV1,
    budget: nat,
)
    requires
        0 <= cursor,
        schema.data@.len() <= usize::MAX,
    ensures
        ({
            let walked = member_walk(
                schema,
                limits,
                limit,
                local_index,
                spec_count,
                specification_start,
                specification_index,
                body_end,
                cursor,
                out,
                budget,
            );
            &&& walked.1 <= budget
            &&& record_total(walked.2) + walked.1 <= record_total(out) + budget
        }),
    decreases schema.data@.len() - cursor,
{
    if budget > 0 {
        let search = specs::member_search(
            schema.data@,
            schema.record_index,
            cursor,
            body_end,
            limits,
        );
        let found = steps::within_budget((budget - 1) as nat, limit, search.0, search.1);
        if let Ok(Some(member)) = found.0 {
            if found.1 > 0 {
                specs::lemma_member_search_advances(
                    schema.data@,
                    schema.record_index,
                    cursor,
                    body_end,
                    limits,
                );
                let member_index = out.members.len();
                let with_member = EmittedRecordsV1 {
                    members: out.members.push(
                        ParsedMemberV1 {
                            specification_index: specification_index as usize,
                            kind: member.kind,
                            name: member.name,
                            ty: member.ty,
                            literal: member.literal,
                        },
                    ),
                    ..out
                };
                assert(record_total(with_member) == record_total(out) + 1);
                match member.ty.element {
                    ElementTypeV1::Primitive(_) => {
                        lemma_member_walk_budget(
                            schema,
                            limits,
                            limit,
                            local_index,
                            spec_count,
                            specification_start,
                            specification_index,
                            body_end,
                            search.2,
                            with_member,
                            (found.1 - 1) as nat,
                        );
                    },
                    ElementTypeV1::Complex(type_span) => {
                        let resolution = dependencies::complex_type_resolution(
                            schema,
                            local_index,
                            type_span,
                            spec_count,
                        );
                        let resolved = steps::within_budget(
                            (found.1 - 1) as nat,
                            limit,
                            resolution.0,
                            resolution.1,
                        );
                        if let Ok(target) = resolved.0 {
                            if resolved.1 > 0 && specification_start + target <= usize::MAX {
                                let with_resolution = EmittedRecordsV1 {
                                    resolutions: with_member.resolutions.push(
                                        ComplexTypeResolutionV1 {
                                            member_index: member_index as usize,
                                            target_specification_index: (specification_start
                                                + target) as usize,
                                        },
                                    ),
                                    ..with_member
                                };
                                assert(record_total(with_resolution) == record_total(out) + 2);
                                lemma_member_walk_budget(
                                    schema,
                                    limits,
                                    limit,
                                    local_index,
                                    spec_count,
                                    specification_start,
                                    specification_index,
                                    body_end,
                                    search.2,
                                    with_resolution,
                                    (resolved.1 - 1) as nat,
                                );
                            }
                        }
                    },
                }
            }
        }
    }
}

/// Every record of one specification costs at least one step.
pub proof fn lemma_specification_records_budget(
    schema: SchemaView,
    limits: UnfrozenRemoteRos2LimitsV1,
    limit: RemoteRos2ResourceLimit,
    spec_count: nat,
    specification_start: nat,
    schema_index: nat,
    local_index: nat,
    spec: specs::SpecView,
    out: EmittedRecordsV1,
    budget: nat,
)
    requires
        schema.data@.len() <= usize::MAX,
    ensures
        ({
            let done = specification_records(
                schema,
                limits,
                limit,
                spec_count,
                specification_start,
                schema_index,
                local_index,
                spec,
                out,
                budget,
            );
            &&& done.1 <= budget
            &&& record_total(done.2) + done.1 <= record_total(out) + budget
        }),
{
    lemma_member_walk_budget(
        schema,
        limits,
        limit,
        local_index,
        spec_count,
        specification_start,
        out.specifications.len(),
        spec.body_end as int,
        spec.body_start as int,
        out,
        budget,
    );
}

/// Every record of the specification walk costs at least one step.
pub proof fn lemma_specification_walk_budget(
    schema: SchemaView,
    limits: UnfrozenRemoteRos2LimitsV1,
    limit: RemoteRos2ResourceLimit,
    spec_count: nat,
    specification_start: nat,
    schema_index: nat,
    state: SpecIterState,
    local_index: nat,
    out: EmittedRecordsV1,
    budget: nat,
)
    requires
        schema.data@.len() <= usize::MAX,
    ensures
        ({
            let walked = specification_walk(
                schema,
                limits,
                limit,
                spec_count,
                specification_start,
                schema_index,
                state,
                local_index,
                out,
                budget,
            );
            &&& walked.1 <= budget
            &&& record_total(walked.2) + walked.1 <= record_total(out) + budget
        }),
    decreases spec_count - local_index,
{
    if local_index < spec_count && budget > 0 {
        let step = specs::spec_iter_step(schema, state);
        let next = steps::within_budget((budget - 1) as nat, limit, step.0, step.1);
        if let Ok(Some(spec)) = next.0 {
            lemma_specification_records_budget(
                schema,
                limits,
                limit,
                spec_count,
                specification_start,
                schema_index,
                local_index,
                spec,
                out,
                next.1,
            );
            let done = specification_records(
                schema,
                limits,
                limit,
                spec_count,
                specification_start,
                schema_index,
                local_index,
                spec,
                out,
                next.1,
            );
            if done.0 is Ok {
                lemma_specification_walk_budget(
                    schema,
                    limits,
                    limit,
                    spec_count,
                    specification_start,
                    schema_index,
                    step.2,
                    local_index + 1,
                    done.2,
                    done.1,
                );
            }
        }
    }
}

/// Every record of one schema costs at least one step.
pub proof fn lemma_schema_materialization_budget(
    schema: SchemaView,
    limits: UnfrozenRemoteRos2LimitsV1,
    limit: RemoteRos2ResourceLimit,
    out: EmittedRecordsV1,
    budget: nat,
)
    requires
        schema.data@.len() <= usize::MAX,
    ensures
        ({
            let done = schema_materialization(schema, limits, limit, out, budget);
            &&& done.1 <= budget
            &&& record_total(done.2) + done.1 <= record_total(out) + budget
        }),
{
    lemma_specification_count_walk_budget(schema, limit, specs::initial_spec_state(), 0, budget);
    let counted = specification_count_walk(schema, limit, specs::initial_spec_state(), 0, budget);
    if let Ok(spec_count) = counted.0 {
        lemma_specification_walk_budget(
            schema,
            limits,
            limit,
            spec_count,
            out.specifications.len(),
            out.schemas.len(),
            specs::initial_spec_state(),
            0,
            out,
            counted.1,
        );
    }
}

/// The layout of one specification's records: its member and resolution records follow the
/// earlier ones, at most one padding member comes after them, and the specification record comes
/// last, naming the members from its first member to the end.
pub proof fn lemma_specification_records_layout(
    schema: SchemaView,
    limits: UnfrozenRemoteRos2LimitsV1,
    limit: RemoteRos2ResourceLimit,
    spec_count: nat,
    specification_start: nat,
    schema_index: nat,
    local_index: nat,
    spec: specs::SpecView,
    out: EmittedRecordsV1,
    budget: nat,
)
    requires
        schema.data@.len() <= usize::MAX,
    ensures
        ({
            let done = specification_records(
                schema,
                limits,
                limit,
                spec_count,
                specification_start,
                schema_index,
                local_index,
                spec,
                out,
                budget,
            );
            let walked = member_walk(
                schema,
                limits,
                limit,
                local_index,
                spec_count,
                specification_start,
                out.specifications.len(),
                spec.body_end as int,
                spec.body_start as int,
                out,
                budget,
            );
            done.0 is Ok ==> {
                &&& done.2.schemas == out.schemas
                &&& done.2.resolutions == walked.2.resolutions
                &&& (done.2.members == walked.2.members || done.2.members == walked.2.members.push(
                    padding_member(schema, out.specifications.len()),
                ))
                &&& done.2.specifications == out.specifications.push(
                    ParsedSpecificationV1 {
                        schema_index: schema_index as usize,
                        name: spec.name,
                        members_start: out.members.len() as usize,
                        members_end: done.2.members.len() as usize,
                    },
                )
            }
        }),
{
    lemma_member_walk_extends(
        schema,
        limits,
        limit,
        local_index,
        spec_count,
        specification_start,
        out.specifications.len(),
        spec.body_end as int,
        spec.body_start as int,
        out,
        budget,
    );
}

/// The layout of one schema's records: its specifications follow the earlier ones and the schema
/// record comes last, naming the specifications from its first one to the end.
pub proof fn lemma_schema_materialization_layout(
    schema: SchemaView,
    limits: UnfrozenRemoteRos2LimitsV1,
    limit: RemoteRos2ResourceLimit,
    out: EmittedRecordsV1,
    budget: nat,
)
    requires
        schema.data@.len() <= usize::MAX,
    ensures
        ({
            let done = schema_materialization(schema, limits, limit, out, budget);
            done.0 is Ok ==> {
                &&& out.specifications.len() <= done.2.specifications.len()
                &&& done.2.schemas == out.schemas.push(
                    ParsedSchemaV1 {
                        schema_id: schema.id,
                        schema_record_index: schema.record_index,
                        specifications_start: out.specifications.len() as usize,
                        specifications_end: done.2.specifications.len() as usize,
                    },
                )
            }
        }),
{
    lemma_schema_materialization_extends(schema, limits, limit, out, budget);
    let counted = specification_count_walk(schema, limit, specs::initial_spec_state(), 0, budget);
    if let Ok(spec_count) = counted.0 {
        lemma_specification_walk_extends(
            schema,
            limits,
            limit,
            spec_count,
            out.specifications.len(),
            out.schemas.len(),
            specs::initial_spec_state(),
            0,
            out,
            counted.1,
        );
    }
}

/// The records and capacities of the arena directory are those of its four arenas.
pub proof fn lemma_directory_sink(directory: &Ros2ArenaDirectoryV1)
    ensures
        directory.emitted() == (EmittedRecordsV1 {
            schemas: directory.schemas.items(),
            specifications: directory.specifications.items(),
            members: directory.members.items(),
            resolutions: directory.resolutions.items(),
        }),
        directory.capacities() == (
            directory.schemas.spec_capacity(),
            directory.specifications.spec_capacity(),
            directory.members.spec_capacity(),
            directory.resolutions.spec_capacity(),
        ),
{
}

/// Whether every record that the walk ending in `records` emits fits the sink's capacities.
pub open spec fn fits_capacities(records: EmittedRecordsV1, capacities: (nat, nat, nat, nat)) -> bool {
    &&& records.schemas.len() <= capacities.0
    &&& records.specifications.len() <= capacities.1
    &&& records.members.len() <= capacities.2
    &&& records.resolutions.len() <= capacities.3
}

fn count_specifications(schema: SchemaView<'_>, meter: &mut RemoteRos2StepOwnershipV1) -> (result:
    Result<usize, RemoteRos2InitializationError>)
    ensures
        (
            match result {
                Ok(count) => Ok(count as nat),
                Err(error) => Err(error),
            },
            final(meter).remaining_steps(),
        ) == specification_count_walk(
            schema,
            old(meter).limit(),
            specs::initial_spec_state(),
            0,
            old(meter).remaining_steps(),
        ),
        final(meter).limit() == old(meter).limit(),
        final(meter).consumed_steps() + final(meter).remaining_steps() == old(
            meter,
        ).consumed_steps() + old(meter).remaining_steps(),
{
    let ghost limit = meter.limit();
    let ghost total = meter.consumed_steps() + meter.remaining_steps();
    let ghost target = specification_count_walk(
        schema,
        limit,
        specs::initial_spec_state(),
        0,
        meter.remaining_steps(),
    );
    let mut counter = SpecIter::new(schema);
    let mut count: usize = 0;
    loop
        invariant
            counter.schema_of() == schema,
            meter.limit() == limit,
            meter.consumed_steps() + meter.remaining_steps() == total,
            limit == old(meter).limit(),
            total == old(meter).consumed_steps() + old(meter).remaining_steps(),
            target == specification_count_walk(
                schema,
                old(meter).limit(),
                specs::initial_spec_state(),
                0,
                old(meter).remaining_steps(),
            ),
            target == specification_count_walk(
                schema,
                limit,
                counter.state(),
                count as nat,
                meter.remaining_steps(),
            ),
        decreases meter.remaining_steps(),
    {
        let ghost state = counter.state();
        let ghost step = specs::spec_iter_step(schema, state);
        let ghost before = *meter;
        let stepped = meter.step();
        proof {
            steps::lemma_metered_budget(
                before,
                Ok::<(), RemoteRos2InitializationError>(()),
                1,
                stepped,
                *meter,
            );
        }
        if stepped.is_err() {
            return Err(stepped.unwrap_err());
        }
        let ghost before_spec = *meter;
        let next = counter.next_spec(meter);
        proof {
            steps::lemma_metered_budget(before_spec, step.0, step.1, next, *meter);
        }
        match next {
            Ok(Some(_)) => {},
            Ok(None) => {
                return Ok(count);
            },
            Err(error) => {
                return Err(error);
            },
        }
        if count == usize::MAX {
            return Err(
                RemoteRos2InitializationError::ResourceLimitExceeded(
                    RemoteRos2ResourceLimit::Arithmetic,
                ),
            );
        }
        count = count + 1;
    }
}


fn materialize_members<S: RemoteRos2MaterializationSink>(
    schema: SchemaView<'_>,
    limits: &UnfrozenRemoteRos2LimitsV1,
    local_index: usize,
    spec_count: usize,
    specification_start: usize,
    specification_index: usize,
    spec: specs::SpecView,
    sink: &mut S,
    meter: &mut RemoteRos2StepOwnershipV1,
) -> (result: Result<(), RemoteRos2InitializationError>)
    requires
        fits_capacities(
            member_walk(
                schema,
                *limits,
                old(meter).limit(),
                local_index as nat,
                spec_count as nat,
                specification_start as nat,
                specification_index as nat,
                spec.body_end as int,
                spec.body_start as int,
                old(sink).emitted(),
                old(meter).remaining_steps(),
            ).2,
            old(sink).capacities(),
        ),
    ensures
        (result, final(meter).remaining_steps(), final(sink).emitted()) == member_walk(
            schema,
            *limits,
            old(meter).limit(),
            local_index as nat,
            spec_count as nat,
            specification_start as nat,
            specification_index as nat,
            spec.body_end as int,
            spec.body_start as int,
            old(sink).emitted(),
            old(meter).remaining_steps(),
        ),
        final(sink).capacities() == old(sink).capacities(),
        final(meter).limit() == old(meter).limit(),
        final(meter).consumed_steps() + final(meter).remaining_steps() == old(
            meter,
        ).consumed_steps() + old(meter).remaining_steps(),
{
    let ghost limit = meter.limit();
    let ghost total = meter.consumed_steps() + meter.remaining_steps();
    let ghost capacities = sink.capacities();
    let ghost target = member_walk(
        schema,
        *limits,
        limit,
        local_index as nat,
        spec_count as nat,
        specification_start as nat,
        specification_index as nat,
        spec.body_end as int,
        spec.body_start as int,
        sink.emitted(),
        meter.remaining_steps(),
    );
    let available = schema.data.len();
    let mut members = MemberIter::new(schema, spec, limits);
    loop
        invariant
            members.schema_of() == schema,
            members.spec_of() == spec,
            members.limits_of() == *limits,
            0 <= members.cursor_of(),
            available == schema.data@.len(),
            sink.capacities() == capacities,
            capacities == old(sink).capacities(),
            fits_capacities(target.2, capacities),
            meter.limit() == limit,
            meter.consumed_steps() + meter.remaining_steps() == total,
            limit == old(meter).limit(),
            total == old(meter).consumed_steps() + old(meter).remaining_steps(),
            target == member_walk(
                schema,
                *limits,
                old(meter).limit(),
                local_index as nat,
                spec_count as nat,
                specification_start as nat,
                specification_index as nat,
                spec.body_end as int,
                spec.body_start as int,
                old(sink).emitted(),
                old(meter).remaining_steps(),
            ),
            target == member_walk(
                schema,
                *limits,
                limit,
                local_index as nat,
                spec_count as nat,
                specification_start as nat,
                specification_index as nat,
                spec.body_end as int,
                members.cursor_of(),
                sink.emitted(),
                meter.remaining_steps(),
            ),
        decreases available - members.cursor_of(),
    {
        let ghost cursor = members.cursor_of();
        let ghost out = sink.emitted();
        let ghost search = specs::member_search(
            schema.data@,
            schema.record_index,
            cursor,
            spec.body_end as int,
            *limits,
        );
        proof {
            specs::lemma_member_search_advances(
                schema.data@,
                schema.record_index,
                cursor,
                spec.body_end as int,
                *limits,
            );
            specs::lemma_member_search_within(
                schema.data@,
                schema.record_index,
                cursor,
                spec.body_end as int,
                *limits,
            );
        }
        let ghost before = *meter;
        let stepped = meter.step();
        proof {
            steps::lemma_metered_budget(
                before,
                Ok::<(), RemoteRos2InitializationError>(()),
                1,
                stepped,
                *meter,
            );
        }
        if stepped.is_err() {
            return Err(stepped.unwrap_err());
        }
        let ghost before_member = *meter;
        let member = members.next_member(meter);
        proof {
            steps::lemma_metered_budget(before_member, search.0, search.1, member, *meter);
        }
        let member = match member {
            Ok(Some(member)) => member,
            Ok(None) => {
                return Ok(());
            },
            Err(error) => {
                return Err(error);
            },
        };
        let member_index = sink.member_len();
        let ghost before_push = *meter;
        let stepped = meter.step();
        proof {
            steps::lemma_metered_budget(
                before_push,
                Ok::<(), RemoteRos2InitializationError>(()),
                1,
                stepped,
                *meter,
            );
        }
        if stepped.is_err() {
            return Err(stepped.unwrap_err());
        }
        let record = ParsedMemberV1 {
            specification_index,
            kind: member.kind,
            name: member.name,
            ty: member.ty,
            literal: member.literal,
        };
        let ghost with_member = EmittedRecordsV1 { members: out.members.push(record), ..out };
        proof {
            lemma_member_walk_extends(
                schema,
                *limits,
                limit,
                local_index as nat,
                spec_count as nat,
                specification_start as nat,
                specification_index as nat,
                spec.body_end as int,
                search.2,
                with_member,
                meter.remaining_steps(),
            );
        }
        assert(out.members.len() < capacities.2) by {
            if let ElementTypeV1::Complex(type_span) = member.ty.element {
                let resolution = dependencies::complex_type_resolution(
                    schema,
                    local_index as nat,
                    type_span,
                    spec_count as nat,
                );
                let resolved = steps::within_budget(
                    meter.remaining_steps(),
                    limit,
                    resolution.0,
                    resolution.1,
                );
                if let Ok(t) = resolved.0 {
                    if resolved.1 > 0 && specification_start + t <= usize::MAX {
                        lemma_member_walk_extends(
                            schema,
                            *limits,
                            limit,
                            local_index as nat,
                            spec_count as nat,
                            specification_start as nat,
                            specification_index as nat,
                            spec.body_end as int,
                            search.2,
                            EmittedRecordsV1 {
                                resolutions: with_member.resolutions.push(
                                    ComplexTypeResolutionV1 {
                                        member_index: member_index,
                                        target_specification_index: (specification_start + t) as usize,
                                    },
                                ),
                                ..with_member
                            },
                            (resolved.1 - 1) as nat,
                        );
                    }
                }
            }
        }
        let pushed = sink.push_member(record);
        if pushed.is_err() {
            return Err(pushed.unwrap_err());
        }
        if let ElementTypeV1::Complex(type_span) = member.ty.element {
            let ghost resolution = dependencies::complex_type_resolution(
                schema,
                local_index as nat,
                type_span,
                spec_count as nat,
            );
            let ghost before_resolve = *meter;
            let resolved = dependencies::resolve_complex_type(
                schema,
                local_index,
                type_span,
                spec_count,
                meter,
            );
            proof {
                steps::lemma_metered_budget(
                    before_resolve,
                    resolution.0,
                    resolution.1,
                    resolved,
                    *meter,
                );
            }
            let target_index = match resolved {
                Ok(target_index) => target_index,
                Err(error) => {
                    return Err(error);
                },
            };
            let ghost before_resolution_push = *meter;
            let stepped = meter.step();
            proof {
                steps::lemma_metered_budget(
                    before_resolution_push,
                    Ok::<(), RemoteRos2InitializationError>(()),
                    1,
                    stepped,
                    *meter,
                );
            }
            if stepped.is_err() {
                return Err(stepped.unwrap_err());
            }
            let target_specification_index = match specification_start.checked_add(target_index) {
                Some(index) => index,
                None => {
                    return Err(
                        RemoteRos2InitializationError::ResourceLimitExceeded(
                            RemoteRos2ResourceLimit::Arithmetic,
                        ),
                    );
                },
            };
            let resolution_record = ComplexTypeResolutionV1 {
                member_index,
                target_specification_index,
            };
            proof {
                lemma_member_walk_extends(
                    schema,
                    *limits,
                    limit,
                    local_index as nat,
                    spec_count as nat,
                    specification_start as nat,
                    specification_index as nat,
                    spec.body_end as int,
                    search.2,
                    EmittedRecordsV1 {
                        resolutions: with_member.resolutions.push(resolution_record),
                        ..with_member
                    },
                    meter.remaining_steps(),
                );
            }
            let pushed = sink.push_resolution(resolution_record);
            if pushed.is_err() {
                return Err(pushed.unwrap_err());
            }
        }
    }
}



fn materialize_specification<S: RemoteRos2MaterializationSink>(
    schema: SchemaView<'_>,
    limits: &UnfrozenRemoteRos2LimitsV1,
    spec_count: usize,
    specification_start: usize,
    schema_index: usize,
    local_index: usize,
    spec: specs::SpecView,
    sink: &mut S,
    meter: &mut RemoteRos2StepOwnershipV1,
) -> (result: Result<(), RemoteRos2InitializationError>)
    requires
        fits_capacities(
            specification_records(
                schema,
                *limits,
                old(meter).limit(),
                spec_count as nat,
                specification_start as nat,
                schema_index as nat,
                local_index as nat,
                spec,
                old(sink).emitted(),
                old(meter).remaining_steps(),
            ).2,
            old(sink).capacities(),
        ),
    ensures
        result == specification_records(
            schema,
            *limits,
            old(meter).limit(),
            spec_count as nat,
            specification_start as nat,
            schema_index as nat,
            local_index as nat,
            spec,
            old(sink).emitted(),
            old(meter).remaining_steps(),
        ).0,
        final(meter).remaining_steps() == specification_records(
            schema,
            *limits,
            old(meter).limit(),
            spec_count as nat,
            specification_start as nat,
            schema_index as nat,
            local_index as nat,
            spec,
            old(sink).emitted(),
            old(meter).remaining_steps(),
        ).1,
        final(sink).emitted() == specification_records(
            schema,
            *limits,
            old(meter).limit(),
            spec_count as nat,
            specification_start as nat,
            schema_index as nat,
            local_index as nat,
            spec,
            old(sink).emitted(),
            old(meter).remaining_steps(),
        ).2,
        final(sink).capacities() == old(sink).capacities(),
        final(meter).limit() == old(meter).limit(),
        final(meter).consumed_steps() + final(meter).remaining_steps() == old(
            meter,
        ).consumed_steps() + old(meter).remaining_steps(),
{
    let ghost limit = meter.limit();
    let ghost target = specification_records(
        schema,
        *limits,
        limit,
        spec_count as nat,
        specification_start as nat,
        schema_index as nat,
        local_index as nat,
        spec,
        sink.emitted(),
        meter.remaining_steps(),
    );
    let available = schema.data.len();
    proof {
        lemma_specification_records_extends(
            schema,
            *limits,
            limit,
            spec_count as nat,
            specification_start as nat,
            schema_index as nat,
            local_index as nat,
            spec,
            sink.emitted(),
            meter.remaining_steps(),
        );
    }
    let specification_index = sink.specification_len();
    let member_start = sink.member_len();
    materialize_members(
        schema,
        limits,
        local_index,
        spec_count,
        specification_start,
        specification_index,
        spec,
        sink,
        meter,
    )?;
    let ghost summary_outcome = specs::summary_scan(
        schema.data@,
        schema.record_index,
        spec.body_start as int,
        spec.body_end as int,
        *limits,
        0,
        0,
        None,
        true,
    );
    let ghost before_summary = *meter;
    let summary = specs::summarize_specification(schema, spec, limits, meter);
    proof {
        steps::lemma_metered_budget(
            before_summary,
            summary_outcome.0,
            summary_outcome.1,
            summary,
            *meter,
        );
    }
    let summary = match summary {
        Ok(summary) => summary,
        Err(error) => {
            return Err(error);
        },
    };
    let ghost walked = sink.emitted();
    let ghost padded = if summary.needs_padding {
        EmittedRecordsV1 {
            members: walked.members.push(padding_member(schema, specification_index as nat)),
            ..walked
        }
    } else {
        walked
    };
    if summary.needs_padding {
        let ghost before_padding = *meter;
        let stepped = meter.step();
        proof {
            steps::lemma_metered_budget(
                before_padding,
                Ok::<(), RemoteRos2InitializationError>(()),
                1,
                stepped,
                *meter,
            );
        }
        if stepped.is_err() {
            return Err(stepped.unwrap_err());
        }
        let padding = ParsedMemberV1 {
            specification_index,
            kind: ParsedMemberKindV1::SyntheticPadding,
            name: types::synthetic_padding_span(schema),
            ty: ParsedTypeV1 {
                element: ElementTypeV1::Primitive(PrimitiveTypeV1::UInt8),
                array: ArraySizeV1::Scalar,
            },
            literal: None,
        };
        assert(padding == padding_member(schema, specification_index as nat));
        let pushed = sink.push_member(padding);
        if pushed.is_err() {
            return Err(pushed.unwrap_err());
        }
    }
    assert(sink.emitted() == padded);
    let member_end = sink.member_len();
    let ghost before_specification = *meter;
    let stepped = meter.step();
    proof {
        steps::lemma_metered_budget(
            before_specification,
            Ok::<(), RemoteRos2InitializationError>(()),
            1,
            stepped,
            *meter,
        );
    }
    if stepped.is_err() {
        return Err(stepped.unwrap_err());
    }
    let pushed = sink.push_specification(
        ParsedSpecificationV1 {
            schema_index,
            name: spec.name,
            members_start: member_start,
            members_end: member_end,
        },
    );
    if pushed.is_err() {
        return Err(pushed.unwrap_err());
    }
    Ok(())
}

/// Emits the records of one admitted schema into `sink`: the specification count pass, every
/// specification with its members, resolutions and padding, then the schema record, charging
/// the exact materialization steps.
#[verifier::rlimit(80)]
pub fn materialize_one_schema<S: RemoteRos2MaterializationSink>(
    schema: SchemaView<'_>,
    limits: &UnfrozenRemoteRos2LimitsV1,
    sink: &mut S,
    meter: &mut RemoteRos2StepOwnershipV1,
) -> (result: Result<(), RemoteRos2InitializationError>)
    requires
        fits_capacities(
            schema_materialization(
                schema,
                *limits,
                old(meter).limit(),
                old(sink).emitted(),
                old(meter).remaining_steps(),
            ).2,
            old(sink).capacities(),
        ),
    ensures
        result == schema_materialization(
            schema,
            *limits,
            old(meter).limit(),
            old(sink).emitted(),
            old(meter).remaining_steps(),
        ).0,
        final(meter).remaining_steps() == schema_materialization(
            schema,
            *limits,
            old(meter).limit(),
            old(sink).emitted(),
            old(meter).remaining_steps(),
        ).1,
        final(sink).emitted() == schema_materialization(
            schema,
            *limits,
            old(meter).limit(),
            old(sink).emitted(),
            old(meter).remaining_steps(),
        ).2,
        final(sink).capacities() == old(sink).capacities(),
        final(meter).limit() == old(meter).limit(),
        final(meter).consumed_steps() + final(meter).remaining_steps() == old(
            meter,
        ).consumed_steps() + old(meter).remaining_steps(),
{
    let ghost limit = meter.limit();
    let ghost total = meter.consumed_steps() + meter.remaining_steps();
    let ghost capacities = sink.capacities();
    let ghost initial_out = sink.emitted();
    let ghost target = schema_materialization(
        schema,
        *limits,
        limit,
        sink.emitted(),
        meter.remaining_steps(),
    );
    let available = schema.data.len();
    let schema_index = sink.schema_len();
    let specification_start = sink.specification_len();
    let spec_count = count_specifications(schema, meter)?;
    let ghost walk = specification_walk(
        schema,
        *limits,
        limit,
        spec_count as nat,
        specification_start as nat,
        schema_index as nat,
        specs::initial_spec_state(),
        0,
        sink.emitted(),
        meter.remaining_steps(),
    );
    proof {
        lemma_specification_walk_extends(
            schema,
            *limits,
            limit,
            spec_count as nat,
            specification_start as nat,
            schema_index as nat,
            specs::initial_spec_state(),
            0,
            sink.emitted(),
            meter.remaining_steps(),
        );
    }
    let mut specifications = SpecIter::new(schema);
    let mut local_index: usize = 0;
    while local_index < spec_count
        invariant
            specifications.schema_of() == schema,
            available == schema.data@.len(),
            local_index <= spec_count,
            sink.capacities() == capacities,
            capacities == old(sink).capacities(),
            fits_capacities(walk.2, capacities),
            meter.limit() == limit,
            meter.consumed_steps() + meter.remaining_steps() == total,
            limit == old(meter).limit(),
            total == old(meter).consumed_steps() + old(meter).remaining_steps(),
            walk == specification_walk(
                schema,
                *limits,
                limit,
                spec_count as nat,
                specification_start as nat,
                schema_index as nat,
                specifications.state(),
                local_index as nat,
                sink.emitted(),
                meter.remaining_steps(),
            ),
            target == schema_materialization(
                schema,
                *limits,
                old(meter).limit(),
                old(sink).emitted(),
                old(meter).remaining_steps(),
            ),
            walk.0 is Err ==> target == walk,
            walk.0 is Ok ==> target == (if walk.1 == 0 {
                (Err(steps::limit_error(limit)), 0, walk.2)
            } else {
                (
                    Ok(()),
                    (walk.1 - 1) as nat,
                    EmittedRecordsV1 {
                        schemas: walk.2.schemas.push(
                            ParsedSchemaV1 {
                                schema_id: schema.id,
                                schema_record_index: schema.record_index,
                                specifications_start: specification_start,
                                specifications_end: walk.2.specifications.len() as usize,
                            },
                        ),
                        ..walk.2
                    },
                )
            }),
        decreases spec_count - local_index,
    {
        let ghost state = specifications.state();
        let ghost out = sink.emitted();
        let ghost step = specs::spec_iter_step(schema, state);
        let ghost before = *meter;
        let stepped = meter.step();
        proof {
            steps::lemma_metered_budget(
                before,
                Ok::<(), RemoteRos2InitializationError>(()),
                1,
                stepped,
                *meter,
            );
        }
        if stepped.is_err() {
            return Err(stepped.unwrap_err());
        }
        let ghost before_spec = *meter;
        let next = specifications.next_spec(meter);
        proof {
            steps::lemma_metered_budget(before_spec, step.0, step.1, next, *meter);
        }
        let spec = match next {
            Ok(Some(spec)) => spec,
            Ok(None) => {
                return Err(RemoteRos2InitializationError::InvalidRemoteSchema);
            },
            Err(error) => {
                return Err(error);
            },
        };
        let ghost done = specification_records(
            schema,
            *limits,
            limit,
            spec_count as nat,
            specification_start as nat,
            schema_index as nat,
            local_index as nat,
            spec,
            out,
            meter.remaining_steps(),
        );
        proof {
            if done.0 is Ok {
                lemma_specification_walk_extends(
                    schema,
                    *limits,
                    limit,
                    spec_count as nat,
                    specification_start as nat,
                    schema_index as nat,
                    step.2,
                    local_index as nat + 1,
                    done.2,
                    done.1,
                );
            }
        }
        materialize_specification(
            schema,
            limits,
            spec_count,
            specification_start,
            schema_index,
            local_index,
            spec,
            sink,
            meter,
        )?;
        local_index = local_index + 1;
    }
    let specification_end = sink.specification_len();
    let ghost before_schema = *meter;
    let stepped = meter.step();
    proof {
        steps::lemma_metered_budget(
            before_schema,
            Ok::<(), RemoteRos2InitializationError>(()),
            1,
            stepped,
            *meter,
        );
    }
    if stepped.is_err() {
        return Err(stepped.unwrap_err());
    }
    let pushed = sink.push_schema(
        ParsedSchemaV1 {
            schema_id: schema.id,
            schema_record_index: schema.record_index,
            specifications_start: specification_start,
            specifications_end: specification_end,
        },
    );
    if pushed.is_err() {
        return Err(pushed.unwrap_err());
    }
    Ok(())
}

} // verus!
