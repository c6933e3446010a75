//! The allocation-free census of one ROS 2 schema: its counts against the V1 limits, its name,
//! its line lengths, every specification and member, the names, the dependency edges and the
//! dependency graph, all charged to one census step owner.
use crate::remote_ros2_reflection::dependencies::{self, DependencyDfsFrameV1, RemoteRos2FixedScratchV1};
use crate::remote_ros2_reflection::lexer::{self, TextSlice};
use crate::remote_ros2_reflection::names::{self, QualifiedTypeNameValidityV1};
use crate::remote_ros2_reflection::specs::{self, MemberIter, SpecIter, SpecIterState, SpecificationSummary};
use crate::remote_ros2_reflection::steps::{
    self, RemoteRos2InitializationError, RemoteRos2ResourceLimit, RemoteRos2StepOwnershipV1,
    UnsupportedForRemote,
};
use crate::remote_ros2_reflection::types::{self, ElementTypeV1, SchemaView, UnfrozenRemoteRos2LimitsV1};
use vstd::prelude::*;

verus! {

/// The exact counts of a remote ROS 2 admission.
#[derive(Clone, Copy, Debug, PartialEq, Eq, Structural)]
pub struct RemoteRos2Census {
    pub schemas: u64,
    pub definition_bytes: u64,
    pub specifications: u64,
    pub fields: u64,
    pub constants: u64,
    pub members: u64,
    pub dependency_edges: u64,
    pub census_steps: u64,
    pub materialization_steps: u64,
    pub projection_steps: u64,
    pub recognition_steps: u64,
    pub retained_bytes: u64,
    pub working_bytes: u64,
}

/// The census before any schema was counted.
pub open spec fn empty_census() -> RemoteRos2Census {
    RemoteRos2Census {
        schemas: 0,
        definition_bytes: 0,
        specifications: 0,
        fields: 0,
        constants: 0,
        members: 0,
        dependency_edges: 0,
        census_steps: 0,
        materialization_steps: 0,
        projection_steps: 0,
        recognition_steps: 0,
        retained_bytes: 0,
        working_bytes: 0,
    }
}

impl Default for RemoteRos2Census {
    fn default() -> (census: Self)
        ensures
            census == empty_census(),
    {
        RemoteRos2Census {
            schemas: 0,
            definition_bytes: 0,
            specifications: 0,
            fields: 0,
            constants: 0,
            members: 0,
            dependency_edges: 0,
            census_steps: 0,
            materialization_steps: 0,
            projection_steps: 0,
            recognition_steps: 0,
            retained_bytes: 0,
            working_bytes: 0,
        }
    }
}

/// `value + increment` where the total stays within `limit`, else the arithmetic or the given
/// resource error.
pub open spec fn limited_add(
    value: u64,
    increment: u64,
    limit: u64,
    kind: RemoteRos2ResourceLimit,
) -> Result<u64, RemoteRos2InitializationError> {
    if value + increment > u64::MAX {
        Err(steps::limit_error(RemoteRos2ResourceLimit::Arithmetic))
    } else if value + increment > limit {
        Err(steps::limit_error(kind))
    } else {
        Ok((value + increment) as u64)
    }
}

fn add_limited(value: u64, increment: u64, limit: u64, kind: RemoteRos2ResourceLimit) -> (sum: Result<
    u64,
    RemoteRos2InitializationError,
>)
    ensures
        sum == limited_add(value, increment, limit, kind),
{
    let mut total = value;
    steps::increment_limited(&mut total, increment, limit, kind)?;
    Ok(total)
}

/// The line-length check of the definition from `cursor` on with `budget` steps left: every
/// line's content is within `max_line_bytes`.
pub open spec fn line_length_scan(
    text: Seq<u8>,
    cursor: int,
    max_line_bytes: u64,
    limit: RemoteRos2ResourceLimit,
    budget: nat,
) -> (Result<(), RemoteRos2InitializationError>, nat)
    decreases text.len() - cursor,
    when 0 <= cursor && text.len() <= usize::MAX
{
    let read = steps::within_budget(
        budget,
        limit,
        Ok(lexer::line_at(text, cursor)),
        lexer::line_cost(text, cursor),
    );
    match read.0 {
        Err(error) => (Err(error), read.1),
        Ok(None) => (Ok(()), read.1),
        Ok(Some(line)) => if line.content().spec_len() > max_line_bytes {
            (Err(steps::limit_error(RemoteRos2ResourceLimit::LineBytes)), read.1)
        } else {
            proof {
                lexer::lemma_line_at_bounds(text, cursor);
            }
            line_length_scan(text, line.next as int, max_line_bytes, limit, read.1)
        },
    }
}

fn check_line_lengths(
    text: &[u8],
    limits: &UnfrozenRemoteRos2LimitsV1,
    meter: &mut RemoteRos2StepOwnershipV1,
) -> (result: Result<(), RemoteRos2InitializationError>)
    ensures
        (result, final(meter).remaining_steps()) == line_length_scan(
            text@,
            0,
            limits.max_line_bytes,
            old(meter).limit(),
            old(meter).remaining_steps(),
        ),
        final(meter).limit() == old(meter).limit(),
        final(meter).consumed_steps() + final(meter).remaining_steps() == old(
            meter,
        ).consumed_steps() + old(meter).remaining_steps(),
{
    let ghost limit = meter.limit();
    let ghost total = meter.consumed_steps() + meter.remaining_steps();
    let ghost target = line_length_scan(
        text@,
        0,
        limits.max_line_bytes,
        limit,
        meter.remaining_steps(),
    );
    let available = text.len();
    let mut cursor: usize = 0;
    loop
        invariant
            cursor <= available,
            available == text@.len(),
            meter.limit() == limit,
            meter.consumed_steps() + meter.remaining_steps() == total,
            limit == old(meter).limit(),
            total == old(meter).consumed_steps() + old(meter).remaining_steps(),
            target == line_length_scan(
                text@,
                0,
                limits.max_line_bytes,
                old(meter).limit(),
                old(meter).remaining_steps(),
            ),
            target == line_length_scan(
                text@,
                cursor as int,
                limits.max_line_bytes,
                limit,
                meter.remaining_steps(),
            ),
        decreases available - cursor,
    {
        let ghost at = cursor;
        let ghost before = *meter;
        proof {
            lexer::lemma_line_at_bounds(text@, cursor as int);
        }
        let line = lexer::next_line(text, &mut cursor, meter);
        proof {
            steps::lemma_metered_budget(
                before,
                Ok(lexer::line_at(text@, at as int)),
                lexer::line_cost(text@, at as int),
                line,
                *meter,
            );
        }
        let line = match line {
            Ok(Some(line)) => line,
            Ok(None) => {
                return Ok(());
            },
            Err(error) => {
                return Err(error);
            },
        };
        let content = line.text();
        lexer::ensure_length(
            content.end - content.start,
            limits.max_line_bytes,
            RemoteRos2ResourceLimit::LineBytes,
        )?;
    }
}


/// The counts of one summarized specification added to the census: its fields, its constants,
/// a synthetic padding field where it needs one, and all of them as members.
pub open spec fn specification_counts(
    census: RemoteRos2Census,
    summary: SpecificationSummary,
    limits: UnfrozenRemoteRos2LimitsV1,
) -> Result<RemoteRos2Census, RemoteRos2InitializationError> {
    let synthetic: u64 = if summary.needs_padding {
        1
    } else {
        0
    };
    match limited_add(
        census.fields,
        summary.actual_fields,
        limits.max_fields,
        RemoteRos2ResourceLimit::FieldCount,
    ) {
        Err(error) => Err(error),
        Ok(fields) => match limited_add(
            census.constants,
            summary.constants,
            limits.max_constants,
            RemoteRos2ResourceLimit::ConstantCount,
        ) {
            Err(error) => Err(error),
            Ok(constants) => match limited_add(
                fields,
                synthetic,
                limits.max_fields,
                RemoteRos2ResourceLimit::FieldCount,
            ) {
                Err(error) => Err(error),
                Ok(fields) => if summary.actual_fields + summary.constants > u64::MAX
                    || summary.actual_fields + summary.constants + synthetic > u64::MAX {
                    Err(steps::limit_error(RemoteRos2ResourceLimit::Arithmetic))
                } else {
                    match limited_add(
                        census.members,
                        (summary.actual_fields + summary.constants + synthetic) as u64,
                        limits.max_members,
                        RemoteRos2ResourceLimit::MemberCount,
                    ) {
                        Err(error) => Err(error),
                        Ok(members) => Ok(
                            RemoteRos2Census { fields, constants, members, ..census },
                        ),
                    }
                },
            },
        },
    }
}

fn add_specification_counts(
    census: RemoteRos2Census,
    summary: SpecificationSummary,
    limits: &UnfrozenRemoteRos2LimitsV1,
) -> (updated: Result<RemoteRos2Census, RemoteRos2InitializationError>)
    ensures
        updated == specification_counts(census, summary, *limits),
{
    let fields = add_limited(
        census.fields,
        summary.actual_fields,
        limits.max_fields,
        RemoteRos2ResourceLimit::FieldCount,
    )?;
    let constants = add_limited(
        census.constants,
        summary.constants,
        limits.max_constants,
        RemoteRos2ResourceLimit::ConstantCount,
    )?;
    let synthetic: u64 = if summary.needs_padding {
        1
    } else {
        0
    };
    let fields = add_limited(fields, synthetic, limits.max_fields, RemoteRos2ResourceLimit::FieldCount)?;
    let members = steps::checked_add(
        steps::checked_add(summary.actual_fields, summary.constants)?,
        synthetic,
    )?;
    let members = add_limited(
        census.members,
        members,
        limits.max_members,
        RemoteRos2ResourceLimit::MemberCount,
    )?;
    Ok(RemoteRos2Census { fields, constants, members, ..census })
}

/// The specification loop of the census from the iteration state `state`, with `count`
/// specifications counted so far and `budget` steps left: each iteration charges one step and
/// finds the next specification, counts it, summarizes its members and adds their counts.
pub open spec fn specification_census(
    schema: SchemaView,
    limits: UnfrozenRemoteRos2LimitsV1,
    limit: RemoteRos2ResourceLimit,
    state: SpecIterState,
    census: RemoteRos2Census,
    count: nat,
    budget: nat,
) -> (Result<(RemoteRos2Census, nat), RemoteRos2InitializationError>, nat)
    decreases budget,
{
    if budget == 0 {
        (Err(steps::limit_error(limit)), 0)
    } else {
        let step = specs::spec_iter_step(schema, state);
        let next = steps::within_budget((budget - 1) as nat, limit, step.0, step.1);
        match next.0 {
            Err(error) => (Err(error), next.1),
            Ok(None) => (Ok((census, count)), next.1),
            Ok(Some(spec)) => match limited_add(
                census.specifications,
                1,
                limits.max_specifications,
                RemoteRos2ResourceLimit::SpecificationCount,
            ) {
                Err(error) => (Err(error), next.1),
                Ok(specifications) => if count + 1 > usize::MAX {
                    (Err(steps::limit_error(RemoteRos2ResourceLimit::Arithmetic)), next.1)
                } else {
                    let outcome = specs::summary_scan(
                        schema.data@,
                        schema.record_index,
                        spec.body_start as int,
                        spec.body_end as int,
                        limits,
                        0,
                        0,
                        None,
                        true,
                    );
                    let summary = steps::within_budget(next.1, limit, outcome.0, outcome.1);
                    match summary.0 {
                        Err(error) => (Err(error), summary.1),
                        Ok(summary_value) => match specification_counts(
                            RemoteRos2Census { specifications, ..census },
                            summary_value,
                            limits,
                        ) {
                            Err(error) => (Err(error), summary.1),
                            Ok(updated) => specification_census(
                                schema,
                                limits,
                                limit,
                                step.2,
                                updated,
                                count + 1,
                                summary.1,
                            ),
                        },
                    }
                },
            },
        }
    }
}

/// Advancing the specification iteration by one found specification shifts every later index.
proof fn lemma_nth_spec_shift(schema: SchemaView, state: SpecIterState, k: nat)
    ensures
        specs::spec_iter_step(schema, state).0 matches Ok(Some(_)) ==> specs::nth_spec_from(
            schema,
            state,
            k + 1,
        ).0 == specs::nth_spec_from(schema, specs::spec_iter_step(schema, state).2, k).0,
        specs::spec_iter_step(schema, state).0 matches Ok(Some(_)) ==> specs::nth_spec_from(
            schema,
            state,
            0,
        ).0 == specs::spec_iter_step(schema, state).0,
{
}

/// The first `count` specifications were found, and the iteration now stands at `state`; one
/// more found specification extends both facts.
proof fn lemma_prefix_advance(schema: SchemaView, state: SpecIterState, count: nat)
    requires
        specs::spec_iter_step(schema, state).0 matches Ok(Some(_)),
        forall|index: nat|
            index < count ==> (#[trigger] specs::nth_spec_from(
                schema,
                specs::initial_spec_state(),
                index,
            ).0 matches Ok(Some(_))),
        forall|k: nat|
            #[trigger] specs::nth_spec_from(
                schema,
                specs::initial_spec_state(),
                (count + k) as nat,
            ).0 == specs::nth_spec_from(schema, state, k).0,
    ensures
        forall|index: nat|
            index < count + 1 ==> (#[trigger] specs::nth_spec_from(
                schema,
                specs::initial_spec_state(),
                index,
            ).0 matches Ok(Some(_))),
        forall|k: nat|
            #[trigger] specs::nth_spec_from(
                schema,
                specs::initial_spec_state(),
                (count + 1 + k) as nat,
            ).0 == specs::nth_spec_from(schema, specs::spec_iter_step(schema, state).2, k).0,
{
    let step = specs::spec_iter_step(schema, state);
    assert forall|k: nat|
        #[trigger] specs::nth_spec_from(
            schema,
            specs::initial_spec_state(),
            (count + 1 + k) as nat,
        ).0 == specs::nth_spec_from(schema, step.2, k).0 by {
        lemma_nth_spec_shift(schema, state, k);
        assert(specs::nth_spec_from(
            schema,
            specs::initial_spec_state(),
            (count + (k + 1)) as nat,
        ).0 == specs::nth_spec_from(schema, state, k + 1).0);
    }
    lemma_nth_spec_shift(schema, state, 0);
    assert(specs::nth_spec_from(schema, specs::initial_spec_state(), (count + 0) as nat).0
        == specs::nth_spec_from(schema, state, 0).0);
    assert forall|index: nat|
        index < count + 1 implies (#[trigger] specs::nth_spec_from(
            schema,
            specs::initial_spec_state(),
            index,
        ).0 matches Ok(Some(_))) by {
        if index == count {
            assert((count + 0) as nat == index);
        }
    }
}

fn census_specifications(
    schema: SchemaView<'_>,
    limits: &UnfrozenRemoteRos2LimitsV1,
    census: &mut RemoteRos2Census,
    meter: &mut RemoteRos2StepOwnershipV1,
) -> (result: Result<usize, RemoteRos2InitializationError>)
    ensures
        (
            match result {
                Ok(count) => Ok((*final(census), count as nat)),
                Err(error) => Err(error),
            },
            final(meter).remaining_steps(),
        ) == specification_census(
            schema,
            *limits,
            old(meter).limit(),
            specs::initial_spec_state(),
            *old(census),
            0,
            old(meter).remaining_steps(),
        ),
        result is Err ==> *final(census) == *old(census),
        result matches Ok(count) ==> forall|index: nat|
            index < count ==> !(#[trigger] specs::nth_spec_from(
                schema,
                specs::initial_spec_state(),
                index,
            ).0 matches Ok(None)),
        final(meter).limit() == old(meter).limit(),
        final(meter).consumed_steps() + final(meter).remaining_steps() == old(
            meter,
        ).consumed_steps() + old(meter).remaining_steps(),
{
    let ghost limit = meter.limit();
    let ghost total = meter.consumed_steps() + meter.remaining_steps();
    let ghost target = specification_census(
        schema,
        *limits,
        limit,
        specs::initial_spec_state(),
        *census,
        0,
        meter.remaining_steps(),
    );
    let mut counts = *census;
    let mut specifications = SpecIter::new(schema);
    let mut spec_count: usize = 0;
    loop
        invariant
            specifications.schema_of() == schema,
            meter.limit() == limit,
            meter.consumed_steps() + meter.remaining_steps() == total,
            limit == old(meter).limit(),
            total == old(meter).consumed_steps() + old(meter).remaining_steps(),
            *census == *old(census),
            target == specification_census(
                schema,
                *limits,
                old(meter).limit(),
                specs::initial_spec_state(),
                *old(census),
                0,
                old(meter).remaining_steps(),
            ),
            target == specification_census(
                schema,
                *limits,
                limit,
                specifications.state(),
                counts,
                spec_count as nat,
                meter.remaining_steps(),
            ),
            forall|index: nat|
                index < spec_count ==> (#[trigger] specs::nth_spec_from(
                    schema,
                    specs::initial_spec_state(),
                    index,
                ).0 matches Ok(Some(_))),
            forall|k: nat|
                #[trigger] specs::nth_spec_from(
                    schema,
                    specs::initial_spec_state(),
                    (spec_count + k) as nat,
                ).0 == specs::nth_spec_from(schema, specifications.state(), k).0,
        decreases meter.remaining_steps(),
    {
        let ghost state = specifications.state();
        let ghost step = specs::spec_iter_step(schema, state);
        let ghost before = *meter;
        let stepped = meter.step();
        proof {
            steps::lemma_metered_budget(
                before,
                Ok::<(), RemoteRos2InitializationError>(()),
                1,
                stepped,
                *meter,
            );
        }
        if stepped.is_err() {
            return Err(stepped.unwrap_err());
        }
        let ghost before_spec = *meter;
        let next = specifications.next_spec(meter);
        proof {
            steps::lemma_metered_budget(before_spec, step.0, step.1, next, *meter);
        }
        let spec = match next {
            Ok(Some(spec)) => spec,
            Ok(None) => {
                *census = counts;
                return Ok(spec_count);
            },
            Err(error) => {
                return Err(error);
            },
        };
        proof {
            lemma_prefix_advance(schema, state, spec_count as nat);
        }
        let specifications_count = add_limited(
            counts.specifications,
            1,
            limits.max_specifications,
            RemoteRos2ResourceLimit::SpecificationCount,
        )?;
        if spec_count == usize::MAX {
            return Err(
                RemoteRos2InitializationError::ResourceLimitExceeded(
                    RemoteRos2ResourceLimit::Arithmetic,
                ),
            );
        }
        spec_count = spec_count + 1;
        let ghost outcome = specs::summary_scan(
            schema.data@,
            schema.record_index,
            spec.body_start as int,
            spec.body_end as int,
            *limits,
            0,
            0,
            None,
            true,
        );
        let ghost before_summary = *meter;
        let summary = specs::summarize_specification(schema, spec, limits, meter);
        proof {
            steps::lemma_metered_budget(before_summary, outcome.0, outcome.1, summary, *meter);
        }
        let summary = match summary {
            Ok(summary) => summary,
            Err(error) => {
                return Err(error);
            },
        };
        counts = add_specification_counts(
            RemoteRos2Census { specifications: specifications_count, ..counts },
            summary,
            limits,
        )?;
    }
}


/// The dependency-edge scan of the members of the specification at `spec_index` from `cursor`
/// on, with `edges` counted so far and `budget` steps left: each found member charges one step;
/// a nested member type counts one edge and must resolve.
pub open spec fn member_edges_scan(
    schema: SchemaView,
    spec_index: nat,
    body_end: int,
    limits: UnfrozenRemoteRos2LimitsV1,
    limit: RemoteRos2ResourceLimit,
    spec_count: nat,
    cursor: int,
    edges: u64,
    budget: nat,
) -> (Result<u64, RemoteRos2InitializationError>, nat)
    decreases schema.data@.len() - cursor,
    when 0 <= cursor && schema.data@.len() <= usize::MAX
{
    let search = specs::member_search(
        schema.data@,
        schema.record_index,
        cursor,
        body_end,
        limits,
    );
    let found = steps::within_budget(budget, limit, search.0, search.1);
    match found.0 {
        Err(error) => (Err(error), found.1),
        Ok(None) => (Ok(edges), found.1),
        Ok(Some(member)) => if found.1 == 0 {
            (Err(steps::limit_error(limit)), 0)
        } else {
            proof {
                specs::lemma_member_search_advances(
                    schema.data@,
                    schema.record_index,
                    cursor,
                    body_end,
                    limits,
                );
            }
            match member.ty.element {
                ElementTypeV1::Primitive(_) => member_edges_scan(
                    schema,
                    spec_index,
                    body_end,
                    limits,
                    limit,
                    spec_count,
                    search.2,
                    edges,
                    (found.1 - 1) as nat,
                ),
                ElementTypeV1::Complex(type_span) => match limited_add(
                    edges,
                    1,
                    limits.max_dependency_edges,
                    RemoteRos2ResourceLimit::DependencyEdges,
                ) {
                    Err(error) => (Err(error), (found.1 - 1) as nat),
                    Ok(counted) => {
                        let resolution = dependencies::complex_type_resolution(
                            schema,
                            spec_index,
                            type_span,
                            spec_count,
                        );
                        let resolved = steps::within_budget(
                            (found.1 - 1) as nat,
                            limit,
                            resolution.0,
                            resolution.1,
                        );
                        match resolved.0 {
                            Err(error) => (Err(error), resolved.1),
                            Ok(_) => member_edges_scan(
                                schema,
                                spec_index,
                                body_end,
                                limits,
                                limit,
                                spec_count,
                                search.2,
                                counted,
                                resolved.1,
                            ),
                        }
                    },
                },
            }
        },
    }
}

/// The dependency-edge scan of the specifications from `spec_index` on.
pub open spec fn dependency_edges_scan(
    schema: SchemaView,
    spec_count: nat,
    limits: UnfrozenRemoteRos2LimitsV1,
    limit: RemoteRos2ResourceLimit,
    spec_index: nat,
    edges: u64,
    budget: nat,
) -> (Result<u64, RemoteRos2InitializationError>, nat)
    decreases spec_count - spec_index,
{
    if spec_index >= spec_count {
        (Ok(edges), budget)
    } else {
        let lookup = specs::nth_spec_from(schema, specs::initial_spec_state(), spec_index);
        let found = steps::within_budget(budget, limit, lookup.0, lookup.1);
        match found.0 {
            Err(error) => (Err(error), found.1),
            Ok(None) => (Err(RemoteRos2InitializationError::InvalidRemoteSchema), found.1),
            Ok(Some(spec)) => {
                let scanned = member_edges_scan(
                    schema,
                    spec_index,
                    spec.body_end as int,
                    limits,
                    limit,
                    spec_count,
                    spec.body_start as int,
                    edges,
                    found.1,
                );
                match scanned.0 {
                    Err(error) => (Err(error), scanned.1),
                    Ok(counted) => dependency_edges_scan(
                        schema,
                        spec_count,
                        limits,
                        limit,
                        spec_index + 1,
                        counted,
                        scanned.1,
                    ),
                }
            },
        }
    }
}

/// Visits every member of the first `spec_count` specifications; each nested member type counts
/// one dependency edge against its limit and must resolve to exactly one dependency.
pub fn for_each_complex_member(
    schema: SchemaView<'_>,
    spec_count: usize,
    limits: &UnfrozenRemoteRos2LimitsV1,
    meter: &mut RemoteRos2StepOwnershipV1,
    edges: &mut u64,
) -> (result: Result<(), RemoteRos2InitializationError>)
    ensures
        (
            match result {
                Ok(()) => Ok(*final(edges)),
                Err(error) => Err(error),
            },
            final(meter).remaining_steps(),
        ) == dependency_edges_scan(
            schema,
            spec_count as nat,
            *limits,
            old(meter).limit(),
            0,
            *old(edges),
            old(meter).remaining_steps(),
        ),
        final(meter).limit() == old(meter).limit(),
        final(meter).consumed_steps() + final(meter).remaining_steps() == old(
            meter,
        ).consumed_steps() + old(meter).remaining_steps(),
{
    let ghost limit = meter.limit();
    let ghost total = meter.consumed_steps() + meter.remaining_steps();
    let ghost target = dependency_edges_scan(
        schema,
        spec_count as nat,
        *limits,
        limit,
        0,
        *edges,
        meter.remaining_steps(),
    );
    let available = schema.data.len();
    let mut spec_index: usize = 0;
    while spec_index < spec_count
        invariant
            spec_index <= spec_count,
            available == schema.data@.len(),
            meter.limit() == limit,
            meter.consumed_steps() + meter.remaining_steps() == total,
            limit == old(meter).limit(),
            total == old(meter).consumed_steps() + old(meter).remaining_steps(),
            target == dependency_edges_scan(
                schema,
                spec_count as nat,
                *limits,
                old(meter).limit(),
                0,
                *old(edges),
                old(meter).remaining_steps(),
            ),
            target == dependency_edges_scan(
                schema,
                spec_count as nat,
                *limits,
                limit,
                spec_index as nat,
                *edges,
                meter.remaining_steps(),
            ),
        decreases spec_count - spec_index,
    {
        let ghost lookup = specs::nth_spec_from(
            schema,
            specs::initial_spec_state(),
            spec_index as nat,
        );
        let ghost before = *meter;
        let spec = specs::nth_spec_metered(schema, spec_index, meter);
        proof {
            steps::lemma_metered_budget(before, lookup.0, lookup.1, spec, *meter);
        }
        let spec = match spec {
            Ok(Some(spec)) => spec,
            Ok(None) => {
                return Err(RemoteRos2InitializationError::InvalidRemoteSchema);
            },
            Err(error) => {
                return Err(error);
            },
        };
        let mut members = MemberIter::new(schema, spec, limits);
        let ghost inner = member_edges_scan(
            schema,
            spec_index as nat,
            spec.body_end as int,
            *limits,
            limit,
            spec_count as nat,
            spec.body_start as int,
            *edges,
            meter.remaining_steps(),
        );
        loop
            invariant_except_break
                inner == member_edges_scan(
                    schema,
                    spec_index as nat,
                    spec.body_end as int,
                    *limits,
                    limit,
                    spec_count as nat,
                    members.cursor_of(),
                    *edges,
                    meter.remaining_steps(),
                ),
            invariant
                members.schema_of() == schema,
                members.spec_of() == spec,
                members.limits_of() == *limits,
                0 <= members.cursor_of(),
                available == schema.data@.len(),
                spec_index < spec_count,
                meter.limit() == limit,
                meter.consumed_steps() + meter.remaining_steps() == total,
                limit == old(meter).limit(),
                total == old(meter).consumed_steps() + old(meter).remaining_steps(),
                target == dependency_edges_scan(
                    schema,
                    spec_count as nat,
                    *limits,
                    old(meter).limit(),
                    0,
                    *old(edges),
                    old(meter).remaining_steps(),
                ),
                inner.0 is Err ==> target == inner,
                inner.0 matches Ok(counted) ==> target == dependency_edges_scan(
                    schema,
                    spec_count as nat,
                    *limits,
                    limit,
                    (spec_index + 1) as nat,
                    counted,
                    inner.1,
                ),
            ensures
                inner == (Ok::<u64, RemoteRos2InitializationError>(*edges), meter.remaining_steps()),
            decreases available - members.cursor_of(),
        {
            let ghost cursor = members.cursor_of();
            let ghost search = specs::member_search(
                schema.data@,
                schema.record_index,
                cursor,
                spec.body_end as int,
                *limits,
            );
            proof {
                specs::lemma_member_search_advances(
                    schema.data@,
                    schema.record_index,
                    cursor,
                    spec.body_end as int,
                    *limits,
                );
                specs::lemma_member_search_within(
                    schema.data@,
                    schema.record_index,
                    cursor,
                    spec.body_end as int,
                    *limits,
                );
            }
            let ghost before_member = *meter;
            let member = members.next_member(meter);
            proof {
                steps::lemma_metered_budget(before_member, search.0, search.1, member, *meter);
            }
            let member = match member {
                Ok(Some(member)) => member,
                Ok(None) => {
                    break ;
                },
                Err(error) => {
                    return Err(error);
                },
            };
            let ghost before_step = *meter;
            let stepped = meter.step();
            proof {
                steps::lemma_metered_budget(
                    before_step,
                    Ok::<(), RemoteRos2InitializationError>(()),
                    1,
                    stepped,
                    *meter,
                );
            }
            if stepped.is_err() {
                return Err(stepped.unwrap_err());
            }
            if let ElementTypeV1::Complex(type_span) = member.ty.element {
                *edges = add_limited(
                    *edges,
                    1,
                    limits.max_dependency_edges,
                    RemoteRos2ResourceLimit::DependencyEdges,
                )?;
                let ghost resolution = dependencies::complex_type_resolution(
                    schema,
                    spec_index as nat,
                    type_span,
                    spec_count as nat,
                );
                let ghost before_resolve = *meter;
                let resolved = dependencies::resolve_complex_type(
                    schema,
                    spec_index,
                    type_span,
                    spec_count,
                    meter,
                );
                proof {
                    steps::lemma_metered_budget(
                        before_resolve,
                        resolution.0,
                        resolution.1,
                        resolved,
                        *meter,
                    );
                }
                if resolved.is_err() {
                    return Err(resolved.unwrap_err());
                }
            }
        }
        spec_index = spec_index + 1;
    }
    Ok(())
}


/// The census of one schema from `census` with `budget` steps of kind `limit` and the scratch
/// frames `frames`: its outcome (the updated census), the steps left, and the scratch frames at
/// its end. The schema counts against the schema and definition-byte limits; its name must fit
/// the identifier limit and be a strict-subset qualified name; every line must fit the line
/// limit; then the specifications are counted and summarized, the specification and member names
/// checked, the dependency edges counted and resolved, and the dependency graph walked.
pub open spec fn schema_census(
    schema: SchemaView,
    limits: UnfrozenRemoteRos2LimitsV1,
    census: RemoteRos2Census,
    limit: RemoteRos2ResourceLimit,
    budget: nat,
    frames: Seq<DependencyDfsFrameV1>,
) -> (Result<RemoteRos2Census, RemoteRos2InitializationError>, nat, Seq<DependencyDfsFrameV1>) {
    match limited_add(census.schemas, 1, limits.max_schemas, RemoteRos2ResourceLimit::SchemaCount) {
        Err(error) => (Err(error), budget, frames),
        Ok(schemas) => match limited_add(
            census.definition_bytes,
            schema.data@.len() as u64,
            limits.max_definition_bytes,
            RemoteRos2ResourceLimit::DefinitionBytes,
        ) {
            Err(error) => (Err(error), budget, frames),
            Ok(definition_bytes) => if schema.name@.len() > limits.max_identifier_bytes {
                (Err(steps::limit_error(RemoteRos2ResourceLimit::IdentifierBytes)), budget, frames)
            } else {
                let whole = TextSlice { start: 0, end: schema.name@.len() as usize };
                let named = steps::within_budget(
                    budget,
                    limit,
                    Ok(
                        names::qualified_name_class(schema.name@, whole)
                            == QualifiedTypeNameValidityV1::StrictSubset,
                    ),
                    names::qualified_name_cost(schema.name@, whole),
                );
                match named.0 {
                    Err(error) => (Err(error), named.1, frames),
                    Ok(false) => (
                        Err(steps::unsupported(UnsupportedForRemote::GrammarFeature)),
                        named.1,
                        frames,
                    ),
                    Ok(true) => {
                        let lines = line_length_scan(
                            schema.data@,
                            0,
                            limits.max_line_bytes,
                            limit,
                            named.1,
                        );
                        match lines.0 {
                            Err(error) => (Err(error), lines.1, frames),
                            Ok(()) => {
                                let counted = specification_census(
                                    schema,
                                    limits,
                                    limit,
                                    specs::initial_spec_state(),
                                    RemoteRos2Census { schemas, definition_bytes, ..census },
                                    0,
                                    lines.1,
                                );
                                match counted.0 {
                                    Err(error) => (Err(error), counted.1, frames),
                                    Ok((after_specs, count)) => {
                                        let spec_names = dependencies::specification_names_scan(
                                            schema,
                                            count,
                                            limits,
                                            0,
                                        );
                                        let named_specs = steps::within_budget(
                                            counted.1,
                                            limit,
                                            spec_names.0,
                                            spec_names.1,
                                        );
                                        match named_specs.0 {
                                            Err(error) => (Err(error), named_specs.1, frames),
                                            Ok(()) => {
                                                let member_names = dependencies::member_names_scan(
                                                    schema,
                                                    count,
                                                    limits,
                                                    0,
                                                );
                                                let named_members = steps::within_budget(
                                                    named_specs.1,
                                                    limit,
                                                    member_names.0,
                                                    member_names.1,
                                                );
                                                match named_members.0 {
                                                    Err(error) => (Err(error), named_members.1, frames),
                                                    Ok(()) => {
                                                        let edges = dependency_edges_scan(
                                                            schema,
                                                            count,
                                                            limits,
                                                            limit,
                                                            0,
                                                            after_specs.dependency_edges,
                                                            named_members.1,
                                                        );
                                                        match edges.0 {
                                                            Err(error) => (Err(error), edges.1, frames),
                                                            Ok(edge_count) => {
                                                                let graph =
                                                                    dependencies::dependency_graph_check(
                                                                    schema,
                                                                    count,
                                                                    limits,
                                                                    limit,
                                                                    edges.1,
                                                                );
                                                                match graph.0 {
                                                                    Err(error) => (
                                                                        Err(error),
                                                                        graph.1,
                                                                        graph.2,
                                                                    ),
                                                                    Ok(()) => (
                                                                        Ok(
                                                                            RemoteRos2Census {
                                                                                dependency_edges:
                                                                                    edge_count,
                                                                                ..after_specs
                                                                            },
                                                                        ),
                                                                        graph.1,
                                                                        graph.2,
                                                                    ),
                                                                }
                                                            },
                                                        }
                                                    },
                                                }
                                            },
                                        }
                                    },
                                }
                            },
                        }
                    },
                }
            },
        },
    }
}

/// Counts and validates one ROS 2 schema into `census` with no allocation. The census changes
/// only when the whole schema passes.
pub fn census_one_schema(
    schema: SchemaView<'_>,
    limits: &UnfrozenRemoteRos2LimitsV1,
    census: &mut RemoteRos2Census,
    meter: &mut RemoteRos2StepOwnershipV1,
    scratch: &mut RemoteRos2FixedScratchV1,
) -> (result: Result<(), RemoteRos2InitializationError>)
    ensures
        (
            match result {
                Ok(()) => Ok(*final(census)),
                Err(error) => Err(error),
            },
            final(meter).remaining_steps(),
            final(scratch).dependency_frames@,
        ) == schema_census(
            schema,
            *limits,
            *old(census),
            old(meter).limit(),
            old(meter).remaining_steps(),
            old(scratch).dependency_frames@,
        ),
        result is Err ==> *final(census) == *old(census),
        final(meter).limit() == old(meter).limit(),
        final(meter).consumed_steps() + final(meter).remaining_steps() == old(
            meter,
        ).consumed_steps() + old(meter).remaining_steps(),
{
    let schemas = add_limited(
        census.schemas,
        1,
        limits.max_schemas,
        RemoteRos2ResourceLimit::SchemaCount,
    )?;
    let definition_bytes = add_limited(
        census.definition_bytes,
        schema.data.len() as u64,
        limits.max_definition_bytes,
        RemoteRos2ResourceLimit::DefinitionBytes,
    )?;
    lexer::ensure_length(
        schema.name.len(),
        limits.max_identifier_bytes,
        RemoteRos2ResourceLimit::IdentifierBytes,
    )?;
    let whole = TextSlice { start: 0, end: schema.name.len() };
    let ghost before_name = *meter;
    let valid = names::is_valid_qualified_type_name(schema.name, whole, meter);
    proof {
        steps::lemma_metered_budget(
            before_name,
            Ok(
                names::qualified_name_class(schema.name@, whole)
                    == QualifiedTypeNameValidityV1::StrictSubset,
            ),
            names::qualified_name_cost(schema.name@, whole),
            valid,
            *meter,
        );
    }
    let valid = match valid {
        Ok(valid) => valid,
        Err(error) => {
            return Err(error);
        },
    };
    if !valid {
        return Err(
            RemoteRos2InitializationError::UnsupportedForRemote(
                UnsupportedForRemote::GrammarFeature,
            ),
        );
    }
    check_line_lengths(schema.data, limits, meter)?;
    let mut counts = RemoteRos2Census { schemas, definition_bytes, ..*census };
    let spec_count = census_specifications(schema, limits, &mut counts, meter)?;
    let ghost spec_names = dependencies::specification_names_scan(
        schema,
        spec_count as nat,
        *limits,
        0,
    );
    let ghost before_spec_names = *meter;
    let checked = dependencies::validate_specification_names(schema, spec_count, limits, meter);
    proof {
        steps::lemma_metered_budget(
            before_spec_names,
            spec_names.0,
            spec_names.1,
            checked,
            *meter,
        );
    }
    if checked.is_err() {
        return Err(checked.unwrap_err());
    }
    let ghost member_names = dependencies::member_names_scan(schema, spec_count as nat, *limits, 0);
    let ghost before_member_names = *meter;
    let checked = dependencies::validate_member_names(schema, spec_count, limits, meter);
    proof {
        steps::lemma_metered_budget(
            before_member_names,
            member_names.0,
            member_names.1,
            checked,
            *meter,
        );
    }
    if checked.is_err() {
        return Err(checked.unwrap_err());
    }
    let mut edges = counts.dependency_edges;
    for_each_complex_member(schema, spec_count, limits, meter, &mut edges)?;
    dependencies::validate_dependency_graph(schema, spec_count, limits, meter, scratch)?;
    *census = RemoteRos2Census { dependency_edges: edges, ..counts };
    Ok(())
}

} // verus!
