//! Names and nested-type dependencies between the specifications of one schema: specification
//! names are valid and distinct, member names are distinct within a specification, every nested
//! type resolves to exactly one dependency, and the dependency graph is acyclic and shallow.
use crate::remote_ros2_reflection::lexer::{self, TextSlice};
use crate::remote_ros2_reflection::members;
use crate::remote_ros2_reflection::names::{self, QualifiedTypeNameValidityV1};
use crate::remote_ros2_reflection::specs::{self, SpecIter, SpecIterState, SpecView};
use crate::remote_ros2_reflection::steps::{
    self, RemoteRos2InitializationError, RemoteRos2ResourceLimit, RemoteRos2StepOwnershipV1,
    UnsupportedForRemote,
};
use crate::remote_ros2_reflection::types::{
    self, SchemaView, SourceTextSpan, UnfrozenRemoteRos2LimitsV1,
};
use vstd::prelude::*;

verus! {

pub const SLASH: u8 = 0x2F;

/// The index of the first `/` of `text` at or after `at`.
pub open spec fn first_slash_from(text: Seq<u8>, at: int) -> Option<int>
    decreases text.len() - at,
{
    if at < 0 || at >= text.len() {
        None
    } else if text[at] == SLASH {
        Some(at)
    } else {
        first_slash_from(text, at + 1)
    }
}

pub proof fn lemma_first_slash_bounds(text: Seq<u8>, at: int)
    requires
        0 <= at,
    ensures
        first_slash_from(text, at) matches Some(index) ==> at <= index < text.len() && text[index]
            == SLASH,
        first_slash_from(text, at) is None ==> forall|i: int| at <= i < text.len() ==> text[i]
            != SLASH,
    decreases text.len() - at,
{
    if at < text.len() && text[at] != SLASH {
        lemma_first_slash_bounds(text, at + 1);
    }
}

/// Whether a nested type name `requested`, written in the specification named `scope`, names the
/// specification `candidate`: a qualified name must match exactly; a bare name is looked up in the
/// package of the scope, or matches exactly when the scope has no package.
pub open spec fn type_name_match(requested: Seq<u8>, scope: Seq<u8>, candidate: Seq<u8>) -> bool {
    if first_slash_from(requested, 0) is Some {
        candidate == requested
    } else {
        match first_slash_from(scope, 0) {
            Some(package_end) => candidate == scope.take(package_end).push(SLASH) + requested,
            None => candidate == requested,
        }
    }
}

/// The index of the first `/` of `text`.
fn find_slash(text: &[u8]) -> (index: Option<usize>)
    ensures
        index matches Some(i) ==> first_slash_from(text@, 0) == Some(i as int),
        index is None ==> first_slash_from(text@, 0) is None,
{
    let mut at: usize = 0;
    while at < text.len()
        invariant
            at <= text@.len(),
            first_slash_from(text@, 0) == first_slash_from(text@, at as int),
        decreases text@.len() - at,
    {
        if text[at] == SLASH {
            return Some(at);
        }
        at = at + 1;
    }
    None
}

/// Whether `requested` in the scope `scope_name` names `candidate_name`, charging one step per
/// byte of each of the three names.
pub fn type_name_matches(
    requested: &[u8],
    scope_name: &[u8],
    candidate_name: &[u8],
    meter: &mut RemoteRos2StepOwnershipV1,
) -> (result: Result<bool, RemoteRos2InitializationError>)
    ensures
        steps::metered(
            *old(meter),
            Ok(type_name_match(requested@, scope_name@, candidate_name@)),
            requested@.len() + scope_name@.len() + candidate_name@.len(),
            result,
            *final(meter),
        ),
{
    let ghost initial = *meter;
    let ghost outcome = Ok::<bool, RemoteRos2InitializationError>(
        type_name_match(requested@, scope_name@, candidate_name@),
    );
    let ghost cost = requested@.len() + scope_name@.len() + candidate_name@.len();
    let first = meter.consume_bytes(requested.len());
    if first.is_err() {
        proof {
            steps::lemma_metered_stop(
                initial,
                Ok::<(), RemoteRos2InitializationError>(()),
                requested@.len(),
                first,
                *meter,
                outcome,
                cost,
            );
        }
        return Err(first.unwrap_err());
    }
    let ghost middle = *meter;
    let second = meter.consume_bytes(scope_name.len());
    if second.is_err() {
        proof {
            steps::lemma_metered_then_stop(
                initial,
                Ok::<(), RemoteRos2InitializationError>(()),
                requested@.len(),
                first,
                middle,
                Ok::<(), RemoteRos2InitializationError>(()),
                scope_name@.len(),
                second,
                *meter,
                outcome,
                cost,
            );
        }
        return Err(second.unwrap_err());
    }
    proof {
        steps::lemma_metered_then(
            initial,
            Ok::<(), RemoteRos2InitializationError>(()),
            requested@.len(),
            first,
            middle,
            Ok::<(), RemoteRos2InitializationError>(()),
            scope_name@.len(),
            second,
            *meter,
        );
    }
    let ghost middle2 = *meter;
    let third = meter.consume_bytes(candidate_name.len());
    if third.is_err() {
        proof {
            steps::lemma_metered_then_stop(
                initial,
                Ok::<(), RemoteRos2InitializationError>(()),
                requested@.len() + scope_name@.len(),
                second,
                middle2,
                Ok::<(), RemoteRos2InitializationError>(()),
                candidate_name@.len(),
                third,
                *meter,
                outcome,
                cost,
            );
        }
        return Err(third.unwrap_err());
    }
    proof {
        steps::lemma_metered_then(
            initial,
            Ok::<(), RemoteRos2InitializationError>(()),
            requested@.len() + scope_name@.len(),
            second,
            middle2,
            Ok::<(), RemoteRos2InitializationError>(()),
            candidate_name@.len(),
            third,
            *meter,
        );
    }
    if find_slash(requested).is_some() {
        return Ok(names::bytes_equal(requested, candidate_name));
    }
    match find_slash(scope_name) {
        Some(package_end) => {
            proof {
                lemma_first_slash_bounds(scope_name@, 0);
            }
            let ghost expected = scope_name@.take(package_end as int).push(SLASH) + requested@;
            if candidate_name.len() <= package_end || candidate_name.len() - (package_end + 1)
                != requested.len() {
                assert(candidate_name@.len() != expected.len());
                return Ok(false);
            }
            let same_package = names::bytes_equal(
                &candidate_name[0..package_end],
                &scope_name[0..package_end],
            );
            let slash = candidate_name[package_end] == SLASH;
            let same_name = names::bytes_equal(
                &candidate_name[package_end + 1..candidate_name.len()],
                requested,
            );
            let matched = same_package && slash && same_name;
            if matched {
                assert(candidate_name@ =~= expected);
            } else {
                assert(candidate_name@ != expected) by {
                    if candidate_name@ == expected {
                        assert(candidate_name@.subrange(0, package_end as int) =~= scope_name@.subrange(
                            0,
                            package_end as int,
                        ));
                        assert(candidate_name@[package_end as int] == expected[package_end as int]);
                        assert(candidate_name@.subrange(
                            package_end + 1,
                            candidate_name@.len() as int,
                        ) =~= requested@);
                    }
                }
            }
            Ok(matched)
        },
        None => Ok(names::bytes_equal(candidate_name, requested)),
    }
}


/// The candidate scan of a nested-type resolution from the specification at `index` on, with
/// the match found so far: the single matching dependency index, or the first error, with the
/// steps charged.
pub open spec fn resolve_scan(
    schema: SchemaView,
    state: SpecIterState,
    index: nat,
    spec_count: nat,
    requested: Seq<u8>,
    scope: Seq<u8>,
    found: Option<usize>,
) -> (Result<usize, RemoteRos2InitializationError>, nat)
    decreases spec_count - index,
{
    if index >= spec_count {
        match found {
            Some(target) => (Ok(target), 0),
            None => (Err(steps::unsupported(UnsupportedForRemote::DependencyGraph)), 0),
        }
    } else {
        let step = specs::spec_iter_step(schema, state);
        match step.0 {
            Err(error) => (Err(error), step.1),
            Ok(None) => (Err(RemoteRos2InitializationError::InvalidRemoteSchema), step.1),
            Ok(Some(candidate)) => {
                let name = types::span_text(schema, candidate.name);
                let cost = step.1 + 1 + requested.len() + scope.len() + name.len();
                if type_name_match(requested, scope, name) && found is Some {
                    (Err(steps::unsupported(UnsupportedForRemote::DependencyGraph)), cost)
                } else {
                    let next_found = if type_name_match(requested, scope, name) {
                        Some(index as usize)
                    } else {
                        found
                    };
                    let rest = resolve_scan(
                        schema,
                        step.2,
                        index + 1,
                        spec_count,
                        requested,
                        scope,
                        next_found,
                    );
                    (rest.0, cost + rest.1)
                }
            },
        }
    }
}

/// The resolution of the nested type named by `type_span` in the specification at
/// `scope_spec_index`: the index of the one dependency (never the main specification) that it
/// names among the first `spec_count` specifications, or the first error, with the steps charged.
pub open spec fn complex_type_resolution(
    schema: SchemaView,
    scope_spec_index: nat,
    type_span: SourceTextSpan,
    spec_count: nat,
) -> (Result<usize, RemoteRos2InitializationError>, nat) {
    let scope = specs::nth_spec_from(schema, specs::initial_spec_state(), scope_spec_index);
    match scope.0 {
        Err(error) => (Err(error), scope.1),
        Ok(None) => (Err(RemoteRos2InitializationError::InvalidRemoteSchema), scope.1),
        Ok(Some(scope_spec)) => {
            let first = specs::spec_iter_step(schema, specs::initial_spec_state());
            match first.0 {
                Err(error) => (Err(error), scope.1 + first.1),
                Ok(None) => (Err(RemoteRos2InitializationError::InvalidRemoteSchema), scope.1 + first.1),
                Ok(Some(_)) => {
                    let rest = resolve_scan(
                        schema,
                        first.2,
                        1,
                        spec_count,
                        types::span_text(schema, type_span),
                        types::span_text(schema, scope_spec.name),
                        None,
                    );
                    (rest.0, scope.1 + first.1 + 1 + rest.1)
                },
            }
        },
    }
}

/// Resolves the nested type named by `type_span` in the specification at `scope_spec_index`.
pub fn resolve_complex_type(
    schema: SchemaView<'_>,
    scope_spec_index: usize,
    type_span: SourceTextSpan,
    spec_count: usize,
    meter: &mut RemoteRos2StepOwnershipV1,
) -> (result: Result<usize, RemoteRos2InitializationError>)
    requires
        types::span_within(schema, type_span),
    ensures
        steps::metered(
            *old(meter),
            complex_type_resolution(schema, scope_spec_index as nat, type_span, spec_count as nat).0,
            complex_type_resolution(schema, scope_spec_index as nat, type_span, spec_count as nat).1,
            result,
            *final(meter),
        ),
{
    let ghost initial = *meter;
    let ghost target = complex_type_resolution(
        schema,
        scope_spec_index as nat,
        type_span,
        spec_count as nat,
    );
    let ghost scope_outcome = specs::nth_spec_from(
        schema,
        specs::initial_spec_state(),
        scope_spec_index as nat,
    );
    proof {
        specs::lemma_nth_spec_within(schema, specs::initial_spec_state(), scope_spec_index as nat);
    }
    let scope = specs::nth_spec_metered(schema, scope_spec_index, meter);
    let scope = match scope {
        Ok(Some(scope)) => scope,
        Ok(None) => {
            return Err(RemoteRos2InitializationError::InvalidRemoteSchema);
        },
        Err(error) => {
            return Err(error);
        },
    };
    let scope_name = types::text_for_span(schema, scope.name);
    let requested = types::text_for_span(schema, type_span);
    let ghost after_scope = *meter;
    let mut candidates = SpecIter::new(schema);
    let first = candidates.next_spec(meter);
    proof {
        steps::lemma_metered_then(
            initial,
            scope_outcome.0,
            scope_outcome.1,
            Ok::<Option<SpecView>, RemoteRos2InitializationError>(Some(scope)),
            after_scope,
            specs::spec_iter_step(schema, specs::initial_spec_state()).0,
            specs::spec_iter_step(schema, specs::initial_spec_state()).1,
            first,
            *meter,
        );
    }
    match first {
        Ok(Some(_)) => {},
        Ok(None) => {
            return Err(RemoteRos2InitializationError::InvalidRemoteSchema);
        },
        Err(error) => {
            return Err(error);
        },
    }
    let ghost charged_prefix: nat = scope_outcome.1 + specs::spec_iter_step(
        schema,
        specs::initial_spec_state(),
    ).1;
    let ghost before_step = *meter;
    let stepped = meter.step();
    if stepped.is_err() {
        proof {
            steps::lemma_charge_stop(
                initial,
                charged_prefix,
                before_step,
                stepped,
                *meter,
                target.0,
                target.1,
            );
        }
        return Err(stepped.unwrap_err());
    }
    proof {
        steps::lemma_charge_ok(initial, charged_prefix, before_step, stepped, *meter);
    }
    let ghost mut charged: nat = charged_prefix + 1;
    let mut found: Option<usize> = None;
    let mut candidate_index: usize = 1;
    while candidate_index < spec_count
        invariant
            initial == *old(meter),
            1 <= candidate_index,
            candidates.schema_of() == schema,
            scope_name@ == types::span_text(schema, scope.name),
            requested@ == types::span_text(schema, type_span),
            found matches Some(f) ==> f < candidate_index,
            target == complex_type_resolution(
                schema,
                scope_spec_index as nat,
                type_span,
                spec_count as nat,
            ),
            target.0 == resolve_scan(
                schema,
                candidates.state(),
                candidate_index as nat,
                spec_count as nat,
                requested@,
                scope_name@,
                found,
            ).0,
            target.1 == charged + resolve_scan(
                schema,
                candidates.state(),
                candidate_index as nat,
                spec_count as nat,
                requested@,
                scope_name@,
                found,
            ).1,
            steps::metered(initial, Ok(()), charged, Ok(()), *meter),
        decreases spec_count - candidate_index,
    {
        let ghost state = candidates.state();
        let ghost step = specs::spec_iter_step(schema, state);
        let ghost before = *meter;
        proof {
            specs::lemma_spec_iter_step_within(schema, state);
        }
        let next = candidates.next_spec(meter);
        proof {
            steps::lemma_metered_then(
                initial,
                Ok::<(), RemoteRos2InitializationError>(()),
                charged,
                Ok(()),
                before,
                step.0,
                step.1,
                next,
                *meter,
            );
        }
        let candidate = match next {
            Ok(Some(candidate)) => candidate,
            Ok(None) => {
                return Err(RemoteRos2InitializationError::InvalidRemoteSchema);
            },
            Err(error) => {
                return Err(error);
            },
        };
        let candidate_name = types::text_for_span(schema, candidate.name);
        let ghost before_step = *meter;
        let stepped = meter.step();
        if stepped.is_err() {
            proof {
                steps::lemma_charge_stop(
                    initial,
                    charged + step.1,
                    before_step,
                    stepped,
                    *meter,
                    target.0,
                    target.1,
                );
            }
            return Err(stepped.unwrap_err());
        }
        proof {
            steps::lemma_charge_ok(initial, charged + step.1, before_step, stepped, *meter);
        }
        let ghost before_match = *meter;
        let matched = type_name_matches(requested, scope_name, candidate_name, meter);
        proof {
            steps::lemma_metered_then(
                initial,
                Ok::<(), RemoteRos2InitializationError>(()),
                charged + step.1 + 1,
                Ok(()),
                before_match,
                Ok(type_name_match(requested@, scope_name@, candidate_name@)),
                requested@.len() + scope_name@.len() + candidate_name@.len(),
                matched,
                *meter,
            );
        }
        let matched = match matched {
            Ok(matched) => matched,
            Err(error) => {
                return Err(error);
            },
        };
        proof {
            charged = charged + step.1 + 1 + requested@.len() + scope_name@.len()
                + candidate_name@.len();
        }
        if matched {
            if found.is_some() {
                return Err(
                    RemoteRos2InitializationError::UnsupportedForRemote(
                        UnsupportedForRemote::DependencyGraph,
                    ),
                );
            }
            found = Some(candidate_index);
        }
        candidate_index = candidate_index + 1;
    }
    match found {
        Some(target_index) => Ok(target_index),
        None => Err(
            RemoteRos2InitializationError::UnsupportedForRemote(UnsupportedForRemote::DependencyGraph),
        ),
    }
}


/// The check that the name `name` of the specification at `left_index` differs from the names
/// of the specifications from `right_index` up to it, with the steps charged (one per
/// comparison, the rescan to each earlier specification, and both names' bytes).
pub open spec fn distinct_from_earlier(
    schema: SchemaView,
    name: Seq<u8>,
    left_index: nat,
    right_index: nat,
) -> (Result<(), RemoteRos2InitializationError>, nat)
    decreases left_index - right_index,
{
    if right_index >= left_index {
        (Ok(()), 0)
    } else {
        let right = specs::nth_spec_from(schema, specs::initial_spec_state(), right_index);
        match right.0 {
            Err(error) => (Err(error), 1 + right.1),
            Ok(None) => (Err(RemoteRos2InitializationError::InvalidRemoteSchema), 1 + right.1),
            Ok(Some(spec)) => {
                let other = types::span_text(schema, spec.name);
                let cost = 1 + right.1 + name.len() + other.len();
                if name == other {
                    (Err(steps::unsupported(UnsupportedForRemote::DependencyGraph)), cost)
                } else {
                    let rest = distinct_from_earlier(schema, name, left_index, right_index + 1);
                    (rest.0, cost + rest.1)
                }
            },
        }
    }
}

/// The name check of the specifications from `left_index` on: each name is within the
/// identifier limit, a strict-subset qualified type name, and distinct from every earlier one.
pub open spec fn specification_names_scan(
    schema: SchemaView,
    spec_count: nat,
    limits: UnfrozenRemoteRos2LimitsV1,
    left_index: nat,
) -> (Result<(), RemoteRos2InitializationError>, nat)
    decreases spec_count - left_index,
{
    if left_index >= spec_count {
        (Ok(()), 0)
    } else {
        let left = specs::nth_spec_from(schema, specs::initial_spec_state(), left_index);
        match left.0 {
            Err(error) => (Err(error), left.1),
            Ok(None) => (Err(RemoteRos2InitializationError::InvalidRemoteSchema), left.1),
            Ok(Some(spec)) => {
                let name = types::span_text(schema, spec.name);
                let whole = TextSlice { start: 0, end: name.len() as usize };
                if name.len() > limits.max_identifier_bytes {
                    (Err(steps::limit_error(RemoteRos2ResourceLimit::IdentifierBytes)), left.1)
                } else {
                    let cost = left.1 + names::qualified_name_cost(name, whole);
                    if names::qualified_name_class(name, whole)
                        != QualifiedTypeNameValidityV1::StrictSubset {
                        (Err(steps::unsupported(UnsupportedForRemote::GrammarFeature)), cost)
                    } else {
                        let earlier = distinct_from_earlier(schema, name, left_index, 0);
                        match earlier.0 {
                            Err(error) => (Err(error), cost + earlier.1),
                            Ok(()) => {
                                let rest = specification_names_scan(
                                    schema,
                                    spec_count,
                                    limits,
                                    left_index + 1,
                                );
                                (rest.0, cost + earlier.1 + rest.1)
                            },
                        }
                    }
                }
            },
        }
    }
}

fn ensure_distinct_from_earlier(
    schema: SchemaView<'_>,
    name: &[u8],
    left_index: usize,
    meter: &mut RemoteRos2StepOwnershipV1,
) -> (result: Result<(), RemoteRos2InitializationError>)
    ensures
        steps::metered(
            *old(meter),
            distinct_from_earlier(schema, name@, left_index as nat, 0).0,
            distinct_from_earlier(schema, name@, left_index as nat, 0).1,
            result,
            *final(meter),
        ),
{
    let ghost initial = *meter;
    let ghost target = distinct_from_earlier(schema, name@, left_index as nat, 0);
    let ghost mut charged: nat = 0;
    proof {
        steps::lemma_metered_pure(initial, Ok::<(), RemoteRos2InitializationError>(()));
    }
    let mut right_index: usize = 0;
    while right_index < left_index
        invariant
            initial == *old(meter),
            right_index <= left_index,
            target == distinct_from_earlier(schema, name@, left_index as nat, 0),
            target.0 == distinct_from_earlier(schema, name@, left_index as nat, right_index as nat).0,
            target.1 == charged + distinct_from_earlier(
                schema,
                name@,
                left_index as nat,
                right_index as nat,
            ).1,
            steps::metered(initial, Ok(()), charged, Ok(()), *meter),
        decreases left_index - right_index,
    {
        let ghost rest = distinct_from_earlier(schema, name@, left_index as nat, right_index as nat);
        let ghost right_outcome = specs::nth_spec_from(
            schema,
            specs::initial_spec_state(),
            right_index as nat,
        );
        let ghost before_step = *meter;
        let stepped = meter.step();
        if stepped.is_err() {
            proof {
                steps::lemma_charge_stop(
                    initial,
                    charged,
                    before_step,
                    stepped,
                    *meter,
                    target.0,
                    target.1,
                );
            }
            return Err(stepped.unwrap_err());
        }
        proof {
            steps::lemma_charge_ok(initial, charged, before_step, stepped, *meter);
            specs::lemma_nth_spec_within(schema, specs::initial_spec_state(), right_index as nat);
        }
        let ghost before = *meter;
        let right = specs::nth_spec_metered(schema, right_index, meter);
        proof {
            steps::lemma_metered_then(
                initial,
                Ok::<(), RemoteRos2InitializationError>(()),
                charged + 1,
                Ok(()),
                before,
                right_outcome.0,
                right_outcome.1,
                right,
                *meter,
            );
        }
        let right = match right {
            Ok(Some(right)) => right,
            Ok(None) => {
                return Err(RemoteRos2InitializationError::InvalidRemoteSchema);
            },
            Err(error) => {
                return Err(error);
            },
        };
        let other = types::text_for_span(schema, right.name);
        let ghost before_eq = *meter;
        let equal = names::metered_bytes_eq(name, other, meter);
        proof {
            steps::lemma_metered_then(
                initial,
                Ok::<(), RemoteRos2InitializationError>(()),
                charged + 1 + right_outcome.1,
                Ok(()),
                before_eq,
                Ok(name@ == other@),
                name@.len() + other@.len(),
                equal,
                *meter,
            );
        }
        let equal = match equal {
            Ok(equal) => equal,
            Err(error) => {
                return Err(error);
            },
        };
        proof {
            charged = charged + 1 + right_outcome.1 + name@.len() + other@.len();
        }
        if equal {
            return Err(
                RemoteRos2InitializationError::UnsupportedForRemote(
                    UnsupportedForRemote::DependencyGraph,
                ),
            );
        }
        right_index = right_index + 1;
    }
    Ok(())
}

/// Checks the names of the first `spec_count` specifications: each is within the identifier
/// limit, a strict-subset qualified type name, and distinct from every earlier one.
pub fn validate_specification_names(
    schema: SchemaView<'_>,
    spec_count: usize,
    limits: &UnfrozenRemoteRos2LimitsV1,
    meter: &mut RemoteRos2StepOwnershipV1,
) -> (result: Result<(), RemoteRos2InitializationError>)
    ensures
        steps::metered(
            *old(meter),
            specification_names_scan(schema, spec_count as nat, *limits, 0).0,
            specification_names_scan(schema, spec_count as nat, *limits, 0).1,
            result,
            *final(meter),
        ),
{
    let ghost initial = *meter;
    let ghost target = specification_names_scan(schema, spec_count as nat, *limits, 0);
    let ghost mut charged: nat = 0;
    proof {
        steps::lemma_metered_pure(initial, Ok::<(), RemoteRos2InitializationError>(()));
    }
    let mut left_index: usize = 0;
    while left_index < spec_count
        invariant
            initial == *old(meter),
            left_index <= spec_count,
            target == specification_names_scan(schema, spec_count as nat, *limits, 0),
            target.0 == specification_names_scan(
                schema,
                spec_count as nat,
                *limits,
                left_index as nat,
            ).0,
            target.1 == charged + specification_names_scan(
                schema,
                spec_count as nat,
                *limits,
                left_index as nat,
            ).1,
            steps::metered(initial, Ok(()), charged, Ok(()), *meter),
        decreases spec_count - left_index,
    {
        let ghost left_outcome = specs::nth_spec_from(
            schema,
            specs::initial_spec_state(),
            left_index as nat,
        );
        proof {
            specs::lemma_nth_spec_within(schema, specs::initial_spec_state(), left_index as nat);
        }
        let ghost before = *meter;
        let left = specs::nth_spec_metered(schema, left_index, meter);
        proof {
            steps::lemma_metered_then(
                initial,
                Ok::<(), RemoteRos2InitializationError>(()),
                charged,
                Ok(()),
                before,
                left_outcome.0,
                left_outcome.1,
                left,
                *meter,
            );
        }
        let left = match left {
            Ok(Some(left)) => left,
            Ok(None) => {
                return Err(RemoteRos2InitializationError::InvalidRemoteSchema);
            },
            Err(error) => {
                return Err(error);
            },
        };
        let left_name = types::text_for_span(schema, left.name);
        lexer::ensure_length(
            left_name.len(),
            limits.max_identifier_bytes,
            RemoteRos2ResourceLimit::IdentifierBytes,
        )?;
        let whole = TextSlice { start: 0, end: left_name.len() };
        let ghost before_class = *meter;
        let valid = names::is_valid_qualified_type_name(left_name, whole, meter);
        proof {
            steps::lemma_metered_then(
                initial,
                Ok::<(), RemoteRos2InitializationError>(()),
                charged + left_outcome.1,
                Ok(()),
                before_class,
                Ok(
                    names::qualified_name_class(left_name@, whole)
                        == QualifiedTypeNameValidityV1::StrictSubset,
                ),
                names::qualified_name_cost(left_name@, whole),
                valid,
                *meter,
            );
        }
        let valid = match valid {
            Ok(valid) => valid,
            Err(error) => {
                return Err(error);
            },
        };
        if !valid {
            return Err(
                RemoteRos2InitializationError::UnsupportedForRemote(
                    UnsupportedForRemote::GrammarFeature,
                ),
            );
        }
        let ghost charged_left: nat = charged + left_outcome.1 + names::qualified_name_cost(
            left_name@,
            whole,
        );
        let ghost before_distinct = *meter;
        let distinct = ensure_distinct_from_earlier(schema, left_name, left_index, meter);
        proof {
            steps::lemma_metered_then(
                initial,
                Ok::<(), RemoteRos2InitializationError>(()),
                charged_left,
                Ok(()),
                before_distinct,
                distinct_from_earlier(schema, left_name@, left_index as nat, 0).0,
                distinct_from_earlier(schema, left_name@, left_index as nat, 0).1,
                distinct,
                *meter,
            );
        }
        if distinct.is_err() {
            return Err(distinct.unwrap_err());
        }
        proof {
            charged = charged_left + distinct_from_earlier(
                schema,
                left_name@,
                left_index as nat,
                0,
            ).1;
        }
        left_index = left_index + 1;
    }
    Ok(())
}


/// The member at `index` of the body of `spec`, with the steps of the rescan.
pub open spec fn member_at(
    schema: SchemaView,
    spec: SpecView,
    limits: UnfrozenRemoteRos2LimitsV1,
    index: nat,
) -> (Result<Option<members::MemberView>, RemoteRos2InitializationError>, nat) {
    specs::nth_member_from(
        schema.data@,
        schema.record_index,
        spec.body_start as int,
        spec.body_end as int,
        limits,
        index,
    )
}

/// The number of members of `spec`, counted by rescanning for the member at `count`,
/// `count + 1`, ... until there is none, with the steps charged.
pub open spec fn member_count_scan(
    schema: SchemaView,
    spec: SpecView,
    limits: UnfrozenRemoteRos2LimitsV1,
    count: nat,
) -> (Result<nat, RemoteRos2InitializationError>, nat)
    decreases schema.data@.len() - count,
    when schema.data@.len() <= usize::MAX
{
    let probe = member_at(schema, spec, limits, count);
    match probe.0 {
        Err(error) => (Err(error), probe.1),
        Ok(None) => (Ok(count), probe.1),
        Ok(Some(_)) => {
            proof {
                specs::lemma_nth_member_bound(
                    schema.data@,
                    schema.record_index,
                    spec.body_start as int,
                    spec.body_end as int,
                    limits,
                    count,
                );
            }
            let rest = member_count_scan(schema, spec, limits, count + 1);
            (rest.0, probe.1 + rest.1)
        },
    }
}

/// The check that the member name `name` at `left_index` differs from the names of the members
/// from `right_index` up to it, with the steps charged.
pub open spec fn member_distinct_from_earlier(
    schema: SchemaView,
    spec: SpecView,
    limits: UnfrozenRemoteRos2LimitsV1,
    name: Seq<u8>,
    left_index: nat,
    right_index: nat,
) -> (Result<(), RemoteRos2InitializationError>, nat)
    decreases left_index - right_index,
{
    if right_index >= left_index {
        (Ok(()), 0)
    } else {
        let right = member_at(schema, spec, limits, right_index);
        match right.0 {
            Err(error) => (Err(error), 1 + right.1),
            Ok(None) => (Err(RemoteRos2InitializationError::InvalidRemoteSchema), 1 + right.1),
            Ok(Some(member)) => {
                let other = types::span_text(schema, member.name);
                let cost = 1 + right.1 + name.len() + other.len();
                if name == other {
                    (Err(steps::unsupported(UnsupportedForRemote::GrammarFeature)), cost)
                } else {
                    let rest = member_distinct_from_earlier(
                        schema,
                        spec,
                        limits,
                        name,
                        left_index,
                        right_index + 1,
                    );
                    (rest.0, cost + rest.1)
                }
            },
        }
    }
}

/// The check that the members of `spec` from `left_index` up to `count` have names distinct
/// from every earlier member, with the steps charged.
pub open spec fn members_distinct_scan(
    schema: SchemaView,
    spec: SpecView,
    limits: UnfrozenRemoteRos2LimitsV1,
    count: nat,
    left_index: nat,
) -> (Result<(), RemoteRos2InitializationError>, nat)
    decreases count - left_index,
{
    if left_index >= count {
        (Ok(()), 0)
    } else {
        let left = member_at(schema, spec, limits, left_index);
        match left.0 {
            Err(error) => (Err(error), left.1),
            Ok(None) => (Err(RemoteRos2InitializationError::InvalidRemoteSchema), left.1),
            Ok(Some(member)) => {
                let name = types::span_text(schema, member.name);
                let earlier = member_distinct_from_earlier(schema, spec, limits, name, left_index, 0);
                match earlier.0 {
                    Err(error) => (Err(error), left.1 + earlier.1),
                    Ok(()) => {
                        let rest = members_distinct_scan(schema, spec, limits, count, left_index + 1);
                        (rest.0, left.1 + earlier.1 + rest.1)
                    },
                }
            },
        }
    }
}

/// The member-name check of the specifications from `spec_index` on.
pub open spec fn member_names_scan(
    schema: SchemaView,
    spec_count: nat,
    limits: UnfrozenRemoteRos2LimitsV1,
    spec_index: nat,
) -> (Result<(), RemoteRos2InitializationError>, nat)
    decreases spec_count - spec_index,
{
    if spec_index >= spec_count {
        (Ok(()), 0)
    } else {
        let found = specs::nth_spec_from(schema, specs::initial_spec_state(), spec_index);
        match found.0 {
            Err(error) => (Err(error), found.1),
            Ok(None) => (Err(RemoteRos2InitializationError::InvalidRemoteSchema), found.1),
            Ok(Some(spec)) => {
                let count = member_count_scan(schema, spec, limits, 0);
                match count.0 {
                    Err(error) => (Err(error), found.1 + count.1),
                    Ok(count_value) => {
                        let distinct = members_distinct_scan(schema, spec, limits, count_value, 0);
                        match distinct.0 {
                            Err(error) => (Err(error), found.1 + count.1 + distinct.1),
                            Ok(()) => {
                                let rest = member_names_scan(
                                    schema,
                                    spec_count,
                                    limits,
                                    spec_index + 1,
                                );
                                (rest.0, found.1 + count.1 + distinct.1 + rest.1)
                            },
                        }
                    },
                }
            },
        }
    }
}

/// A member found by index is named by a range of the definition.
proof fn lemma_member_at_within(
    schema: SchemaView,
    spec: SpecView,
    limits: UnfrozenRemoteRos2LimitsV1,
    index: nat,
)
    ensures
        member_at(schema, spec, limits, index).0 matches Ok(Some(member)) ==> types::span_within(
            schema,
            member.name,
        ),
{
    specs::lemma_nth_member_within(
        schema.data@,
        schema.record_index,
        spec.body_start as int,
        spec.body_end as int,
        limits,
        index,
    );
}

fn count_members(
    schema: SchemaView<'_>,
    spec: SpecView,
    limits: &UnfrozenRemoteRos2LimitsV1,
    meter: &mut RemoteRos2StepOwnershipV1,
) -> (result: Result<usize, RemoteRos2InitializationError>)
    ensures
        steps::metered(
            *old(meter),
            match member_count_scan(schema, spec, *limits, 0).0 {
                Ok(count) => Ok(count as usize),
                Err(error) => Err(error),
            },
            member_count_scan(schema, spec, *limits, 0).1,
            result,
            *final(meter),
        ),
        result matches Ok(count) ==> member_count_scan(schema, spec, *limits, 0).0 == Ok::<
            nat,
            RemoteRos2InitializationError,
        >(count as nat),
{
    let ghost initial = *meter;
    let ghost target = member_count_scan(schema, spec, *limits, 0);
    let ghost mut charged: nat = 0;
    let available = schema.data.len();
    proof {
        steps::lemma_metered_pure(initial, Ok::<(), RemoteRos2InitializationError>(()));
    }
    let mut count: usize = 0;
    loop
        invariant
            initial == *old(meter),
            available == schema.data@.len(),
            target == member_count_scan(schema, spec, *limits, 0),
            target.0 == member_count_scan(schema, spec, *limits, count as nat).0,
            target.1 == charged + member_count_scan(schema, spec, *limits, count as nat).1,
            steps::metered(initial, Ok(()), charged, Ok(()), *meter),
        decreases available - count,
    {
        let ghost probe = member_at(schema, spec, *limits, count as nat);
        let ghost before = *meter;
        let member = specs::nth_member_metered(schema, spec, count, limits, meter);
        proof {
            steps::lemma_metered_then(
                initial,
                Ok::<(), RemoteRos2InitializationError>(()),
                charged,
                Ok(()),
                before,
                probe.0,
                probe.1,
                member,
                *meter,
            );
            specs::lemma_nth_member_bound(
                schema.data@,
                schema.record_index,
                spec.body_start as int,
                spec.body_end as int,
                *limits,
                count as nat,
            );
        }
        match member {
            Ok(Some(_)) => {},
            Ok(None) => {
                return Ok(count);
            },
            Err(error) => {
                return Err(error);
            },
        }
        proof {
            charged = charged + probe.1;
        }
        count = count + 1;
    }
}

fn ensure_member_distinct_from_earlier(
    schema: SchemaView<'_>,
    spec: SpecView,
    limits: &UnfrozenRemoteRos2LimitsV1,
    name: &[u8],
    left_index: usize,
    meter: &mut RemoteRos2StepOwnershipV1,
) -> (result: Result<(), RemoteRos2InitializationError>)
    ensures
        steps::metered(
            *old(meter),
            member_distinct_from_earlier(schema, spec, *limits, name@, left_index as nat, 0).0,
            member_distinct_from_earlier(schema, spec, *limits, name@, left_index as nat, 0).1,
            result,
            *final(meter),
        ),
{
    let ghost initial = *meter;
    let ghost target = member_distinct_from_earlier(
        schema,
        spec,
        *limits,
        name@,
        left_index as nat,
        0,
    );
    let ghost mut charged: nat = 0;
    proof {
        steps::lemma_metered_pure(initial, Ok::<(), RemoteRos2InitializationError>(()));
    }
    let mut right_index: usize = 0;
    while right_index < left_index
        invariant
            initial == *old(meter),
            right_index <= left_index,
            target == member_distinct_from_earlier(schema, spec, *limits, name@, left_index as nat, 0),
            target.0 == member_distinct_from_earlier(
                schema,
                spec,
                *limits,
                name@,
                left_index as nat,
                right_index as nat,
            ).0,
            target.1 == charged + member_distinct_from_earlier(
                schema,
                spec,
                *limits,
                name@,
                left_index as nat,
                right_index as nat,
            ).1,
            steps::metered(initial, Ok(()), charged, Ok(()), *meter),
        decreases left_index - right_index,
    {
        let ghost right_outcome = member_at(schema, spec, *limits, right_index as nat);
        let ghost before_step = *meter;
        let stepped = meter.step();
        if stepped.is_err() {
            proof {
                steps::lemma_charge_stop(
                    initial,
                    charged,
                    before_step,
                    stepped,
                    *meter,
                    target.0,
                    target.1,
                );
            }
            return Err(stepped.unwrap_err());
        }
        proof {
            steps::lemma_charge_ok(initial, charged, before_step, stepped, *meter);
            lemma_member_at_within(schema, spec, *limits, right_index as nat);
        }
        let ghost before = *meter;
        let right = specs::nth_member_metered(schema, spec, right_index, limits, meter);
        proof {
            steps::lemma_metered_then(
                initial,
                Ok::<(), RemoteRos2InitializationError>(()),
                charged + 1,
                Ok(()),
                before,
                right_outcome.0,
                right_outcome.1,
                right,
                *meter,
            );
        }
        let right = match right {
            Ok(Some(right)) => right,
            Ok(None) => {
                return Err(RemoteRos2InitializationError::InvalidRemoteSchema);
            },
            Err(error) => {
                return Err(error);
            },
        };
        let other = types::text_for_span(schema, right.name);
        let ghost before_eq = *meter;
        let equal = names::metered_bytes_eq(name, other, meter);
        proof {
            steps::lemma_metered_then(
                initial,
                Ok::<(), RemoteRos2InitializationError>(()),
                charged + 1 + right_outcome.1,
                Ok(()),
                before_eq,
                Ok(name@ == other@),
                name@.len() + other@.len(),
                equal,
                *meter,
            );
        }
        let equal = match equal {
            Ok(equal) => equal,
            Err(error) => {
                return Err(error);
            },
        };
        proof {
            charged = charged + 1 + right_outcome.1 + name@.len() + other@.len();
        }
        if equal {
            return Err(
                RemoteRos2InitializationError::UnsupportedForRemote(
                    UnsupportedForRemote::GrammarFeature,
                ),
            );
        }
        right_index = right_index + 1;
    }
    Ok(())
}

fn ensure_members_distinct(
    schema: SchemaView<'_>,
    spec: SpecView,
    limits: &UnfrozenRemoteRos2LimitsV1,
    count: usize,
    meter: &mut RemoteRos2StepOwnershipV1,
) -> (result: Result<(), RemoteRos2InitializationError>)
    ensures
        steps::metered(
            *old(meter),
            members_distinct_scan(schema, spec, *limits, count as nat, 0).0,
            members_distinct_scan(schema, spec, *limits, count as nat, 0).1,
            result,
            *final(meter),
        ),
{
    let ghost initial = *meter;
    let ghost target = members_distinct_scan(schema, spec, *limits, count as nat, 0);
    let ghost mut charged: nat = 0;
    proof {
        steps::lemma_metered_pure(initial, Ok::<(), RemoteRos2InitializationError>(()));
    }
    let mut left_index: usize = 0;
    while left_index < count
        invariant
            initial == *old(meter),
            left_index <= count,
            target == members_distinct_scan(schema, spec, *limits, count as nat, 0),
            target.0 == members_distinct_scan(
                schema,
                spec,
                *limits,
                count as nat,
                left_index as nat,
            ).0,
            target.1 == charged + members_distinct_scan(
                schema,
                spec,
                *limits,
                count as nat,
                left_index as nat,
            ).1,
            steps::metered(initial, Ok(()), charged, Ok(()), *meter),
        decreases count - left_index,
    {
        let ghost left_outcome = member_at(schema, spec, *limits, left_index as nat);
        proof {
            lemma_member_at_within(schema, spec, *limits, left_index as nat);
        }
        let ghost before = *meter;
        let left = specs::nth_member_metered(schema, spec, left_index, limits, meter);
        proof {
            steps::lemma_metered_then(
                initial,
                Ok::<(), RemoteRos2InitializationError>(()),
                charged,
                Ok(()),
                before,
                left_outcome.0,
                left_outcome.1,
                left,
                *meter,
            );
        }
        let left = match left {
            Ok(Some(left)) => left,
            Ok(None) => {
                return Err(RemoteRos2InitializationError::InvalidRemoteSchema);
            },
            Err(error) => {
                return Err(error);
            },
        };
        let left_name = types::text_for_span(schema, left.name);
        let ghost earlier = member_distinct_from_earlier(
            schema,
            spec,
            *limits,
            left_name@,
            left_index as nat,
            0,
        );
        let ghost before_distinct = *meter;
        let distinct = ensure_member_distinct_from_earlier(
            schema,
            spec,
            limits,
            left_name,
            left_index,
            meter,
        );
        proof {
            steps::lemma_metered_then(
                initial,
                Ok::<(), RemoteRos2InitializationError>(()),
                charged + left_outcome.1,
                Ok(()),
                before_distinct,
                earlier.0,
                earlier.1,
                distinct,
                *meter,
            );
        }
        if distinct.is_err() {
            return Err(distinct.unwrap_err());
        }
        proof {
            charged = charged + left_outcome.1 + earlier.1;
        }
        left_index = left_index + 1;
    }
    Ok(())
}

/// Checks that the members of each of the first `spec_count` specifications have distinct names.
pub fn validate_member_names(
    schema: SchemaView<'_>,
    spec_count: usize,
    limits: &UnfrozenRemoteRos2LimitsV1,
    meter: &mut RemoteRos2StepOwnershipV1,
) -> (result: Result<(), RemoteRos2InitializationError>)
    ensures
        steps::metered(
            *old(meter),
            member_names_scan(schema, spec_count as nat, *limits, 0).0,
            member_names_scan(schema, spec_count as nat, *limits, 0).1,
            result,
            *final(meter),
        ),
{
    let ghost initial = *meter;
    let ghost target = member_names_scan(schema, spec_count as nat, *limits, 0);
    let ghost mut charged: nat = 0;
    let available = schema.data.len();
    proof {
        steps::lemma_metered_pure(initial, Ok::<(), RemoteRos2InitializationError>(()));
    }
    let mut spec_index: usize = 0;
    while spec_index < spec_count
        invariant
            initial == *old(meter),
            available == schema.data@.len(),
            spec_index <= spec_count,
            target == member_names_scan(schema, spec_count as nat, *limits, 0),
            target.0 == member_names_scan(schema, spec_count as nat, *limits, spec_index as nat).0,
            target.1 == charged + member_names_scan(
                schema,
                spec_count as nat,
                *limits,
                spec_index as nat,
            ).1,
            steps::metered(initial, Ok(()), charged, Ok(()), *meter),
        decreases spec_count - spec_index,
    {
        let ghost found = specs::nth_spec_from(schema, specs::initial_spec_state(), spec_index as nat);
        let ghost before = *meter;
        let spec = specs::nth_spec_metered(schema, spec_index, meter);
        proof {
            steps::lemma_metered_then(
                initial,
                Ok::<(), RemoteRos2InitializationError>(()),
                charged,
                Ok(()),
                before,
                found.0,
                found.1,
                spec,
                *meter,
            );
        }
        let spec = match spec {
            Ok(Some(spec)) => spec,
            Ok(None) => {
                return Err(RemoteRos2InitializationError::InvalidRemoteSchema);
            },
            Err(error) => {
                return Err(error);
            },
        };
        let ghost counted = member_count_scan(schema, spec, *limits, 0);
        let ghost before_count = *meter;
        let count = count_members(schema, spec, limits, meter);
        proof {
            steps::lemma_metered_then(
                initial,
                Ok::<(), RemoteRos2InitializationError>(()),
                charged + found.1,
                Ok(()),
                before_count,
                match counted.0 {
                    Ok(count) => Ok(count as usize),
                    Err(error) => Err(error),
                },
                counted.1,
                count,
                *meter,
            );
        }
        let count = match count {
            Ok(count) => count,
            Err(error) => {
                return Err(error);
            },
        };
        let ghost distinct_outcome = members_distinct_scan(schema, spec, *limits, count as nat, 0);
        let ghost before_distinct = *meter;
        let distinct = ensure_members_distinct(schema, spec, limits, count, meter);
        proof {
            steps::lemma_metered_then(
                initial,
                Ok::<(), RemoteRos2InitializationError>(()),
                charged + found.1 + counted.1,
                Ok(()),
                before_distinct,
                distinct_outcome.0,
                distinct_outcome.1,
                distinct,
                *meter,
            );
        }
        if distinct.is_err() {
            return Err(distinct.unwrap_err());
        }
        proof {
            charged = charged + found.1 + counted.1 + distinct_outcome.1;
        }
        spec_index = spec_index + 1;
    }
    Ok(())
}


/// A resolved nested type is a dependency: never the main specification, and within the count.
proof fn lemma_resolve_scan_target(
    schema: SchemaView,
    state: SpecIterState,
    index: nat,
    spec_count: nat,
    requested: Seq<u8>,
    scope: Seq<u8>,
    found: Option<usize>,
)
    requires
        index >= 1,
        spec_count <= usize::MAX,
        found matches Some(f) ==> 1 <= f < spec_count,
    ensures
        resolve_scan(schema, state, index, spec_count, requested, scope, found).0 matches Ok(
            target,
        ) ==> 1 <= target < spec_count,
    decreases spec_count - index,
{
    if index < spec_count {
        let step = specs::spec_iter_step(schema, state);
        if let Ok(Some(candidate)) = step.0 {
            let name = types::span_text(schema, candidate.name);
            let next_found = if type_name_match(requested, scope, name) {
                Some(index as usize)
            } else {
                found
            };
            lemma_resolve_scan_target(
                schema,
                step.2,
                index + 1,
                spec_count,
                requested,
                scope,
                next_found,
            );
        }
    }
}

proof fn lemma_resolution_target(
    schema: SchemaView,
    scope_spec_index: nat,
    type_span: SourceTextSpan,
    spec_count: nat,
)
    requires
        spec_count <= usize::MAX,
    ensures
        complex_type_resolution(schema, scope_spec_index, type_span, spec_count).0 matches Ok(
            target,
        ) ==> 1 <= target < spec_count,
{
    let scope = specs::nth_spec_from(schema, specs::initial_spec_state(), scope_spec_index);
    if let Ok(Some(scope_spec)) = scope.0 {
        let first = specs::spec_iter_step(schema, specs::initial_spec_state());
        lemma_resolve_scan_target(
            schema,
            first.2,
            1,
            spec_count,
            types::span_text(schema, type_span),
            types::span_text(schema, scope_spec.name),
            None,
        );
    }
}

/// The deepest dependency stack the fixed scratch can hold.
pub const MAX_STACK_DEPENDENCY_DEPTH_V1: usize = 64;

/// One frame of the dependency walk: a specification and the next of its members to visit.
#[derive(Clone, Copy, Debug, PartialEq, Eq, Structural)]
pub struct DependencyDfsFrameV1 {
    pub specification_index: usize,
    pub next_member_index: usize,
}

/// Fixed, allocation-free scratch of the dependency walk.
pub struct RemoteRos2FixedScratchV1 {
    pub dependency_frames: [DependencyDfsFrameV1; 65],
}

/// A frame slot that holds no specification.
pub open spec fn empty_frame() -> DependencyDfsFrameV1 {
    DependencyDfsFrameV1 { specification_index: usize::MAX, next_member_index: 0 }
}

/// Every frame slot empty.
pub open spec fn empty_frames() -> Seq<DependencyDfsFrameV1> {
    Seq::new(65, |_i: int| empty_frame())
}

impl RemoteRos2FixedScratchV1 {
    pub fn new() -> (scratch: Self)
        ensures
            scratch.dependency_frames@ == empty_frames(),
    {
        let scratch = RemoteRos2FixedScratchV1 {
            dependency_frames: [DependencyDfsFrameV1 {
                specification_index: usize::MAX,
                next_member_index: 0,
            }; 65],
        };
        assert(scratch.dependency_frames@ =~= empty_frames());
        scratch
    }
}

/// The ancestor check of a new dependency edge to `target`: one step per frame from `index` up
/// to `depth`, failing on the first frame that already holds `target`.
pub open spec fn ancestor_scan(
    frames: Seq<DependencyDfsFrameV1>,
    depth: nat,
    target: usize,
    limit: RemoteRos2ResourceLimit,
    index: nat,
    budget: nat,
) -> (Result<(), RemoteRos2InitializationError>, nat)
    decreases depth + 1 - index,
{
    if index > depth {
        (Ok(()), budget)
    } else if budget == 0 {
        (Err(steps::limit_error(limit)), 0)
    } else if frames[index as int].specification_index == target {
        (Err(steps::unsupported(UnsupportedForRemote::DependencyGraph)), (budget - 1) as nat)
    } else {
        ancestor_scan(frames, depth, target, limit, index + 1, (budget - 1) as nat)
    }
}

pub proof fn lemma_ancestor_scan_budget(
    frames: Seq<DependencyDfsFrameV1>,
    depth: nat,
    target: usize,
    limit: RemoteRos2ResourceLimit,
    index: nat,
    budget: nat,
)
    ensures
        ancestor_scan(frames, depth, target, limit, index, budget).1 <= budget,
    decreases depth + 1 - index,
{
    if index <= depth && budget > 0 && frames[index as int].specification_index != target {
        lemma_ancestor_scan_budget(frames, depth, target, limit, index + 1, (budget - 1) as nat);
    }
}

/// The depth-first dependency walk from the given frames, with `budget` steps left: its
/// outcome, the steps left, and the frames at its end. Each iteration charges one step, finds
/// the frame's specification and its next member; a finished frame is popped (the walk moves
/// to the next root when the root frame finishes), and a nested member type is resolved, checked
/// against the depth limits and the ancestors on the stack, and pushed.
pub open spec fn dependency_walk(
    schema: SchemaView,
    spec_count: nat,
    limits: UnfrozenRemoteRos2LimitsV1,
    limit: RemoteRos2ResourceLimit,
    root: nat,
    frames: Seq<DependencyDfsFrameV1>,
    depth: nat,
    budget: nat,
) -> (Result<(), RemoteRos2InitializationError>, nat, Seq<DependencyDfsFrameV1>)
    decreases budget,
{
    if budget == 0 {
        (Err(steps::limit_error(limit)), 0, frames)
    } else {
        let frame = frames[depth as int];
        let spec_lookup = specs::nth_spec_from(
            schema,
            specs::initial_spec_state(),
            frame.specification_index as nat,
        );
        let found = steps::within_budget((budget - 1) as nat, limit, spec_lookup.0, spec_lookup.1);
        match found.0 {
            Err(error) => (Err(error), found.1, frames),
            Ok(None) => (Err(RemoteRos2InitializationError::InvalidRemoteSchema), found.1, frames),
            Ok(Some(spec)) => {
                let member_lookup = member_at(schema, spec, limits, frame.next_member_index as nat);
                let probe = steps::within_budget(found.1, limit, member_lookup.0, member_lookup.1);
                match probe.0 {
                    Err(error) => (Err(error), probe.1, frames),
                    Ok(member) => if frame.next_member_index + 1 > usize::MAX {
                        (
                            Err(steps::limit_error(RemoteRos2ResourceLimit::Arithmetic)),
                            probe.1,
                            frames,
                        )
                    } else {
                        let advanced = frames.update(
                            depth as int,
                            DependencyDfsFrameV1 {
                                specification_index: frame.specification_index,
                                next_member_index: (frame.next_member_index + 1) as usize,
                            },
                        );
                        match member {
                            None => if depth == 0 {
                                if root + 1 >= spec_count {
                                    (Ok(()), probe.1, advanced)
                                } else {
                                    dependency_walk(
                                        schema,
                                        spec_count,
                                        limits,
                                        limit,
                                        root + 1,
                                        advanced.update(
                                            0,
                                            DependencyDfsFrameV1 {
                                                specification_index: (root + 1) as usize,
                                                next_member_index: 0,
                                            },
                                        ),
                                        0,
                                        probe.1,
                                    )
                                }
                            } else {
                                dependency_walk(
                                    schema,
                                    spec_count,
                                    limits,
                                    limit,
                                    root,
                                    advanced,
                                    (depth - 1) as nat,
                                    probe.1,
                                )
                            },
                            Some(member) => match member.ty.element {
                                types::ElementTypeV1::Primitive(_) => dependency_walk(
                                    schema,
                                    spec_count,
                                    limits,
                                    limit,
                                    root,
                                    advanced,
                                    depth,
                                    probe.1,
                                ),
                                types::ElementTypeV1::Complex(type_span) => {
                                    let resolution = complex_type_resolution(
                                        schema,
                                        frame.specification_index as nat,
                                        type_span,
                                        spec_count,
                                    );
                                    let resolved = steps::within_budget(
                                        probe.1,
                                        limit,
                                        resolution.0,
                                        resolution.1,
                                    );
                                    match resolved.0 {
                                        Err(error) => (Err(error), resolved.1, advanced),
                                        Ok(target) => if depth + 1 > limits.max_dependency_depth
                                            || depth + 1 > MAX_STACK_DEPENDENCY_DEPTH_V1 {
                                            (
                                                Err(
                                                    steps::limit_error(
                                                        RemoteRos2ResourceLimit::DependencyDepth,
                                                    ),
                                                ),
                                                resolved.1,
                                                advanced,
                                            )
                                        } else {
                                            let ancestors = ancestor_scan(
                                                advanced,
                                                depth,
                                                target,
                                                limit,
                                                0,
                                                resolved.1,
                                            );
                                            proof {
                                                lemma_ancestor_scan_budget(
                                                    advanced,
                                                    depth,
                                                    target,
                                                    limit,
                                                    0,
                                                    resolved.1,
                                                );
                                            }
                                            match ancestors.0 {
                                                Err(error) => (Err(error), ancestors.1, advanced),
                                                Ok(()) => dependency_walk(
                                                    schema,
                                                    spec_count,
                                                    limits,
                                                    limit,
                                                    root,
                                                    advanced.update(
                                                        depth + 1 as int,
                                                        DependencyDfsFrameV1 {
                                                            specification_index: target,
                                                            next_member_index: 0,
                                                        },
                                                    ),
                                                    depth + 1,
                                                    ancestors.1,
                                                ),
                                            }
                                        },
                                    }
                                },
                            },
                        }
                    },
                }
            },
        }
    }
}

/// The dependency-graph check of the first `spec_count` specifications with `budget` steps of
/// kind `limit`: every root is walked in order from freshly emptied frames.
pub open spec fn dependency_graph_check(
    schema: SchemaView,
    spec_count: nat,
    limits: UnfrozenRemoteRos2LimitsV1,
    limit: RemoteRos2ResourceLimit,
    budget: nat,
) -> (Result<(), RemoteRos2InitializationError>, nat, Seq<DependencyDfsFrameV1>) {
    if spec_count == 0 {
        (Ok(()), budget, empty_frames())
    } else {
        dependency_walk(
            schema,
            spec_count,
            limits,
            limit,
            0,
            empty_frames().update(
                0,
                DependencyDfsFrameV1 { specification_index: 0, next_member_index: 0 },
            ),
            0,
            budget,
        )
    }
}


/// Checks that the nested-type dependencies among the first `spec_count` specifications form an
/// acyclic graph of bounded depth, walking depth-first from every root with the fixed scratch
/// frames and charging one step per walk iteration and per ancestor comparison.
///
/// `spec_count` counts specifications that exist: the walk never looks past them.
#[verifier::spinoff_prover]
#[verifier::rlimit(100)]
pub fn validate_dependency_graph(
    schema: SchemaView<'_>,
    spec_count: usize,
    limits: &UnfrozenRemoteRos2LimitsV1,
    meter: &mut RemoteRos2StepOwnershipV1,
    scratch: &mut RemoteRos2FixedScratchV1,
) -> (result: Result<(), RemoteRos2InitializationError>)
    requires
        forall|index: nat|
            index < spec_count ==> !(#[trigger] specs::nth_spec_from(
                schema,
                specs::initial_spec_state(),
                index,
            ).0 matches Ok(None)),
    ensures
        (result, final(meter).remaining_steps(), final(scratch).dependency_frames@)
            == dependency_graph_check(
            schema,
            spec_count as nat,
            *limits,
            old(meter).limit(),
            old(meter).remaining_steps(),
        ),
        final(meter).limit() == old(meter).limit(),
        final(meter).consumed_steps() + final(meter).remaining_steps() == old(
            meter,
        ).consumed_steps() + old(meter).remaining_steps(),
{
    let ghost limit = meter.limit();
    let ghost total = meter.consumed_steps() + meter.remaining_steps();
    let ghost target = dependency_graph_check(
        schema,
        spec_count as nat,
        *limits,
        limit,
        meter.remaining_steps(),
    );
    let empty = DependencyDfsFrameV1 { specification_index: usize::MAX, next_member_index: 0 };
    let mut slot: usize = 0;
    while slot < 65
        invariant
            slot <= 65,
            scratch.dependency_frames@.len() == 65,
            empty == empty_frame(),
            forall|i: int| 0 <= i < slot ==> scratch.dependency_frames@[i] == empty_frame(),
        decreases 65 - slot,
    {
        scratch.dependency_frames[slot] = empty;
        slot = slot + 1;
    }
    assert(scratch.dependency_frames@ =~= empty_frames());
    if spec_count == 0 {
        return Ok(());
    }
    scratch.dependency_frames[0] = DependencyDfsFrameV1 {
        specification_index: 0,
        next_member_index: 0,
    };
    let mut root: usize = 0;
    let mut depth: usize = 0;
    loop
        invariant
            root < spec_count,
            depth <= MAX_STACK_DEPENDENCY_DEPTH_V1,
            scratch.dependency_frames@.len() == 65,
            forall|i: int|
                0 <= i <= depth ==> #[trigger] scratch.dependency_frames@[i].specification_index
                    < spec_count,
            forall|index: nat|
                index < spec_count ==> !(#[trigger] specs::nth_spec_from(
                    schema,
                    specs::initial_spec_state(),
                    index,
                ).0 matches Ok(None)),
            meter.limit() == limit,
            meter.consumed_steps() + meter.remaining_steps() == total,
            limit == old(meter).limit(),
            total == old(meter).consumed_steps() + old(meter).remaining_steps(),
            target == dependency_graph_check(
                schema,
                spec_count as nat,
                *limits,
                old(meter).limit(),
                old(meter).remaining_steps(),
            ),
            target == dependency_walk(
                schema,
                spec_count as nat,
                *limits,
                limit,
                root as nat,
                scratch.dependency_frames@,
                depth as nat,
                meter.remaining_steps(),
            ),
        decreases meter.remaining_steps(),
    {
        let ghost budget = meter.remaining_steps();
        let ghost frames = scratch.dependency_frames@;
        let ghost before = *meter;
        let stepped = meter.step();
        proof {
            steps::lemma_metered_budget(before, Ok::<(), RemoteRos2InitializationError>(()), 1, stepped, *meter);
        }
        if stepped.is_err() {
            return Err(stepped.unwrap_err());
        }
        let frame = scratch.dependency_frames[depth];
        let ghost spec_lookup = specs::nth_spec_from(
            schema,
            specs::initial_spec_state(),
            frame.specification_index as nat,
        );
        let ghost before_spec = *meter;
        let spec = specs::nth_spec_metered(schema, frame.specification_index, meter);
        proof {
            steps::lemma_metered_budget(before_spec, spec_lookup.0, spec_lookup.1, spec, *meter);
        }
        let spec = match spec {
            Ok(Some(spec)) => spec,
            Ok(None) => {
                return Err(RemoteRos2InitializationError::InvalidRemoteSchema);
            },
            Err(error) => {
                return Err(error);
            },
        };
        let ghost member_lookup = member_at(schema, spec, *limits, frame.next_member_index as nat);
        proof {
            specs::lemma_nth_member_within(
                schema.data@,
                schema.record_index,
                spec.body_start as int,
                spec.body_end as int,
                *limits,
                frame.next_member_index as nat,
            );
        }
        let ghost before_member = *meter;
        let member = specs::nth_member_metered(schema, spec, frame.next_member_index, limits, meter);
        proof {
            steps::lemma_metered_budget(before_member, member_lookup.0, member_lookup.1, member, *meter);
        }
        let member = match member {
            Ok(member) => member,
            Err(error) => {
                return Err(error);
            },
        };
        if frame.next_member_index == usize::MAX {
            return Err(
                RemoteRos2InitializationError::ResourceLimitExceeded(
                    RemoteRos2ResourceLimit::Arithmetic,
                ),
            );
        }
        scratch.dependency_frames[depth] = DependencyDfsFrameV1 {
            specification_index: frame.specification_index,
            next_member_index: frame.next_member_index + 1,
        };
        let member = match member {
            Some(member) => member,
            None => {
                if depth == 0 {
                    if root + 1 >= spec_count {
                        return Ok(());
                    }
                    root = root + 1;
                    scratch.dependency_frames[0] = DependencyDfsFrameV1 {
                        specification_index: root,
                        next_member_index: 0,
                    };
                } else {
                    depth = depth - 1;
                }
                continue ;
            },
        };
        let type_span = match member.ty.element {
            types::ElementTypeV1::Complex(type_span) => type_span,
            types::ElementTypeV1::Primitive(_) => {
                continue ;
            },
        };
        let ghost resolution = complex_type_resolution(
            schema,
            frame.specification_index as nat,
            type_span,
            spec_count as nat,
        );
        proof {
            lemma_resolution_target(
                schema,
                frame.specification_index as nat,
                type_span,
                spec_count as nat,
            );
        }
        let ghost before_resolve = *meter;
        let resolved = resolve_complex_type(
            schema,
            frame.specification_index,
            type_span,
            spec_count,
            meter,
        );
        proof {
            steps::lemma_metered_budget(before_resolve, resolution.0, resolution.1, resolved, *meter);
        }
        let target_index = match resolved {
            Ok(target_index) => target_index,
            Err(error) => {
                return Err(error);
            },
        };
        let next_depth = depth + 1;
        if next_depth as u64 > limits.max_dependency_depth || next_depth
            > MAX_STACK_DEPENDENCY_DEPTH_V1 {
            return Err(
                RemoteRos2InitializationError::ResourceLimitExceeded(
                    RemoteRos2ResourceLimit::DependencyDepth,
                ),
            );
        }
        let ghost advanced = scratch.dependency_frames@;
        let ghost ancestors = ancestor_scan(
            advanced,
            depth as nat,
            target_index,
            limit,
            0,
            meter.remaining_steps(),
        );
        let ghost pushed = advanced.update(
            depth + 1 as int,
            DependencyDfsFrameV1 { specification_index: target_index, next_member_index: 0 },
        );
        assert(ancestors.0 is Err ==> target == (ancestors.0, ancestors.1, advanced));
        assert(ancestors.0 is Ok ==> target == dependency_walk(
            schema,
            spec_count as nat,
            *limits,
            limit,
            root as nat,
            pushed,
            (depth + 1) as nat,
            ancestors.1,
        ));
        let mut index: usize = 0;
        while index <= depth
            invariant
                index <= depth + 1,
                depth < MAX_STACK_DEPENDENCY_DEPTH_V1,
                scratch.dependency_frames@ == advanced,
                advanced.len() == 65,
                meter.limit() == limit,
                meter.consumed_steps() + meter.remaining_steps() == total,
                limit == old(meter).limit(),
                total == old(meter).consumed_steps() + old(meter).remaining_steps(),
                meter.remaining_steps() < budget,
                ancestors.0 is Err ==> target == (ancestors.0, ancestors.1, advanced),
                ancestors.0 is Ok ==> target == dependency_walk(
                    schema,
                    spec_count as nat,
                    *limits,
                    limit,
                    root as nat,
                    pushed,
                    (depth + 1) as nat,
                    ancestors.1,
                ),
                target == dependency_graph_check(
                    schema,
                    spec_count as nat,
                    *limits,
                    old(meter).limit(),
                    old(meter).remaining_steps(),
                ),
                ancestors == ancestor_scan(
                    advanced,
                    depth as nat,
                    target_index,
                    limit,
                    index as nat,
                    meter.remaining_steps(),
                ),
            decreases depth + 1 - index,
        {
            let ghost before_ancestor = *meter;
            let stepped = meter.step();
            proof {
                steps::lemma_metered_budget(
                    before_ancestor,
                    Ok::<(), RemoteRos2InitializationError>(()),
                    1,
                    stepped,
                    *meter,
                );
            }
            if stepped.is_err() {
                return Err(stepped.unwrap_err());
            }
            if scratch.dependency_frames[index].specification_index == target_index {
                return Err(
                    RemoteRos2InitializationError::UnsupportedForRemote(
                        UnsupportedForRemote::DependencyGraph,
                    ),
                );
            }
            index = index + 1;
        }
        scratch.dependency_frames[next_depth] = DependencyDfsFrameV1 {
            specification_index: target_index,
            next_member_index: 0,
        };
        depth = next_depth;
    }
}

} // verus!
