//! The walks over the canonical ROS 2 schemas of admitted definitions: the selection of each
//! schema to parse, the allocation-free census and dry run, and the materialization into the
//! fixed arenas.
use crate::remote_ros2_reflection::admission::{
    self, canonical_channel_scan, canonical_schema_scan, is_canonical_channel_record_metered,
    is_canonical_schema_record_metered, string_bytes,
};
use crate::remote_ros2_reflection::admission::RemoteDecoderTopicSignatureEvidenceV1;
use crate::remote_ros2_reflection::arenas::{
    arena_peak, checked_remote_protobuf_projection_step_bound_v1, compute_arena_peak,
    allocate_remote_ros2_arenas, consume_arena_allocation_steps, projection_step_bound,
    PreparedRemoteRos2CensusV1, Ros2ArenaDirectoryV1, Ros2InitializedRemoteDefinitionsV1,
};
use crate::remote_ros2_reflection::budget::{
    completed_usage, released_work_usage, reserved_usage, RemoteRos2BudgetState,
    RemoteRos2ResultReservation, RemoteRos2WorkReservation,
};
use crate::remote_ros2_reflection::census::{
    census_one_schema, empty_census, schema_census, RemoteRos2Census,
};
use crate::remote_ros2_reflection::dependencies::{DependencyDfsFrameV1, RemoteRos2FixedScratchV1};
use crate::remote_ros2_reflection::materialization::{
    counts_match, extends, fits_capacities, lemma_directory_sink, lemma_schema_materialization_budget,
    lemma_schema_materialization_extends, record_total, CountingMaterializationSink,
    materialize_one_schema,
    schema_materialization, EmittedRecordsV1, RemoteRos2MaterializationSink,
};
use crate::remote_ros2_reflection::names::bytes_equal;
use crate::remote_ros2_reflection::steps::{
    self, RemoteRos2InitializationError, RemoteRos2ResourceLimit, RemoteRos2StepOwnershipV1,
};
use crate::remote_ros2_reflection::types::{SchemaView, UnfrozenRemoteRos2LimitsV1};
use crate::remote_summary::definitions::{
    self, channel_of, schema_of, SummaryDefinitionProjectionRecord, ValidatedSummaryDefinitions,
};
use crate::remote_summary::summary_records::BoundedSummaryRecord;
use vstd::prelude::*;

verus! {

/// The schema encoding of ROS 2 message definitions, `ros2msg`.
pub open spec fn ros2_schema_encoding() -> Seq<u8> {
    seq![0x72u8, 0x6f, 0x73, 0x32, 0x6d, 0x73, 0x67]
}

/// Whether a canonical Channel of `projections[k..]` references the Schema id `schema_id`, and
/// the steps charged until the scan finds one or ends.
pub open spec fn observed_scan(
    records: Seq<BoundedSummaryRecord>,
    projections: Seq<SummaryDefinitionProjectionRecord>,
    schema_id: u16,
    k: int,
) -> (bool, nat)
    decreases projections.len() - k,
{
    if k < 0 || k >= projections.len() {
        (false, 0)
    } else {
        let rest = observed_scan(records, projections, schema_id, k + 1);
        match projections[k] {
            SummaryDefinitionProjectionRecord::Channel { id, record_index } => {
                let (canonical, canonical_cost) = canonical_channel_scan(
                    projections,
                    record_index,
                    id,
                );
                if canonical && channel_of(records[record_index as int]).schema_id == schema_id {
                    (true, 1 + canonical_cost)
                } else {
                    (rest.0, 1 + canonical_cost + rest.1)
                }
            },
            _ => (rest.0, 1 + rest.1),
        }
    }
}

/// Decides whether some canonical Channel references the Schema id `schema_id`.
pub fn schema_is_observed_by_canonical_channel_metered(
    definitions: &ValidatedSummaryDefinitions<'_>,
    schema_id: u16,
    meter: &mut RemoteRos2StepOwnershipV1,
) -> (result: Result<bool, RemoteRos2InitializationError>)
    ensures
        steps::metered(
            *old(meter),
            Ok(observed_scan(definitions.spec_records(), definitions.spec_projections(), schema_id, 0).0),
            observed_scan(definitions.spec_records(), definitions.spec_projections(), schema_id, 0).1,
            result,
            *final(meter),
        ),
{
    let projections = definitions.projection_records();
    let ghost records = definitions.spec_records();
    let ghost start = *meter;
    let ghost target = observed_scan(records, projections@, schema_id, 0);
    let ghost mut charged: nat = 0;
    proof {
        steps::lemma_metered_pure(start, Ok::<(), RemoteRos2InitializationError>(()));
        definitions::lemma_projections_match(records, records.len() as int);
    }
    let mut k: usize = 0;
    while k < projections.len()
        invariant
            k <= projections@.len(),
            projections@ == definitions.spec_projections(),
            records == definitions.spec_records(),
            forall|i: int|
                0 <= i < projections@.len() ==> definitions::projection_matches(
                    records,
                    #[trigger] projections@[i],
                ),
            start == *old(meter),
            target == observed_scan(records, projections@, schema_id, 0),
            target.0 == observed_scan(records, projections@, schema_id, k as int).0,
            target.1 == charged + observed_scan(records, projections@, schema_id, k as int).1,
            steps::metered(start, Ok(()), charged, Ok(()), *meter),
        decreases projections@.len() - k,
    {
        let ghost before = *meter;
        let stepped = meter.consume();
        if stepped.is_err() {
            proof {
                steps::lemma_charge_stop(
                    start,
                    charged,
                    before,
                    stepped,
                    *meter,
                    Ok::<bool, RemoteRos2InitializationError>(target.0),
                    target.1,
                );
            }
            return Err(stepped.unwrap_err());
        }
        proof {
            steps::lemma_charge_ok(start, charged, before, stepped, *meter);
            charged = charged + 1;
        }
        match projections[k] {
            SummaryDefinitionProjectionRecord::Channel { id, record_index } => {
                let ghost scan = canonical_channel_scan(projections@, record_index, id);
                let ghost s1 = *meter;
                let canonical = is_canonical_channel_record_metered(
                    definitions,
                    record_index,
                    id,
                    meter,
                );
                proof {
                    steps::lemma_metered_then(
                        start,
                        Ok::<(), RemoteRos2InitializationError>(()),
                        charged,
                        Ok::<(), RemoteRos2InitializationError>(()),
                        s1,
                        Ok::<bool, RemoteRos2InitializationError>(scan.0),
                        scan.1,
                        canonical,
                        *meter,
                    );
                }
                let canonical = match canonical {
                    Ok(canonical) => canonical,
                    Err(error) => {
                        proof {
                            steps::lemma_metered_stop(
                                start,
                                Ok::<bool, RemoteRos2InitializationError>(scan.0),
                                charged + scan.1,
                                Err::<bool, RemoteRos2InitializationError>(error),
                                *meter,
                                Ok::<bool, RemoteRos2InitializationError>(target.0),
                                target.1,
                            );
                        }
                        return Err(error);
                    },
                };
                proof {
                    steps::lemma_metered_settle(
                        start,
                        Ok::<bool, RemoteRos2InitializationError>(scan.0),
                        charged + scan.1,
                        Ok::<bool, RemoteRos2InitializationError>(canonical),
                        *meter,
                        Ok::<(), RemoteRos2InitializationError>(()),
                    );
                    steps::lemma_metered_settle(
                        start,
                        Ok::<bool, RemoteRos2InitializationError>(scan.0),
                        charged + scan.1,
                        Ok::<bool, RemoteRos2InitializationError>(canonical),
                        *meter,
                        Ok::<bool, RemoteRos2InitializationError>(true),
                    );
                    charged = charged + scan.1;
                    assert(definitions::projection_matches(records, projections@[k as int]));
                }
                if canonical {
                    let references = match definitions.channel_at_record(record_index) {
                        Some(channel) => channel.schema_id == schema_id,
                        None => false,
                    };
                    if references {
                        return Ok(true);
                    }
                }
            },
            _ => {},
        }
        k = k + 1;
    }
    Ok(false)
}


/// The schema view with the given id, record index, name bytes and definition bytes.
pub open spec fn ros2_schema_view(id: u16, record_index: usize, name: Seq<u8>, data: Seq<u8>) -> SchemaView<'static> {
    choose|view: SchemaView<'static>|
        view.id == id && view.record_index == record_index && view.name@ == name && view.data@ == data
}

/// Schema views with equal fields are equal.
pub proof fn lemma_ros2_schema_view(view: SchemaView<'static>)
    ensures
        ros2_schema_view(view.id, view.record_index, view.name@, view.data@) == view,
{
    let chosen = ros2_schema_view(view.id, view.record_index, view.name@, view.data@);
    assert(chosen.id == view.id && chosen.record_index == view.record_index && chosen.name@
        == view.name@ && chosen.data@ == view.data@);
    assert(chosen.name =~= view.name);
    assert(chosen.data =~= view.data);
}

/// What the walk does with projection `k`: the ROS 2 schema to parse, if that projection is a
/// canonical Schema observed by a canonical Channel with the `ros2msg` encoding, and the steps
/// charged to decide it.
pub open spec fn ros2_schema_selection(
    records: Seq<BoundedSummaryRecord>,
    projections: Seq<SummaryDefinitionProjectionRecord>,
    k: int,
) -> (Result<Option<SchemaView<'static>>, RemoteRos2InitializationError>, nat) {
    match projections[k] {
        SummaryDefinitionProjectionRecord::Schema { id, record_index } => {
            let (canonical, canonical_cost) = canonical_schema_scan(projections, record_index, id);
            if !canonical {
                (Ok(None), 1 + canonical_cost)
            } else {
                let (observed, observed_cost) = observed_scan(records, projections, id, 0);
                if !observed {
                    (Ok(None), 1 + canonical_cost + observed_cost)
                } else {
                    let schema = schema_of(records[record_index as int]);
                    let encoding_cost = string_bytes(schema.encoding).len();
                    if string_bytes(schema.encoding) != ros2_schema_encoding() {
                        (Ok(None), 1 + canonical_cost + observed_cost + encoding_cost)
                    } else {
                        let cost = 1 + canonical_cost + observed_cost + encoding_cost
                            + schema.data@.len();
                        if !vstd::utf8::valid_utf8(schema.data@) {
                            (Err(RemoteRos2InitializationError::InvalidRemoteSchema), cost)
                        } else {
                            (
                                Ok(
                                    Some(
                                        ros2_schema_view(
                                            id,
                                            record_index,
                                            string_bytes(schema.name),
                                            schema.data@,
                                        ),
                                    ),
                                ),
                                cost,
                            )
                        }
                    }
                }
            }
        },
        _ => (Ok(None), 1),
    }
}

/// Decides what the walk does with projection `k`.
pub fn select_canonical_ros2_schema<'d>(
    definitions: &'d ValidatedSummaryDefinitions<'_>,
    k: usize,
    meter: &mut RemoteRos2StepOwnershipV1,
) -> (result: Result<Option<SchemaView<'d>>, RemoteRos2InitializationError>)
    requires
        k < definitions.spec_projections().len(),
    ensures
        steps::metered(
            *old(meter),
            ros2_schema_selection(definitions.spec_records(), definitions.spec_projections(), k as int).0,
            ros2_schema_selection(definitions.spec_records(), definitions.spec_projections(), k as int).1,
            result,
            *final(meter),
        ),
{
    let projections = definitions.projection_records();
    let ghost records = definitions.spec_records();
    let ghost start = *meter;
    let ghost target = ros2_schema_selection(records, projections@, k as int);
    proof {
        definitions::lemma_projections_match(records, records.len() as int);
        assert(definitions::projection_matches(records, projections@[k as int]));
    }
    let stepped = meter.consume();
    if stepped.is_err() {
        proof {
            steps::lemma_metered_stop(
                start,
                Ok::<(), RemoteRos2InitializationError>(()),
                1,
                stepped,
                *meter,
                target.0,
                target.1,
            );
        }
        return Err(stepped.unwrap_err());
    }
    let (id, record_index) = match projections[k] {
        SummaryDefinitionProjectionRecord::Schema { id, record_index } => (id, record_index),
        _ => {
            return Ok(None);
        },
    };
    let ghost canonical_scan = canonical_schema_scan(projections@, record_index, id);
    let ghost s1 = *meter;
    let canonical = is_canonical_schema_record_metered(definitions, record_index, id, meter);
    proof {
        steps::lemma_metered_then(
            start,
            Ok::<(), RemoteRos2InitializationError>(()),
            1,
            stepped,
            s1,
            Ok::<bool, RemoteRos2InitializationError>(canonical_scan.0),
            canonical_scan.1,
            canonical,
            *meter,
        );
    }
    let canonical = match canonical {
        Ok(canonical) => canonical,
        Err(error) => {
            proof {
                steps::lemma_metered_stop(
                    start,
                    Ok::<bool, RemoteRos2InitializationError>(canonical_scan.0),
                    1 + canonical_scan.1,
                    Err::<bool, RemoteRos2InitializationError>(error),
                    *meter,
                    target.0,
                    target.1,
                );
            }
            return Err(error);
        },
    };
    if !canonical {
        return Ok(None);
    }
    let ghost observed = observed_scan(records, projections@, id, 0);
    let ghost s2 = *meter;
    let seen = schema_is_observed_by_canonical_channel_metered(definitions, id, meter);
    proof {
        steps::lemma_metered_then(
            start,
            Ok::<bool, RemoteRos2InitializationError>(true),
            1 + canonical_scan.1,
            Ok::<bool, RemoteRos2InitializationError>(canonical),
            s2,
            Ok::<bool, RemoteRos2InitializationError>(observed.0),
            observed.1,
            seen,
            *meter,
        );
    }
    let seen = match seen {
        Ok(seen) => seen,
        Err(error) => {
            proof {
                steps::lemma_metered_stop(
                    start,
                    Ok::<bool, RemoteRos2InitializationError>(observed.0),
                    1 + canonical_scan.1 + observed.1,
                    Err::<bool, RemoteRos2InitializationError>(error),
                    *meter,
                    target.0,
                    target.1,
                );
            }
            return Err(error);
        },
    };
    if !seen {
        return Ok(None);
    }
    let schema = match definitions.schema_at_record(record_index) {
        Some(schema) => schema,
        None => {
            return Ok(None);
        },
    };
    let encoding = schema.encoding.as_str().as_bytes();
    let ghost base: nat = 1 + canonical_scan.1 + observed.1;
    let ghost s3 = *meter;
    let charged = meter.consume_bytes(encoding.len());
    proof {
        steps::lemma_metered_then(
            start,
            Ok::<bool, RemoteRos2InitializationError>(true),
            base,
            Ok::<bool, RemoteRos2InitializationError>(seen),
            s3,
            Ok::<(), RemoteRos2InitializationError>(()),
            encoding@.len(),
            charged,
            *meter,
        );
    }
    if charged.is_err() {
        proof {
            steps::lemma_metered_stop(
                start,
                Ok::<(), RemoteRos2InitializationError>(()),
                base + encoding@.len(),
                charged,
                *meter,
                target.0,
                target.1,
            );
        }
        return Err(charged.unwrap_err());
    }
    if !bytes_equal(encoding, &[0x72u8, 0x6f, 0x73, 0x32, 0x6d, 0x73, 0x67]) {
        return Ok(None);
    }
    let data = schema.data.as_slice();
    let ghost s4 = *meter;
    let charged_data = meter.consume_bytes(data.len());
    proof {
        steps::lemma_metered_then(
            start,
            Ok::<(), RemoteRos2InitializationError>(()),
            base + encoding@.len(),
            charged,
            s4,
            Ok::<(), RemoteRos2InitializationError>(()),
            data@.len(),
            charged_data,
            *meter,
        );
    }
    if charged_data.is_err() {
        proof {
            steps::lemma_metered_stop(
                start,
                Ok::<(), RemoteRos2InitializationError>(()),
                base + encoding@.len() + data@.len(),
                charged_data,
                *meter,
                target.0,
                target.1,
            );
        }
        return Err(charged_data.unwrap_err());
    }
    proof {
        steps::lemma_metered_settle(
            start,
            Ok::<(), RemoteRos2InitializationError>(()),
            base + encoding@.len() + data@.len(),
            charged_data,
            *meter,
            target.0,
        );
    }
    if crate::remote_summary::materialization::utf8_text(data).is_none() {
        return Err(RemoteRos2InitializationError::InvalidRemoteSchema);
    }
    let view = SchemaView { id, record_index, name: schema.name.as_str().as_bytes(), data };
    proof {
        lemma_ros2_schema_view(view);
    }
    Ok(Some(view))
}


/// The census of the canonical ROS 2 schemas of `projections[k..]`, with `budget` census steps
/// left: the census, the steps left and the dependency scratch afterwards.
pub open spec fn census_walk(
    records: Seq<BoundedSummaryRecord>,
    projections: Seq<SummaryDefinitionProjectionRecord>,
    k: int,
    limits: UnfrozenRemoteRos2LimitsV1,
    census: RemoteRos2Census,
    limit: RemoteRos2ResourceLimit,
    budget: nat,
    frames: Seq<DependencyDfsFrameV1>,
) -> (Result<RemoteRos2Census, RemoteRos2InitializationError>, nat, Seq<DependencyDfsFrameV1>)
    decreases projections.len() - k,
{
    if k < 0 || k >= projections.len() {
        (Ok(census), budget, frames)
    } else {
        let selection = ros2_schema_selection(records, projections, k);
        let (chosen, left) = steps::within_budget(budget, limit, selection.0, selection.1);
        match chosen {
            Err(error) => (Err(error), left, frames),
            Ok(None) => census_walk(records, projections, k + 1, limits, census, limit, left, frames),
            Ok(Some(view)) => {
                let (counted, after, scratch) = schema_census(
                    view,
                    limits,
                    census,
                    limit,
                    left,
                    frames,
                );
                match counted {
                    Err(error) => (Err(error), after, scratch),
                    Ok(next) => census_walk(
                        records,
                        projections,
                        k + 1,
                        limits,
                        next,
                        limit,
                        after,
                        scratch,
                    ),
                }
            },
        }
    }
}

/// Counts and validates every canonical ROS 2 schema of the definitions, with no allocation.
pub fn census_canonical_ros2_schemas(
    definitions: &ValidatedSummaryDefinitions<'_>,
    limits: &UnfrozenRemoteRos2LimitsV1,
    census: &mut RemoteRos2Census,
    meter: &mut RemoteRos2StepOwnershipV1,
    scratch: &mut RemoteRos2FixedScratchV1,
) -> (result: Result<(), RemoteRos2InitializationError>)
    ensures
        (
            match result {
                Ok(()) => Ok(*final(census)),
                Err(error) => Err(error),
            },
            final(meter).remaining_steps(),
            final(scratch).dependency_frames@,
        ) == census_walk(
            definitions.spec_records(),
            definitions.spec_projections(),
            0,
            *limits,
            *old(census),
            old(meter).limit(),
            old(meter).remaining_steps(),
            old(scratch).dependency_frames@,
        ),
        final(meter).limit() == old(meter).limit(),
        final(meter).consumed_steps() + final(meter).remaining_steps() == old(
            meter,
        ).consumed_steps() + old(meter).remaining_steps(),
{
    let projections = definitions.projection_records();
    let ghost records = definitions.spec_records();
    let ghost target = census_walk(
        records,
        projections@,
        0,
        *limits,
        *census,
        meter.limit(),
        meter.remaining_steps(),
        scratch.dependency_frames@,
    );
    let mut k: usize = 0;
    while k < projections.len()
        invariant
            k <= projections@.len(),
            projections@ == definitions.spec_projections(),
            records == definitions.spec_records(),
            meter.limit() == old(meter).limit(),
            meter.consumed_steps() + meter.remaining_steps() == old(meter).consumed_steps() + old(
                meter,
            ).remaining_steps(),
            target == census_walk(
                records,
                projections@,
                0,
                *limits,
                *old(census),
                old(meter).limit(),
                old(meter).remaining_steps(),
                old(scratch).dependency_frames@,
            ),
            target == census_walk(
                records,
                projections@,
                k as int,
                *limits,
                *census,
                meter.limit(),
                meter.remaining_steps(),
                scratch.dependency_frames@,
            ),
        decreases projections@.len() - k,
    {
        let ghost before = *meter;
        let selected = select_canonical_ros2_schema(definitions, k, meter);
        proof {
            steps::lemma_metered_budget(
                before,
                ros2_schema_selection(records, projections@, k as int).0,
                ros2_schema_selection(records, projections@, k as int).1,
                selected,
                *meter,
            );
        }
        match selected {
            Err(error) => {
                return Err(error);
            },
            Ok(None) => {},
            Ok(Some(view)) => {
                census_one_schema(view, limits, census, meter, scratch)?;
            },
        }
        k = k + 1;
    }
    Ok(())
}


/// The materialization of the canonical ROS 2 schemas of `projections[k..]` after the records
/// in `out`, with `budget` steps left: the outcome, the steps left and the records emitted.
pub open spec fn materialization_walk(
    records: Seq<BoundedSummaryRecord>,
    projections: Seq<SummaryDefinitionProjectionRecord>,
    k: int,
    limits: UnfrozenRemoteRos2LimitsV1,
    limit: RemoteRos2ResourceLimit,
    out: EmittedRecordsV1,
    budget: nat,
) -> (Result<(), RemoteRos2InitializationError>, nat, EmittedRecordsV1)
    decreases projections.len() - k,
{
    if k < 0 || k >= projections.len() {
        (Ok(()), budget, out)
    } else {
        let selection = ros2_schema_selection(records, projections, k);
        let (chosen, left) = steps::within_budget(budget, limit, selection.0, selection.1);
        match chosen {
            Err(error) => (Err(error), left, out),
            Ok(None) => materialization_walk(records, projections, k + 1, limits, limit, out, left),
            Ok(Some(view)) => {
                let (done, after, emitted) = schema_materialization(view, limits, limit, out, left);
                match done {
                    Err(error) => (Err(error), after, emitted),
                    Ok(()) => materialization_walk(
                        records,
                        projections,
                        k + 1,
                        limits,
                        limit,
                        emitted,
                        after,
                    ),
                }
            },
        }
    }
}

/// The materialization walk only appends records.
pub proof fn lemma_materialization_walk_extends(
    records: Seq<BoundedSummaryRecord>,
    projections: Seq<SummaryDefinitionProjectionRecord>,
    k: int,
    limits: UnfrozenRemoteRos2LimitsV1,
    limit: RemoteRos2ResourceLimit,
    out: EmittedRecordsV1,
    budget: nat,
)
    ensures
        extends(out, materialization_walk(records, projections, k, limits, limit, out, budget).2),
    decreases projections.len() - k,
{
    if 0 <= k < projections.len() {
        let selection = ros2_schema_selection(records, projections, k);
        let (chosen, left) = steps::within_budget(budget, limit, selection.0, selection.1);
        match chosen {
            Err(_) => {},
            Ok(None) => {
                lemma_materialization_walk_extends(
                    records,
                    projections,
                    k + 1,
                    limits,
                    limit,
                    out,
                    left,
                );
            },
            Ok(Some(view)) => {
                lemma_selected_view_bounded(records, projections, k);
                lemma_schema_materialization_extends(view, limits, limit, out, left);
                let (done, after, emitted) = schema_materialization(view, limits, limit, out, left);
                if done is Ok {
                    lemma_materialization_walk_extends(
                        records,
                        projections,
                        k + 1,
                        limits,
                        limit,
                        emitted,
                        after,
                    );
                }
            },
        }
    }
}

/// Every record of the materialization walk costs at least one step.
pub proof fn lemma_materialization_walk_budget(
    records: Seq<BoundedSummaryRecord>,
    projections: Seq<SummaryDefinitionProjectionRecord>,
    k: int,
    limits: UnfrozenRemoteRos2LimitsV1,
    limit: RemoteRos2ResourceLimit,
    out: EmittedRecordsV1,
    budget: nat,
)
    ensures
        ({
            let walked = materialization_walk(records, projections, k, limits, limit, out, budget);
            &&& walked.1 <= budget
            &&& record_total(walked.2) + walked.1 <= record_total(out) + budget
        }),
    decreases projections.len() - k,
{
    if 0 <= k < projections.len() {
        let selection = ros2_schema_selection(records, projections, k);
        let (chosen, left) = steps::within_budget(budget, limit, selection.0, selection.1);
        match chosen {
            Err(_) => {},
            Ok(None) => {
                lemma_materialization_walk_budget(
                    records,
                    projections,
                    k + 1,
                    limits,
                    limit,
                    out,
                    left,
                );
            },
            Ok(Some(view)) => {
                lemma_selected_view_bounded(records, projections, k);
                lemma_schema_materialization_budget(view, limits, limit, out, left);
                let (done, after, emitted) = schema_materialization(view, limits, limit, out, left);
                if done is Ok {
                    lemma_materialization_walk_budget(
                        records,
                        projections,
                        k + 1,
                        limits,
                        limit,
                        emitted,
                        after,
                    );
                }
            },
        }
    }
}

/// A materialization walk from no records with at most `usize::MAX` steps emits no more
/// records of any kind than a `usize` counts.
pub proof fn lemma_materialization_walk_counts_fit(
    records: Seq<BoundedSummaryRecord>,
    projections: Seq<SummaryDefinitionProjectionRecord>,
    limits: UnfrozenRemoteRos2LimitsV1,
    limit: RemoteRos2ResourceLimit,
    budget: nat,
)
    requires
        budget <= usize::MAX,
    ensures
        fits_capacities(
            materialization_walk(records, projections, 0, limits, limit, no_records(), budget).2,
            (usize::MAX as nat, usize::MAX as nat, usize::MAX as nat, usize::MAX as nat),
        ),
{
    lemma_materialization_walk_budget(records, projections, 0, limits, limit, no_records(), budget);
    assert(record_total(no_records()) == 0);
}

/// A selected schema view has definition bytes that a `usize` can index.
pub proof fn lemma_selected_view_bounded(
    records: Seq<BoundedSummaryRecord>,
    projections: Seq<SummaryDefinitionProjectionRecord>,
    k: int,
)
    requires
        0 <= k < projections.len(),
    ensures
        ros2_schema_selection(records, projections, k).0 matches Ok(Some(view)) ==> view.data@.len()
            <= usize::MAX,
{
    if let SummaryDefinitionProjectionRecord::Schema { id, record_index } = projections[k] {
        let schema = schema_of(records[record_index as int]);
        assert(schema.data.len() == schema.data@.len());
        let chosen = ros2_schema_view(id, record_index, string_bytes(schema.name), schema.data@);
        if ros2_schema_selection(records, projections, k).0 is Ok && ros2_schema_selection(
            records,
            projections,
            k,
        ).0->Ok_0 is Some {
            assert(ros2_schema_selection(records, projections, k).0->Ok_0->Some_0 == chosen);
            assert(vstd::slice::spec_slice_len(chosen.data) == chosen.data@.len());
        }
    }
}

/// Emits the records of every canonical ROS 2 schema of the definitions into `sink`.
pub fn walk_remote_ros2_materialization<S: RemoteRos2MaterializationSink>(
    definitions: &ValidatedSummaryDefinitions<'_>,
    limits: &UnfrozenRemoteRos2LimitsV1,
    sink: &mut S,
    meter: &mut RemoteRos2StepOwnershipV1,
) -> (result: Result<(), RemoteRos2InitializationError>)
    requires
        fits_capacities(
            materialization_walk(
                definitions.spec_records(),
                definitions.spec_projections(),
                0,
                *limits,
                old(meter).limit(),
                old(sink).emitted(),
                old(meter).remaining_steps(),
            ).2,
            old(sink).capacities(),
        ),
    ensures
        (result, final(meter).remaining_steps(), final(sink).emitted()) == materialization_walk(
            definitions.spec_records(),
            definitions.spec_projections(),
            0,
            *limits,
            old(meter).limit(),
            old(sink).emitted(),
            old(meter).remaining_steps(),
        ),
        final(sink).capacities() == old(sink).capacities(),
        final(meter).limit() == old(meter).limit(),
        final(meter).consumed_steps() + final(meter).remaining_steps() == old(
            meter,
        ).consumed_steps() + old(meter).remaining_steps(),
{
    let projections = definitions.projection_records();
    let ghost records = definitions.spec_records();
    let ghost target = materialization_walk(
        records,
        projections@,
        0,
        *limits,
        meter.limit(),
        sink.emitted(),
        meter.remaining_steps(),
    );
    let mut k: usize = 0;
    while k < projections.len()
        invariant
            k <= projections@.len(),
            projections@ == definitions.spec_projections(),
            records == definitions.spec_records(),
            meter.limit() == old(meter).limit(),
            meter.consumed_steps() + meter.remaining_steps() == old(meter).consumed_steps() + old(
                meter,
            ).remaining_steps(),
            sink.capacities() == old(sink).capacities(),
            fits_capacities(target.2, old(sink).capacities()),
            target == materialization_walk(
                records,
                projections@,
                0,
                *limits,
                old(meter).limit(),
                old(sink).emitted(),
                old(meter).remaining_steps(),
            ),
            target == materialization_walk(
                records,
                projections@,
                k as int,
                *limits,
                meter.limit(),
                sink.emitted(),
                meter.remaining_steps(),
            ),
        decreases projections@.len() - k,
    {
        let ghost before = *meter;
        let selected = select_canonical_ros2_schema(definitions, k, meter);
        proof {
            steps::lemma_metered_budget(
                before,
                ros2_schema_selection(records, projections@, k as int).0,
                ros2_schema_selection(records, projections@, k as int).1,
                selected,
                *meter,
            );
        }
        match selected {
            Err(error) => {
                return Err(error);
            },
            Ok(None) => {},
            Ok(Some(view)) => {
                proof {
                    let (done, after, emitted) = schema_materialization(
                        view,
                        *limits,
                        meter.limit(),
                        sink.emitted(),
                        meter.remaining_steps(),
                    );
                    if done is Ok {
                        lemma_materialization_walk_extends(
                            records,
                            projections@,
                            k + 1,
                            *limits,
                            meter.limit(),
                            emitted,
                            after,
                        );
                    }
                }
                materialize_one_schema(view, limits, sink, meter)?;
            },
        }
        k = k + 1;
    }
    Ok(())
}


/// ASCII lower case of one byte.
pub open spec fn ascii_lower(byte: u8) -> u8 {
    if 0x41 <= byte <= 0x5a {
        (byte + 0x20) as u8
    } else {
        byte
    }
}

/// Whether two byte strings are equal up to ASCII case.
pub open spec fn ascii_case_insensitive_eq(left: Seq<u8>, right: Seq<u8>) -> bool {
    left.len() == right.len() && forall|i: int|
        0 <= i < left.len() ==> ascii_lower(#[trigger] left[i]) == ascii_lower(right[i])
}

/// Compares two byte strings up to ASCII case, as `eq_ignore_ascii_case` does.
pub fn eq_ignore_ascii_case(left: &[u8], right: &[u8]) -> (equal: bool)
    ensures
        equal == ascii_case_insensitive_eq(left@, right@),
{
    if left.len() != right.len() {
        return false;
    }
    let mut i: usize = 0;
    while i < left.len()
        invariant
            left@.len() == right@.len(),
            i <= left@.len(),
            forall|j: int| 0 <= j < i ==> ascii_lower(#[trigger] left@[j]) == ascii_lower(right@[j]),
        decreases left@.len() - i,
    {
        let a = left[i];
        let b = right[i];
        let lower_a = if 0x41 <= a && a <= 0x5a {
            a + 0x20
        } else {
            a
        };
        let lower_b = if 0x41 <= b && b <= 0x5a {
            b + 0x20
        } else {
            b
        };
        if lower_a != lower_b {
            return false;
        }
        i = i + 1;
    }
    true
}

/// The message encoding of CDR-serialized ROS 2 messages, `cdr`.
pub open spec fn cdr_encoding() -> Seq<u8> {
    seq![0x63u8, 0x64, 0x72]
}

/// The recognition steps that the source records `records[index..]` cost: one per record, the
/// canonicality scan of each Channel, and for each canonical one its Schema lookup, its message
/// encoding and, for a CDR Channel with a Schema, the Schema encoding and one step per admitted
/// ROS 2 schema.
pub open spec fn recognition_cost(
    records: Seq<BoundedSummaryRecord>,
    projections: Seq<SummaryDefinitionProjectionRecord>,
    schema_count: nat,
    index: int,
) -> nat
    decreases records.len() - index,
{
    if index < 0 || index >= records.len() {
        0
    } else {
        let rest = recognition_cost(records, projections, schema_count, index + 1);
        match definitions::projection_of(records[index], index) {
            Some(SummaryDefinitionProjectionRecord::Channel { id, .. }) => {
                let (canonical, canonical_cost) = canonical_channel_scan(
                    projections,
                    index as usize,
                    id,
                );
                if !canonical {
                    1 + canonical_cost + rest
                } else {
                    let channel = channel_of(records[index]);
                    let (schema, schema_cost) = admission::channel_schema_scan(
                        projections,
                        channel.schema_id,
                    );
                    let encoding = string_bytes(channel.message_encoding);
                    let base = 1 + canonical_cost + schema_cost + encoding.len();
                    if ascii_case_insensitive_eq(encoding, cdr_encoding()) && schema is Some {
                        base + string_bytes(
                            schema_of(records[schema->Some_0 as int]).encoding,
                        ).len() + schema_count + rest
                    } else {
                        base + rest
                    }
                }
            },
            _ => 1 + rest,
        }
    }
}


/// Measures the exact recognition steps of the definitions for `ros2_schema_count` admitted
/// schemas, within the recognition step limit.
pub fn measure_remote_ros2_recognition_steps_v1(
    definitions: &ValidatedSummaryDefinitions<'_>,
    ros2_schema_count: u64,
    limits: &UnfrozenRemoteRos2LimitsV1,
) -> (result: Result<u64, RemoteRos2InitializationError>)
    ensures
        ros2_schema_count > usize::MAX ==> result == Err::<u64, RemoteRos2InitializationError>(
            steps::limit_error(RemoteRos2ResourceLimit::Arithmetic),
        ),
        ros2_schema_count <= usize::MAX ==> ({
            let cost = recognition_cost(
                definitions.spec_records(),
                definitions.spec_projections(),
                ros2_schema_count as nat,
                0,
            );
            if cost <= limits.max_recognition_steps {
                result == Ok::<u64, RemoteRos2InitializationError>(cost as u64)
            } else {
                result == Err::<u64, RemoteRos2InitializationError>(
                    steps::limit_error(RemoteRos2ResourceLimit::RecognitionSteps),
                )
            }
        }),
{
    let mut meter = RemoteRos2StepOwnershipV1::with_limit(
        limits.max_recognition_steps,
        RemoteRos2ResourceLimit::RecognitionSteps,
    );
    let schema_count = steps::checked_usize(ros2_schema_count)?;
    let projections = definitions.projection_records();
    let record_count = definitions.source_record_count();
    let ghost records = definitions.spec_records();
    let ghost start = meter;
    let ghost target: nat = recognition_cost(records, projections@, schema_count as nat, 0);
    let ghost mut charged: nat = 0;
    proof {
        steps::lemma_metered_pure(start, Ok::<(), RemoteRos2InitializationError>(()));
        definitions::lemma_projections_match(records, records.len() as int);
    }
    let mut index: usize = 0;
    while index < record_count
        invariant
            index <= record_count,
            schema_count == ros2_schema_count,
            record_count == records.len(),
            projections@ == definitions.spec_projections(),
            records == definitions.spec_records(),
            records.len() <= usize::MAX,
            definitions::summary_definitions_check(records) is Ok,
            projections@ == definitions::projections_upto(records, records.len() as int),
            start.remaining_steps() == limits.max_recognition_steps,
            start.consumed_steps() == 0,
            start.limit() == RemoteRos2ResourceLimit::RecognitionSteps,
            target == recognition_cost(records, projections@, schema_count as nat, 0),
            target == charged + recognition_cost(
                records,
                projections@,
                schema_count as nat,
                index as int,
            ),
            steps::metered(start, Ok(()), charged, Ok(()), meter),
        decreases record_count - index,
    {
        let ghost before = meter;
        let stepped = meter.consume();
        if stepped.is_err() {
            proof {
                steps::lemma_charge_stop(
                    start,
                    charged,
                    before,
                    stepped,
                    meter,
                    Ok::<(), RemoteRos2InitializationError>(()),
                    target,
                );
            }
            return Err(stepped.unwrap_err());
        }
        proof {
            steps::lemma_charge_ok(start, charged, before, stepped, meter);
            charged = charged + 1;
        }
        let id = match definitions.projection_record_at(index) {
            Some(SummaryDefinitionProjectionRecord::Channel { id, .. }) => id,
            _ => {
                index = index + 1;
                continue;
            },
        };
        let ghost scan = canonical_channel_scan(projections@, index, id);
        let ghost s1 = meter;
        let canonical = is_canonical_channel_record_metered(definitions, index, id, &mut meter);
        proof {
            steps::lemma_metered_then(
                start,
                Ok::<(), RemoteRos2InitializationError>(()),
                charged,
                Ok::<(), RemoteRos2InitializationError>(()),
                s1,
                Ok::<bool, RemoteRos2InitializationError>(scan.0),
                scan.1,
                canonical,
                meter,
            );
        }
        let canonical = match canonical {
            Ok(canonical) => canonical,
            Err(error) => {
                proof {
                    steps::lemma_metered_stop(
                        start,
                        Ok::<bool, RemoteRos2InitializationError>(scan.0),
                        charged + scan.1,
                        Err::<bool, RemoteRos2InitializationError>(error),
                        meter,
                        Ok::<(), RemoteRos2InitializationError>(()),
                        target,
                    );
                }
                return Err(error);
            },
        };
        proof {
            steps::lemma_metered_settle(
                start,
                Ok::<bool, RemoteRos2InitializationError>(scan.0),
                charged + scan.1,
                Ok::<bool, RemoteRos2InitializationError>(canonical),
                meter,
                Ok::<(), RemoteRos2InitializationError>(()),
            );
            charged = charged + scan.1;
        }
        if !canonical {
            index = index + 1;
            continue;
        }
        let channel = match definitions.channel_at_record(index) {
            Some(channel) => channel,
            None => {
                index = index + 1;
                continue;
            },
        };
        proof {
            if channel.schema_id != 0 {
                admission::lemma_canonical_channel_has_schema(records, index);
                admission::lemma_schema_projection_record(records, projections@, channel.schema_id);
            }
        }
        let ghost schema_scan = admission::channel_schema_scan(projections@, channel.schema_id);
        let ghost s2 = meter;
        let schema = admission::canonical_channel_schema_metered(
            definitions,
            channel.schema_id,
            &mut meter,
        );
        proof {
            steps::lemma_metered_then(
                start,
                Ok::<(), RemoteRos2InitializationError>(()),
                charged,
                Ok::<(), RemoteRos2InitializationError>(()),
                s2,
                Ok::<Option<usize>, RemoteRos2InitializationError>(schema_scan.0),
                schema_scan.1,
                schema,
                meter,
            );
        }
        let schema = match schema {
            Ok(schema) => schema,
            Err(error) => {
                proof {
                    steps::lemma_metered_stop(
                        start,
                        Ok::<Option<usize>, RemoteRos2InitializationError>(schema_scan.0),
                        charged + schema_scan.1,
                        Err::<Option<usize>, RemoteRos2InitializationError>(error),
                        meter,
                        Ok::<(), RemoteRos2InitializationError>(()),
                        target,
                    );
                }
                return Err(error);
            },
        };
        proof {
            steps::lemma_metered_settle(
                start,
                Ok::<Option<usize>, RemoteRos2InitializationError>(schema_scan.0),
                charged + schema_scan.1,
                Ok::<Option<usize>, RemoteRos2InitializationError>(schema),
                meter,
                Ok::<(), RemoteRos2InitializationError>(()),
            );
            charged = charged + schema_scan.1;
        }
        let encoding = channel.message_encoding.as_str().as_bytes();
        let ghost s3 = meter;
        let charged_encoding = meter.consume_bytes(encoding.len());
        proof {
            steps::lemma_metered_then(
                start,
                Ok::<(), RemoteRos2InitializationError>(()),
                charged,
                Ok::<(), RemoteRos2InitializationError>(()),
                s3,
                Ok::<(), RemoteRos2InitializationError>(()),
                encoding@.len(),
                charged_encoding,
                meter,
            );
        }
        if charged_encoding.is_err() {
            proof {
                steps::lemma_metered_stop(
                    start,
                    Ok::<(), RemoteRos2InitializationError>(()),
                    charged + encoding@.len(),
                    charged_encoding,
                    meter,
                    Ok::<(), RemoteRos2InitializationError>(()),
                    target,
                );
            }
            return Err(charged_encoding.unwrap_err());
        }
        proof {
            charged = charged + encoding@.len();
        }
        if eq_ignore_ascii_case(encoding, &[0x63u8, 0x64, 0x72]) {
            if let Some(schema_index) = schema {
                let schema = match definitions.schema_at_record(schema_index) {
                    Some(schema) => schema,
                    None => {
                        index = index + 1;
                        continue;
                    },
                };
                let schema_encoding = schema.encoding.as_str().as_bytes();
                let ghost s4 = meter;
                let charged_schema = meter.consume_bytes(schema_encoding.len());
                proof {
                    steps::lemma_metered_then(
                        start,
                        Ok::<(), RemoteRos2InitializationError>(()),
                        charged,
                        Ok::<(), RemoteRos2InitializationError>(()),
                        s4,
                        Ok::<(), RemoteRos2InitializationError>(()),
                        schema_encoding@.len(),
                        charged_schema,
                        meter,
                    );
                }
                if charged_schema.is_err() {
                    proof {
                        steps::lemma_metered_stop(
                            start,
                            Ok::<(), RemoteRos2InitializationError>(()),
                            charged + schema_encoding@.len(),
                            charged_schema,
                            meter,
                            Ok::<(), RemoteRos2InitializationError>(()),
                            target,
                        );
                    }
                    return Err(charged_schema.unwrap_err());
                }
                proof {
                    charged = charged + schema_encoding@.len();
                }
                let ghost s5 = meter;
                let charged_schemas = meter.consume_bytes(schema_count);
                proof {
                    steps::lemma_metered_then(
                        start,
                        Ok::<(), RemoteRos2InitializationError>(()),
                        charged,
                        Ok::<(), RemoteRos2InitializationError>(()),
                        s5,
                        Ok::<(), RemoteRos2InitializationError>(()),
                        schema_count as nat,
                        charged_schemas,
                        meter,
                    );
                }
                if charged_schemas.is_err() {
                    proof {
                        steps::lemma_metered_stop(
                            start,
                            Ok::<(), RemoteRos2InitializationError>(()),
                            charged + schema_count as nat,
                            charged_schemas,
                            meter,
                            Ok::<(), RemoteRos2InitializationError>(()),
                            target,
                        );
                    }
                    return Err(charged_schemas.unwrap_err());
                }
                proof {
                    charged = charged + schema_count as nat;
                }
            }
        }
        index = index + 1;
    }
    Ok(meter.consumed())
}


/// The Protobuf projection step bound of the definitions: `n^3 + n^2 + n` for `n` records.
pub fn remote_protobuf_projection_step_bound_v1(
    definitions: &ValidatedSummaryDefinitions<'_>,
    limits: &UnfrozenRemoteRos2LimitsV1,
) -> (bound: Result<u64, RemoteRos2InitializationError>)
    ensures
        bound == projection_step_bound(
            definitions.spec_records().len() as u64,
            limits.max_projection_steps,
        ),
{
    let record_count = definitions.source_record_count() as u64;
    checked_remote_protobuf_projection_step_bound_v1(record_count, limits.max_projection_steps)
}

/// No records.
pub open spec fn no_records() -> EmittedRecordsV1 {
    EmittedRecordsV1 {
        schemas: Seq::empty(),
        specifications: Seq::empty(),
        members: Seq::empty(),
        resolutions: Seq::empty(),
    }
}

/// The grammar census of the canonical ROS 2 schemas with its own step limit, the census steps
/// it used, and the exact arena peaks.
pub open spec fn census_pass(
    records: Seq<BoundedSummaryRecord>,
    projections: Seq<SummaryDefinitionProjectionRecord>,
    limits: UnfrozenRemoteRos2LimitsV1,
    frames: Seq<DependencyDfsFrameV1>,
) -> Result<RemoteRos2Census, RemoteRos2InitializationError> {
    let walked = census_walk(
        records,
        projections,
        0,
        limits,
        empty_census(),
        RemoteRos2ResourceLimit::CensusSteps,
        limits.max_census_steps as nat,
        frames,
    );
    match walked.0 {
        Err(error) => Err(error),
        Ok(census) => {
            let counted = RemoteRos2Census {
                census_steps: (limits.max_census_steps - walked.1) as u64,
                ..census
            };
            match arena_peak(counted, limits) {
                Err(error) => Err(error),
                Ok((retained, working)) => Ok(
                    RemoteRos2Census { retained_bytes: retained, working_bytes: working, ..counted },
                ),
            }
        },
    }
}

/// The dry materialization run: the four allocation steps, then the materialization walk with
/// the remaining materialization steps.
pub open spec fn dry_run(
    records: Seq<BoundedSummaryRecord>,
    projections: Seq<SummaryDefinitionProjectionRecord>,
    limits: UnfrozenRemoteRos2LimitsV1,
) -> (Result<(), RemoteRos2InitializationError>, nat, EmittedRecordsV1) {
    if limits.max_materialization_steps < 4 {
        (Err(steps::limit_error(RemoteRos2ResourceLimit::MaterializationSteps)), 0, no_records())
    } else {
        materialization_walk(
            records,
            projections,
            0,
            limits,
            RemoteRos2ResourceLimit::MaterializationSteps,
            no_records(),
            (limits.max_materialization_steps - 4) as nat,
        )
    }
}

/// The recognition steps of the definitions for `schema_count` admitted schemas.
pub open spec fn recognition_outcome(
    records: Seq<BoundedSummaryRecord>,
    projections: Seq<SummaryDefinitionProjectionRecord>,
    schema_count: u64,
    limits: UnfrozenRemoteRos2LimitsV1,
) -> Result<u64, RemoteRos2InitializationError> {
    if schema_count > usize::MAX {
        Err(steps::limit_error(RemoteRos2ResourceLimit::Arithmetic))
    } else {
        let cost = recognition_cost(records, projections, schema_count as nat, 0);
        if cost <= limits.max_recognition_steps {
            Ok(cost as u64)
        } else {
            Err(steps::limit_error(RemoteRos2ResourceLimit::RecognitionSteps))
        }
    }
}

/// The complete allocation-free preparation: the census with its exact materialization,
/// projection and recognition step counts, or the first failure.
pub open spec fn census_preparation(
    records: Seq<BoundedSummaryRecord>,
    projections: Seq<SummaryDefinitionProjectionRecord>,
    limits: UnfrozenRemoteRos2LimitsV1,
    frames: Seq<DependencyDfsFrameV1>,
) -> Result<RemoteRos2Census, RemoteRos2InitializationError> {
    match census_pass(records, projections, limits, frames) {
        Err(error) => Err(error),
        Ok(census) => if limits.max_materialization_steps > usize::MAX {
            Err(steps::limit_error(RemoteRos2ResourceLimit::Arithmetic))
        } else {
            let dry = dry_run(records, projections, limits);
            match dry.0 {
                Err(error) => Err(error),
                Ok(_) => if !counts_match(dry.2, census) {
                    Err(RemoteRos2InitializationError::InvalidRemoteSchema)
                } else {
                    let measured = RemoteRos2Census {
                        materialization_steps: (limits.max_materialization_steps - dry.1) as u64,
                        ..census
                    };
                    match projection_step_bound(records.len() as u64, limits.max_projection_steps) {
                        Err(error) => Err(error),
                        Ok(projection_steps) => match recognition_outcome(
                            records,
                            projections,
                            measured.schemas,
                            limits,
                        ) {
                            Err(error) => Err(error),
                            Ok(recognition_steps) => Ok(
                                RemoteRos2Census {
                                    projection_steps,
                                    recognition_steps,
                                    ..measured
                                },
                            ),
                        },
                    }
                },
            }
        },
    }
}

/// Runs the grammar census pass with its own step owner and computes the arena peaks.
pub fn run_census_pass(
    definitions: &ValidatedSummaryDefinitions<'_>,
    limits: &UnfrozenRemoteRos2LimitsV1,
    scratch: &mut RemoteRos2FixedScratchV1,
) -> (result: Result<RemoteRos2Census, RemoteRos2InitializationError>)
    ensures
        result == census_pass(
            definitions.spec_records(),
            definitions.spec_projections(),
            *limits,
            old(scratch).dependency_frames@,
        ),
{
    let mut census_steps = RemoteRos2StepOwnershipV1::with_limit(
        limits.max_census_steps,
        RemoteRos2ResourceLimit::CensusSteps,
    );
    let mut census = RemoteRos2Census::default();
    census_canonical_ros2_schemas(definitions, limits, &mut census, &mut census_steps, scratch)?;
    census.census_steps = census_steps.consumed();
    compute_arena_peak(&mut census, limits)?;
    Ok(census)
}

/// Runs the dry materialization into a counter and checks its counts against `census`: the
/// exact materialization steps, allocation steps included. Counts that differ from the census
/// refuse the schema as invalid. A step limit wider than a `usize`, the width of the counters, is
/// the arithmetic limit error.
pub fn run_dry_materialization(
    definitions: &ValidatedSummaryDefinitions<'_>,
    limits: &UnfrozenRemoteRos2LimitsV1,
    census: RemoteRos2Census,
) -> (result: Result<u64, RemoteRos2InitializationError>)
    ensures
        limits.max_materialization_steps > usize::MAX ==> result == Err::<
            u64,
            RemoteRos2InitializationError,
        >(steps::limit_error(RemoteRos2ResourceLimit::Arithmetic)),
        limits.max_materialization_steps <= usize::MAX ==> ({
            let dry = dry_run(definitions.spec_records(), definitions.spec_projections(), *limits);
            match dry.0 {
                Err(error) => result == Err::<u64, RemoteRos2InitializationError>(error),
                Ok(_) => if counts_match(dry.2, census) {
                    result == Ok::<u64, RemoteRos2InitializationError>(
                        (limits.max_materialization_steps - dry.1) as u64,
                    )
                } else {
                    result == Err::<u64, RemoteRos2InitializationError>(
                        RemoteRos2InitializationError::InvalidRemoteSchema,
                    )
                },
            }
        }),
{
    steps::checked_usize(limits.max_materialization_steps)?;
    let mut materialization_steps = RemoteRos2StepOwnershipV1::with_limit(
        limits.max_materialization_steps,
        RemoteRos2ResourceLimit::MaterializationSteps,
    );
    let allocated = consume_arena_allocation_steps(&mut materialization_steps);
    if allocated.is_err() {
        return Err(allocated.unwrap_err());
    }
    let mut counter = CountingMaterializationSink::new();
    proof {
        assert(counter.emitted() =~= no_records());
        lemma_materialization_walk_counts_fit(
            definitions.spec_records(),
            definitions.spec_projections(),
            *limits,
            RemoteRos2ResourceLimit::MaterializationSteps,
            materialization_steps.remaining_steps(),
        );
    }
    walk_remote_ros2_materialization(definitions, limits, &mut counter, &mut materialization_steps)?;
    counter.verify(census)?;
    Ok(materialization_steps.consumed())
}

/// Runs the allocation-free census and dry run of an admitted initializer, then reserves its
/// exact working and retained bytes.
pub fn prepare_remote_ros2_census_v1<'definitions, 'input, 'source, 'wire>(
    evidence: RemoteDecoderTopicSignatureEvidenceV1<'definitions, 'input, 'source, 'wire>,
    budget: &mut RemoteRos2BudgetState,
) -> (result: Result<
    PreparedRemoteRos2CensusV1<'definitions, 'input, 'source, 'wire>,
    RemoteRos2InitializationError,
>)
    requires
        !old(budget).poisoned,
        old(budget).limits == evidence.owner.limits,
    ensures
        final(budget).limits == old(budget).limits,
        final(budget).capacity == old(budget).capacity,
        final(budget).poisoned == old(budget).poisoned,
        final(budget).generation == old(budget).generation,
        !evidence.owner.source.spec_is_current() ==> (result matches Err(e) && e
            == RemoteRos2InitializationError::StaleSource && final(budget).usage == old(
            budget,
        ).usage),
        evidence.owner.source.spec_is_current() ==> match census_preparation(
            evidence.owner.source.definitions.spec_records(),
            evidence.owner.source.definitions.spec_projections(),
            evidence.owner.limits,
            evidence.owner.scratch.dependency_frames@,
        ) {
            Err(error) => result matches Err(e) && e == error && final(budget).usage == old(
                budget,
            ).usage,
            Ok(census) => match reserved_usage(
                old(budget).usage,
                old(budget).capacity,
                old(budget).limits,
                census.working_bytes,
                census.retained_bytes,
            ) {
                Err(error) => result matches Err(e) && e == error && final(budget).usage == old(
                    budget,
                ).usage,
                Ok(usage) => result matches Ok(prepared) && prepared.census == census
                    && prepared.evidence.owner.source == evidence.owner.source
                    && prepared.evidence.owner.policy == evidence.owner.policy
                    && prepared.evidence.owner.limits == evidence.owner.limits
                    && prepared.reservation == (RemoteRos2WorkReservation {
                    working_bytes: census.working_bytes,
                    retained_bytes: census.retained_bytes,
                }) && prepared.materialization_steps.remaining_steps()
                    == census.materialization_steps
                    && prepared.materialization_steps.consumed_steps() == 0
                    && prepared.materialization_steps.limit()
                    == RemoteRos2ResourceLimit::MaterializationSteps && final(budget).usage
                    == usage,
            },
        },
{
    let mut evidence = evidence;
    evidence.owner.ensure_current()?;
    let limits = evidence.owner.limits;
    let definitions = evidence.owner.source.definitions;
    let mut census = run_census_pass(definitions, &limits, &mut evidence.owner.scratch)?;
    census.materialization_steps = run_dry_materialization(definitions, &limits, census)?;
    census.projection_steps = remote_protobuf_projection_step_bound_v1(definitions, &limits)?;
    census.recognition_steps = measure_remote_ros2_recognition_steps_v1(
        definitions,
        census.schemas,
        &limits,
    )?;
    evidence.owner.ensure_current()?;
    let reservation = budget.reserve(census.working_bytes, census.retained_bytes)?;
    evidence.owner.ensure_current()?;
    let exact = census.materialization_steps;
    Ok(
        PreparedRemoteRos2CensusV1 {
            evidence,
            census,
            reservation,
            materialization_steps: RemoteRos2StepOwnershipV1::with_limit(
                exact,
                RemoteRos2ResourceLimit::MaterializationSteps,
            ),
        },
    )
}


/// The capacities that the census grants the four arenas.
pub open spec fn census_capacities(census: RemoteRos2Census) -> (nat, nat, nat, nat) {
    (
        census.schemas as nat,
        census.specifications as nat,
        census.members as nat,
        census.dependency_edges as nat,
    )
}

/// The materialization walk with the steps left after the four arena allocations.
pub open spec fn arena_walk(
    records: Seq<BoundedSummaryRecord>,
    projections: Seq<SummaryDefinitionProjectionRecord>,
    limits: UnfrozenRemoteRos2LimitsV1,
    budget: nat,
) -> (Result<(), RemoteRos2InitializationError>, nat, EmittedRecordsV1) {
    materialization_walk(
        records,
        projections,
        0,
        limits,
        RemoteRos2ResourceLimit::MaterializationSteps,
        no_records(),
        (budget - 4) as nat,
    )
}

/// Allocates the exact arenas of a prepared census and materializes every canonical ROS 2
/// schema into them with the exact step owner, then completes the working reservation. Before
/// the arenas are filled, a counting walk with the same steps checks that it fills them exactly
/// and spends every step; where it does not, the schema is refused as invalid. On every failure
/// the working reservation is returned to the budget.
pub fn materialize_remote_ros2_definitions_v1<'definitions, 'input, 'source, 'wire>(
    prepared: PreparedRemoteRos2CensusV1<'definitions, 'input, 'source, 'wire>,
    budget: &mut RemoteRos2BudgetState,
) -> (result: Result<
    Ros2InitializedRemoteDefinitionsV1<'definitions, 'input, 'source, 'wire>,
    RemoteRos2InitializationError,
>)
    requires
        prepared.materialization_steps.limit() == RemoteRos2ResourceLimit::MaterializationSteps,
        released_work_usage(
            old(budget).usage,
            prepared.reservation.working_bytes,
            prepared.reservation.retained_bytes,
        ) is Some,
    ensures
        final(budget).limits == old(budget).limits,
        final(budget).capacity == old(budget).capacity,
        final(budget).poisoned == old(budget).poisoned,
        final(budget).generation == old(budget).generation,
        ({
            let definitions = prepared.evidence.owner.source.definitions;
            let census = prepared.census;
            let budget_steps = prepared.materialization_steps.remaining_steps();
            let walk = arena_walk(
                definitions.spec_records(),
                definitions.spec_projections(),
                prepared.evidence.owner.limits,
                budget_steps,
            );
            match result {
                Ok(initialized) => {
                    &&& prepared.evidence.owner.source.spec_is_current()
                    &&& budget_steps >= 4
                    &&& walk.0 is Ok
                    &&& walk.1 == 0
                    &&& counts_match(walk.2, census)
                    &&& initialized.source == prepared.evidence.owner.source
                    &&& initialized.policy == prepared.evidence.owner.policy
                    &&& initialized.arenas.schemas.items() == walk.2.schemas
                    &&& initialized.arenas.specifications.items() == walk.2.specifications
                    &&& initialized.arenas.members.items() == walk.2.members
                    &&& initialized.arenas.resolutions.items() == walk.2.resolutions
                    &&& initialized.projection_steps == census.projection_steps
                    &&& initialized.recognition_steps == census.recognition_steps
                    &&& initialized.reservation == (RemoteRos2ResultReservation {
                        retained_bytes: prepared.reservation.retained_bytes,
                    })
                    &&& final(budget).usage == completed_usage(
                        old(budget).usage,
                        prepared.reservation.working_bytes,
                    )
                },
                Err(error) => {
                    &&& Some(final(budget).usage) == released_work_usage(
                        old(budget).usage,
                        prepared.reservation.working_bytes,
                        prepared.reservation.retained_bytes,
                    )
                    &&& if !prepared.evidence.owner.source.spec_is_current() {
                        error == RemoteRos2InitializationError::StaleSource
                    } else {
                        ||| error == RemoteRos2InitializationError::FallibleAllocationFailed
                        ||| (error == steps::limit_error(RemoteRos2ResourceLimit::MaterializationSteps)
                            && budget_steps < 4)
                        ||| (error == steps::limit_error(RemoteRos2ResourceLimit::Arithmetic) && (
                        census.schemas > usize::MAX || census.specifications > usize::MAX
                            || census.members > usize::MAX || census.dependency_edges
                            > usize::MAX))
                        ||| (budget_steps >= 4 && walk.0 == Err::<(), RemoteRos2InitializationError>(
                            error,
                        ))
                        ||| (error == steps::limit_error(RemoteRos2ResourceLimit::Arithmetic)
                            && budget_steps >= 4 && budget_steps - 4 > usize::MAX)
                        ||| (error == RemoteRos2InitializationError::InvalidRemoteSchema
                            && budget_steps >= 4 && walk.0 is Ok && !(counts_match(walk.2, census)
                            && walk.1 == 0))
                    }
                },
            }
        }),
{
    let PreparedRemoteRos2CensusV1 { evidence, census, reservation, materialization_steps } =
        prepared;
    let mut materialization_steps = materialization_steps;
    if let Err(error) = evidence.owner.ensure_current() {
        budget.release_work(reservation);
        return Err(error);
    }
    let limits = evidence.owner.limits;
    let arenas = match allocate_remote_ros2_arenas(census, &mut materialization_steps) {
        Ok(arenas) => arenas,
        Err(error) => {
            budget.release_work(reservation);
            return Err(error);
        },
    };
    let definitions = evidence.owner.source.definitions;
    let arenas = match fill_remote_ros2_arenas(
        definitions,
        &limits,
        census,
        arenas,
        materialization_steps,
    ) {
        Ok(arenas) => arenas,
        Err(error) => {
            budget.release_work(reservation);
            return Err(error);
        },
    };
    let RemoteDecoderTopicSignatureEvidenceV1 { owner } = evidence;
    let result_reservation = reservation.complete(budget);
    Ok(
        Ros2InitializedRemoteDefinitionsV1 {
            source: owner.source,
            policy: owner.policy,
            arenas,
            projection_steps: census.projection_steps,
            recognition_steps: census.recognition_steps,
            reservation: result_reservation,
        },
    )
}

/// Materializes every canonical ROS 2 schema into `arenas`, empty arenas claimed with exactly
/// the census capacities, with the exact step owner `steps`. A counting walk with the same steps
/// first checks that the walk fills the arenas exactly and spends every step; where it does not,
/// the schema is refused as invalid. A step owner wider than a `usize` is the arithmetic limit
/// error.
pub fn fill_remote_ros2_arenas(
    definitions: &ValidatedSummaryDefinitions<'_>,
    limits: &UnfrozenRemoteRos2LimitsV1,
    census: RemoteRos2Census,
    arenas: Ros2ArenaDirectoryV1,
    steps: RemoteRos2StepOwnershipV1,
) -> (result: Result<Ros2ArenaDirectoryV1, RemoteRos2InitializationError>)
    requires
        arenas.schemas.items().len() == 0,
        arenas.specifications.items().len() == 0,
        arenas.members.items().len() == 0,
        arenas.resolutions.items().len() == 0,
        arenas.schemas.spec_capacity() == census.schemas,
        arenas.specifications.spec_capacity() == census.specifications,
        arenas.members.spec_capacity() == census.members,
        arenas.resolutions.spec_capacity() == census.dependency_edges,
        steps.limit() == RemoteRos2ResourceLimit::MaterializationSteps,
    ensures
        steps.remaining_steps() > usize::MAX ==> result == Err::<
            Ros2ArenaDirectoryV1,
            RemoteRos2InitializationError,
        >(steps::limit_error(RemoteRos2ResourceLimit::Arithmetic)),
        steps.remaining_steps() <= usize::MAX ==> ({
            let walk = materialization_walk(
                definitions.spec_records(),
                definitions.spec_projections(),
                0,
                *limits,
                RemoteRos2ResourceLimit::MaterializationSteps,
                no_records(),
                steps.remaining_steps(),
            );
            match walk.0 {
                Err(error) => result == Err::<Ros2ArenaDirectoryV1, RemoteRos2InitializationError>(
                    error,
                ),
                Ok(()) => if counts_match(walk.2, census) && walk.1 == 0 {
                    &&& result matches Ok(filled)
                    &&& filled.schemas.items() == walk.2.schemas
                    &&& filled.specifications.items() == walk.2.specifications
                    &&& filled.members.items() == walk.2.members
                    &&& filled.resolutions.items() == walk.2.resolutions
                } else {
                    result == Err::<Ros2ArenaDirectoryV1, RemoteRos2InitializationError>(
                        RemoteRos2InitializationError::InvalidRemoteSchema,
                    )
                },
            }
        }),
{
    let mut arenas = arenas;
    let mut materialization_steps = steps;
    steps::checked_usize(materialization_steps.remaining())?;
    let mut probe = RemoteRos2StepOwnershipV1::with_limit(
        materialization_steps.remaining(),
        RemoteRos2ResourceLimit::MaterializationSteps,
    );
    let mut counter = CountingMaterializationSink::new();
    proof {
        assert(counter.emitted() =~= no_records());
        lemma_materialization_walk_counts_fit(
            definitions.spec_records(),
            definitions.spec_projections(),
            *limits,
            RemoteRos2ResourceLimit::MaterializationSteps,
            probe.remaining_steps(),
        );
    }
    walk_remote_ros2_materialization(definitions, limits, &mut counter, &mut probe)?;
    if counter.verify(census).is_err() || probe.remaining() != 0 {
        return Err(RemoteRos2InitializationError::InvalidRemoteSchema);
    }
    proof {
        lemma_directory_sink(&arenas);
        assert(arenas.schemas.items() =~= Seq::empty());
        assert(arenas.specifications.items() =~= Seq::empty());
        assert(arenas.members.items() =~= Seq::empty());
        assert(arenas.resolutions.items() =~= Seq::empty());
        assert(arenas.emitted() == no_records());
    }
    walk_remote_ros2_materialization(definitions, limits, &mut arenas, &mut materialization_steps)?;
    proof {
        lemma_directory_sink(&arenas);
    }
    materialization_steps.ensure_exhausted()?;
    Ok(arenas)
}

} // verus!
