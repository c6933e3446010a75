//! The hand-over from an admitted ROS 2 definition set to the later Protobuf projection and
//! Channel recognition stages: bounded views that revalidate the source generation on every
//! operation and never expose the raw Summary definitions.
use crate::remote_ros2_reflection::admission::{
    self, canonical_channel_scan, is_canonical_channel_record_metered, string_bytes,
};
use crate::remote_ros2_reflection::arenas::{
    ParsedSchemaV1, ParsedSpecificationV1, Ros2InitializedRemoteDefinitionsV1,
};
use crate::remote_ros2_reflection::steps::{
    self, RemoteRos2InitializationError, RemoteRos2ResourceLimit, RemoteRos2StepOwnershipV1,
};
use crate::remote_ros2_reflection::types::{self, SourceTextKind, SourceTextSpan};
use crate::remote_ros2_reflection::walk::{self, ascii_case_insensitive_eq, eq_ignore_ascii_case};
use crate::remote_summary::definitions::{
    self, channel_of, schema_of, SummaryDefinitionProjectionRecord, ValidatedSummaryDefinitions,
};
use crate::remote_summary::summary_records::{BoundedSummaryRecord, ParsedMcapRecordV1, SchemaRecordV1};
use vstd::prelude::*;

verus! {

/// The text that `span` names among the Summary records, if its Schema record exists and holds
/// it.
pub open spec fn record_span_text(records: Seq<BoundedSummaryRecord>, span: SourceTextSpan) -> Option<
    Seq<u8>,
> {
    let index = span.schema_record_index as int;
    match span.kind {
        SourceTextKind::SyntheticPadding => Some(types::synthetic_padding_name()),
        _ => if index >= records.len() || !(records[index] is Known && records[index]->Known_0 is Schema) {
            None
        } else {
            let schema = schema_of(records[index]);
            match span.kind {
                SourceTextKind::SchemaName => Some(string_bytes(schema.name)),
                _ => if span.start + span.len > schema.data@.len() {
                    None
                } else {
                    Some(schema.data@.subrange(span.start as int, span.start + span.len))
                },
            }
        },
    }
}

/// The text of `span` in the Summary records; `InvalidRemoteSchema` if its Schema record does
/// not hold it, which no admitted span does.
pub fn text_for_record_span<'a>(
    definitions: &'a ValidatedSummaryDefinitions<'_>,
    span: SourceTextSpan,
) -> (text: Result<&'a [u8], RemoteRos2InitializationError>)
    ensures
        match record_span_text(definitions.spec_records(), span) {
            Some(bytes) => text matches Ok(t) && t@ == bytes,
            None => text == Err::<&'a [u8], RemoteRos2InitializationError>(
                RemoteRos2InitializationError::InvalidRemoteSchema,
            ),
        },
{
    match span.kind {
        SourceTextKind::SyntheticPadding => {
            let name = "structure_needs_at_least_one_member";
            proof {
                reveal_strlit("structure_needs_at_least_one_member");
                vstd::string::is_ascii_spec_bytes(name);
            }
            let bytes = name.as_bytes();
            assert(bytes@ =~= types::synthetic_padding_name());
            Ok(bytes)
        },
        SourceTextKind::SchemaName => match definitions.schema_at_record(span.schema_record_index) {
            Some(schema) => Ok(schema.name.as_str().as_bytes()),
            None => Err(RemoteRos2InitializationError::InvalidRemoteSchema),
        },
        SourceTextKind::SchemaData => match definitions.schema_at_record(span.schema_record_index) {
            Some(schema) => {
                let data = schema.data.as_slice();
                let start = span.start as usize;
                let len = span.len as usize;
                if len > data.len() || start > data.len() - len {
                    return Err(RemoteRos2InitializationError::InvalidRemoteSchema);
                }
                let taken = &data[start..start + len];
                Ok(taken)
            },
            None => Err(RemoteRos2InitializationError::InvalidRemoteSchema),
        },
    }
}

/// The only hand-over from an admitted ROS 2 definition set to the Protobuf projection and the
/// Channel recognition, consumed by move.
pub struct RemoteRos2ToProtobufTransitionV1<'definitions, 'input, 'source, 'wire> {
    pub(crate) initialized: Ros2InitializedRemoteDefinitionsV1<'definitions, 'input, 'source, 'wire>,
}

impl<'definitions, 'input, 'source, 'wire> Ros2InitializedRemoteDefinitionsV1<
    'definitions,
    'input,
    'source,
    'wire,
> {
    pub fn into_protobuf_transition_v1(self) -> (result: Result<
        RemoteRos2ToProtobufTransitionV1<'definitions, 'input, 'source, 'wire>,
        RemoteRos2InitializationError,
    >)
        ensures
            self.source.spec_is_current() ==> (result matches Ok(transition)
                && transition.spec_initialized() == self),
            !self.source.spec_is_current() ==> (result matches Err(e) && e
                == RemoteRos2InitializationError::StaleSource),
    {
        self.source.ensure_current()?;
        Ok(RemoteRos2ToProtobufTransitionV1 { initialized: self })
    }
}

impl<'definitions, 'input, 'source, 'wire> RemoteRos2ToProtobufTransitionV1<
    'definitions,
    'input,
    'source,
    'wire,
> {
    pub closed spec fn spec_initialized(&self) -> Ros2InitializedRemoteDefinitionsV1<
        'definitions,
        'input,
        'source,
        'wire,
    > {
        self.initialized
    }

    pub open spec fn spec_is_current(&self) -> bool {
        self.spec_initialized().source.spec_is_current()
    }

    pub open spec fn spec_definitions(&self) -> &'definitions ValidatedSummaryDefinitions<'input> {
        self.spec_initialized().source.definitions
    }

    pub open spec fn spec_schemas(&self) -> Seq<ParsedSchemaV1> {
        self.spec_initialized().arenas.schemas.items()
    }

    pub open spec fn spec_specifications(&self) -> Seq<ParsedSpecificationV1> {
        self.spec_initialized().arenas.specifications.items()
    }

    pub fn ensure_current(&self) -> (result: Result<(), RemoteRos2InitializationError>)
        ensures
            self.spec_is_current() ==> result is Ok,
            !self.spec_is_current() ==> result == Err::<(), RemoteRos2InitializationError>(
                RemoteRos2InitializationError::StaleSource,
            ),
    {
        self.initialized.source.ensure_current()
    }

    /// The number of admitted ROS 2 schemas.
    pub fn ros2_schema_count(&self) -> (count: usize)
        ensures
            count == self.spec_schemas().len(),
    {
        self.initialized.arenas.schemas.len()
    }

    /// A bounded iterator over the admitted ROS 2 schemas.
    pub fn projection_iter_v1(&self) -> (result: Result<
        RemoteRos2ProjectionIterV1<'_, 'definitions, 'input, 'source, 'wire>,
        RemoteRos2InitializationError,
    >)
        ensures
            self.spec_is_current() ==> (result matches Ok(iter) && iter.spec_transition() == self
                && iter.spec_next_schema_index() == 0),
            !self.spec_is_current() ==> (result matches Err(e) && e
                == RemoteRos2InitializationError::StaleSource),
    {
        self.ensure_current()?;
        Ok(RemoteRos2ProjectionIterV1 { transition: self, next_schema_index: 0 })
    }
}

/// A bounded iterator over the admitted ROS 2 schemas of one transition.
pub struct RemoteRos2ProjectionIterV1<'borrow, 'definitions, 'input, 'source, 'wire> {
    transition: &'borrow RemoteRos2ToProtobufTransitionV1<'definitions, 'input, 'source, 'wire>,
    next_schema_index: usize,
}

impl<'borrow, 'definitions, 'input, 'source, 'wire> RemoteRos2ProjectionIterV1<
    'borrow,
    'definitions,
    'input,
    'source,
    'wire,
> {
    pub closed spec fn spec_transition(&self) -> &'borrow RemoteRos2ToProtobufTransitionV1<
        'definitions,
        'input,
        'source,
        'wire,
    > {
        self.transition
    }

    pub closed spec fn spec_next_schema_index(&self) -> usize {
        self.next_schema_index
    }

    /// The next admitted ROS 2 schema, in admission order.
    pub fn next_schema(&mut self) -> (result: Result<
        Option<RemoteRos2SchemaProjectionV1<'borrow, 'definitions, 'input, 'source, 'wire>>,
        RemoteRos2InitializationError,
    >)
        ensures
            final(self).spec_transition() == old(self).spec_transition(),
            !old(self).spec_transition().spec_is_current() ==> (result matches Err(e) && e
                == RemoteRos2InitializationError::StaleSource && *final(self) == *old(self)),
            old(self).spec_transition().spec_is_current() && old(self).spec_next_schema_index()
                >= old(self).spec_transition().spec_schemas().len() ==> (result matches Ok(None)
                && *final(self) == *old(self)),
            old(self).spec_transition().spec_is_current() && old(self).spec_next_schema_index()
                < old(self).spec_transition().spec_schemas().len() ==> (result matches Ok(
                Some(projection),
            ) && projection.spec_transition() == old(self).spec_transition()
                && projection.spec_schema_index() == old(self).spec_next_schema_index()
                && final(self).spec_next_schema_index() == old(self).spec_next_schema_index() + 1),
    {
        self.transition.ensure_current()?;
        if self.next_schema_index >= self.transition.ros2_schema_count() {
            return Ok(None);
        }
        let schema_index = self.next_schema_index;
        self.next_schema_index = self.next_schema_index + 1;
        Ok(Some(RemoteRos2SchemaProjectionV1 { transition: self.transition, schema_index }))
    }
}

/// One admitted ROS 2 schema of a transition.
pub struct RemoteRos2SchemaProjectionV1<'borrow, 'definitions, 'input, 'source, 'wire> {
    transition: &'borrow RemoteRos2ToProtobufTransitionV1<'definitions, 'input, 'source, 'wire>,
    schema_index: usize,
}

impl<'borrow, 'definitions, 'input, 'source, 'wire> RemoteRos2SchemaProjectionV1<
    'borrow,
    'definitions,
    'input,
    'source,
    'wire,
> {
    #[verifier::type_invariant]
    spec fn in_range(self) -> bool {
        self.schema_index < self.transition.spec_schemas().len()
    }

    pub closed spec fn spec_transition(&self) -> &'borrow RemoteRos2ToProtobufTransitionV1<
        'definitions,
        'input,
        'source,
        'wire,
    > {
        self.transition
    }

    pub closed spec fn spec_schema_index(&self) -> usize {
        self.schema_index
    }

    /// The schema record this projection views.
    pub open spec fn spec_schema(&self) -> ParsedSchemaV1 {
        self.spec_transition().spec_schemas()[self.spec_schema_index() as int]
    }

    pub fn schema_id(&self) -> (result: Result<u16, RemoteRos2InitializationError>)
        ensures
            self.spec_transition().spec_is_current() ==> result == Ok::<
                u16,
                RemoteRos2InitializationError,
            >(self.spec_schema().schema_id),
            !self.spec_transition().spec_is_current() ==> result == Err::<
                u16,
                RemoteRos2InitializationError,
            >(RemoteRos2InitializationError::StaleSource),
    {
        proof {
            use_type_invariant(self);
        }
        self.transition.ensure_current()?;
        let schema = self.transition.initialized.arenas.schemas.get(self.schema_index)?;
        Ok(schema.schema_id)
    }

    /// The number of specifications of the schema; a reversed range, which materialization
    /// never records, is an invalid schema.
    pub fn specification_count(&self) -> (result: Result<usize, RemoteRos2InitializationError>)
        ensures
            !self.spec_transition().spec_is_current() ==> result == Err::<
                usize,
                RemoteRos2InitializationError,
            >(RemoteRos2InitializationError::StaleSource),
            self.spec_transition().spec_is_current() ==> if self.spec_schema().specifications_start
                <= self.spec_schema().specifications_end {
                result == Ok::<usize, RemoteRos2InitializationError>(
                    (self.spec_schema().specifications_end
                        - self.spec_schema().specifications_start) as usize,
                )
            } else {
                result == Err::<usize, RemoteRos2InitializationError>(
                    RemoteRos2InitializationError::InvalidRemoteSchema,
                )
            },
    {
        proof {
            use_type_invariant(self);
        }
        self.transition.ensure_current()?;
        let schema = self.transition.initialized.arenas.schemas.get(self.schema_index)?;
        if schema.specifications_end < schema.specifications_start {
            return Err(RemoteRos2InitializationError::InvalidRemoteSchema);
        }
        Ok(schema.specifications_end - schema.specifications_start)
    }

    /// The name of the schema's specification `local_index`, from the Summary text it spans.
    pub fn specification_name(&self, local_index: usize) -> (result: Result<
        &'definitions [u8],
        RemoteRos2InitializationError,
    >)
        ensures
            !self.spec_transition().spec_is_current() ==> result == Err::<
                &'definitions [u8],
                RemoteRos2InitializationError,
            >(RemoteRos2InitializationError::StaleSource),
            self.spec_transition().spec_is_current() ==> ({
                let schema = self.spec_schema();
                let index = schema.specifications_start + local_index;
                if index > usize::MAX {
                    result == Err::<&'definitions [u8], RemoteRos2InitializationError>(
                        steps::limit_error(RemoteRos2ResourceLimit::Arithmetic),
                    )
                } else if index >= schema.specifications_end || index
                    >= self.spec_transition().spec_specifications().len() {
                    result == Err::<&'definitions [u8], RemoteRos2InitializationError>(
                        RemoteRos2InitializationError::InvalidRemoteSchema,
                    )
                } else {
                    match record_span_text(
                        self.spec_transition().spec_definitions().spec_records(),
                        self.spec_transition().spec_specifications()[index].name,
                    ) {
                        Some(bytes) => result matches Ok(text) && text@ == bytes,
                        None => result == Err::<&'definitions [u8], RemoteRos2InitializationError>(
                            RemoteRos2InitializationError::InvalidRemoteSchema,
                        ),
                    }
                }
            }),
    {
        proof {
            use_type_invariant(self);
        }
        self.transition.ensure_current()?;
        let schema = self.transition.initialized.arenas.schemas.get(self.schema_index)?;
        let index = match schema.specifications_start.checked_add(local_index) {
            Some(index) => index,
            None => {
                return Err(
                    RemoteRos2InitializationError::ResourceLimitExceeded(
                        RemoteRos2ResourceLimit::Arithmetic,
                    ),
                );
            },
        };
        if index >= schema.specifications_end || index
            >= self.transition.initialized.arenas.specifications.len() {
            return Err(RemoteRos2InitializationError::InvalidRemoteSchema);
        }
        let specification = self.transition.initialized.arenas.specifications.get(index)?;
        text_for_record_span(self.transition.initialized.source.definitions, specification.name)
    }
}


/// The schema encoding of Protobuf schemas, `protobuf`.
pub open spec fn protobuf_schema_encoding() -> Seq<u8> {
    seq![0x70u8, 0x72, 0x6f, 0x74, 0x6f, 0x62, 0x75, 0x66]
}

/// The projection steps of a scan over the records before `before` that stops at `found`.
pub open spec fn record_scan_cost(before: int, found: Option<int>) -> nat {
    match found {
        Some(index) => (index + 1) as nat,
        None => before as nat,
    }
}

/// Charges one Protobuf projection step from `remaining`.
pub fn consume_projection_step(remaining: &mut u64) -> (result: Result<(), RemoteRos2InitializationError>)
    ensures
        (result, *final(remaining) as nat) == steps::within_budget(
            *old(remaining) as nat,
            RemoteRos2ResourceLimit::ProjectionSteps,
            Ok(()),
            1,
        ),
{
    if *remaining == 0 {
        return Err(
            RemoteRos2InitializationError::ResourceLimitExceeded(
                RemoteRos2ResourceLimit::ProjectionSteps,
            ),
        );
    }
    *remaining = *remaining - 1;
    Ok(())
}

/// Whether no Schema record before `record_index` has id `id`, one projection step per
/// inspected record.
pub fn schema_record_is_first(
    definitions: &ValidatedSummaryDefinitions<'_>,
    id: u16,
    record_index: usize,
    remaining: &mut u64,
) -> (result: Result<bool, RemoteRos2InitializationError>)
    requires
        record_index <= definitions.spec_records().len(),
    ensures
        ({
            let found = definitions::first_schema_from(
                definitions.spec_records(),
                id,
                0,
                record_index as int,
            );
            (result, *final(remaining) as nat) == steps::within_budget(
                *old(remaining) as nat,
                RemoteRos2ResourceLimit::ProjectionSteps,
                Ok(found is None),
                record_scan_cost(record_index as int, found),
            )
        }),
{
    let ghost records = definitions.spec_records();
    let ghost start = *remaining as nat;
    let ghost found = definitions::first_schema_from(records, id, 0, record_index as int);
    let mut earlier: usize = 0;
    while earlier < record_index
        invariant
            earlier <= record_index <= records.len(),
            records == definitions.spec_records(),
            found == definitions::first_schema_from(records, id, 0, record_index as int),
            found == definitions::first_schema_from(records, id, earlier as int, record_index as int),
            start == *old(remaining) as nat,
            start == *remaining + earlier,
        decreases record_index - earlier,
    {
        proof {
            definitions::lemma_first_schema_found(records, id, earlier as int, record_index as int);
        }
        consume_projection_step(remaining)?;
        match definitions.projection_record_at(earlier) {
            Some(SummaryDefinitionProjectionRecord::Schema { id: earlier_id, .. }) => {
                if earlier_id == id {
                    return Ok(false);
                }
            },
            _ => {},
        }
        earlier = earlier + 1;
    }
    Ok(true)
}

/// Whether no Channel record before `record_index` has id `id`, one projection step per
/// inspected record.
pub fn channel_record_is_first(
    definitions: &ValidatedSummaryDefinitions<'_>,
    id: u16,
    record_index: usize,
    remaining: &mut u64,
) -> (result: Result<bool, RemoteRos2InitializationError>)
    requires
        record_index <= definitions.spec_records().len(),
    ensures
        ({
            let found = definitions::first_channel_from(
                definitions.spec_records(),
                id,
                0,
                record_index as int,
            );
            (result, *final(remaining) as nat) == steps::within_budget(
                *old(remaining) as nat,
                RemoteRos2ResourceLimit::ProjectionSteps,
                Ok(found is None),
                record_scan_cost(record_index as int, found),
            )
        }),
{
    let ghost records = definitions.spec_records();
    let ghost start = *remaining as nat;
    let ghost found = definitions::first_channel_from(records, id, 0, record_index as int);
    let mut earlier: usize = 0;
    while earlier < record_index
        invariant
            earlier <= record_index <= records.len(),
            records == definitions.spec_records(),
            found == definitions::first_channel_from(records, id, 0, record_index as int),
            found == definitions::first_channel_from(records, id, earlier as int, record_index as int),
            start == *old(remaining) as nat,
            start == *remaining + earlier,
        decreases record_index - earlier,
    {
        proof {
            definitions::lemma_first_channel_found(records, id, earlier as int, record_index as int);
        }
        consume_projection_step(remaining)?;
        match definitions.projection_record_at(earlier) {
            Some(SummaryDefinitionProjectionRecord::Channel { id: earlier_id, .. }) => {
                if earlier_id == id {
                    return Ok(false);
                }
            },
            _ => {},
        }
        earlier = earlier + 1;
    }
    Ok(true)
}


/// Whether a canonical Channel record of `records[index..]` references the Schema id
/// `schema_id`, and the projection steps charged until the scan finds one or ends.
pub open spec fn protobuf_observed_scan(
    records: Seq<BoundedSummaryRecord>,
    schema_id: u16,
    index: int,
) -> (bool, nat)
    decreases records.len() - index,
{
    if index < 0 || index >= records.len() {
        (false, 0)
    } else {
        let rest = protobuf_observed_scan(records, schema_id, index + 1);
        match definitions::projection_of(records[index], index) {
            Some(SummaryDefinitionProjectionRecord::Channel { id, .. }) => {
                let found = definitions::first_channel_from(records, id, 0, index);
                let cost = 1 + record_scan_cost(index, found);
                if found is None && channel_of(records[index]).schema_id == schema_id {
                    (true, cost)
                } else {
                    (rest.0, cost + rest.1)
                }
            },
            _ => (rest.0, 1 + rest.1),
        }
    }
}

/// Decides whether some canonical Channel record references the Schema id `schema_id`.
pub fn protobuf_schema_is_observed(
    definitions: &ValidatedSummaryDefinitions<'_>,
    schema_id: u16,
    remaining: &mut u64,
) -> (result: Result<bool, RemoteRos2InitializationError>)
    ensures
        ({
            let scan = protobuf_observed_scan(definitions.spec_records(), schema_id, 0);
            (result, *final(remaining) as nat) == steps::within_budget(
                *old(remaining) as nat,
                RemoteRos2ResourceLimit::ProjectionSteps,
                Ok(scan.0),
                scan.1,
            )
        }),
{
    let record_count = definitions.source_record_count();
    let ghost records = definitions.spec_records();
    let ghost start = *remaining as nat;
    let ghost target = protobuf_observed_scan(records, schema_id, 0);
    let ghost mut charged: nat = 0;
    let mut index: usize = 0;
    while index < record_count
        invariant
            index <= record_count == records.len(),
            records == definitions.spec_records(),
            start == *old(remaining) as nat,
            target == protobuf_observed_scan(records, schema_id, 0),
            target.0 == protobuf_observed_scan(records, schema_id, index as int).0,
            target.1 == charged + protobuf_observed_scan(records, schema_id, index as int).1,
            start == *remaining + charged,
        decreases record_count - index,
    {
        consume_projection_step(remaining)?;
        proof {
            charged = charged + 1;
        }
        let id = match definitions.projection_record_at(index) {
            Some(SummaryDefinitionProjectionRecord::Channel { id, .. }) => id,
            _ => {
                index = index + 1;
                continue;
            },
        };
        let ghost found = definitions::first_channel_from(records, id, 0, index as int);
        let first = channel_record_is_first(definitions, id, index, remaining);
        let first = match first {
            Ok(first) => first,
            Err(error) => {
                return Err(error);
            },
        };
        proof {
            charged = charged + record_scan_cost(index as int, found);
        }
        if first {
            let references = match definitions.channel_at_record(index) {
                Some(channel) => channel.schema_id == schema_id,
                None => false,
            };
            if references {
                return Ok(true);
            }
        }
        index = index + 1;
    }
    Ok(false)
}


/// The Protobuf projection scan from record `from` with `remaining` projection steps: the
/// record index of the next canonical Protobuf Schema that a canonical Channel references, the
/// next record index, the steps left, and whether the scan reached the end of the records.
pub open spec fn protobuf_projection_scan(
    records: Seq<BoundedSummaryRecord>,
    from: int,
    remaining: nat,
) -> (Result<Option<usize>, RemoteRos2InitializationError>, int, nat, bool)
    decreases records.len() - from,
{
    if from < 0 || from >= records.len() {
        (Ok(None), from, remaining, true)
    } else {
        let (stepped, after_step) = steps::within_budget(
            remaining,
            RemoteRos2ResourceLimit::ProjectionSteps,
            Ok(()),
            1,
        );
        match stepped {
            Err(error) => (Err(error), from, after_step, false),
            Ok(_) => {
                let next = from + 1;
                match definitions::projection_of(records[from], from) {
                    Some(SummaryDefinitionProjectionRecord::Schema { id, .. }) => {
                        let found = definitions::first_schema_from(records, id, 0, from);
                        let (canonical, after_canonical) = steps::within_budget(
                            after_step,
                            RemoteRos2ResourceLimit::ProjectionSteps,
                            Ok(found is None),
                            record_scan_cost(from, found),
                        );
                        match canonical {
                            Err(error) => (Err(error), next, after_canonical, false),
                            Ok(false) => protobuf_projection_scan(records, next, after_canonical),
                            Ok(true) => if string_bytes(schema_of(records[from]).encoding)
                                != protobuf_schema_encoding() {
                                protobuf_projection_scan(records, next, after_canonical)
                            } else {
                                let observed = protobuf_observed_scan(records, id, 0);
                                let (seen, after_observed) = steps::within_budget(
                                    after_canonical,
                                    RemoteRos2ResourceLimit::ProjectionSteps,
                                    Ok(observed.0),
                                    observed.1,
                                );
                                match seen {
                                    Err(error) => (Err(error), next, after_observed, false),
                                    Ok(true) => (Ok(Some(from as usize)), next, after_observed, false),
                                    Ok(false) => protobuf_projection_scan(
                                        records,
                                        next,
                                        after_observed,
                                    ),
                                }
                            },
                        }
                    },
                    _ => protobuf_projection_scan(records, next, after_step),
                }
            },
        }
    }
}

/// Whether record `at` is a canonical Protobuf Schema that a canonical Channel references: one
/// that the projection yields.
pub open spec fn projected_protobuf_schema(records: Seq<BoundedSummaryRecord>, at: int) -> bool {
    &&& 0 <= at < records.len()
    &&& definitions::projection_of(records[at], at) matches Some(
        SummaryDefinitionProjectionRecord::Schema { id, .. },
    )
    &&& definitions::first_schema_from(records, id, 0, at) is None
    &&& string_bytes(schema_of(records[at]).encoding) == protobuf_schema_encoding()
    &&& protobuf_observed_scan(records, id, 0).0
}

/// The first record from `from` on that the projection yields, if any.
pub open spec fn next_projected_protobuf_schema(records: Seq<BoundedSummaryRecord>, from: int) -> Option<
    int,
>
    decreases records.len() - from,
{
    if from < 0 || from >= records.len() {
        None
    } else if projected_protobuf_schema(records, from) {
        Some(from)
    } else {
        next_projected_protobuf_schema(records, from + 1)
    }
}

/// Wherever the projection scan does not run out of steps, it yields the next projected
/// Protobuf Schema from `from` on and continues after it, or reaches the end of the records:
/// successive calls yield each such Schema once, in record order, then the end.
pub proof fn lemma_protobuf_projection_scan_order(
    records: Seq<BoundedSummaryRecord>,
    from: int,
    remaining: nat,
)
    requires
        0 <= from <= records.len(),
    ensures
        ({
            let scan = protobuf_projection_scan(records, from, remaining);
            scan.0 is Ok ==> match next_projected_protobuf_schema(records, from) {
                Some(at) => scan.0 == Ok::<Option<usize>, RemoteRos2InitializationError>(
                    Some(at as usize),
                ) && scan.1 == at + 1 && !scan.3,
                None => scan.0 == Ok::<Option<usize>, RemoteRos2InitializationError>(None)
                    && scan.1 == records.len() && scan.3,
            }
        }),
    decreases records.len() - from,
{
    if from < records.len() {
        let (stepped, after_step) = steps::within_budget(
            remaining,
            RemoteRos2ResourceLimit::ProjectionSteps,
            Ok::<(), RemoteRos2InitializationError>(()),
            1,
        );
        if stepped is Ok {
            let next = from + 1;
            match definitions::projection_of(records[from], from) {
                Some(SummaryDefinitionProjectionRecord::Schema { id, .. }) => {
                    let found = definitions::first_schema_from(records, id, 0, from);
                    let (canonical, after_canonical) = steps::within_budget(
                        after_step,
                        RemoteRos2ResourceLimit::ProjectionSteps,
                        Ok::<bool, RemoteRos2InitializationError>(found is None),
                        record_scan_cost(from, found),
                    );
                    if canonical == Ok::<bool, RemoteRos2InitializationError>(false) {
                        lemma_protobuf_projection_scan_order(records, next, after_canonical);
                    } else if canonical == Ok::<bool, RemoteRos2InitializationError>(true) {
                        if string_bytes(schema_of(records[from]).encoding)
                            != protobuf_schema_encoding() {
                            lemma_protobuf_projection_scan_order(records, next, after_canonical);
                        } else {
                            let observed = protobuf_observed_scan(records, id, 0);
                            let (seen, after_observed) = steps::within_budget(
                                after_canonical,
                                RemoteRos2ResourceLimit::ProjectionSteps,
                                Ok::<bool, RemoteRos2InitializationError>(observed.0),
                                observed.1,
                            );
                            if seen == Ok::<bool, RemoteRos2InitializationError>(false) {
                                lemma_protobuf_projection_scan_order(records, next, after_observed);
                            }
                        }
                    }
                },
                _ => {
                    lemma_protobuf_projection_scan_order(records, next, after_step);
                },
            }
        }
    }
}

/// The one-shot owner of the Protobuf projection of a transition, with its fixed step bound.
pub struct RemoteProtobufProjectionOwnerV1<'definitions, 'input, 'source, 'wire> {
    transition: RemoteRos2ToProtobufTransitionV1<'definitions, 'input, 'source, 'wire>,
    next_record_index: usize,
    remaining_steps: u64,
    reached_eof: bool,
}

impl<'definitions, 'input, 'source, 'wire> RemoteRos2ToProtobufTransitionV1<
    'definitions,
    'input,
    'source,
    'wire,
> {
    /// Hands the transition to the Protobuf projection with the admitted projection steps.
    pub fn into_protobuf_projection_v1(self) -> (result: Result<
        RemoteProtobufProjectionOwnerV1<'definitions, 'input, 'source, 'wire>,
        RemoteRos2InitializationError,
    >)
        ensures
            self.spec_is_current() ==> (result matches Ok(owner) && owner.spec_transition() == self
                && owner.spec_next_record_index() == 0 && owner.spec_remaining_steps()
                == self.spec_initialized().projection_steps && !owner.spec_reached_eof()),
            !self.spec_is_current() ==> (result matches Err(e) && e
                == RemoteRos2InitializationError::StaleSource),
    {
        self.ensure_current()?;
        let remaining_steps = self.initialized.projection_steps;
        Ok(
            RemoteProtobufProjectionOwnerV1 {
                transition: self,
                next_record_index: 0,
                remaining_steps,
                reached_eof: false,
            },
        )
    }
}

impl<'definitions, 'input, 'source, 'wire> RemoteProtobufProjectionOwnerV1<
    'definitions,
    'input,
    'source,
    'wire,
> {
    pub closed spec fn spec_transition(&self) -> RemoteRos2ToProtobufTransitionV1<
        'definitions,
        'input,
        'source,
        'wire,
    > {
        self.transition
    }

    pub closed spec fn spec_next_record_index(&self) -> usize {
        self.next_record_index
    }

    pub closed spec fn spec_remaining_steps(&self) -> u64 {
        self.remaining_steps
    }

    pub closed spec fn spec_reached_eof(&self) -> bool {
        self.reached_eof
    }

    pub fn consume_step(&mut self) -> (result: Result<(), RemoteRos2InitializationError>)
        ensures
            final(self).spec_transition() == old(self).spec_transition(),
            final(self).spec_next_record_index() == old(self).spec_next_record_index(),
            final(self).spec_reached_eof() == old(self).spec_reached_eof(),
            (result, final(self).spec_remaining_steps() as nat) == steps::within_budget(
                old(self).spec_remaining_steps() as nat,
                RemoteRos2ResourceLimit::ProjectionSteps,
                Ok(()),
                1,
            ),
    {
        consume_projection_step(&mut self.remaining_steps)
    }

    /// The next canonical Protobuf Schema that a canonical Channel references, in record order;
    /// `None` once the records are exhausted.
    pub fn next_schema<'b>(&'b mut self) -> (result: Result<
        Option<RemoteProtobufSchemaProjectionV1<'b, 'definitions, 'input, 'source, 'wire>>,
        RemoteRos2InitializationError,
    >)
        ensures
            final(self).spec_transition() == old(self).spec_transition(),
            !old(self).spec_transition().spec_is_current() ==> (result matches Err(e) && e
                == RemoteRos2InitializationError::StaleSource && *final(self) == *old(self)),
            old(self).spec_transition().spec_is_current() ==> ({
                let scan = protobuf_projection_scan(
                    old(self).spec_transition().spec_definitions().spec_records(),
                    old(self).spec_next_record_index() as int,
                    old(self).spec_remaining_steps() as nat,
                );
                &&& final(self).spec_next_record_index() == scan.1
                &&& final(self).spec_remaining_steps() == scan.2
                &&& final(self).spec_reached_eof() == (old(self).spec_reached_eof() || scan.3)
                &&& match scan.0 {
                    Ok(Some(record_index)) => result matches Ok(Some(projection))
                        && projection.spec_schema_record_index() == record_index
                        && projection.spec_transition() == old(self).spec_transition(),
                    Ok(None) => result matches Ok(None),
                    Err(error) => result matches Err(e) && e == error,
                }
            }),
    {
        self.transition.ensure_current()?;
        let definitions = self.transition.initialized.source.definitions;
        let record_count = definitions.source_record_count();
        let ghost records = definitions.spec_records();
        let ghost target = protobuf_projection_scan(
            records,
            self.next_record_index as int,
            self.remaining_steps as nat,
        );
        let ghost initial = *self;
        while self.next_record_index < record_count
            invariant
                record_count == records.len(),
                records == self.transition.spec_definitions().spec_records(),
                definitions == self.transition.spec_definitions(),
                self.transition == initial.transition,
                self.reached_eof == initial.reached_eof,
                initial == *old(self),
                initial.transition.spec_is_current(),
                self.next_record_index == initial.next_record_index || self.next_record_index
                    <= record_count,
                target == protobuf_projection_scan(
                    records,
                    initial.next_record_index as int,
                    initial.remaining_steps as nat,
                ),
                target == protobuf_projection_scan(
                    records,
                    self.next_record_index as int,
                    self.remaining_steps as nat,
                ),
            decreases record_count - self.next_record_index,
        {
            self.consume_step()?;
            let record_index = self.next_record_index;
            self.next_record_index = self.next_record_index + 1;
            let id = match definitions.projection_record_at(record_index) {
                Some(SummaryDefinitionProjectionRecord::Schema { id, .. }) => id,
                _ => {
                    continue;
                },
            };
            let canonical = schema_record_is_first(
                definitions,
                id,
                record_index,
                &mut self.remaining_steps,
            )?;
            if !canonical {
                continue;
            }
            let schema = match definitions.schema_at_record(record_index) {
                Some(schema) => schema,
                None => {
                    continue;
                },
            };
            if !crate::remote_ros2_reflection::names::bytes_equal(
                schema.encoding.as_str().as_bytes(),
                &[0x70u8, 0x72, 0x6f, 0x74, 0x6f, 0x62, 0x75, 0x66],
            ) {
                continue;
            }
            let observed = protobuf_schema_is_observed(definitions, id, &mut self.remaining_steps)?;
            if observed {
                return Ok(
                    Some(
                        RemoteProtobufSchemaProjectionV1 {
                            transition: &self.transition,
                            schema_record_index: record_index,
                        },
                    ),
                );
            }
        }
        self.reached_eof = true;
        Ok(None)
    }
}

/// One canonical Protobuf Schema yielded by the projection owner.
pub struct RemoteProtobufSchemaProjectionV1<'borrow, 'definitions, 'input, 'source, 'wire> {
    transition: &'borrow RemoteRos2ToProtobufTransitionV1<'definitions, 'input, 'source, 'wire>,
    schema_record_index: usize,
}

impl<'borrow, 'definitions, 'input, 'source, 'wire> RemoteProtobufSchemaProjectionV1<
    'borrow,
    'definitions,
    'input,
    'source,
    'wire,
> {
    pub closed spec fn spec_transition(&self) -> RemoteRos2ToProtobufTransitionV1<
        'definitions,
        'input,
        'source,
        'wire,
    > {
        *self.transition
    }

    pub closed spec fn spec_schema_record_index(&self) -> usize {
        self.schema_record_index
    }

    #[verifier::type_invariant]
    spec fn names_schema_record(self) -> bool {
        let records = self.transition.spec_definitions().spec_records();
        &&& self.schema_record_index < records.len()
        &&& records[self.schema_record_index as int] is Known
        &&& records[self.schema_record_index as int]->Known_0 is Schema
    }

    /// The Schema record this projection views.
    pub open spec fn spec_schema(&self) -> SchemaRecordV1 {
        schema_of(
            self.spec_transition().spec_definitions().spec_records()[self.spec_schema_record_index() as int],
        )
    }

    fn schema(&self) -> (result: Result<&'borrow SchemaRecordV1, RemoteRos2InitializationError>)
        ensures
            self.spec_transition().spec_is_current() ==> (result matches Ok(schema) && *schema
                == self.spec_schema()),
            !self.spec_transition().spec_is_current() ==> result == Err::<
                &'borrow SchemaRecordV1,
                RemoteRos2InitializationError,
            >(RemoteRos2InitializationError::StaleSource),
    {
        proof {
            use_type_invariant(self);
        }
        self.transition.ensure_current()?;
        match self.transition.initialized.source.definitions.schema_at_record(self.schema_record_index) {
            Some(schema) => Ok(schema),
            None => Err(RemoteRos2InitializationError::InvalidRemoteSchema),
        }
    }

    pub fn schema_id(&self) -> (result: Result<u16, RemoteRos2InitializationError>)
        ensures
            self.spec_transition().spec_is_current() ==> result == Ok::<
                u16,
                RemoteRos2InitializationError,
            >(self.spec_schema().id),
            !self.spec_transition().spec_is_current() ==> result == Err::<
                u16,
                RemoteRos2InitializationError,
            >(RemoteRos2InitializationError::StaleSource),
    {
        Ok(self.schema()?.id)
    }

    pub fn name(&self) -> (result: Result<&'borrow str, RemoteRos2InitializationError>)
        ensures
            self.spec_transition().spec_is_current() ==> (result matches Ok(name) && name@
                == self.spec_schema().name@),
            !self.spec_transition().spec_is_current() ==> result == Err::<
                &'borrow str,
                RemoteRos2InitializationError,
            >(RemoteRos2InitializationError::StaleSource),
    {
        Ok(self.schema()?.name.as_str())
    }

    pub fn encoding(&self) -> (result: Result<&'borrow str, RemoteRos2InitializationError>)
        ensures
            self.spec_transition().spec_is_current() ==> (result matches Ok(encoding) && encoding@
                == self.spec_schema().encoding@),
            !self.spec_transition().spec_is_current() ==> result == Err::<
                &'borrow str,
                RemoteRos2InitializationError,
            >(RemoteRos2InitializationError::StaleSource),
    {
        Ok(self.schema()?.encoding.as_str())
    }

    pub fn data(&self) -> (result: Result<&'borrow [u8], RemoteRos2InitializationError>)
        ensures
            self.spec_transition().spec_is_current() ==> (result matches Ok(data) && data@
                == self.spec_schema().data@),
            !self.spec_transition().spec_is_current() ==> result == Err::<
                &'borrow [u8],
                RemoteRos2InitializationError,
            >(RemoteRos2InitializationError::StaleSource),
    {
        Ok(self.schema()?.data.as_slice())
    }
}


/// Move-only proof that the exact projection owner reached the end of the records; it holds
/// the one recognition step owner.
pub struct RemoteRos2ProjectionEofAuthorityV1<'definitions, 'input, 'source, 'wire> {
    transition: RemoteRos2ToProtobufTransitionV1<'definitions, 'input, 'source, 'wire>,
    recognition_steps: Option<RemoteRos2StepOwnershipV1>,
}

impl<'definitions, 'input, 'source, 'wire> RemoteProtobufProjectionOwnerV1<
    'definitions,
    'input,
    'source,
    'wire,
> {
    /// Finishes the projection once the owner reached the end of the records, handing out the
    /// admitted recognition steps.
    pub fn finish_eof_v1(self) -> (result: Result<
        RemoteRos2ProjectionEofAuthorityV1<'definitions, 'input, 'source, 'wire>,
        RemoteRos2InitializationError,
    >)
        requires
            self.spec_reached_eof(),
        ensures
            self.spec_transition().spec_is_current() ==> (result matches Ok(authority)
                && authority.spec_transition() == self.spec_transition() && (
            authority.spec_recognition_steps() matches Some(steps) && steps.remaining_steps()
                == self.spec_transition().spec_initialized().recognition_steps
                && steps.consumed_steps() == 0 && steps.limit()
                == RemoteRos2ResourceLimit::RecognitionSteps)),
            !self.spec_transition().spec_is_current() ==> (result matches Err(e) && e
                == RemoteRos2InitializationError::StaleSource),
    {
        self.transition.ensure_current()?;
        let recognition_steps = self.transition.initialized.recognition_steps;
        Ok(
            RemoteRos2ProjectionEofAuthorityV1 {
                transition: self.transition,
                recognition_steps: Some(
                    RemoteRos2StepOwnershipV1::with_limit(
                        recognition_steps,
                        RemoteRos2ResourceLimit::RecognitionSteps,
                    ),
                ),
            },
        )
    }
}

/// The index of the first canonical Channel record of `records[from..]`.
pub open spec fn next_canonical_channel(
    records: Seq<BoundedSummaryRecord>,
    projections: Seq<SummaryDefinitionProjectionRecord>,
    from: int,
) -> Option<int>
    decreases records.len() - from,
{
    if from < 0 || from >= records.len() {
        None
    } else {
        match definitions::projection_of(records[from], from) {
            Some(SummaryDefinitionProjectionRecord::Channel { id, .. }) => if canonical_channel_scan(
                projections,
                from as usize,
                id,
            ).0 {
                Some(from)
            } else {
                next_canonical_channel(records, projections, from + 1)
            },
            _ => next_canonical_channel(records, projections, from + 1),
        }
    }
}

/// Whether the canonical Channel record at `index` is decoded by ROS 2 reflection: a CDR
/// message encoding and a `ros2msg` Schema that was admitted.
pub open spec fn recognized_by_reflection(
    records: Seq<BoundedSummaryRecord>,
    projections: Seq<SummaryDefinitionProjectionRecord>,
    schemas: Seq<ParsedSchemaV1>,
    index: int,
) -> bool {
    let channel = channel_of(records[index]);
    let schema = admission::channel_schema_scan(projections, channel.schema_id).0;
    &&& ascii_case_insensitive_eq(string_bytes(channel.message_encoding), walk::cdr_encoding())
    &&& schema is Some
    &&& string_bytes(schema_of(records[schema->Some_0 as int]).encoding)
        == walk::ros2_schema_encoding()
    &&& exists|k: int|
        0 <= k < schemas.len() && (#[trigger] schemas[k]).schema_id == schema_of(
            records[schema->Some_0 as int],
        ).id
}

impl<'definitions, 'input, 'source, 'wire> RemoteRos2ProjectionEofAuthorityV1<
    'definitions,
    'input,
    'source,
    'wire,
> {
    pub closed spec fn spec_transition(&self) -> RemoteRos2ToProtobufTransitionV1<
        'definitions,
        'input,
        'source,
        'wire,
    > {
        self.transition
    }

    pub closed spec fn spec_recognition_steps(&self) -> Option<RemoteRos2StepOwnershipV1> {
        self.recognition_steps
    }

    pub fn ensure_current_for_test_v1(&self) -> (result: Result<(), RemoteRos2InitializationError>)
        ensures
            self.spec_transition().spec_is_current() ==> result is Ok,
            !self.spec_transition().spec_is_current() ==> result == Err::<
                (),
                RemoteRos2InitializationError,
            >(RemoteRos2InitializationError::StaleSource),
    {
        self.transition.ensure_current()
    }

    /// Takes the one recognition iterator of this authority, bound to its transition.
    pub fn take_bound_recognition_for_test_v1<'b>(&'b mut self) -> (result: Result<
        RemoteRos2RecognitionIterV1<'b, 'definitions, 'input, 'source, 'wire>,
        RemoteRos2InitializationError,
    >)
        ensures
            final(self).spec_transition() == old(self).spec_transition(),
            !old(self).spec_transition().spec_is_current() ==> (result matches Err(e) && e
                == RemoteRos2InitializationError::StaleSource && *final(self) == *old(self)),
            old(self).spec_transition().spec_is_current() ==> match old(
                self,
            ).spec_recognition_steps() {
                Some(steps) => result matches Ok(iter) && iter.spec_transition() == old(
                    self,
                ).spec_transition() && iter.spec_next_record_index() == 0 && iter.spec_steps()
                    == steps && final(self).spec_recognition_steps() is None,
                None => result matches Err(e) && e == steps::limit_error(
                    RemoteRos2ResourceLimit::RecognitionSteps,
                ) && *final(self) == *old(self),
            },
    {
        self.transition.ensure_current()?;
        let steps = match self.recognition_steps.take() {
            Some(steps) => steps,
            None => {
                return Err(
                    RemoteRos2InitializationError::ResourceLimitExceeded(
                        RemoteRos2ResourceLimit::RecognitionSteps,
                    ),
                );
            },
        };
        Ok(RemoteRos2RecognitionIterV1 { transition: &self.transition, next_record_index: 0, steps })
    }
}

/// The one-shot recognition of the canonical Channels of a transition.
pub struct RemoteRos2RecognitionIterV1<'borrow, 'definitions, 'input, 'source, 'wire> {
    transition: &'borrow RemoteRos2ToProtobufTransitionV1<'definitions, 'input, 'source, 'wire>,
    next_record_index: usize,
    steps: RemoteRos2StepOwnershipV1,
}

/// One recognized canonical Channel.
pub struct RemoteRos2ChannelRecognitionV1<'borrow, 'definitions, 'input, 'source, 'wire> {
    transition: &'borrow RemoteRos2ToProtobufTransitionV1<'definitions, 'input, 'source, 'wire>,
    channel_record_index: usize,
    recognized_by_reflection: bool,
}

impl<'borrow, 'definitions, 'input, 'source, 'wire> RemoteRos2RecognitionIterV1<
    'borrow,
    'definitions,
    'input,
    'source,
    'wire,
> {
    pub closed spec fn spec_transition(&self) -> RemoteRos2ToProtobufTransitionV1<
        'definitions,
        'input,
        'source,
        'wire,
    > {
        *self.transition
    }

    pub closed spec fn spec_next_record_index(&self) -> usize {
        self.next_record_index
    }

    pub closed spec fn spec_steps(&self) -> RemoteRos2StepOwnershipV1 {
        self.steps
    }

    /// The recognition steps left are exactly those that the remaining records cost.
    pub open spec fn spec_steps_exact(&self) -> bool {
        let definitions = self.spec_transition().spec_definitions();
        &&& self.spec_next_record_index() <= definitions.spec_records().len()
        &&& self.spec_steps().remaining_steps() == walk::recognition_cost(
            definitions.spec_records(),
            definitions.spec_projections(),
            self.spec_transition().spec_schemas().len(),
            self.spec_next_record_index() as int,
        )
    }

    /// The next canonical Channel in record order and whether ROS 2 reflection decodes it;
    /// `None` once the records are exhausted, with every recognition step spent.
    pub fn next_channel(&mut self) -> (result: Result<
        Option<RemoteRos2ChannelRecognitionV1<'borrow, 'definitions, 'input, 'source, 'wire>>,
        RemoteRos2InitializationError,
    >)
        requires
            old(self).spec_steps_exact(),
        ensures
            final(self).spec_transition() == old(self).spec_transition(),
            final(self).spec_steps_exact(),
            !old(self).spec_transition().spec_is_current() ==> (result matches Err(e) && e
                == RemoteRos2InitializationError::StaleSource && *final(self) == *old(self)),
            old(self).spec_transition().spec_is_current() ==> ({
                let definitions = old(self).spec_transition().spec_definitions();
                let records = definitions.spec_records();
                let projections = definitions.spec_projections();
                match next_canonical_channel(
                    records,
                    projections,
                    old(self).spec_next_record_index() as int,
                ) {
                    Some(index) => result matches Ok(Some(recognition))
                        && recognition.spec_transition() == old(self).spec_transition()
                        && recognition.spec_channel_record_index() == index
                        && recognition.spec_recognized_by_reflection() == recognized_by_reflection(
                        records,
                        projections,
                        old(self).spec_transition().spec_schemas(),
                        index,
                    ) && final(self).spec_next_record_index() == index + 1,
                    None => result matches Ok(None) && final(self).spec_next_record_index()
                        == records.len(),
                }
            }),
    {
        self.transition.ensure_current()?;
        let definitions = self.transition.initialized.source.definitions;
        let projections = definitions.projection_records();
        let record_count = definitions.source_record_count();
        let schemas = self.transition.initialized.arenas.schemas.as_slice();
        let ghost records = definitions.spec_records();
        let ghost initial = *self;
        proof {
            definitions::lemma_projections_match(records, records.len() as int);
        }
        while self.next_record_index < record_count
            invariant
                record_count == records.len(),
                records == definitions.spec_records(),
                projections@ == definitions.spec_projections(),
                records.len() <= usize::MAX,
                definitions::summary_definitions_check(records) is Ok,
                projections@ == definitions::projections_upto(records, records.len() as int),
                definitions == self.transition.spec_definitions(),
                schemas@ == self.transition.spec_schemas(),
                self.transition == initial.transition,
                initial == *old(self),
                initial.spec_transition().spec_is_current(),
                self.next_record_index <= record_count,
                self.steps.remaining_steps() == walk::recognition_cost(
                    records,
                    projections@,
                    schemas@.len(),
                    self.next_record_index as int,
                ),
                next_canonical_channel(records, projections@, initial.next_record_index as int)
                    == next_canonical_channel(records, projections@, self.next_record_index as int),
            decreases record_count - self.next_record_index,
        {
            let record_index = self.next_record_index;
            let stepped = self.steps.consume();
            self.next_record_index = self.next_record_index + 1;
            let id = match definitions.projection_record_at(record_index) {
                Some(SummaryDefinitionProjectionRecord::Channel { id, .. }) => id,
                _ => {
                    continue;
                },
            };
            let canonical = is_canonical_channel_record_metered(
                definitions,
                record_index,
                id,
                &mut self.steps,
            );
            let canonical = match canonical {
                Ok(canonical) => canonical,
                Err(error) => {
                    return Err(error);
                },
            };
            if !canonical {
                continue;
            }
            let channel = match definitions.channel_at_record(record_index) {
                Some(channel) => channel,
                None => {
                    continue;
                },
            };
            proof {
                if channel.schema_id != 0 {
                    admission::lemma_canonical_channel_has_schema(records, record_index);
                    admission::lemma_schema_projection_record(
                        records,
                        projections@,
                        channel.schema_id,
                    );
                }
            }
            let schema = admission::canonical_channel_schema_metered(
                definitions,
                channel.schema_id,
                &mut self.steps,
            )?;
            let encoding = channel.message_encoding.as_str().as_bytes();
            self.steps.consume_bytes(encoding.len())?;
            let recognized = if !eq_ignore_ascii_case(encoding, &[0x63u8, 0x64, 0x72]) {
                false
            } else {
                match schema {
                    Some(schema_index) => {
                        let schema = match definitions.schema_at_record(schema_index) {
                            Some(schema) => schema,
                            None => {
                                continue;
                            },
                        };
                        let schema_encoding = schema.encoding.as_str().as_bytes();
                        self.steps.consume_bytes(schema_encoding.len())?;
                        self.steps.consume_bytes(schemas.len())?;
                        let mut admitted = false;
                        let mut k: usize = 0;
                        while k < schemas.len()
                            invariant
                                k <= schemas@.len(),
                                admitted == exists|j: int|
                                    0 <= j < k && (#[trigger] schemas@[j]).schema_id == schema.id,
                            decreases schemas@.len() - k,
                        {
                            if schemas[k].schema_id == schema.id {
                                admitted = true;
                            }
                            k = k + 1;
                        }
                        crate::remote_ros2_reflection::names::bytes_equal(
                            schema_encoding,
                            &[0x72u8, 0x6f, 0x73, 0x32, 0x6d, 0x73, 0x67],
                        ) && admitted
                    },
                    None => false,
                }
            };
            return Ok(
                Some(
                    RemoteRos2ChannelRecognitionV1 {
                        transition: self.transition,
                        channel_record_index: record_index,
                        recognized_by_reflection: recognized,
                    },
                ),
            );
        }
        self.steps.ensure_exhausted()?;
        Ok(None)
    }
}

impl<'borrow, 'definitions, 'input, 'source, 'wire> RemoteRos2ChannelRecognitionV1<
    'borrow,
    'definitions,
    'input,
    'source,
    'wire,
> {
    pub closed spec fn spec_transition(&self) -> RemoteRos2ToProtobufTransitionV1<
        'definitions,
        'input,
        'source,
        'wire,
    > {
        *self.transition
    }

    pub closed spec fn spec_channel_record_index(&self) -> usize {
        self.channel_record_index
    }

    pub closed spec fn spec_recognized_by_reflection(&self) -> bool {
        self.recognized_by_reflection
    }

    #[verifier::type_invariant]
    spec fn names_channel_record(self) -> bool {
        let records = self.transition.spec_definitions().spec_records();
        &&& self.channel_record_index < records.len()
        &&& records[self.channel_record_index as int] is Known
        &&& records[self.channel_record_index as int]->Known_0 is Channel
    }

    pub fn channel_id(&self) -> (result: Result<u16, RemoteRos2InitializationError>)
        ensures
            self.spec_transition().spec_is_current() ==> result == Ok::<
                u16,
                RemoteRos2InitializationError,
            >(
                channel_of(
                    self.spec_transition().spec_definitions().spec_records()[self.spec_channel_record_index() as int],
                ).id,
            ),
            !self.spec_transition().spec_is_current() ==> result == Err::<
                u16,
                RemoteRos2InitializationError,
            >(RemoteRos2InitializationError::StaleSource),
    {
        proof {
            use_type_invariant(self);
        }
        self.transition.ensure_current()?;
        match self.transition.initialized.source.definitions.projection_record_at(
            self.channel_record_index,
        ) {
            Some(SummaryDefinitionProjectionRecord::Channel { id, .. }) => Ok(id),
            _ => Err(RemoteRos2InitializationError::InvalidRemoteSchema),
        }
    }

    pub fn recognized_by_reflection(&self) -> (result: Result<bool, RemoteRos2InitializationError>)
        ensures
            self.spec_transition().spec_is_current() ==> result == Ok::<
                bool,
                RemoteRos2InitializationError,
            >(self.spec_recognized_by_reflection()),
            !self.spec_transition().spec_is_current() ==> result == Err::<
                bool,
                RemoteRos2InitializationError,
            >(RemoteRos2InitializationError::StaleSource),
    {
        self.transition.ensure_current()?;
        Ok(self.recognized_by_reflection)
    }
}

} // verus!
