//! Admission of one remote ROS 2 initializer: the source generation it is bound to, the
//! metered scans over the Summary definitions, and the topic decoder-signature preflight.
use crate::remote_ros2_reflection::budget::RemoteRos2BudgetState;
use crate::remote_ros2_reflection::dependencies::RemoteRos2FixedScratchV1;
use crate::remote_ros2_reflection::policy::FrozenRemoteDecoderPolicyV1;
use crate::remote_ros2_reflection::steps::{
    self, RemoteRos2InitializationError, RemoteRos2ResourceLimit, RemoteRos2StepOwnershipV1,
};
use crate::remote_ros2_reflection::types::UnfrozenRemoteRos2LimitsV1;
use crate::remote_summary::definitions::{
    self, channel_of, schema_of, SummaryDefinitionProjectionRecord, ValidatedSummaryDefinitions,
};
use crate::remote_summary::summary_records::{
    BoundedSummaryRecord, ChannelRecordV1, ParsedMcapRecordV1, SchemaRecordV1,
};
use vstd::prelude::*;

verus! {

/// The live generation of the remote source whose Summary definitions are admitted, with the
/// identity of the source and of the viewer scope that owns it.
pub struct RemoteDefinitionsSourceState {
    pub generation: u64,
    pub identity: u64,
    pub viewer_scope: u64,
}

impl RemoteDefinitionsSourceState {
    pub fn is_current(&self, generation: u64) -> (current: bool)
        ensures
            current == (self.generation == generation),
    {
        self.generation == generation
    }
}

/// Validated Summary definitions tied to the source generation they were read from.
pub struct RemoteDefinitionsCapability<'definitions, 'input, 'source> {
    pub definitions: &'definitions ValidatedSummaryDefinitions<'input>,
    pub source: &'source RemoteDefinitionsSourceState,
    pub generation: u64,
}

impl RemoteDefinitionsCapability<'_, '_, '_> {
    pub open spec fn spec_is_current(&self) -> bool {
        self.source.generation == self.generation
    }

    /// Fails with `StaleSource` once the source moved to another generation.
    pub fn ensure_current(&self) -> (result: Result<(), RemoteRos2InitializationError>)
        ensures
            self.spec_is_current() ==> result is Ok,
            !self.spec_is_current() ==> result == Err::<(), RemoteRos2InitializationError>(
                RemoteRos2InitializationError::StaleSource,
            ),
    {
        if self.source.is_current(self.generation) {
            Ok(())
        } else {
            Err(RemoteRos2InitializationError::StaleSource)
        }
    }
}

/// The index of the first projection of `projections[k..]` that is a Channel with id `id`
/// from a record before `record_index`.
pub open spec fn earlier_channel_from(
    projections: Seq<SummaryDefinitionProjectionRecord>,
    id: u16,
    record_index: usize,
    k: int,
) -> Option<int>
    decreases projections.len() - k,
{
    if k < 0 || k >= projections.len() {
        None
    } else if projections[k] matches SummaryDefinitionProjectionRecord::Channel {
        id: found,
        record_index: earlier,
    } && found == id && earlier < record_index {
        Some(k)
    } else {
        earlier_channel_from(projections, id, record_index, k + 1)
    }
}

/// The index of the first projection of `projections[k..]` that is a Schema with id `id` from
/// a record before `record_index`.
pub open spec fn earlier_schema_from(
    projections: Seq<SummaryDefinitionProjectionRecord>,
    id: u16,
    record_index: usize,
    k: int,
) -> Option<int>
    decreases projections.len() - k,
{
    if k < 0 || k >= projections.len() {
        None
    } else if projections[k] matches SummaryDefinitionProjectionRecord::Schema {
        id: found,
        record_index: earlier,
    } && found == id && earlier < record_index {
        Some(k)
    } else {
        earlier_schema_from(projections, id, record_index, k + 1)
    }
}

pub proof fn lemma_earlier_channel_bounds(
    projections: Seq<SummaryDefinitionProjectionRecord>,
    id: u16,
    record_index: usize,
    k: int,
)
    requires
        0 <= k,
    ensures
        earlier_channel_from(projections, id, record_index, k) matches Some(found) ==> k <= found
            < projections.len(),
    decreases projections.len() - k,
{
    if k < projections.len() {
        lemma_earlier_channel_bounds(projections, id, record_index, k + 1);
    }
}

pub proof fn lemma_earlier_schema_bounds(
    projections: Seq<SummaryDefinitionProjectionRecord>,
    id: u16,
    record_index: usize,
    k: int,
)
    requires
        0 <= k,
    ensures
        earlier_schema_from(projections, id, record_index, k) matches Some(found) ==> k <= found
            < projections.len(),
    decreases projections.len() - k,
{
    if k < projections.len() {
        lemma_earlier_schema_bounds(projections, id, record_index, k + 1);
    }
}

/// The steps of a scan that charges one step per inspected projection and stops at `found`.
pub open spec fn scan_cost(len: nat, found: Option<int>) -> nat {
    match found {
        Some(index) => (index + 1) as nat,
        None => len,
    }
}

/// Whether the Channel record at `record_index` is canonical, and the steps to decide it.
pub open spec fn canonical_channel_scan(
    projections: Seq<SummaryDefinitionProjectionRecord>,
    record_index: usize,
    id: u16,
) -> (bool, nat) {
    let found = earlier_channel_from(projections, id, record_index, 0);
    (found is None, scan_cost(projections.len(), found))
}

/// Whether the Schema record at `record_index` is canonical, and the steps to decide it.
pub open spec fn canonical_schema_scan(
    projections: Seq<SummaryDefinitionProjectionRecord>,
    record_index: usize,
    id: u16,
) -> (bool, nat) {
    let found = earlier_schema_from(projections, id, record_index, 0);
    (found is None, scan_cost(projections.len(), found))
}

/// Decides whether the Channel record at `record_index` is the first with id `channel_id`,
/// one step per inspected projection.
pub fn is_canonical_channel_record_metered(
    definitions: &ValidatedSummaryDefinitions<'_>,
    record_index: usize,
    channel_id: u16,
    meter: &mut RemoteRos2StepOwnershipV1,
) -> (result: Result<bool, RemoteRos2InitializationError>)
    ensures
        steps::metered(
            *old(meter),
            Ok(canonical_channel_scan(definitions.spec_projections(), record_index, channel_id).0),
            canonical_channel_scan(definitions.spec_projections(), record_index, channel_id).1,
            result,
            *final(meter),
        ),
{
    let projections = definitions.projection_records();
    let ghost start = *meter;
    let ghost target = canonical_channel_scan(projections@, record_index, channel_id);
    proof {
        steps::lemma_metered_pure(start, Ok::<(), RemoteRos2InitializationError>(()));
    }
    let mut k: usize = 0;
    while k < projections.len()
        invariant
            k <= projections@.len(),
            projections@ == definitions.spec_projections(),
            start == *old(meter),
            target == canonical_channel_scan(projections@, record_index, channel_id),
            earlier_channel_from(projections@, channel_id, record_index, 0)
                == earlier_channel_from(projections@, channel_id, record_index, k as int),
            steps::metered(start, Ok(()), k as nat, Ok(()), *meter),
        decreases projections@.len() - k,
    {
        let ghost before = *meter;
        let stepped = meter.consume();
        if stepped.is_err() {
            proof {
                lemma_earlier_channel_bounds(projections@, channel_id, record_index, k as int);
                steps::lemma_charge_stop(
                    start,
                    k as nat,
                    before,
                    stepped,
                    *meter,
                    Ok::<bool, RemoteRos2InitializationError>(target.0),
                    target.1,
                );
            }
            return Err(stepped.unwrap_err());
        }
        proof {
            steps::lemma_charge_ok(start, k as nat, before, stepped, *meter);
        }
        match projections[k] {
            SummaryDefinitionProjectionRecord::Channel { id, record_index: earlier } => {
                if id == channel_id && earlier < record_index {
                    return Ok(false);
                }
            },
            _ => {},
        }
        k = k + 1;
    }
    Ok(true)
}

/// Decides whether the Schema record at `record_index` is the first with id `schema_id`, one
/// step per inspected projection.
pub fn is_canonical_schema_record_metered(
    definitions: &ValidatedSummaryDefinitions<'_>,
    record_index: usize,
    schema_id: u16,
    meter: &mut RemoteRos2StepOwnershipV1,
) -> (result: Result<bool, RemoteRos2InitializationError>)
    ensures
        steps::metered(
            *old(meter),
            Ok(canonical_schema_scan(definitions.spec_projections(), record_index, schema_id).0),
            canonical_schema_scan(definitions.spec_projections(), record_index, schema_id).1,
            result,
            *final(meter),
        ),
{
    let projections = definitions.projection_records();
    let ghost start = *meter;
    let ghost target = canonical_schema_scan(projections@, record_index, schema_id);
    proof {
        steps::lemma_metered_pure(start, Ok::<(), RemoteRos2InitializationError>(()));
    }
    let mut k: usize = 0;
    while k < projections.len()
        invariant
            k <= projections@.len(),
            projections@ == definitions.spec_projections(),
            start == *old(meter),
            target == canonical_schema_scan(projections@, record_index, schema_id),
            earlier_schema_from(projections@, schema_id, record_index, 0) == earlier_schema_from(
                projections@,
                schema_id,
                record_index,
                k as int,
            ),
            steps::metered(start, Ok(()), k as nat, Ok(()), *meter),
        decreases projections@.len() - k,
    {
        let ghost before = *meter;
        let stepped = meter.consume();
        if stepped.is_err() {
            proof {
                lemma_earlier_schema_bounds(projections@, schema_id, record_index, k as int);
                steps::lemma_charge_stop(
                    start,
                    k as nat,
                    before,
                    stepped,
                    *meter,
                    Ok::<bool, RemoteRos2InitializationError>(target.0),
                    target.1,
                );
            }
            return Err(stepped.unwrap_err());
        }
        proof {
            steps::lemma_charge_ok(start, k as nat, before, stepped, *meter);
        }
        match projections[k] {
            SummaryDefinitionProjectionRecord::Schema { id, record_index: earlier } => {
                if id == schema_id && earlier < record_index {
                    return Ok(false);
                }
            },
            _ => {},
        }
        k = k + 1;
    }
    Ok(true)
}


/// The UTF-8 bytes of a `String`.
pub open spec fn string_bytes(text: String) -> Seq<u8> {
    vstd::utf8::encode_utf8(text@)
}

/// Compares two byte strings after charging one step per byte of each.
pub fn metered_bytes_eq(
    left: &[u8],
    right: &[u8],
    meter: &mut RemoteRos2StepOwnershipV1,
) -> (result: Result<bool, RemoteRos2InitializationError>)
    ensures
        steps::metered(
            *old(meter),
            Ok(left@ == right@),
            left@.len() + right@.len(),
            result,
            *final(meter),
        ),
{
    let ghost start = *meter;
    let charged = meter.consume_bytes(left.len());
    if charged.is_err() {
        proof {
            steps::lemma_metered_stop(
                start,
                Ok::<(), RemoteRos2InitializationError>(()),
                left@.len(),
                charged,
                *meter,
                Ok::<bool, RemoteRos2InitializationError>(left@ == right@),
                left@.len() + right@.len(),
            );
        }
        return Err(charged.unwrap_err());
    }
    let ghost middle = *meter;
    let charged_right = meter.consume_bytes(right.len());
    let equal = crate::remote_ros2_reflection::names::bytes_equal(left, right);
    proof {
        steps::lemma_metered_then(
            start,
            Ok::<(), RemoteRos2InitializationError>(()),
            left@.len(),
            charged,
            middle,
            Ok::<bool, RemoteRos2InitializationError>(left@ == right@),
            right@.len(),
            match charged_right {
                Ok(_) => Ok::<bool, RemoteRos2InitializationError>(equal),
                Err(error) => Err(error),
            },
            *meter,
        );
    }
    match charged_right {
        Ok(_) => Ok(equal),
        Err(error) => Err(error),
    }
}

/// Compares the UTF-8 bytes of two strings after charging one step per byte of each.
pub fn metered_str_eq(left: &str, right: &str, meter: &mut RemoteRos2StepOwnershipV1) -> (result:
    Result<bool, RemoteRos2InitializationError>)
    ensures
        steps::metered(
            *old(meter),
            Ok(left@ == right@),
            crate::remote_ros2_reflection::policy::str_bytes(left).len()
                + crate::remote_ros2_reflection::policy::str_bytes(right).len(),
            result,
            *final(meter),
        ),
{
    proof {
        vstd::utf8::encode_utf8_decode_utf8(left@);
        vstd::utf8::encode_utf8_decode_utf8(right@);
    }
    metered_bytes_eq(left.as_bytes(), right.as_bytes(), meter)
}

/// The index of the first Schema projection of `projections[k..]` with id `id`.
pub open spec fn schema_projection_from(
    projections: Seq<SummaryDefinitionProjectionRecord>,
    id: u16,
    k: int,
) -> Option<int>
    decreases projections.len() - k,
{
    if k < 0 || k >= projections.len() {
        None
    } else if projections[k] matches SummaryDefinitionProjectionRecord::Schema { id: found, .. }
        && found == id {
        Some(k)
    } else {
        schema_projection_from(projections, id, k + 1)
    }
}

pub proof fn lemma_schema_projection_bounds(
    projections: Seq<SummaryDefinitionProjectionRecord>,
    id: u16,
    k: int,
)
    requires
        0 <= k,
    ensures
        schema_projection_from(projections, id, k) matches Some(found) ==> (k <= found
            < projections.len() && (projections[found] matches SummaryDefinitionProjectionRecord::Schema {
            id: i,
            ..
        } && i == id)),
    decreases projections.len() - k,
{
    if k < projections.len() {
        lemma_schema_projection_bounds(projections, id, k + 1);
    }
}

/// The record index a Schema or Channel projection points at.
pub open spec fn projected_record(projection: SummaryDefinitionProjectionRecord) -> usize {
    match projection {
        SummaryDefinitionProjectionRecord::Schema { record_index, .. } => record_index,
        SummaryDefinitionProjectionRecord::Channel { record_index, .. } => record_index,
    }
}

/// The record index of the canonical Schema of a Channel, and the steps to find it.
pub open spec fn channel_schema_scan(
    projections: Seq<SummaryDefinitionProjectionRecord>,
    schema_id: u16,
) -> (Option<usize>, nat) {
    if schema_id == 0 {
        (None, 0)
    } else {
        match schema_projection_from(projections, schema_id, 0) {
            Some(k) => (Some(projected_record(projections[k])), (k + 1) as nat),
            None => (None, projections.len()),
        }
    }
}

/// The record index of the canonical Schema that a Channel with schema id `schema_id`
/// references, one step per inspected projection; none for schema id zero.
pub fn canonical_channel_schema_metered(
    definitions: &ValidatedSummaryDefinitions<'_>,
    schema_id: u16,
    meter: &mut RemoteRos2StepOwnershipV1,
) -> (result: Result<Option<usize>, RemoteRos2InitializationError>)
    requires
        schema_id == 0 || schema_projection_from(definitions.spec_projections(), schema_id, 0) is Some,
    ensures
        steps::metered(
            *old(meter),
            Ok(channel_schema_scan(definitions.spec_projections(), schema_id).0),
            channel_schema_scan(definitions.spec_projections(), schema_id).1,
            result,
            *final(meter),
        ),
{
    let ghost start = *meter;
    proof {
        steps::lemma_metered_pure(start, Ok::<Option<usize>, RemoteRos2InitializationError>(None));
    }
    if schema_id == 0 {
        return Ok(None);
    }
    let projections = definitions.projection_records();
    let ghost target = channel_schema_scan(projections@, schema_id);
    proof {
        steps::lemma_metered_pure(start, Ok::<(), RemoteRos2InitializationError>(()));
        lemma_schema_projection_bounds(projections@, schema_id, 0);
    }
    let mut k: usize = 0;
    while k < projections.len()
        invariant
            k <= projections@.len(),
            schema_id != 0,
            projections@ == definitions.spec_projections(),
            start == *old(meter),
            target == channel_schema_scan(projections@, schema_id),
            schema_projection_from(projections@, schema_id, 0) is Some,
            schema_projection_from(projections@, schema_id, 0) == schema_projection_from(
                projections@,
                schema_id,
                k as int,
            ),
            steps::metered(start, Ok(()), k as nat, Ok(()), *meter),
        decreases projections@.len() - k,
    {
        let ghost before = *meter;
        proof {
            lemma_schema_projection_bounds(projections@, schema_id, k as int);
        }
        let stepped = meter.consume();
        if stepped.is_err() {
            proof {
                steps::lemma_charge_stop(
                    start,
                    k as nat,
                    before,
                    stepped,
                    *meter,
                    Ok::<Option<usize>, RemoteRos2InitializationError>(target.0),
                    target.1,
                );
            }
            return Err(stepped.unwrap_err());
        }
        proof {
            steps::lemma_charge_ok(start, k as nat, before, stepped, *meter);
        }
        match projections[k] {
            SummaryDefinitionProjectionRecord::Schema { id, record_index } => {
                if id == schema_id {
                    return Ok(Some(record_index));
                }
            },
            _ => {},
        }
        k = k + 1;
    }
    proof {
        lemma_schema_projection_bounds(projections@, schema_id, k as int);
    }
    Ok(None)
}


pub proof fn lemma_earlier_channel_found(
    projections: Seq<SummaryDefinitionProjectionRecord>,
    id: u16,
    record_index: usize,
    start: int,
    at: int,
)
    requires
        0 <= start <= at < projections.len(),
        projections[at] matches SummaryDefinitionProjectionRecord::Channel {
            id: found,
            record_index: earlier,
        } && found == id && earlier < record_index,
    ensures
        earlier_channel_from(projections, id, record_index, start) is Some,
    decreases at - start,
{
    if start < at {
        lemma_earlier_channel_found(projections, id, record_index, start + 1, at);
    }
}

pub proof fn lemma_schema_projection_found(
    projections: Seq<SummaryDefinitionProjectionRecord>,
    id: u16,
    start: int,
    at: int,
)
    requires
        0 <= start <= at < projections.len(),
        projections[at] matches SummaryDefinitionProjectionRecord::Schema { id: found, .. } && found
            == id,
    ensures
        schema_projection_from(projections, id, start) is Some,
    decreases at - start,
{
    if start < at {
        lemma_schema_projection_found(projections, id, start + 1, at);
    }
}

/// A Channel that no earlier Channel projection shadows and that names a nonzero schema id
/// has a Schema projection with that id.
pub proof fn lemma_canonical_channel_has_schema(
    records: Seq<BoundedSummaryRecord>,
    record_index: usize,
)
    requires
        definitions::summary_definitions_check(records) is Ok,
        records.len() <= usize::MAX,
        record_index < records.len(),
        records[record_index as int] is Known,
        records[record_index as int]->Known_0 is Channel,
        earlier_channel_from(
            definitions::projections_upto(records, records.len() as int),
            channel_of(records[record_index as int]).id,
            record_index,
            0,
        ) is None,
        channel_of(records[record_index as int]).schema_id != 0,
    ensures
        schema_projection_from(
            definitions::projections_upto(records, records.len() as int),
            channel_of(records[record_index as int]).schema_id,
            0,
        ) is Some,
{
    let projections = definitions::projections_upto(records, records.len() as int);
    let channel = channel_of(records[record_index as int]);
    definitions::lemma_first_channel_found(records, channel.id, 0, record_index as int);
    if definitions::channel_lookup(records, channel.id, record_index as int) is Some {
        let earlier = definitions::channel_lookup(records, channel.id, record_index as int)->Some_0;
        definitions::lemma_projection_present(records, records.len() as int, earlier);
        let k = choose|k: int|
            0 <= k < projections.len() && #[trigger] projections[k] == definitions::projection_of(
                records[earlier],
                earlier,
            )->Some_0;
        lemma_earlier_channel_found(projections, channel.id, record_index, 0, k);
    }
    definitions::lemma_canonical_channel_schema_exists(records, record_index as int);
    let schema_index = definitions::schema_lookup(records, channel.schema_id, records.len() as int)->Some_0;
    definitions::lemma_first_schema_found(records, channel.schema_id, 0, records.len() as int);
    definitions::lemma_projection_present(records, records.len() as int, schema_index);
    let k = choose|k: int|
        0 <= k < projections.len() && #[trigger] projections[k] == definitions::projection_of(
            records[schema_index],
            schema_index,
        )->Some_0;
    lemma_schema_projection_found(projections, channel.schema_id, 0, k);
}


/// Whether two canonical Channels have one decoder-relevant signature (message encoding and
/// referenced Schema name, encoding and data), and the steps to decide it.
pub open spec fn signature_scan(
    records: Seq<BoundedSummaryRecord>,
    projections: Seq<SummaryDefinitionProjectionRecord>,
    left: ChannelRecordV1,
    right: ChannelRecordV1,
) -> (bool, nat) {
    let encodings = string_bytes(left.message_encoding).len() + string_bytes(
        right.message_encoding,
    ).len();
    if left.message_encoding@ != right.message_encoding@ {
        (false, encodings)
    } else {
        let (left_schema, left_cost) = channel_schema_scan(projections, left.schema_id);
        let (right_schema, right_cost) = channel_schema_scan(projections, right.schema_id);
        let base = encodings + left_cost + right_cost;
        match (left_schema, right_schema) {
            (None, None) => (true, base),
            (Some(a), Some(b)) => {
                let first = schema_of(records[a as int]);
                let second = schema_of(records[b as int]);
                let names = string_bytes(first.name).len() + string_bytes(second.name).len();
                if first.name@ != second.name@ {
                    (false, base + names)
                } else {
                    let schema_encodings = string_bytes(first.encoding).len() + string_bytes(
                        second.encoding,
                    ).len();
                    if first.encoding@ != second.encoding@ {
                        (false, base + names + schema_encodings)
                    } else {
                        (
                            first.data@ == second.data@,
                            base + names + schema_encodings + first.data@.len()
                                + second.data@.len(),
                        )
                    }
                }
            },
            _ => (false, base),
        }
    }
}

/// The Schema record a Schema projection of validated definitions points at.
pub proof fn lemma_schema_projection_record(
    records: Seq<BoundedSummaryRecord>,
    projections: Seq<SummaryDefinitionProjectionRecord>,
    schema_id: u16,
)
    requires
        projections == definitions::projections_upto(records, records.len() as int),
        records.len() <= usize::MAX,
        schema_projection_from(projections, schema_id, 0) is Some,
    ensures
        ({
            let k = schema_projection_from(projections, schema_id, 0)->Some_0;
            let index = projected_record(projections[k]);
            index < records.len() && records[index as int] is Known && records[index as int]->Known_0 is Schema
        }),
{
    lemma_schema_projection_bounds(projections, schema_id, 0);
    definitions::lemma_projections_match(records, records.len() as int);
    let k = schema_projection_from(projections, schema_id, 0)->Some_0;
    assert(definitions::projection_matches(records, projections[k]));
}

/// Decides whether two Channels have one decoder-relevant signature, charging every compared
/// byte and every inspected projection.
pub fn same_decoder_relevant_signature(
    definitions: &ValidatedSummaryDefinitions<'_>,
    left: &ChannelRecordV1,
    right: &ChannelRecordV1,
    meter: &mut RemoteRos2StepOwnershipV1,
) -> (result: Result<bool, RemoteRos2InitializationError>)
    requires
        left.schema_id == 0 || schema_projection_from(
            definitions.spec_projections(),
            left.schema_id,
            0,
        ) is Some,
        right.schema_id == 0 || schema_projection_from(
            definitions.spec_projections(),
            right.schema_id,
            0,
        ) is Some,
    ensures
        steps::metered(
            *old(meter),
            Ok(signature_scan(definitions.spec_records(), definitions.spec_projections(), *left, *right).0),
            signature_scan(definitions.spec_records(), definitions.spec_projections(), *left, *right).1,
            result,
            *final(meter),
        ),
{
    let ghost records = definitions.spec_records();
    let ghost projections = definitions.spec_projections();
    let ghost target = signature_scan(records, projections, *left, *right);
    let ghost s0 = *meter;
    let _ = definitions.projection_records();
    let encoding_equal = metered_str_eq(
        left.message_encoding.as_str(),
        right.message_encoding.as_str(),
        meter,
    );
    let ghost encodings: nat = string_bytes(left.message_encoding).len() + string_bytes(
        right.message_encoding,
    ).len();
    let ghost s1 = *meter;
    let encoding_equal = match encoding_equal {
        Ok(equal) => equal,
        Err(error) => {
            proof {
                steps::lemma_metered_stop(
                    s0,
                    Ok::<bool, RemoteRos2InitializationError>(
                        left.message_encoding@ == right.message_encoding@,
                    ),
                    encodings,
                    Err::<bool, RemoteRos2InitializationError>(error),
                    s1,
                    Ok::<bool, RemoteRos2InitializationError>(target.0),
                    target.1,
                );
            }
            return Err(error);
        },
    };
    if !encoding_equal {
        return Ok(false);
    }
    let ghost left_scan = channel_schema_scan(projections, left.schema_id);
    let ghost right_scan = channel_schema_scan(projections, right.schema_id);
    let left_schema = canonical_channel_schema_metered(definitions, left.schema_id, meter);
    let ghost s2 = *meter;
    proof {
        steps::lemma_metered_then(
            s0,
            Ok::<bool, RemoteRos2InitializationError>(true),
            encodings,
            Ok::<bool, RemoteRos2InitializationError>(true),
            s1,
            Ok::<Option<usize>, RemoteRos2InitializationError>(left_scan.0),
            left_scan.1,
            left_schema,
            s2,
        );
    }
    let left_schema = match left_schema {
        Ok(found) => found,
        Err(error) => {
            proof {
                steps::lemma_metered_stop(
                    s0,
                    Ok::<Option<usize>, RemoteRos2InitializationError>(left_scan.0),
                    encodings + left_scan.1,
                    Err::<Option<usize>, RemoteRos2InitializationError>(error),
                    s2,
                    Ok::<bool, RemoteRos2InitializationError>(target.0),
                    target.1,
                );
            }
            return Err(error);
        },
    };
    let right_schema = canonical_channel_schema_metered(definitions, right.schema_id, meter);
    let ghost s3 = *meter;
    proof {
        steps::lemma_metered_then(
            s0,
            Ok::<Option<usize>, RemoteRos2InitializationError>(left_scan.0),
            encodings + left_scan.1,
            Ok::<Option<usize>, RemoteRos2InitializationError>(left_schema),
            s2,
            Ok::<Option<usize>, RemoteRos2InitializationError>(right_scan.0),
            right_scan.1,
            right_schema,
            s3,
        );
    }
    let right_schema = match right_schema {
        Ok(found) => found,
        Err(error) => {
            proof {
                steps::lemma_metered_stop(
                    s0,
                    Ok::<Option<usize>, RemoteRos2InitializationError>(right_scan.0),
                    encodings + left_scan.1 + right_scan.1,
                    Err::<Option<usize>, RemoteRos2InitializationError>(error),
                    s3,
                    Ok::<bool, RemoteRos2InitializationError>(target.0),
                    target.1,
                );
            }
            return Err(error);
        },
    };
    let ghost base: nat = encodings + left_scan.1 + right_scan.1;
    match (left_schema, right_schema) {
        (None, None) => Ok(true),
        (Some(a), Some(b)) => {
            proof {
                lemma_schema_projection_record(records, projections, left.schema_id);
                lemma_schema_projection_record(records, projections, right.schema_id);
            }
            let first = match definitions.schema_at_record(a) {
                Some(schema) => schema,
                None => {
                    return Ok(false);
                },
            };
            let second = match definitions.schema_at_record(b) {
                Some(schema) => schema,
                None => {
                    return Ok(false);
                },
            };
            let ghost names: nat = string_bytes(first.name).len() + string_bytes(second.name).len();
            let names_equal = metered_str_eq(first.name.as_str(), second.name.as_str(), meter);
            let ghost s4 = *meter;
            proof {
                steps::lemma_metered_then(
                    s0,
                    Ok::<Option<usize>, RemoteRos2InitializationError>(right_scan.0),
                    base,
                    Ok::<Option<usize>, RemoteRos2InitializationError>(right_schema),
                    s3,
                    Ok::<bool, RemoteRos2InitializationError>(first.name@ == second.name@),
                    names,
                    names_equal,
                    s4,
                );
            }
            let names_equal = match names_equal {
                Ok(equal) => equal,
                Err(error) => {
                    proof {
                        steps::lemma_metered_stop(
                            s0,
                            Ok::<bool, RemoteRos2InitializationError>(first.name@ == second.name@),
                            base + names,
                            Err::<bool, RemoteRos2InitializationError>(error),
                            s4,
                            Ok::<bool, RemoteRos2InitializationError>(target.0),
                            target.1,
                        );
                    }
                    return Err(error);
                },
            };
            if !names_equal {
                return Ok(false);
            }
            let ghost schema_encodings: nat = string_bytes(first.encoding).len() + string_bytes(
                second.encoding,
            ).len();
            let encodings_equal = metered_str_eq(
                first.encoding.as_str(),
                second.encoding.as_str(),
                meter,
            );
            let ghost s5 = *meter;
            proof {
                steps::lemma_metered_then(
                    s0,
                    Ok::<bool, RemoteRos2InitializationError>(true),
                    base + names,
                    Ok::<bool, RemoteRos2InitializationError>(true),
                    s4,
                    Ok::<bool, RemoteRos2InitializationError>(first.encoding@ == second.encoding@),
                    schema_encodings,
                    encodings_equal,
                    s5,
                );
            }
            let encodings_equal = match encodings_equal {
                Ok(equal) => equal,
                Err(error) => {
                    proof {
                        steps::lemma_metered_stop(
                            s0,
                            Ok::<bool, RemoteRos2InitializationError>(
                                first.encoding@ == second.encoding@,
                            ),
                            base + names + schema_encodings,
                            Err::<bool, RemoteRos2InitializationError>(error),
                            s5,
                            Ok::<bool, RemoteRos2InitializationError>(target.0),
                            target.1,
                        );
                    }
                    return Err(error);
                },
            };
            if !encodings_equal {
                return Ok(false);
            }
            let data_equal = metered_bytes_eq(first.data.as_slice(), second.data.as_slice(), meter);
            proof {
                steps::lemma_metered_then(
                    s0,
                    Ok::<bool, RemoteRos2InitializationError>(true),
                    base + names + schema_encodings,
                    Ok::<bool, RemoteRos2InitializationError>(true),
                    s5,
                    Ok::<bool, RemoteRos2InitializationError>(first.data@ == second.data@),
                    first.data@.len() + second.data@.len(),
                    data_equal,
                    *meter,
                );
            }
            data_equal
        },
        _ => Ok(false),
    }
}


/// The topic scan of one canonical Channel `left` at `left_index` against the later
/// projections `projections[k..]`: a conflicting decoder signature on the same topic, and the
/// steps charged until the scan ends or fails.
pub open spec fn topic_inner_scan(
    records: Seq<BoundedSummaryRecord>,
    projections: Seq<SummaryDefinitionProjectionRecord>,
    left_index: usize,
    left: ChannelRecordV1,
    k: int,
) -> (Result<(), RemoteRos2InitializationError>, nat)
    decreases projections.len() - k,
{
    if k < 0 || k >= projections.len() {
        (Ok(()), 0)
    } else {
        let rest = topic_inner_scan(records, projections, left_index, left, k + 1);
        match projections[k] {
            SummaryDefinitionProjectionRecord::Channel { id, record_index } => if record_index
                <= left_index {
                (rest.0, 1 + rest.1)
            } else {
                let (canonical, canonical_cost) = canonical_channel_scan(
                    projections,
                    record_index,
                    id,
                );
                if !canonical {
                    (rest.0, 1 + canonical_cost + rest.1)
                } else {
                    let right = channel_of(records[record_index as int]);
                    let topics = string_bytes(left.topic).len() + string_bytes(right.topic).len();
                    if left.topic@ != right.topic@ {
                        (rest.0, 1 + canonical_cost + 1 + topics + rest.1)
                    } else {
                        let (same, signature_cost) = signature_scan(
                            records,
                            projections,
                            left,
                            right,
                        );
                        if !same {
                            (
                                Err(RemoteRos2InitializationError::ConflictingTopicDecoderSignature),
                                1 + canonical_cost + 1 + topics + signature_cost,
                            )
                        } else {
                            (rest.0, 1 + canonical_cost + 1 + topics + signature_cost + rest.1)
                        }
                    }
                }
            },
            _ => (rest.0, 1 + rest.1),
        }
    }
}

/// The topic scan of every canonical Channel of `projections[k..]` against the later ones.
pub open spec fn topic_outer_scan(
    records: Seq<BoundedSummaryRecord>,
    projections: Seq<SummaryDefinitionProjectionRecord>,
    k: int,
) -> (Result<(), RemoteRos2InitializationError>, nat)
    decreases projections.len() - k,
{
    if k < 0 || k >= projections.len() {
        (Ok(()), 0)
    } else {
        let rest = topic_outer_scan(records, projections, k + 1);
        match projections[k] {
            SummaryDefinitionProjectionRecord::Channel { id, record_index } => {
                let (canonical, canonical_cost) = canonical_channel_scan(
                    projections,
                    record_index,
                    id,
                );
                if !canonical {
                    (rest.0, 1 + canonical_cost + rest.1)
                } else {
                    let inner = topic_inner_scan(
                        records,
                        projections,
                        record_index,
                        channel_of(records[record_index as int]),
                        0,
                    );
                    match inner.0 {
                        Err(error) => (Err(error), 1 + canonical_cost + inner.1),
                        Ok(_) => (rest.0, 1 + canonical_cost + inner.1 + rest.1),
                    }
                }
            },
            _ => (rest.0, 1 + rest.1),
        }
    }
}


/// Checks one canonical Channel `left` at `left_index` against every later canonical Channel:
/// a later Channel on the same topic must have the same decoder-relevant signature.
pub fn check_topic_against_later_channels(
    definitions: &ValidatedSummaryDefinitions<'_>,
    left_index: usize,
    left: &ChannelRecordV1,
    meter: &mut RemoteRos2StepOwnershipV1,
) -> (result: Result<(), RemoteRos2InitializationError>)
    requires
        left.schema_id == 0 || schema_projection_from(
            definitions.spec_projections(),
            left.schema_id,
            0,
        ) is Some,
    ensures
        steps::metered(
            *old(meter),
            topic_inner_scan(
                definitions.spec_records(),
                definitions.spec_projections(),
                left_index,
                *left,
                0,
            ).0,
            topic_inner_scan(
                definitions.spec_records(),
                definitions.spec_projections(),
                left_index,
                *left,
                0,
            ).1,
            result,
            *final(meter),
        ),
{
    let projections = definitions.projection_records();
    let ghost records = definitions.spec_records();
    let ghost start = *meter;
    let ghost target = topic_inner_scan(records, projections@, left_index, *left, 0);
    let ghost mut charged: nat = 0;
    proof {
        steps::lemma_metered_pure(start, Ok::<(), RemoteRos2InitializationError>(()));
        definitions::lemma_projections_match(records, records.len() as int);
    }
    let mut k: usize = 0;
    while k < projections.len()
        invariant
            k <= projections@.len(),
            projections@ == definitions.spec_projections(),
            records == definitions.spec_records(),
            records.len() <= usize::MAX,
            definitions::summary_definitions_check(records) is Ok,
            forall|i: int|
                0 <= i < projections@.len() ==> definitions::projection_matches(
                    records,
                    #[trigger] projections@[i],
                ),
            left.schema_id == 0 || schema_projection_from(projections@, left.schema_id, 0) is Some,
            start == *old(meter),
            target == topic_inner_scan(records, projections@, left_index, *left, 0),
            target.0 == topic_inner_scan(records, projections@, left_index, *left, k as int).0,
            target.1 == charged + topic_inner_scan(
                records,
                projections@,
                left_index,
                *left,
                k as int,
            ).1,
            steps::metered(start, Ok(()), charged, Ok(()), *meter),
        decreases projections@.len() - k,
    {
        let ghost before = *meter;
        let stepped = meter.consume();
        if stepped.is_err() {
            proof {
                steps::lemma_charge_stop(start, charged, before, stepped, *meter, target.0, target.1);
            }
            return Err(stepped.unwrap_err());
        }
        proof {
            steps::lemma_charge_ok(start, charged, before, stepped, *meter);
            charged = charged + 1;
        }
        match projections[k] {
            SummaryDefinitionProjectionRecord::Channel { id, record_index } => {
                if record_index > left_index {
                    let ghost scan = canonical_channel_scan(projections@, record_index, id);
                    let ghost s1 = *meter;
                    let canonical = is_canonical_channel_record_metered(
                        definitions,
                        record_index,
                        id,
                        meter,
                    );
                    proof {
                        steps::lemma_metered_then(
                            start,
                            Ok::<(), RemoteRos2InitializationError>(()),
                            charged,
                            Ok::<(), RemoteRos2InitializationError>(()),
                            s1,
                            Ok::<bool, RemoteRos2InitializationError>(scan.0),
                            scan.1,
                            canonical,
                            *meter,
                        );
                    }
                    let canonical = match canonical {
                        Ok(canonical) => canonical,
                        Err(error) => {
                            proof {
                                steps::lemma_metered_stop(
                                    start,
                                    Ok::<bool, RemoteRos2InitializationError>(scan.0),
                                    charged + scan.1,
                                    Err::<bool, RemoteRos2InitializationError>(error),
                                    *meter,
                                    target.0,
                                    target.1,
                                );
                            }
                            return Err(error);
                        },
                    };
                    proof {
                        steps::lemma_metered_settle(
                            start,
                            Ok::<bool, RemoteRos2InitializationError>(scan.0),
                            charged + scan.1,
                            Ok::<bool, RemoteRos2InitializationError>(canonical),
                            *meter,
                            Ok::<(), RemoteRos2InitializationError>(()),
                        );
                        charged = charged + scan.1;
                    }
                    if canonical {
                        let ghost before_compare = *meter;
                        let stepped = meter.consume();
                        if stepped.is_err() {
                            proof {
                                steps::lemma_charge_stop(
                                    start,
                                    charged,
                                    before_compare,
                                    stepped,
                                    *meter,
                                    target.0,
                                    target.1,
                                );
                            }
                            return Err(stepped.unwrap_err());
                        }
                        proof {
                            steps::lemma_charge_ok(start, charged, before_compare, stepped, *meter);
                            charged = charged + 1;
                            assert(definitions::projection_matches(records, projections@[k as int]));
                        }
                        let right = match definitions.channel_at_record(record_index) {
                            Some(right) => right,
                            None => {
                                return Ok(());
                            },
                        };
                        let ghost topics: nat = string_bytes(left.topic).len() + string_bytes(
                            right.topic,
                        ).len();
                        let ghost s2 = *meter;
                        let same_topic = metered_str_eq(left.topic.as_str(), right.topic.as_str(), meter);
                        proof {
                            steps::lemma_metered_then(
                                start,
                                Ok::<(), RemoteRos2InitializationError>(()),
                                charged,
                                Ok::<(), RemoteRos2InitializationError>(()),
                                s2,
                                Ok::<bool, RemoteRos2InitializationError>(left.topic@ == right.topic@),
                                topics,
                                same_topic,
                                *meter,
                            );
                        }
                        let same_topic = match same_topic {
                            Ok(same) => same,
                            Err(error) => {
                                proof {
                                    steps::lemma_metered_stop(
                                        start,
                                        Ok::<bool, RemoteRos2InitializationError>(
                                            left.topic@ == right.topic@,
                                        ),
                                        charged + topics,
                                        Err::<bool, RemoteRos2InitializationError>(error),
                                        *meter,
                                        target.0,
                                        target.1,
                                    );
                                }
                                return Err(error);
                            },
                        };
                        proof {
                            steps::lemma_metered_settle(
                                start,
                                Ok::<bool, RemoteRos2InitializationError>(left.topic@ == right.topic@),
                                charged + topics,
                                Ok::<bool, RemoteRos2InitializationError>(same_topic),
                                *meter,
                                Ok::<(), RemoteRos2InitializationError>(()),
                            );
                            charged = charged + topics;
                        }
                        if same_topic {
                            proof {
                                if right.schema_id != 0 {
                                    lemma_canonical_channel_has_schema(records, record_index);
                                }
                            }
                            let ghost signature = signature_scan(records, projections@, *left, *right);
                            let ghost s3 = *meter;
                            let same = same_decoder_relevant_signature(definitions, left, right, meter);
                            proof {
                                steps::lemma_metered_then(
                                    start,
                                    Ok::<(), RemoteRos2InitializationError>(()),
                                    charged,
                                    Ok::<(), RemoteRos2InitializationError>(()),
                                    s3,
                                    Ok::<bool, RemoteRos2InitializationError>(signature.0),
                                    signature.1,
                                    same,
                                    *meter,
                                );
                            }
                            let same = match same {
                                Ok(same) => same,
                                Err(error) => {
                                    proof {
                                        steps::lemma_metered_stop(
                                            start,
                                            Ok::<bool, RemoteRos2InitializationError>(signature.0),
                                            charged + signature.1,
                                            Err::<bool, RemoteRos2InitializationError>(error),
                                            *meter,
                                            target.0,
                                            target.1,
                                        );
                                    }
                                    return Err(error);
                                },
                            };
                            proof {
                                steps::lemma_metered_settle(
                                    start,
                                    Ok::<bool, RemoteRos2InitializationError>(signature.0),
                                    charged + signature.1,
                                    Ok::<bool, RemoteRos2InitializationError>(same),
                                    *meter,
                                    target.0,
                                );
                                steps::lemma_metered_settle(
                                    start,
                                    Ok::<bool, RemoteRos2InitializationError>(signature.0),
                                    charged + signature.1,
                                    Ok::<bool, RemoteRos2InitializationError>(same),
                                    *meter,
                                    Ok::<(), RemoteRos2InitializationError>(()),
                                );
                                charged = charged + signature.1;
                            }
                            if !same {
                                return Err(RemoteRos2InitializationError::ConflictingTopicDecoderSignature);
                            }
                        }
                    }
                }
            },
            _ => {},
        }
        k = k + 1;
    }
    Ok(())
}


/// Checks every pair of canonical Channels: Channels on one topic must have one
/// decoder-relevant signature.
pub fn check_topic_decoder_signatures(
    definitions: &ValidatedSummaryDefinitions<'_>,
    meter: &mut RemoteRos2StepOwnershipV1,
) -> (result: Result<(), RemoteRos2InitializationError>)
    ensures
        steps::metered(
            *old(meter),
            topic_outer_scan(definitions.spec_records(), definitions.spec_projections(), 0).0,
            topic_outer_scan(definitions.spec_records(), definitions.spec_projections(), 0).1,
            result,
            *final(meter),
        ),
{
    let projections = definitions.projection_records();
    let ghost records = definitions.spec_records();
    let ghost start = *meter;
    let ghost target = topic_outer_scan(records, projections@, 0);
    let ghost mut charged: nat = 0;
    proof {
        steps::lemma_metered_pure(start, Ok::<(), RemoteRos2InitializationError>(()));
        definitions::lemma_projections_match(records, records.len() as int);
    }
    let mut k: usize = 0;
    while k < projections.len()
        invariant
            k <= projections@.len(),
            projections@ == definitions.spec_projections(),
            records == definitions.spec_records(),
            records.len() <= usize::MAX,
            definitions::summary_definitions_check(records) is Ok,
            forall|i: int|
                0 <= i < projections@.len() ==> definitions::projection_matches(
                    records,
                    #[trigger] projections@[i],
                ),
            start == *old(meter),
            target == topic_outer_scan(records, projections@, 0),
            target.0 == topic_outer_scan(records, projections@, k as int).0,
            target.1 == charged + topic_outer_scan(records, projections@, k as int).1,
            steps::metered(start, Ok(()), charged, Ok(()), *meter),
        decreases projections@.len() - k,
    {
        let ghost before = *meter;
        let stepped = meter.consume();
        if stepped.is_err() {
            proof {
                steps::lemma_charge_stop(start, charged, before, stepped, *meter, target.0, target.1);
            }
            return Err(stepped.unwrap_err());
        }
        proof {
            steps::lemma_charge_ok(start, charged, before, stepped, *meter);
            charged = charged + 1;
        }
        match projections[k] {
            SummaryDefinitionProjectionRecord::Channel { id, record_index } => {
                let ghost scan = canonical_channel_scan(projections@, record_index, id);
                let ghost s1 = *meter;
                let canonical = is_canonical_channel_record_metered(
                    definitions,
                    record_index,
                    id,
                    meter,
                );
                proof {
                    steps::lemma_metered_then(
                        start,
                        Ok::<(), RemoteRos2InitializationError>(()),
                        charged,
                        Ok::<(), RemoteRos2InitializationError>(()),
                        s1,
                        Ok::<bool, RemoteRos2InitializationError>(scan.0),
                        scan.1,
                        canonical,
                        *meter,
                    );
                }
                let canonical = match canonical {
                    Ok(canonical) => canonical,
                    Err(error) => {
                        proof {
                            steps::lemma_metered_stop(
                                start,
                                Ok::<bool, RemoteRos2InitializationError>(scan.0),
                                charged + scan.1,
                                Err::<bool, RemoteRos2InitializationError>(error),
                                *meter,
                                target.0,
                                target.1,
                            );
                        }
                        return Err(error);
                    },
                };
                proof {
                    steps::lemma_metered_settle(
                        start,
                        Ok::<bool, RemoteRos2InitializationError>(scan.0),
                        charged + scan.1,
                        Ok::<bool, RemoteRos2InitializationError>(canonical),
                        *meter,
                        Ok::<(), RemoteRos2InitializationError>(()),
                    );
                    charged = charged + scan.1;
                }
                if canonical {
                    proof {
                        assert(definitions::projection_matches(records, projections@[k as int]));
                    }
                    let left = match definitions.channel_at_record(record_index) {
                        Some(left) => left,
                        None => {
                            return Ok(());
                        },
                    };
                    proof {
                        if left.schema_id != 0 {
                            lemma_canonical_channel_has_schema(records, record_index);
                        }
                    }
                    let ghost inner = topic_inner_scan(records, projections@, record_index, *left, 0);
                    let ghost s2 = *meter;
                    let checked = check_topic_against_later_channels(
                        definitions,
                        record_index,
                        left,
                        meter,
                    );
                    proof {
                        steps::lemma_metered_then(
                            start,
                            Ok::<(), RemoteRos2InitializationError>(()),
                            charged,
                            Ok::<(), RemoteRos2InitializationError>(()),
                            s2,
                            inner.0,
                            inner.1,
                            checked,
                            *meter,
                        );
                    }
                    if checked.is_err() {
                        proof {
                            steps::lemma_metered_stop(
                                start,
                                inner.0,
                                charged + inner.1,
                                checked,
                                *meter,
                                target.0,
                                target.1,
                            );
                        }
                        return checked;
                    }
                    proof {
                        charged = charged + inner.1;
                    }
                }
            },
            _ => {},
        }
        k = k + 1;
    }
    Ok(())
}

/// The single owner of one admission: the source generation and definitions, the frozen
/// decoder policy, the limits, the signature step owner and the fixed scratch.
pub struct RemoteRos2AdmissionOwnerV1<'definitions, 'input, 'source, 'wire> {
    pub source: RemoteDefinitionsCapability<'definitions, 'input, 'source>,
    pub policy: FrozenRemoteDecoderPolicyV1<'wire>,
    pub limits: UnfrozenRemoteRos2LimitsV1,
    pub steps: RemoteRos2StepOwnershipV1,
    pub scratch: RemoteRos2FixedScratchV1,
}

impl RemoteRos2AdmissionOwnerV1<'_, '_, '_, '_> {
    pub fn ensure_current(&self) -> (result: Result<(), RemoteRos2InitializationError>)
        ensures
            self.source.spec_is_current() ==> result is Ok,
            !self.source.spec_is_current() ==> result == Err::<(), RemoteRos2InitializationError>(
                RemoteRos2InitializationError::StaleSource,
            ),
    {
        self.source.ensure_current()
    }
}

/// Whether a current capability and its policy are the ones `budget` was opened for: the same
/// source, generation, viewer scope and policy wire.
pub open spec fn bound_to_budget(
    source: RemoteDefinitionsCapability,
    policy: FrozenRemoteDecoderPolicyV1,
    budget: RemoteRos2BudgetState,
) -> bool {
    &&& source.generation == budget.generation
    &&& source.source.identity == budget.source_identity
    &&& source.source.viewer_scope == budget.viewer_scope_identity
    &&& policy.spec_wire().identity == budget.policy_wire_identity
}

/// Admits one initializer for current definitions under a frozen policy and a budget opened for
/// the same source, generation, viewer scope and policy wire. A stale capability fails first;
/// a current one bound to another owner is outside the contract.
pub fn begin_remote_ros2_admission_v1<'definitions, 'input, 'source, 'wire>(
    source: RemoteDefinitionsCapability<'definitions, 'input, 'source>,
    policy: FrozenRemoteDecoderPolicyV1<'wire>,
    budget: &RemoteRos2BudgetState,
) -> (result: Result<
    RemoteRos2AdmissionOwnerV1<'definitions, 'input, 'source, 'wire>,
    RemoteRos2InitializationError,
>)
    requires
        source.spec_is_current() ==> bound_to_budget(source, policy, *budget),
    ensures
        !source.spec_is_current() ==> (result matches Err(e) && e
            == RemoteRos2InitializationError::StaleSource),
        source.spec_is_current() ==> (result matches Ok(owner) && owner.source == source
            && owner.policy == policy && owner.limits == budget.limits
            && owner.steps.remaining_steps() == budget.limits.max_signature_steps
            && owner.steps.consumed_steps() == 0 && owner.steps.limit()
            == RemoteRos2ResourceLimit::SignatureSteps),
{
    source.ensure_current()?;
    let limits = budget.limits;
    Ok(
        RemoteRos2AdmissionOwnerV1 {
            source,
            policy,
            limits,
            steps: RemoteRos2StepOwnershipV1::with_limit(
                limits.max_signature_steps,
                RemoteRos2ResourceLimit::SignatureSteps,
            ),
            scratch: RemoteRos2FixedScratchV1::new(),
        },
    )
}

/// Sealed evidence that all canonical Channels with one topic have one decoder-relevant
/// signature under the exact source and policy.
pub struct RemoteDecoderTopicSignatureEvidenceV1<'definitions, 'input, 'source, 'wire> {
    pub owner: RemoteRos2AdmissionOwnerV1<'definitions, 'input, 'source, 'wire>,
}

/// Runs the topic decoder-signature preflight with the owner's signature steps.
pub fn preflight_remote_decoder_topic_signatures_v1<'definitions, 'input, 'source, 'wire>(
    owner: RemoteRos2AdmissionOwnerV1<'definitions, 'input, 'source, 'wire>,
) -> (result: Result<
    RemoteDecoderTopicSignatureEvidenceV1<'definitions, 'input, 'source, 'wire>,
    RemoteRos2InitializationError,
>)
    ensures
        !owner.source.spec_is_current() ==> (result matches Err(e) && e
            == RemoteRos2InitializationError::StaleSource),
        owner.source.spec_is_current() ==> ({
            let scan = topic_outer_scan(
                owner.source.definitions.spec_records(),
                owner.source.definitions.spec_projections(),
                0,
            );
            let (outcome, left) = steps::within_budget(
                owner.steps.remaining_steps(),
                owner.steps.limit(),
                scan.0,
                scan.1,
            );
            match outcome {
                Ok(_) => result matches Ok(evidence) && evidence.owner.source == owner.source
                    && evidence.owner.policy == owner.policy && evidence.owner.limits
                    == owner.limits && evidence.owner.steps.remaining_steps() == left
                    && evidence.owner.steps.limit() == owner.steps.limit(),
                Err(error) => result matches Err(e) && e == error,
            }
        }),
{
    let mut owner = owner;
    owner.ensure_current()?;
    let definitions = owner.source.definitions;
    let ghost before = owner.steps;
    let checked = check_topic_decoder_signatures(definitions, &mut owner.steps);
    proof {
        steps::lemma_metered_budget(
            before,
            topic_outer_scan(definitions.spec_records(), definitions.spec_projections(), 0).0,
            topic_outer_scan(definitions.spec_records(), definitions.spec_projections(), 0).1,
            checked,
            owner.steps,
        );
    }
    checked?;
    owner.ensure_current()?;
    Ok(RemoteDecoderTopicSignatureEvidenceV1 { owner })
}

/// Whether the canonical Channel `right` at projection `b`, later than record `left_index`,
/// either sits on another topic than `left` or has its decoder signature.
pub open spec fn agrees_with_later(
    records: Seq<BoundedSummaryRecord>,
    projections: Seq<SummaryDefinitionProjectionRecord>,
    left_index: usize,
    left: ChannelRecordV1,
    b: int,
) -> bool {
    projections[b] matches SummaryDefinitionProjectionRecord::Channel { id, record_index } ==> (
    record_index > left_index && canonical_channel_scan(projections, record_index, id).0
        && left.topic@ == channel_of(records[record_index as int]).topic@ ==> signature_scan(
        records,
        projections,
        left,
        channel_of(records[record_index as int]),
    ).0)
}

/// Whether projection `a`, where it is a canonical Channel, agrees with projection `b`.
pub open spec fn channel_agrees(
    records: Seq<BoundedSummaryRecord>,
    projections: Seq<SummaryDefinitionProjectionRecord>,
    a: int,
    b: int,
) -> bool {
    projections[a] matches SummaryDefinitionProjectionRecord::Channel { id, record_index } ==> (
    canonical_channel_scan(projections, record_index, id).0 ==> agrees_with_later(
        records,
        projections,
        record_index,
        channel_of(records[record_index as int]),
        b,
    ))
}

/// Whether every canonical Channel of `projections[k..]` and every later canonical Channel on
/// the same topic have one decoder signature.
pub open spec fn topics_agree_from(
    records: Seq<BoundedSummaryRecord>,
    projections: Seq<SummaryDefinitionProjectionRecord>,
    k: int,
) -> bool {
    forall|a: int, b: int|
        k <= a < projections.len() && 0 <= b < projections.len() ==> #[trigger] channel_agrees(
            records,
            projections,
            a,
            b,
        )
}

/// The topic scan of one Channel passes exactly when every later canonical Channel on its topic
/// has its decoder signature, and otherwise reports the conflict.
pub proof fn lemma_topic_inner_scan_exact(
    records: Seq<BoundedSummaryRecord>,
    projections: Seq<SummaryDefinitionProjectionRecord>,
    left_index: usize,
    left: ChannelRecordV1,
    k: int,
)
    requires
        0 <= k,
    ensures
        topic_inner_scan(records, projections, left_index, left, k).0 is Ok <==> forall|b: int|
            k <= b < projections.len() ==> #[trigger] agrees_with_later(
                records,
                projections,
                left_index,
                left,
                b,
            ),
        topic_inner_scan(records, projections, left_index, left, k).0 is Err ==> topic_inner_scan(
            records,
            projections,
            left_index,
            left,
            k,
        ).0 == Err::<(), RemoteRos2InitializationError>(
            RemoteRos2InitializationError::ConflictingTopicDecoderSignature,
        ),
    decreases projections.len() - k,
{
    if k < projections.len() {
        lemma_topic_inner_scan_exact(records, projections, left_index, left, k + 1);
        assert(agrees_with_later(records, projections, left_index, left, k) ==> ((forall|b: int|
            k + 1 <= b < projections.len() ==> #[trigger] agrees_with_later(
                records,
                projections,
                left_index,
                left,
                b,
            )) ==> (forall|b: int|
            k <= b < projections.len() ==> #[trigger] agrees_with_later(
                records,
                projections,
                left_index,
                left,
                b,
            ))));
    }
}

/// The topic preflight scan passes exactly when every two canonical Channels on one topic, in
/// record order, have one decoder-relevant signature (message encoding, and the name, encoding
/// and data of the referenced Schema or its absence); otherwise it reports the conflict.
pub proof fn lemma_topic_outer_scan_exact(
    records: Seq<BoundedSummaryRecord>,
    projections: Seq<SummaryDefinitionProjectionRecord>,
    k: int,
)
    requires
        0 <= k,
    ensures
        topic_outer_scan(records, projections, k).0 is Ok <==> topics_agree_from(records, projections, k),
        topic_outer_scan(records, projections, k).0 is Err ==> topic_outer_scan(records, projections, k).0
            == Err::<(), RemoteRos2InitializationError>(
            RemoteRos2InitializationError::ConflictingTopicDecoderSignature,
        ),
    decreases projections.len() - k,
{
    if k < projections.len() {
        lemma_topic_outer_scan_exact(records, projections, k + 1);
        if let SummaryDefinitionProjectionRecord::Channel { id, record_index } = projections[k] {
            lemma_topic_inner_scan_exact(
                records,
                projections,
                record_index,
                channel_of(records[record_index as int]),
                0,
            );
        }
        assert(topics_agree_from(records, projections, k) ==> topics_agree_from(records, projections, k + 1));
        if let SummaryDefinitionProjectionRecord::Channel { id, record_index } = projections[k] {
            let left = channel_of(records[record_index as int]);
            if topics_agree_from(records, projections, k) && canonical_channel_scan(
                projections,
                record_index,
                id,
            ).0 {
                assert forall|b: int| 0 <= b < projections.len() implies #[trigger] agrees_with_later(
                    records,
                    projections,
                    record_index,
                    left,
                    b,
                ) by {
                    assert(channel_agrees(records, projections, k, b));
                }
            }
        }
        if topics_agree_from(records, projections, k + 1) && topic_outer_scan(records, projections, k).0 is Ok {
            assert forall|a: int, b: int|
                k <= a < projections.len() && 0 <= b < projections.len() implies #[trigger] channel_agrees(
                records,
                projections,
                a,
                b,
            ) by {
                if a > k {
                    assert(channel_agrees(records, projections, a, b));
                }
            }
        }
    }
}

} // verus!
