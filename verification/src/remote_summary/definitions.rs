//! Semantic consistency of the Summary and Chunk-local Schema and Channel definitions.
use crate::mcap_opcodes::{OP_CHANNEL, OP_MESSAGE, OP_SCHEMA};
use crate::remote_ros2_reflection::names::bytes_equal;
use crate::remote_summary::materialization::MaterializedSummaryRecords;
use crate::remote_summary::summary_records::{
    BoundedSummaryRecord, ChannelRecordV1, ParsedMcapRecordV1, SchemaRecordV1,
};
use vstd::prelude::*;

verus! {

/// A definition or reference consistency failure.
///
/// Errors omit ids, names, topics, metadata, record positions and source content.
#[derive(Clone, Copy, Debug, PartialEq, Eq, Structural)]
pub enum DefinitionConsistencyError {
    ConflictingSchemaDefinition,
    ConflictingChannelDefinition,
    MissingReferencedSchema,
    MissingMessageIndexChannel,
    UnknownReferencedChannel,
    DefinitionRecordMisroutedAsOther,
    DefinitionCountOverflow,
}

/// Whether `record` is a Schema record with id `id`.
pub open spec fn is_schema_with_id(record: BoundedSummaryRecord, id: u16) -> bool {
    record matches BoundedSummaryRecord::Known(ParsedMcapRecordV1::Schema(schema)) && schema.id
        == id
}

/// Whether `record` is a Channel record with id `id`.
pub open spec fn is_channel_with_id(record: BoundedSummaryRecord, id: u16) -> bool {
    record matches BoundedSummaryRecord::Known(ParsedMcapRecordV1::Channel(channel)) && channel.id
        == id
}

/// The Schema held by a Schema record.
pub open spec fn schema_of(record: BoundedSummaryRecord) -> SchemaRecordV1 {
    record->Known_0->Schema_0
}

/// The Channel held by a Channel record.
pub open spec fn channel_of(record: BoundedSummaryRecord) -> ChannelRecordV1 {
    record->Known_0->Channel_0
}

/// The index of the first Schema record with id `id` in `records[at..before]`.
pub open spec fn first_schema_from(
    records: Seq<BoundedSummaryRecord>,
    id: u16,
    at: int,
    before: int,
) -> Option<int>
    decreases before - at,
{
    if at < 0 || at >= before || at >= records.len() {
        None
    } else if is_schema_with_id(records[at], id) {
        Some(at)
    } else {
        first_schema_from(records, id, at + 1, before)
    }
}

/// The index of the first Channel record with id `id` in `records[at..before]`.
pub open spec fn first_channel_from(
    records: Seq<BoundedSummaryRecord>,
    id: u16,
    at: int,
    before: int,
) -> Option<int>
    decreases before - at,
{
    if at < 0 || at >= before || at >= records.len() {
        None
    } else if is_channel_with_id(records[at], id) {
        Some(at)
    } else {
        first_channel_from(records, id, at + 1, before)
    }
}

/// The canonical (first) Schema with id `id` among the first `before` records; none where
/// `before` exceeds the records.
pub open spec fn schema_lookup(records: Seq<BoundedSummaryRecord>, id: u16, before: int) -> Option<
    int,
> {
    if before > records.len() {
        None
    } else {
        first_schema_from(records, id, 0, before)
    }
}

/// The canonical (first) Channel with id `id` among the first `before` records; none where
/// `before` exceeds the records.
pub open spec fn channel_lookup(records: Seq<BoundedSummaryRecord>, id: u16, before: int) -> Option<
    int,
> {
    if before > records.len() {
        None
    } else {
        first_channel_from(records, id, 0, before)
    }
}

pub proof fn lemma_first_schema_found(
    records: Seq<BoundedSummaryRecord>,
    id: u16,
    at: int,
    before: int,
)
    ensures
        first_schema_from(records, id, at, before) matches Some(index) ==> at <= index < before
            && index < records.len() && is_schema_with_id(records[index], id),
    decreases before - at,
{
    if 0 <= at < before && at < records.len() && !is_schema_with_id(records[at], id) {
        lemma_first_schema_found(records, id, at + 1, before);
    }
}

pub proof fn lemma_first_channel_found(
    records: Seq<BoundedSummaryRecord>,
    id: u16,
    at: int,
    before: int,
)
    ensures
        first_channel_from(records, id, at, before) matches Some(index) ==> at <= index < before
            && index < records.len() && is_channel_with_id(records[index], id),
    decreases before - at,
{
    if 0 <= at < before && at < records.len() && !is_channel_with_id(records[at], id) {
        lemma_first_channel_found(records, id, at + 1, before);
    }
}

/// Finds the canonical Schema with id `id` among the first `before` records.
pub fn find_schema<'r>(records: &'r [BoundedSummaryRecord], id: u16, before: usize) -> (found:
    Option<&'r SchemaRecordV1>)
    ensures
        match schema_lookup(records@, id, before as int) {
            Some(index) => found matches Some(schema) && *schema == schema_of(records@[index]),
            None => found is None,
        },
{
    if before > records.len() {
        return None;
    }
    let mut at: usize = 0;
    while at < before
        invariant
            before <= records@.len(),
            at <= before,
            first_schema_from(records@, id, 0, before as int) == first_schema_from(
                records@,
                id,
                at as int,
                before as int,
            ),
        decreases before - at,
    {
        match &records[at] {
            BoundedSummaryRecord::Known(ParsedMcapRecordV1::Schema(schema)) => {
                if schema.id == id {
                    return Some(schema);
                }
            },
            _ => {},
        }
        at = at + 1;
    }
    None
}

/// Finds the canonical Channel with id `id` among the first `before` records.
pub fn find_channel<'r>(records: &'r [BoundedSummaryRecord], id: u16, before: usize) -> (found:
    Option<&'r ChannelRecordV1>)
    ensures
        match channel_lookup(records@, id, before as int) {
            Some(index) => found matches Some(channel) && *channel == channel_of(records@[index]),
            None => found is None,
        },
{
    if before > records.len() {
        return None;
    }
    let mut at: usize = 0;
    while at < before
        invariant
            before <= records@.len(),
            at <= before,
            first_channel_from(records@, id, 0, before as int) == first_channel_from(
                records@,
                id,
                at as int,
                before as int,
            ),
        decreases before - at,
    {
        match &records[at] {
            BoundedSummaryRecord::Known(ParsedMcapRecordV1::Channel(channel)) => {
                if channel.id == id {
                    return Some(channel);
                }
            },
            _ => {},
        }
        at = at + 1;
    }
    None
}

/// Two Schema definitions agree: same name, encoding and data.
pub open spec fn same_schema_definition(left: SchemaRecordV1, right: SchemaRecordV1) -> bool {
    left.name@ == right.name@ && left.encoding@ == right.encoding@ && left.data@ == right.data@
}

/// Two metadata maps hold the same entries in the same order.
pub open spec fn same_metadata(left: Seq<(String, String)>, right: Seq<(String, String)>) -> bool {
    left.len() == right.len() && forall|k: int|
        0 <= k < left.len() ==> (#[trigger] left[k]).0@ == right[k].0@ && left[k].1@ == right[k].1@
}

/// Two Channel records are equal field by field.
pub open spec fn same_channel(left: ChannelRecordV1, right: ChannelRecordV1) -> bool {
    &&& left.id == right.id
    &&& left.schema_id == right.schema_id
    &&& left.topic@ == right.topic@
    &&& left.message_encoding@ == right.message_encoding@
    &&& same_metadata(left.metadata@, right.metadata@)
}

pub fn schema_definitions_agree(left: &SchemaRecordV1, right: &SchemaRecordV1) -> (agree: bool)
    ensures
        agree == same_schema_definition(*left, *right),
{
    left.name == right.name && left.encoding == right.encoding && bytes_equal(
        left.data.as_slice(),
        right.data.as_slice(),
    )
}

pub fn channels_equal(left: &ChannelRecordV1, right: &ChannelRecordV1) -> (equal: bool)
    ensures
        equal == same_channel(*left, *right),
{
    if left.id != right.id || left.schema_id != right.schema_id || left.topic != right.topic
        || left.message_encoding != right.message_encoding || left.metadata.len()
        != right.metadata.len() {
        return false;
    }
    let mut k: usize = 0;
    while k < left.metadata.len()
        invariant
            left.metadata@.len() == right.metadata@.len(),
            k <= left.metadata@.len(),
            left.id == right.id,
            left.schema_id == right.schema_id,
            left.topic@ == right.topic@,
            left.message_encoding@ == right.message_encoding@,
            forall|i: int|
                0 <= i < k ==> (#[trigger] left.metadata@[i]).0@ == right.metadata@[i].0@
                    && left.metadata@[i].1@ == right.metadata@[i].1@,
        decreases left.metadata@.len() - k,
    {
        if left.metadata[k].0 != right.metadata[k].0 || left.metadata[k].1
            != right.metadata[k].1 {
            return false;
        }
        k = k + 1;
    }
    true
}

/// The canonical Schema and Channel counts of `records[at..]`, given the counts so far, or the
/// first conflicting duplicate.
pub open spec fn definition_counts(
    records: Seq<BoundedSummaryRecord>,
    at: int,
    schemas: u64,
    channels: u64,
) -> Result<(u64, u64), DefinitionConsistencyError>
    decreases records.len() - at,
{
    if at < 0 || at >= records.len() {
        Ok((schemas, channels))
    } else {
        match records[at] {
            BoundedSummaryRecord::Known(ParsedMcapRecordV1::Schema(schema)) => match schema_lookup(
                records,
                schema.id,
                at,
            ) {
                Some(previous) => if !same_schema_definition(schema_of(records[previous]), schema) {
                    Err(DefinitionConsistencyError::ConflictingSchemaDefinition)
                } else {
                    definition_counts(records, at + 1, schemas, channels)
                },
                None => if schemas + 1 > u64::MAX {
                    Err(DefinitionConsistencyError::DefinitionCountOverflow)
                } else {
                    definition_counts(records, at + 1, (schemas + 1) as u64, channels)
                },
            },
            BoundedSummaryRecord::Known(ParsedMcapRecordV1::Channel(channel)) => match channel_lookup(
                records,
                channel.id,
                at,
            ) {
                Some(previous) => if !same_channel(channel_of(records[previous]), channel) {
                    Err(DefinitionConsistencyError::ConflictingChannelDefinition)
                } else {
                    definition_counts(records, at + 1, schemas, channels)
                },
                None => if channels + 1 > u64::MAX {
                    Err(DefinitionConsistencyError::DefinitionCountOverflow)
                } else {
                    definition_counts(records, at + 1, schemas, (channels + 1) as u64)
                },
            },
            _ => definition_counts(records, at + 1, schemas, channels),
        }
    }
}

/// Every canonical Channel of `records[at..]` with a nonzero schema id references a Schema.
pub open spec fn schema_closure(records: Seq<BoundedSummaryRecord>, at: int) -> Result<
    (),
    DefinitionConsistencyError,
>
    decreases records.len() - at,
{
    if at < 0 || at >= records.len() {
        Ok(())
    } else {
        match records[at] {
            BoundedSummaryRecord::Known(ParsedMcapRecordV1::Channel(channel)) => if channel_lookup(
                records,
                channel.id,
                at,
            ) is Some {
                schema_closure(records, at + 1)
            } else if channel.schema_id != 0 && schema_lookup(
                records,
                channel.schema_id,
                records.len() as int,
            ) is None {
                Err(DefinitionConsistencyError::MissingReferencedSchema)
            } else {
                schema_closure(records, at + 1)
            },
            _ => schema_closure(records, at + 1),
        }
    }
}

/// Every channel key of `offsets[k..]` names a Summary Channel.
pub open spec fn offsets_closure(
    records: Seq<BoundedSummaryRecord>,
    offsets: Seq<(u16, u64)>,
    k: int,
) -> Result<(), DefinitionConsistencyError>
    decreases offsets.len() - k,
{
    if k < 0 || k >= offsets.len() {
        Ok(())
    } else if channel_lookup(records, offsets[k].0, records.len() as int) is None {
        Err(DefinitionConsistencyError::MissingMessageIndexChannel)
    } else {
        offsets_closure(records, offsets, k + 1)
    }
}

/// Every Chunk Index of `records[at..]` references only Summary Channels.
pub open spec fn chunk_index_closure(records: Seq<BoundedSummaryRecord>, at: int) -> Result<
    (),
    DefinitionConsistencyError,
>
    decreases records.len() - at,
{
    if at < 0 || at >= records.len() {
        Ok(())
    } else {
        match records[at] {
            BoundedSummaryRecord::Known(ParsedMcapRecordV1::ChunkIndex(index)) => match offsets_closure(
                records,
                index.message_index_offsets@,
                0,
            ) {
                Err(error) => Err(error),
                Ok(_) => chunk_index_closure(records, at + 1),
            },
            _ => chunk_index_closure(records, at + 1),
        }
    }
}

/// The whole Summary definition check: the canonical counts, or the first failure.
pub open spec fn summary_definitions_check(records: Seq<BoundedSummaryRecord>) -> Result<
    (u64, u64),
    DefinitionConsistencyError,
> {
    match definition_counts(records, 0, 0, 0) {
        Err(error) => Err(error),
        Ok(counts) => match schema_closure(records, 0) {
            Err(error) => Err(error),
            Ok(_) => match chunk_index_closure(records, 0) {
                Err(error) => Err(error),
                Ok(_) => Ok(counts),
            },
        },
    }
}


/// One Schema or Channel record of the Summary, by id and source index.
#[derive(Clone, Copy, Debug, PartialEq, Eq, Structural)]
pub enum SummaryDefinitionProjectionRecord {
    Schema { id: u16, record_index: usize },
    Channel { id: u16, record_index: usize },
}

/// The projection of the record at `index`, if it is a Schema or a Channel.
pub open spec fn projection_of(record: BoundedSummaryRecord, index: int) -> Option<
    SummaryDefinitionProjectionRecord,
> {
    match record {
        BoundedSummaryRecord::Known(ParsedMcapRecordV1::Schema(schema)) => Some(
            SummaryDefinitionProjectionRecord::Schema { id: schema.id, record_index: index as usize },
        ),
        BoundedSummaryRecord::Known(ParsedMcapRecordV1::Channel(channel)) => Some(
            SummaryDefinitionProjectionRecord::Channel {
                id: channel.id,
                record_index: index as usize,
            },
        ),
        _ => None,
    }
}

/// The projections of the first `n` records, in source order.
pub open spec fn projections_upto(records: Seq<BoundedSummaryRecord>, n: int) -> Seq<
    SummaryDefinitionProjectionRecord,
>
    decreases n,
{
    if n <= 0 {
        Seq::empty()
    } else {
        let earlier = projections_upto(records, n - 1);
        match projection_of(records[n - 1], n - 1) {
            Some(projection) => earlier.push(projection),
            None => earlier,
        }
    }
}

/// Whether `projection` describes the record it points at.
pub open spec fn projection_matches(
    records: Seq<BoundedSummaryRecord>,
    projection: SummaryDefinitionProjectionRecord,
) -> bool {
    match projection {
        SummaryDefinitionProjectionRecord::Schema { id, record_index } => record_index
            < records.len() && is_schema_with_id(records[record_index as int], id),
        SummaryDefinitionProjectionRecord::Channel { id, record_index } => record_index
            < records.len() && is_channel_with_id(records[record_index as int], id),
    }
}

/// Every projection points at a record of its kind and id, and the record indices increase.
pub proof fn lemma_projections_match(records: Seq<BoundedSummaryRecord>, n: int)
    requires
        0 <= n <= records.len(),
        records.len() <= usize::MAX,
    ensures
        forall|k: int|
            0 <= k < projections_upto(records, n).len() ==> projection_matches(
                records,
                #[trigger] projections_upto(records, n)[k],
            ),
        forall|k: int|
            0 <= k < projections_upto(records, n).len() ==> projection_index(
                #[trigger] projections_upto(records, n)[k],
            ) < n,
        forall|j: int, k: int|
            0 <= j < k < projections_upto(records, n).len() ==> projection_index(
                #[trigger] projections_upto(records, n)[j],
            ) < projection_index(#[trigger] projections_upto(records, n)[k]),
    decreases n,
{
    if n > 0 {
        lemma_projections_match(records, n - 1);
        let earlier = projections_upto(records, n - 1);
        let all = projections_upto(records, n);
        assert forall|k: int| 0 <= k < all.len() implies projection_matches(records, #[trigger] all[k])
            && projection_index(all[k]) < n by {
            if k < earlier.len() {
                assert(all[k] == earlier[k]);
            }
        }
        assert forall|j: int, k: int|
            0 <= j < k < all.len() implies projection_index(#[trigger] all[j]) < projection_index(
            #[trigger] all[k],
        ) by {
            assert(all[j] == earlier[j]);
            if k < earlier.len() {
                assert(all[k] == earlier[k]);
            }
        }
    }
}

/// The source index a projection points at.
pub open spec fn projection_index(projection: SummaryDefinitionProjectionRecord) -> int {
    match projection {
        SummaryDefinitionProjectionRecord::Schema { record_index, .. } => record_index as int,
        SummaryDefinitionProjectionRecord::Channel { record_index, .. } => record_index as int,
    }
}

/// A passed closure check passes on every suffix.
pub proof fn lemma_schema_closure_suffix(records: Seq<BoundedSummaryRecord>, at: int, later: int)
    requires
        schema_closure(records, at) is Ok,
        0 <= at <= later,
    ensures
        schema_closure(records, later) is Ok,
    decreases later - at,
{
    if at < later && at < records.len() {
        lemma_schema_closure_suffix(records, at + 1, later);
    }
}

/// A canonical Channel with a nonzero schema id references a Summary Schema.
pub proof fn lemma_canonical_channel_schema_exists(records: Seq<BoundedSummaryRecord>, index: int)
    requires
        schema_closure(records, 0) is Ok,
        0 <= index < records.len(),
        records[index] is Known,
        records[index]->Known_0 is Channel,
        channel_lookup(records, channel_of(records[index]).id, index) is None,
        channel_of(records[index]).schema_id != 0,
    ensures
        schema_lookup(records, channel_of(records[index]).schema_id, records.len() as int) is Some,
{
    lemma_schema_closure_suffix(records, 0, index);
}

/// Every Schema or Channel record among the first `n` has its projection among the first `n`
/// projections.
pub proof fn lemma_projection_present(records: Seq<BoundedSummaryRecord>, n: int, index: int)
    requires
        0 <= index < n <= records.len(),
        records.len() <= usize::MAX,
        projection_of(records[index], index) is Some,
    ensures
        exists|k: int|
            0 <= k < projections_upto(records, n).len() && #[trigger] projections_upto(records, n)[k]
                == projection_of(records[index], index)->Some_0,
    decreases n,
{
    let all = projections_upto(records, n);
    if index == n - 1 {
        assert(all[all.len() - 1] == projection_of(records[index], index)->Some_0);
    } else {
        lemma_projection_present(records, n - 1, index);
        let earlier = projections_upto(records, n - 1);
        let k = choose|k: int|
            0 <= k < earlier.len() && #[trigger] earlier[k] == projection_of(
                records[index],
                index,
            )->Some_0;
        assert(all[k] == earlier[k]);
    }
}

/// Validated canonical Summary definitions, with their source records and multiplicity.
///
/// Canonical lookup is a bounded linear walk over the source records: the first Schema or
/// Channel with an id is canonical, and every later one agrees with it.
pub struct ValidatedSummaryDefinitions<'a> {
    materialized: MaterializedSummaryRecords<'a>,
    canonical_schema_count: u64,
    canonical_channel_count: u64,
    projections: Vec<SummaryDefinitionProjectionRecord>,
}

impl<'a> ValidatedSummaryDefinitions<'a> {
    #[verifier::type_invariant]
    spec fn projections_well_formed(self) -> bool {
        &&& self.projections@ == projections_upto(
            self.materialized.spec_records(),
            self.materialized.spec_records().len() as int,
        )
        &&& self.materialized.spec_records().len() <= usize::MAX
        &&& summary_definitions_check(self.materialized.spec_records()) == Ok::<
            (u64, u64),
            DefinitionConsistencyError,
        >((self.canonical_schema_count, self.canonical_channel_count))
    }

    pub closed spec fn spec_materialized(&self) -> MaterializedSummaryRecords<'a> {
        self.materialized
    }

    pub open spec fn spec_records(&self) -> Seq<BoundedSummaryRecord> {
        self.spec_materialized().spec_records()
    }

    pub closed spec fn spec_canonical_schema_count(&self) -> u64 {
        self.canonical_schema_count
    }

    pub closed spec fn spec_canonical_channel_count(&self) -> u64 {
        self.canonical_channel_count
    }

    /// The Schema and Channel records in source order.
    pub open spec fn spec_projections(&self) -> Seq<SummaryDefinitionProjectionRecord> {
        projections_upto(self.spec_records(), self.spec_records().len() as int)
    }

    pub fn materialized(&self) -> (materialized: &MaterializedSummaryRecords<'a>)
        ensures
            *materialized == self.spec_materialized(),
    {
        &self.materialized
    }

    pub fn canonical_schema_count(&self) -> (count: u64)
        ensures
            count == self.spec_canonical_schema_count(),
    {
        self.canonical_schema_count
    }

    pub fn canonical_channel_count(&self) -> (count: u64)
        ensures
            count == self.spec_canonical_channel_count(),
    {
        self.canonical_channel_count
    }

    /// The Schema and Channel records in source order; the records passed validation.
    pub fn projection_records(&self) -> (projections: &[SummaryDefinitionProjectionRecord])
        ensures
            projections@ == self.spec_projections(),
            self.spec_records().len() <= usize::MAX,
            summary_definitions_check(self.spec_records()) is Ok,
    {
        proof {
            use_type_invariant(self);
        }
        self.projections.as_slice()
    }

    /// The number of source records.
    pub fn source_record_count(&self) -> (count: usize)
        ensures
            count == self.spec_records().len(),
            summary_definitions_check(self.spec_records()) is Ok,
    {
        proof {
            use_type_invariant(self);
        }
        self.materialized.records().len()
    }

    /// The projection of the record at `record_index`, if it is a Schema or a Channel.
    pub fn projection_record_at(&self, record_index: usize) -> (projection: Option<
        SummaryDefinitionProjectionRecord,
    >)
        ensures
            record_index < self.spec_records().len() ==> projection == projection_of(
                self.spec_records()[record_index as int],
                record_index as int,
            ),
            record_index >= self.spec_records().len() ==> projection is None,
    {
        let records = self.materialized.records();
        if record_index >= records.len() {
            return None;
        }
        match &records[record_index] {
            BoundedSummaryRecord::Known(ParsedMcapRecordV1::Schema(schema)) => Some(
                SummaryDefinitionProjectionRecord::Schema { id: schema.id, record_index },
            ),
            BoundedSummaryRecord::Known(ParsedMcapRecordV1::Channel(channel)) => Some(
                SummaryDefinitionProjectionRecord::Channel { id: channel.id, record_index },
            ),
            _ => None,
        }
    }

    /// The canonical Schema with id `id`.
    pub fn schema(&self, id: u16) -> (found: Option<&SchemaRecordV1>)
        ensures
            match schema_lookup(self.spec_records(), id, self.spec_records().len() as int) {
                Some(index) => found matches Some(schema) && *schema == schema_of(
                    self.spec_records()[index],
                ),
                None => found is None,
            },
    {
        let records = self.materialized.records();
        find_schema(records, id, records.len())
    }

    /// The canonical Channel with id `id`.
    pub fn channel(&self, id: u16) -> (found: Option<&ChannelRecordV1>)
        ensures
            match channel_lookup(self.spec_records(), id, self.spec_records().len() as int) {
                Some(index) => found matches Some(channel) && *channel == channel_of(
                    self.spec_records()[index],
                ),
                None => found is None,
            },
    {
        let records = self.materialized.records();
        find_channel(records, id, records.len())
    }

    /// The Schema held by the record at `record_index`, if that record is a Schema.
    pub fn schema_at_record(&self, record_index: usize) -> (found: Option<&SchemaRecordV1>)
        ensures
            found is Some <==> (record_index < self.spec_records().len()
                && self.spec_records()[record_index as int] is Known
                && self.spec_records()[record_index as int]->Known_0 is Schema),
            found matches Some(schema) ==> *schema == schema_of(self.spec_records()[record_index as int]),
    {
        let records = self.materialized.records();
        if record_index >= records.len() {
            return None;
        }
        match &records[record_index] {
            BoundedSummaryRecord::Known(ParsedMcapRecordV1::Schema(schema)) => Some(schema),
            _ => None,
        }
    }

    /// The Channel held by the record at `record_index`, if that record is a Channel.
    pub fn channel_at_record(&self, record_index: usize) -> (found: Option<&ChannelRecordV1>)
        ensures
            found is Some <==> (record_index < self.spec_records().len()
                && self.spec_records()[record_index as int] is Known
                && self.spec_records()[record_index as int]->Known_0 is Channel),
            found matches Some(channel) ==> *channel == channel_of(self.spec_records()[record_index as int]),
    {
        let records = self.materialized.records();
        if record_index >= records.len() {
            return None;
        }
        match &records[record_index] {
            BoundedSummaryRecord::Known(ParsedMcapRecordV1::Channel(channel)) => Some(channel),
            _ => None,
        }
    }
}

/// Validates and logically canonicalizes all materialized Summary Schema and Channel records,
/// then checks that every canonical Channel and every Chunk Index references only definitions
/// present in the Summary.
pub fn validate_summary_definitions<'a>(materialized: MaterializedSummaryRecords<'a>) -> (result:
    Result<ValidatedSummaryDefinitions<'a>, DefinitionConsistencyError>)
    ensures
        match summary_definitions_check(materialized.spec_records()) {
            Ok((schemas, channels)) => result matches Ok(validated) && validated.spec_materialized()
                == materialized && validated.spec_canonical_schema_count() == schemas
                && validated.spec_canonical_channel_count() == channels,
            Err(error) => result matches Err(e) && e == error,
        },
{
    let records = materialized.records();
    let ghost all = records@;
    let mut canonical_schema_count: u64 = 0;
    let mut canonical_channel_count: u64 = 0;
    let mut projections: Vec<SummaryDefinitionProjectionRecord> = Vec::new();
    let mut source_index: usize = 0;
    while source_index < records.len()
        invariant
            all == records@,
            records@ == materialized.spec_records(),
            source_index <= records@.len(),
            projections@ == projections_upto(records@, source_index as int),
            definition_counts(records@, 0, 0, 0) == definition_counts(
                records@,
                source_index as int,
                canonical_schema_count,
                canonical_channel_count,
            ),
        decreases records@.len() - source_index,
    {
        match &records[source_index] {
            BoundedSummaryRecord::Known(ParsedMcapRecordV1::Schema(schema)) => {
                match find_schema(records, schema.id, source_index) {
                    Some(previous) => {
                        if !schema_definitions_agree(previous, schema) {
                            return Err(DefinitionConsistencyError::ConflictingSchemaDefinition);
                        }
                    },
                    None => {
                        if canonical_schema_count == u64::MAX {
                            return Err(DefinitionConsistencyError::DefinitionCountOverflow);
                        }
                        canonical_schema_count = canonical_schema_count + 1;
                    },
                }
                projections.push(
                    SummaryDefinitionProjectionRecord::Schema {
                        id: schema.id,
                        record_index: source_index,
                    },
                );
            },
            BoundedSummaryRecord::Known(ParsedMcapRecordV1::Channel(channel)) => {
                match find_channel(records, channel.id, source_index) {
                    Some(previous) => {
                        if !channels_equal(previous, channel) {
                            return Err(DefinitionConsistencyError::ConflictingChannelDefinition);
                        }
                    },
                    None => {
                        if canonical_channel_count == u64::MAX {
                            return Err(DefinitionConsistencyError::DefinitionCountOverflow);
                        }
                        canonical_channel_count = canonical_channel_count + 1;
                    },
                }
                projections.push(
                    SummaryDefinitionProjectionRecord::Channel {
                        id: channel.id,
                        record_index: source_index,
                    },
                );
            },
            _ => {},
        }
        source_index = source_index + 1;
    }
    let mut source_index: usize = 0;
    while source_index < records.len()
        invariant
            records@ == materialized.spec_records(),
            projections@ == projections_upto(records@, records@.len() as int),
            definition_counts(records@, 0, 0, 0) == Ok::<(u64, u64), DefinitionConsistencyError>(
                (canonical_schema_count, canonical_channel_count),
            ),
            source_index <= records@.len(),
            schema_closure(records@, 0) == schema_closure(records@, source_index as int),
        decreases records@.len() - source_index,
    {
        match &records[source_index] {
            BoundedSummaryRecord::Known(ParsedMcapRecordV1::Channel(channel)) => {
                if find_channel(records, channel.id, source_index).is_none() {
                    if channel.schema_id != 0 && find_schema(
                        records,
                        channel.schema_id,
                        records.len(),
                    ).is_none() {
                        return Err(DefinitionConsistencyError::MissingReferencedSchema);
                    }
                }
            },
            _ => {},
        }
        source_index = source_index + 1;
    }
    let mut source_index: usize = 0;
    while source_index < records.len()
        invariant
            records@ == materialized.spec_records(),
            projections@ == projections_upto(records@, records@.len() as int),
            definition_counts(records@, 0, 0, 0) == Ok::<(u64, u64), DefinitionConsistencyError>(
                (canonical_schema_count, canonical_channel_count),
            ),
            schema_closure(records@, 0) == Ok::<(), DefinitionConsistencyError>(()),
            source_index <= records@.len(),
            chunk_index_closure(records@, 0) == chunk_index_closure(records@, source_index as int),
        decreases records@.len() - source_index,
    {
        match &records[source_index] {
            BoundedSummaryRecord::Known(ParsedMcapRecordV1::ChunkIndex(index)) => {
                let offsets = &index.message_index_offsets;
                let mut k: usize = 0;
                while k < offsets.len()
                    invariant
                        records@ == materialized.spec_records(),
                        definition_counts(records@, 0, 0, 0) == Ok::<
                            (u64, u64),
                            DefinitionConsistencyError,
                        >((canonical_schema_count, canonical_channel_count)),
                        schema_closure(records@, 0) == Ok::<(), DefinitionConsistencyError>(()),
                        source_index < records@.len(),
                        records@[source_index as int] matches BoundedSummaryRecord::Known(
                            ParsedMcapRecordV1::ChunkIndex(i),
                        ) && i.message_index_offsets@ == offsets@,
                        chunk_index_closure(records@, 0) == chunk_index_closure(
                            records@,
                            source_index as int,
                        ),
                        k <= offsets@.len(),
                        offsets_closure(records@, offsets@, 0) == offsets_closure(
                            records@,
                            offsets@,
                            k as int,
                        ),
                    decreases offsets@.len() - k,
                {
                    if find_channel(records, offsets[k].0, records.len()).is_none() {
                        return Err(DefinitionConsistencyError::MissingMessageIndexChannel);
                    }
                    k = k + 1;
                }
            },
            _ => {},
        }
        source_index = source_index + 1;
    }
    Ok(
        ValidatedSummaryDefinitions {
            materialized,
            canonical_schema_count,
            canonical_channel_count,
            projections,
        },
    )
}


/// Evidence that an `Other` Chunk event carries no Schema, Channel or Message opcode.
///
/// This only guards event routing; whether the opcode is otherwise legal in a Chunk is not
/// decided here.
#[derive(Debug, PartialEq, Eq, Structural)]
pub struct NonDefinitionChunkRecord {
    opcode: u8,
}

/// Whether `opcode` is one of the definition or Message opcodes.
pub open spec fn is_definition_opcode(opcode: u8) -> bool {
    opcode == OP_SCHEMA || opcode == OP_CHANNEL || opcode == OP_MESSAGE
}

impl NonDefinitionChunkRecord {
    pub closed spec fn spec_opcode(&self) -> u8 {
        self.opcode
    }

    pub fn try_from_opcode(opcode: u8) -> (result: Result<Self, DefinitionConsistencyError>)
        ensures
            is_definition_opcode(opcode) ==> (result matches Err(e) && e
                == DefinitionConsistencyError::DefinitionRecordMisroutedAsOther),
            !is_definition_opcode(opcode) ==> (result matches Ok(record) && record.spec_opcode()
                == opcode),
    {
        if opcode == OP_SCHEMA || opcode == OP_CHANNEL || opcode == OP_MESSAGE {
            return Err(DefinitionConsistencyError::DefinitionRecordMisroutedAsOther);
        }
        Ok(NonDefinitionChunkRecord { opcode })
    }
}

/// One classified semantic event of a Chunk.
pub enum ChunkDefinitionEvent<'record> {
    Schema(&'record SchemaRecordV1),
    Channel(&'record ChannelRecordV1),
    Message { channel_id: u16 },
    Other(NonDefinitionChunkRecord),
}

/// The accumulator state: observations, Message references and the first failure.
#[derive(Clone, Copy, Debug, PartialEq, Eq, Structural)]
pub struct AccumulatorState {
    pub observations_seen: u64,
    pub messages_seen: u64,
    pub first_error: Option<DefinitionConsistencyError>,
}

/// The state after `error` is recorded: a recorded failure stays the first one.
pub open spec fn failed(state: AccumulatorState, error: DefinitionConsistencyError) -> AccumulatorState {
    match state.first_error {
        Some(_) => state,
        None => AccumulatorState { first_error: Some(error), ..state },
    }
}

/// The state after one event is observed against the Summary records.
pub open spec fn observed_state(
    records: Seq<BoundedSummaryRecord>,
    state: AccumulatorState,
    event: ChunkDefinitionEvent,
) -> AccumulatorState {
    if state.first_error is Some {
        state
    } else if state.observations_seen + 1 > u64::MAX {
        failed(state, DefinitionConsistencyError::DefinitionCountOverflow)
    } else {
        let begun = AccumulatorState {
            observations_seen: (state.observations_seen + 1) as u64,
            ..state
        };
        match event {
            ChunkDefinitionEvent::Schema(schema) => match schema_lookup(
                records,
                schema.id,
                records.len() as int,
            ) {
                Some(index) => if !same_schema_definition(schema_of(records[index]), *schema) {
                    failed(begun, DefinitionConsistencyError::ConflictingSchemaDefinition)
                } else {
                    begun
                },
                None => begun,
            },
            ChunkDefinitionEvent::Channel(channel) => match channel_lookup(
                records,
                channel.id,
                records.len() as int,
            ) {
                Some(index) => if !same_channel(channel_of(records[index]), *channel) {
                    failed(begun, DefinitionConsistencyError::ConflictingChannelDefinition)
                } else {
                    begun
                },
                None => begun,
            },
            ChunkDefinitionEvent::Message { channel_id } => if begun.messages_seen + 1
                > u64::MAX {
                failed(begun, DefinitionConsistencyError::DefinitionCountOverflow)
            } else {
                let counted = AccumulatorState {
                    messages_seen: (begun.messages_seen + 1) as u64,
                    ..begun
                };
                if channel_lookup(records, channel_id, records.len() as int) is None {
                    failed(counted, DefinitionConsistencyError::UnknownReferencedChannel)
                } else {
                    counted
                }
            },
            ChunkDefinitionEvent::Other(_) => begun,
        }
    }
}

/// Reference-driven accumulator of Chunk-local definitions and Message references.
///
/// It has no Chunk identity or exhaustion evidence: its result is no validation or
/// publication capability by itself.
pub struct ChunkDefinitionAccumulator<'summary, 'input> {
    summary: &'summary ValidatedSummaryDefinitions<'input>,
    observations_seen: u64,
    messages_seen: u64,
    first_error: Option<DefinitionConsistencyError>,
}

impl<'summary, 'input> ChunkDefinitionAccumulator<'summary, 'input> {
    pub closed spec fn spec_summary(&self) -> &'summary ValidatedSummaryDefinitions<'input> {
        self.summary
    }

    pub closed spec fn spec_state(&self) -> AccumulatorState {
        AccumulatorState {
            observations_seen: self.observations_seen,
            messages_seen: self.messages_seen,
            first_error: self.first_error,
        }
    }

    pub fn new(summary: &'summary ValidatedSummaryDefinitions<'input>) -> (accumulator: Self)
        ensures
            accumulator.spec_summary() == summary,
            accumulator.spec_state() == (AccumulatorState {
                observations_seen: 0,
                messages_seen: 0,
                first_error: None,
            }),
    {
        ChunkDefinitionAccumulator { summary, observations_seen: 0, messages_seen: 0, first_error: None }
    }

    /// Observes one event. A failure is sticky: every later observation returns it.
    pub fn observe(&mut self, event: ChunkDefinitionEvent<'_>) -> (result: Result<
        (),
        DefinitionConsistencyError,
    >)
        ensures
            final(self).spec_summary() == old(self).spec_summary(),
            final(self).spec_state() == observed_state(
                old(self).spec_summary().spec_records(),
                old(self).spec_state(),
                event,
            ),
            match final(self).spec_state().first_error {
                Some(error) => result == Err::<(), DefinitionConsistencyError>(error),
                None => result is Ok,
            },
    {
        self.begin_observation()?;
        match event {
            ChunkDefinitionEvent::Schema(schema) => self.observe_schema(schema),
            ChunkDefinitionEvent::Channel(channel) => self.observe_channel(channel),
            ChunkDefinitionEvent::Message { channel_id } => self.observe_message(channel_id),
            ChunkDefinitionEvent::Other(_) => Ok(()),
        }
    }

    fn begin_observation(&mut self) -> (result: Result<(), DefinitionConsistencyError>)
        ensures
            final(self).spec_summary() == old(self).spec_summary(),
            old(self).spec_state().first_error matches Some(error) ==> result == Err::<
                (),
                DefinitionConsistencyError,
            >(error) && final(self).spec_state() == old(self).spec_state(),
            old(self).spec_state().first_error is None && old(self).spec_state().observations_seen
                == u64::MAX ==> result == Err::<(), DefinitionConsistencyError>(
                DefinitionConsistencyError::DefinitionCountOverflow,
            ) && final(self).spec_state() == failed(
                old(self).spec_state(),
                DefinitionConsistencyError::DefinitionCountOverflow,
            ),
            old(self).spec_state().first_error is None && old(self).spec_state().observations_seen
                < u64::MAX ==> result is Ok && final(self).spec_state() == (AccumulatorState {
                observations_seen: (old(self).spec_state().observations_seen + 1) as u64,
                ..old(self).spec_state()
            }),
    {
        if let Some(error) = self.first_error {
            return Err(error);
        }
        if self.observations_seen == u64::MAX {
            return self.fail(DefinitionConsistencyError::DefinitionCountOverflow);
        }
        self.observations_seen = self.observations_seen + 1;
        Ok(())
    }

    fn observe_schema(&mut self, schema: &SchemaRecordV1) -> (result: Result<
        (),
        DefinitionConsistencyError,
    >)
        requires
            old(self).spec_state().first_error is None,
        ensures
            final(self).spec_summary() == old(self).spec_summary(),
            ({
                let records = old(self).spec_summary().spec_records();
                match schema_lookup(records, schema.id, records.len() as int) {
                    Some(index) => if !same_schema_definition(schema_of(records[index]), *schema) {
                        result == Err::<(), DefinitionConsistencyError>(
                            DefinitionConsistencyError::ConflictingSchemaDefinition,
                        ) && final(self).spec_state() == failed(
                            old(self).spec_state(),
                            DefinitionConsistencyError::ConflictingSchemaDefinition,
                        )
                    } else {
                        result is Ok && final(self).spec_state() == old(self).spec_state()
                    },
                    None => result is Ok && final(self).spec_state() == old(self).spec_state(),
                }
            }),
    {
        match self.summary.schema(schema.id) {
            None => Ok(()),
            Some(summary) => {
                if !schema_definitions_agree(summary, schema) {
                    return self.fail(DefinitionConsistencyError::ConflictingSchemaDefinition);
                }
                Ok(())
            },
        }
    }

    fn observe_channel(&mut self, channel: &ChannelRecordV1) -> (result: Result<
        (),
        DefinitionConsistencyError,
    >)
        requires
            old(self).spec_state().first_error is None,
        ensures
            final(self).spec_summary() == old(self).spec_summary(),
            ({
                let records = old(self).spec_summary().spec_records();
                match channel_lookup(records, channel.id, records.len() as int) {
                    Some(index) => if !same_channel(channel_of(records[index]), *channel) {
                        result == Err::<(), DefinitionConsistencyError>(
                            DefinitionConsistencyError::ConflictingChannelDefinition,
                        ) && final(self).spec_state() == failed(
                            old(self).spec_state(),
                            DefinitionConsistencyError::ConflictingChannelDefinition,
                        )
                    } else {
                        result is Ok && final(self).spec_state() == old(self).spec_state()
                    },
                    None => result is Ok && final(self).spec_state() == old(self).spec_state(),
                }
            }),
    {
        match self.summary.channel(channel.id) {
            None => Ok(()),
            Some(summary) => {
                if !channels_equal(summary, channel) {
                    return self.fail(DefinitionConsistencyError::ConflictingChannelDefinition);
                }
                Ok(())
            },
        }
    }

    fn observe_message(&mut self, channel_id: u16) -> (result: Result<
        (),
        DefinitionConsistencyError,
    >)
        requires
            old(self).spec_state().first_error is None,
        ensures
            final(self).spec_summary() == old(self).spec_summary(),
            ({
                let records = old(self).spec_summary().spec_records();
                let state = old(self).spec_state();
                if state.messages_seen == u64::MAX {
                    result == Err::<(), DefinitionConsistencyError>(
                        DefinitionConsistencyError::DefinitionCountOverflow,
                    ) && final(self).spec_state() == failed(
                        state,
                        DefinitionConsistencyError::DefinitionCountOverflow,
                    )
                } else {
                    let counted = AccumulatorState {
                        messages_seen: (state.messages_seen + 1) as u64,
                        ..state
                    };
                    if channel_lookup(records, channel_id, records.len() as int) is None {
                        result == Err::<(), DefinitionConsistencyError>(
                            DefinitionConsistencyError::UnknownReferencedChannel,
                        ) && final(self).spec_state() == failed(
                            counted,
                            DefinitionConsistencyError::UnknownReferencedChannel,
                        )
                    } else {
                        result is Ok && final(self).spec_state() == counted
                    }
                }
            }),
    {
        if self.messages_seen == u64::MAX {
            return self.fail(DefinitionConsistencyError::DefinitionCountOverflow);
        }
        self.messages_seen = self.messages_seen + 1;
        if self.summary.channel(channel_id).is_none() {
            return self.fail(DefinitionConsistencyError::UnknownReferencedChannel);
        }
        Ok(())
    }

    /// Records `error` unless a failure is already recorded, and returns the recorded one.
    fn fail(&mut self, error: DefinitionConsistencyError) -> (result: Result<
        (),
        DefinitionConsistencyError,
    >)
        ensures
            final(self).spec_summary() == old(self).spec_summary(),
            final(self).spec_state() == failed(old(self).spec_state(), error),
            result == Err::<(), DefinitionConsistencyError>(
                final(self).spec_state().first_error->Some_0,
            ),
    {
        match self.first_error {
            Some(first) => Err(first),
            None => {
                self.first_error = Some(error);
                Err(error)
            },
        }
    }

    /// The semantic summary of the observed events, or the first recorded failure.
    pub fn finish(self) -> (result: Result<
        ChunkDefinitionSemanticSummary<'summary, 'input>,
        DefinitionConsistencyError,
    >)
        ensures
            match self.spec_state().first_error {
                Some(error) => result matches Err(e) && e == error,
                None => result matches Ok(summary) && summary.spec_summary()
                    == self.spec_summary() && summary.spec_observations_seen()
                    == self.spec_state().observations_seen && summary.spec_messages_seen()
                    == self.spec_state().messages_seen,
            },
    {
        if let Some(error) = self.first_error {
            return Err(error);
        }
        Ok(
            ChunkDefinitionSemanticSummary {
                summary: self.summary,
                observations_seen: self.observations_seen,
                messages_seen: self.messages_seen,
            },
        )
    }
}

/// Non-authoritative summary of the events observed by one accumulator: it proves neither
/// Chunk identity nor exact exhaustion.
pub struct ChunkDefinitionSemanticSummary<'summary, 'input> {
    summary: &'summary ValidatedSummaryDefinitions<'input>,
    observations_seen: u64,
    messages_seen: u64,
}

impl<'summary, 'input> ChunkDefinitionSemanticSummary<'summary, 'input> {
    pub closed spec fn spec_summary(&self) -> &'summary ValidatedSummaryDefinitions<'input> {
        self.summary
    }

    pub closed spec fn spec_observations_seen(&self) -> u64 {
        self.observations_seen
    }

    pub closed spec fn spec_messages_seen(&self) -> u64 {
        self.messages_seen
    }

    pub fn summary(&self) -> (summary: &'summary ValidatedSummaryDefinitions<'input>)
        ensures
            summary == self.spec_summary(),
    {
        self.summary
    }

    pub fn observations_seen(&self) -> (count: u64)
        ensures
            count == self.spec_observations_seen(),
    {
        self.observations_seen
    }

    pub fn messages_seen(&self) -> (count: u64)
        ensures
            count == self.spec_messages_seen(),
    {
        self.messages_seen
    }
}

/// Whether every canonical Channel from record `at` on that names a Schema names one of the
/// Summary.
pub open spec fn referenced_schemas_present(records: Seq<BoundedSummaryRecord>, at: int) -> bool {
    forall|i: int|
        at <= i < records.len() ==> (#[trigger] records[i] matches BoundedSummaryRecord::Known(
            ParsedMcapRecordV1::Channel(channel),
        ) ==> (channel_lookup(records, channel.id, i) is None && channel.schema_id != 0
            ==> schema_lookup(records, channel.schema_id, records.len() as int) is Some))
}

/// Whether every channel key of every Chunk Index from record `at` on names a Summary Channel.
pub open spec fn offset_channels_present(records: Seq<BoundedSummaryRecord>, at: int) -> bool {
    forall|i: int|
        at <= i < records.len() ==> (#[trigger] records[i] matches BoundedSummaryRecord::Known(
            ParsedMcapRecordV1::ChunkIndex(index),
        ) ==> forall|k: int|
            0 <= k < index.message_index_offsets@.len() ==> channel_lookup(
                records,
                #[trigger] index.message_index_offsets@[k].0,
                records.len() as int,
            ) is Some)
}

/// The Schema closure passes exactly when every canonical Channel that names a Schema names one
/// of the Summary; otherwise it reports the missing referenced Schema.
pub proof fn lemma_schema_closure_exact(records: Seq<BoundedSummaryRecord>, at: int)
    requires
        0 <= at,
    ensures
        schema_closure(records, at) is Ok <==> referenced_schemas_present(records, at),
        schema_closure(records, at) is Err ==> schema_closure(records, at) == Err::<
            (),
            DefinitionConsistencyError,
        >(DefinitionConsistencyError::MissingReferencedSchema),
    decreases records.len() - at,
{
    if at < records.len() {
        lemma_schema_closure_exact(records, at + 1);
        assert(referenced_schemas_present(records, at) ==> referenced_schemas_present(records, at + 1));
    }
}

/// Every channel key of `offsets[k..]` names a Summary Channel exactly when the offset closure
/// passes.
pub proof fn lemma_offsets_closure_exact(
    records: Seq<BoundedSummaryRecord>,
    offsets: Seq<(u16, u64)>,
    k: int,
)
    requires
        0 <= k,
    ensures
        offsets_closure(records, offsets, k) is Ok <==> forall|j: int|
            k <= j < offsets.len() ==> channel_lookup(
                records,
                #[trigger] offsets[j].0,
                records.len() as int,
            ) is Some,
    decreases offsets.len() - k,
{
    if k < offsets.len() {
        lemma_offsets_closure_exact(records, offsets, k + 1);
    }
}

/// The Chunk Index closure passes exactly when every channel key of every Chunk Index names a
/// Summary Channel.
pub proof fn lemma_chunk_index_closure_exact(records: Seq<BoundedSummaryRecord>, at: int)
    requires
        0 <= at,
    ensures
        chunk_index_closure(records, at) is Ok <==> offset_channels_present(records, at),
    decreases records.len() - at,
{
    if at < records.len() {
        lemma_chunk_index_closure_exact(records, at + 1);
        if let BoundedSummaryRecord::Known(ParsedMcapRecordV1::ChunkIndex(index)) = records[at] {
            lemma_offsets_closure_exact(records, index.message_index_offsets@, 0);
        }
        assert(offset_channels_present(records, at) ==> offset_channels_present(records, at + 1));
    }
}

/// Validated definitions name only Schemas and Channels of the Summary: the definition check
/// passes only where every canonical Channel that names a Schema names one of the Summary and
/// every Chunk Index channel key names a Summary Channel; where the counts pass and a referenced
/// Schema is missing, the result is that violation.
pub proof fn lemma_summary_definitions_closed(records: Seq<BoundedSummaryRecord>)
    ensures
        summary_definitions_check(records) is Ok ==> referenced_schemas_present(records, 0)
            && offset_channels_present(records, 0),
        definition_counts(records, 0, 0, 0) is Ok && !referenced_schemas_present(records, 0)
            ==> summary_definitions_check(records) == Err::<(u64, u64), DefinitionConsistencyError>(
            DefinitionConsistencyError::MissingReferencedSchema,
        ),
        definition_counts(records, 0, 0, 0) is Ok && referenced_schemas_present(records, 0)
            && !offset_channels_present(records, 0) ==> summary_definitions_check(records) is Err,
{
    lemma_schema_closure_exact(records, 0);
    lemma_chunk_index_closure_exact(records, 0);
}

} // verus!
