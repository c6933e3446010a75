//! Sealed typed output descriptors for the remote MCAP dispatch stage: the scalar field
//! contracts, the protobuf descriptor tables, and the census and retained metadata bytes that the
//! dispatch stage charges for them.
use crate::remote_ros2_reflection::admission::string_bytes;
use crate::remote_time::RemoteMcapTimeType;
use vstd::prelude::*;

verus! {

/// The decoder family that produced a typed output.
#[derive(Clone, Copy, Debug, PartialEq, Eq, Structural)]
pub enum RemoteTypedOutputKindV1 {
    Ros2Reflection,
    Protobuf,
}

/// The scalar type of one typed output field.
#[derive(Clone, Copy, Debug, PartialEq, Eq, Structural)]
pub enum RemoteTypedScalarKindV1 {
    Int8,
    Int16,
    Int32,
    Int64,
    UInt8,
    UInt16,
    UInt32,
    UInt64,
    Float32,
    Float64,
    Bool,
}

/// One scalar field of a typed output: its wire tag, its scalar kind and its name.
#[derive(Debug)]
pub struct RemoteTypedFieldContractV1 {
    tag: u32,
    kind: RemoteTypedScalarKindV1,
    name: String,
}

impl RemoteTypedFieldContractV1 {
    pub closed spec fn spec_tag(&self) -> u32 {
        self.tag
    }

    pub closed spec fn spec_kind(&self) -> RemoteTypedScalarKindV1 {
        self.kind
    }

    pub closed spec fn spec_name(&self) -> Seq<char> {
        self.name@
    }

    /// The UTF-8 byte length of the name.
    pub closed spec fn spec_name_bytes(&self) -> nat {
        string_bytes(self.name).len()
    }

    pub fn new(tag: u32, kind: RemoteTypedScalarKindV1, name: String) -> (field: Self)
        ensures
            field.spec_tag() == tag,
            field.spec_kind() == kind,
            field.spec_name() == name@,
    {
        RemoteTypedFieldContractV1 { tag, kind, name }
    }

    pub fn name_v1(&self) -> (name: &str)
        ensures
            name@ == self.spec_name(),
    {
        self.name.as_str()
    }

    pub fn kind_v1(&self) -> (kind: RemoteTypedScalarKindV1)
        ensures
            kind == self.spec_kind(),
    {
        self.kind
    }
}

/// The protobuf field kinds; enums, messages and maps carry their table index.
#[derive(Clone, Copy, Debug, PartialEq, Eq, Structural)]
pub enum RemoteTypedProtobufKindV1 {
    Double,
    Float,
    Int64,
    UInt64,
    Int32,
    Fixed64,
    Fixed32,
    Bool,
    String,
    Bytes,
    UInt32,
    Enum(u32),
    Message(u32),
    MapField(u32),
    SFixed32,
    SFixed64,
    SInt32,
    SInt64,
}

/// One protobuf oneof: its owning message, its index, its name and whether it is synthetic.
#[derive(Debug)]
pub struct RemoteTypedProtobufOneofV1 {
    pub owner_message: u32,
    pub index: u32,
    pub name: String,
    pub synthetic: bool,
}

/// One value of a protobuf enum.
#[derive(Debug)]
pub struct RemoteTypedProtobufEnumValueV1 {
    pub number: i32,
    pub name: String,
}

/// One protobuf enum table.
#[derive(Debug)]
pub struct RemoteTypedProtobufEnumV1 {
    pub index: u32,
    pub values: Vec<RemoteTypedProtobufEnumValueV1>,
}

/// The census of a protobuf descriptor's tables.
#[derive(Clone, Copy, Debug, PartialEq, Eq, Structural)]
pub struct RemoteTypedProtobufCensusV1 {
    pub fields: u64,
    pub repeated_fields: u64,
    pub message_fields: u64,
    pub map_fields: u64,
    pub real_oneofs: u64,
    pub enum_fields: u64,
    pub enum_values: u64,
}

/// One protobuf field of a typed output.
#[derive(Debug)]
pub struct RemoteTypedProtobufFieldV1 {
    pub owner_message: u32,
    pub tag: u32,
    pub name: String,
    pub kind: RemoteTypedProtobufKindV1,
    pub nullable: bool,
    pub supports_presence: bool,
    pub repeated: bool,
    pub oneof_index: Option<u32>,
    pub proto3_optional: bool,
    pub packed: Option<bool>,
    pub default: Option<Vec<u8>>,
}

/// The component that a typed output writes: its name, and its archetype and component type
/// where it has them.
#[derive(Debug)]
pub struct RemoteTypedComponentV1 {
    pub component: String,
    pub archetype: Option<String>,
    pub component_type: Option<String>,
}

/// The domain values of a typed output: the raw entity path, the component and the two
/// message timelines.
#[derive(Debug)]
pub struct RemoteTypedDomainOutputV1 {
    pub entity_path_raw: String,
    pub component: RemoteTypedComponentV1,
    pub timeline_log_time: String,
    pub timeline_publish_time: String,
}

/// A move-only typed output descriptor: what one channel's decoder produces and where it
/// writes it.
pub struct RemoteTypedOutputDescriptorV1 {
    channel_id: u16,
    kind: RemoteTypedOutputKindV1,
    config_digest: [u8; 16],
    schema_handle: u16,
    fields: Vec<RemoteTypedFieldContractV1>,
    protobuf_fields: Vec<RemoteTypedProtobufFieldV1>,
    protobuf_oneofs: Vec<RemoteTypedProtobufOneofV1>,
    protobuf_enums: Vec<RemoteTypedProtobufEnumV1>,
    protobuf_root_message: Option<u32>,
    domain: RemoteTypedDomainOutputV1,
    time_type: RemoteMcapTimeType,
}

/// The sum of a sequence of byte counts.
pub open spec fn nat_sum(terms: Seq<nat>) -> nat
    decreases terms.len(),
{
    if terms.len() == 0 {
        0
    } else {
        nat_sum(terms.drop_last()) + terms.last()
    }
}

proof fn lemma_nat_sum_step(terms: Seq<nat>, k: int)
    requires
        0 <= k < terms.len(),
    ensures
        nat_sum(terms.take(k + 1)) == nat_sum(terms.take(k)) + terms[k],
{
    assert(terms.take(k + 1).drop_last() =~= terms.take(k));
}

proof fn lemma_nat_sum_prefix(terms: Seq<nat>, k: int)
    requires
        0 <= k <= terms.len(),
    ensures
        nat_sum(terms.take(k)) <= nat_sum(terms),
    decreases terms.len() - k,
{
    if k < terms.len() {
        lemma_nat_sum_step(terms, k);
        lemma_nat_sum_prefix(terms, k + 1);
    } else {
        assert(terms.take(k) =~= terms);
    }
}

/// How many items satisfy `matching`.
pub open spec fn count_matching<T>(items: Seq<T>, matching: spec_fn(T) -> bool) -> nat
    decreases items.len(),
{
    if items.len() == 0 {
        0
    } else {
        count_matching(items.drop_last(), matching) + if matching(items.last()) {
            1nat
        } else {
            0nat
        }
    }
}

proof fn lemma_count_matching_step<T>(items: Seq<T>, matching: spec_fn(T) -> bool, k: int)
    requires
        0 <= k < items.len(),
    ensures
        count_matching(items.take(k + 1), matching) == count_matching(items.take(k), matching) + if matching(items[k]) {
            1nat
        } else {
            0nat
        },
        count_matching(items.take(k), matching) <= k,
    decreases k,
{
    assert(items.take(k + 1).drop_last() =~= items.take(k));
    if k > 0 {
        lemma_count_matching_step(items, matching, k - 1);
    }
}

/// The UTF-8 byte lengths of the scalar field names.
pub open spec fn field_name_bytes(fields: Seq<RemoteTypedFieldContractV1>) -> Seq<nat> {
    fields.map_values(|field: RemoteTypedFieldContractV1| field.spec_name_bytes())
}

/// The bytes that one protobuf field retains: its name and its default value.
pub open spec fn protobuf_field_bytes(field: RemoteTypedProtobufFieldV1) -> nat {
    string_bytes(field.name).len() + match field.default {
        Some(default) => default@.len(),
        None => 0nat,
    }
}

/// The UTF-8 byte lengths of the oneof names.
pub open spec fn oneof_name_bytes(oneofs: Seq<RemoteTypedProtobufOneofV1>) -> Seq<nat> {
    oneofs.map_values(|oneof: RemoteTypedProtobufOneofV1| string_bytes(oneof.name).len())
}

/// The UTF-8 byte lengths of one enum's value names.
pub open spec fn enum_value_name_bytes(values: Seq<RemoteTypedProtobufEnumValueV1>) -> Seq<nat> {
    values.map_values(|value: RemoteTypedProtobufEnumValueV1| string_bytes(value.name).len())
}

/// The UTF-8 bytes of an optional name.
pub open spec fn optional_name_bytes(name: Option<String>) -> nat {
    match name {
        Some(name) => string_bytes(name).len(),
        None => 0,
    }
}

/// The bytes each protobuf field retains.
pub open spec fn protobuf_field_terms(fields: Seq<RemoteTypedProtobufFieldV1>) -> Seq<nat> {
    fields.map_values(|field: RemoteTypedProtobufFieldV1| protobuf_field_bytes(field))
}

/// The value-name bytes each enum retains.
pub open spec fn enum_terms(enums: Seq<RemoteTypedProtobufEnumV1>) -> Seq<nat> {
    enums.map_values(
        |enumeration: RemoteTypedProtobufEnumV1| nat_sum(enum_value_name_bytes(enumeration.values@)),
    )
}

/// The `u64` that `value` is, or `None` where it does not fit.
pub open spec fn fitting_u64(value: nat) -> Option<u64> {
    if value > u64::MAX {
        None
    } else {
        Some(value as u64)
    }
}

impl RemoteTypedOutputDescriptorV1 {
    pub closed spec fn spec_channel_id(&self) -> u16 {
        self.channel_id
    }

    pub closed spec fn spec_kind(&self) -> RemoteTypedOutputKindV1 {
        self.kind
    }

    pub closed spec fn spec_config_digest(&self) -> [u8; 16] {
        self.config_digest
    }

    pub closed spec fn spec_schema_handle(&self) -> u16 {
        self.schema_handle
    }

    pub closed spec fn spec_fields(&self) -> Seq<RemoteTypedFieldContractV1> {
        self.fields@
    }

    pub closed spec fn spec_protobuf_fields(&self) -> Seq<RemoteTypedProtobufFieldV1> {
        self.protobuf_fields@
    }

    pub closed spec fn spec_protobuf_oneofs(&self) -> Seq<RemoteTypedProtobufOneofV1> {
        self.protobuf_oneofs@
    }

    pub closed spec fn spec_protobuf_enums(&self) -> Seq<RemoteTypedProtobufEnumV1> {
        self.protobuf_enums@
    }

    pub closed spec fn spec_protobuf_root_message(&self) -> Option<u32> {
        self.protobuf_root_message
    }

    pub closed spec fn spec_domain(&self) -> RemoteTypedDomainOutputV1 {
        self.domain
    }

    pub closed spec fn spec_time_type(&self) -> RemoteMcapTimeType {
        self.time_type
    }

    /// The census of the protobuf tables; none for a non-protobuf output or where the enum
    /// values do not fit in a `u64`.
    pub open spec fn spec_protobuf_census(&self) -> Option<RemoteTypedProtobufCensusV1> {
        let fields = self.spec_protobuf_fields();
        let enum_values = nat_sum(
            self.spec_protobuf_enums().map_values(
                |enumeration: RemoteTypedProtobufEnumV1| enumeration.values@.len(),
            ),
        );
        if self.spec_kind() != RemoteTypedOutputKindV1::Protobuf || enum_values > u64::MAX {
            None
        } else {
            Some(
                RemoteTypedProtobufCensusV1 {
                    fields: fields.len() as u64,
                    repeated_fields: count_matching(
                        fields,
                        |field: RemoteTypedProtobufFieldV1| field.repeated,
                    ) as u64,
                    message_fields: count_matching(
                        fields,
                        |field: RemoteTypedProtobufFieldV1| field.kind is Message,
                    ) as u64,
                    map_fields: count_matching(
                        fields,
                        |field: RemoteTypedProtobufFieldV1| field.kind is MapField,
                    ) as u64,
                    real_oneofs: count_matching(
                        self.spec_protobuf_oneofs(),
                        |oneof: RemoteTypedProtobufOneofV1| !oneof.synthetic,
                    ) as u64,
                    enum_fields: count_matching(
                        fields,
                        |field: RemoteTypedProtobufFieldV1| field.kind is Enum,
                    ) as u64,
                    enum_values: enum_values as u64,
                },
            )
        }
    }

    /// The metadata bytes the descriptor retains: the raw entity path, every field, oneof and
    /// enum value name, every default value, and the component's names.
    pub open spec fn spec_retained_metadata_bytes(&self) -> nat {
        let domain = self.spec_domain();
        string_bytes(domain.entity_path_raw).len() + nat_sum(field_name_bytes(self.spec_fields()))
            + nat_sum(protobuf_field_terms(self.spec_protobuf_fields())) + nat_sum(
            oneof_name_bytes(self.spec_protobuf_oneofs()),
        ) + nat_sum(enum_terms(self.spec_protobuf_enums())) + string_bytes(
            domain.component.component,
        ).len() + optional_name_bytes(domain.component.archetype) + optional_name_bytes(
            domain.component.component_type,
        )
    }

    pub fn is_protobuf_v1(&self) -> (protobuf: bool)
        ensures
            protobuf == (self.spec_kind() == RemoteTypedOutputKindV1::Protobuf),
    {
        self.kind == RemoteTypedOutputKindV1::Protobuf
    }

    pub fn channel_id_v1(&self) -> (channel_id: u16)
        ensures
            channel_id == self.spec_channel_id(),
    {
        self.channel_id
    }

    /// Whether some scalar field has tag `tag` and kind `kind`.
    pub fn accepts_field_v1(&self, tag: u32, kind: RemoteTypedScalarKindV1) -> (accepts: bool)
        ensures
            accepts == exists|i: int|
                0 <= i < self.spec_fields().len() && (#[trigger] self.spec_fields()[i]).spec_tag()
                    == tag && self.spec_fields()[i].spec_kind() == kind,
    {
        let mut k: usize = 0;
        while k < self.fields.len()
            invariant
                k <= self.spec_fields().len(),
                forall|i: int|
                    0 <= i < k ==> !((#[trigger] self.spec_fields()[i]).spec_tag() == tag
                        && self.spec_fields()[i].spec_kind() == kind),
            decreases self.spec_fields().len() - k,
        {
            let field = &self.fields[k];
            if field.tag == tag && field.kind == kind {
                return true;
            }
            k = k + 1;
        }
        false
    }

    /// The kind of the first scalar field with tag `tag`.
    pub fn field_kind_v1(&self, tag: u32) -> (kind: Option<RemoteTypedScalarKindV1>)
        ensures
            kind matches Some(found) ==> exists|i: int|
                0 <= i < self.spec_fields().len() && (#[trigger] self.spec_fields()[i]).spec_tag()
                    == tag && self.spec_fields()[i].spec_kind() == found && forall|j: int|
                    0 <= j < i ==> (#[trigger] self.spec_fields()[j]).spec_tag() != tag,
            kind is None ==> forall|i: int|
                0 <= i < self.spec_fields().len() ==> (#[trigger] self.spec_fields()[i]).spec_tag()
                    != tag,
    {
        let mut k: usize = 0;
        while k < self.fields.len()
            invariant
                k <= self.spec_fields().len(),
                forall|i: int| 0 <= i < k ==> (#[trigger] self.spec_fields()[i]).spec_tag() != tag,
            decreases self.spec_fields().len() - k,
        {
            if self.fields[k].tag == tag {
                let found = self.fields[k].kind;
                assert(self.spec_fields()[k as int].spec_tag() == tag);
                return Some(found);
            }
            k = k + 1;
        }
        None
    }

    /// The only scalar field, where there is exactly one.
    pub fn single_field_v1(&self) -> (field: Option<&RemoteTypedFieldContractV1>)
        ensures
            self.spec_fields().len() == 1 ==> field == Some(&self.spec_fields()[0]),
            self.spec_fields().len() != 1 ==> field is None,
    {
        if self.fields.len() == 1 {
            Some(&self.fields[0])
        } else {
            None
        }
    }

    pub fn protobuf_root_message_v1(&self) -> (root: Option<u32>)
        ensures
            root == self.spec_protobuf_root_message(),
    {
        self.protobuf_root_message
    }

    pub fn protobuf_fields_v1(&self) -> (fields: &[RemoteTypedProtobufFieldV1])
        ensures
            fields@ == self.spec_protobuf_fields(),
    {
        self.protobuf_fields.as_slice()
    }

    pub fn protobuf_oneofs_v1(&self) -> (oneofs: &[RemoteTypedProtobufOneofV1])
        ensures
            oneofs@ == self.spec_protobuf_oneofs(),
    {
        self.protobuf_oneofs.as_slice()
    }

    pub fn protobuf_enums_v1(&self) -> (enums: &[RemoteTypedProtobufEnumV1])
        ensures
            enums@ == self.spec_protobuf_enums(),
    {
        self.protobuf_enums.as_slice()
    }

    pub fn entity_path_raw_v1(&self) -> (raw: &str)
        ensures
            raw@ == self.spec_domain().entity_path_raw@,
    {
        self.domain.entity_path_raw.as_str()
    }

    pub fn timeline_log_time_v1(&self) -> (timeline: &str)
        ensures
            timeline@ == self.spec_domain().timeline_log_time@,
    {
        self.domain.timeline_log_time.as_str()
    }

    pub fn timeline_publish_time_v1(&self) -> (timeline: &str)
        ensures
            timeline@ == self.spec_domain().timeline_publish_time@,
    {
        self.domain.timeline_publish_time.as_str()
    }

    pub fn component_v1(&self) -> (component: &RemoteTypedComponentV1)
        ensures
            *component == self.spec_domain().component,
    {
        &self.domain.component
    }

    pub fn time_type_v1(&self) -> (time_type: RemoteMcapTimeType)
        ensures
            time_type == self.spec_time_type(),
    {
        self.time_type
    }

    /// The census of the protobuf tables.
    pub fn protobuf_census_v1(&self) -> (census: Option<RemoteTypedProtobufCensusV1>)
        ensures
            census == self.spec_protobuf_census(),
    {
        if !self.is_protobuf_v1() {
            return None;
        }
        let fields = &self.protobuf_fields;
        let ghost repeated = |field: RemoteTypedProtobufFieldV1| field.repeated;
        let ghost message = |field: RemoteTypedProtobufFieldV1| field.kind is Message;
        let ghost map = |field: RemoteTypedProtobufFieldV1| field.kind is MapField;
        let ghost enumeration = |field: RemoteTypedProtobufFieldV1| field.kind is Enum;
        let mut repeated_fields: u64 = 0;
        let mut message_fields: u64 = 0;
        let mut map_fields: u64 = 0;
        let mut enum_fields: u64 = 0;
        let mut k: usize = 0;
        while k < fields.len()
            invariant
                k <= fields@.len(),
                repeated == |field: RemoteTypedProtobufFieldV1| field.repeated,
                message == |field: RemoteTypedProtobufFieldV1| field.kind is Message,
                map == |field: RemoteTypedProtobufFieldV1| field.kind is MapField,
                enumeration == |field: RemoteTypedProtobufFieldV1| field.kind is Enum,
                repeated_fields == count_matching(fields@.take(k as int), repeated),
                message_fields == count_matching(fields@.take(k as int), message),
                map_fields == count_matching(fields@.take(k as int), map),
                enum_fields == count_matching(fields@.take(k as int), enumeration),
            decreases fields@.len() - k,
        {
            proof {
                lemma_count_matching_step(fields@, repeated, k as int);
                lemma_count_matching_step(fields@, message, k as int);
                lemma_count_matching_step(fields@, map, k as int);
                lemma_count_matching_step(fields@, enumeration, k as int);
            }
            let field = &fields[k];
            if field.repeated {
                repeated_fields = repeated_fields + 1;
            }
            match field.kind {
                RemoteTypedProtobufKindV1::Message(_) => message_fields = message_fields + 1,
                RemoteTypedProtobufKindV1::MapField(_) => map_fields = map_fields + 1,
                RemoteTypedProtobufKindV1::Enum(_) => enum_fields = enum_fields + 1,
                _ => {},
            }
            k = k + 1;
        }
        assert(fields@.take(k as int) =~= fields@);
        let oneofs = &self.protobuf_oneofs;
        let ghost counted_oneof = |oneof: RemoteTypedProtobufOneofV1| !oneof.synthetic;
        let mut real_oneofs: u64 = 0;
        let mut k: usize = 0;
        while k < oneofs.len()
            invariant
                k <= oneofs@.len(),
                counted_oneof == |oneof: RemoteTypedProtobufOneofV1| !oneof.synthetic,
                real_oneofs == count_matching(oneofs@.take(k as int), counted_oneof),
            decreases oneofs@.len() - k,
        {
            proof {
                lemma_count_matching_step(oneofs@, counted_oneof, k as int);
            }
            if !oneofs[k].synthetic {
                real_oneofs = real_oneofs + 1;
            }
            k = k + 1;
        }
        assert(oneofs@.take(k as int) =~= oneofs@);
        let enums = &self.protobuf_enums;
        let ghost value_counts = enums@.map_values(
            |enumeration: RemoteTypedProtobufEnumV1| enumeration.values@.len(),
        );
        let mut enum_values: u64 = 0;
        let mut k: usize = 0;
        while k < enums.len()
            invariant
                k <= enums@.len(),
                self.spec_kind() == RemoteTypedOutputKindV1::Protobuf,
                enums@ == self.spec_protobuf_enums(),
                value_counts == enums@.map_values(
                    |enumeration: RemoteTypedProtobufEnumV1| enumeration.values@.len(),
                ),
                enum_values == nat_sum(value_counts.take(k as int)),
            decreases enums@.len() - k,
        {
            proof {
                lemma_nat_sum_step(value_counts, k as int);
            }
            match enum_values.checked_add(enums[k].values.len() as u64) {
                Some(total) => enum_values = total,
                None => {
                    proof {
                        lemma_nat_sum_prefix(value_counts, k + 1);
                    }
                    return None;
                },
            }
            k = k + 1;
        }
        assert(value_counts.take(k as int) =~= value_counts);
        Some(
            RemoteTypedProtobufCensusV1 {
                fields: fields.len() as u64,
                repeated_fields,
                message_fields,
                map_fields,
                real_oneofs,
                enum_fields,
                enum_values,
            },
        )
    }
}

impl RemoteTypedOutputDescriptorV1 {
    /// The retained metadata bytes, or none where they do not fit in a `u64`.
    pub fn retained_metadata_bytes_v1(&self) -> (bytes: Option<u64>)
        ensures
            bytes == fitting_u64(self.spec_retained_metadata_bytes()),
    {
        let ghost total = self.spec_retained_metadata_bytes();
        let ghost entity = string_bytes(self.spec_domain().entity_path_raw).len();
        let ghost names = field_name_bytes(self.spec_fields());
        let ghost protobuf = protobuf_field_terms(self.spec_protobuf_fields());
        let ghost oneof_names = oneof_name_bytes(self.spec_protobuf_oneofs());
        let ghost enum_names = enum_terms(self.spec_protobuf_enums());
        let mut bytes: u64 = self.domain.entity_path_raw.as_str().as_bytes().len() as u64;
        let ghost base = bytes as nat;
        let mut k: usize = 0;
        while k < self.fields.len()
            invariant
                k <= names.len() == self.spec_fields().len(),
                names == field_name_bytes(self.spec_fields()),
                total == self.spec_retained_metadata_bytes(),
                total >= base + nat_sum(names),
                bytes == base + nat_sum(names.take(k as int)),
            decreases names.len() - k,
        {
            proof {
                lemma_nat_sum_step(names, k as int);
                lemma_nat_sum_prefix(names, k + 1);
            }
            let name_bytes = self.fields[k].name_v1().as_bytes().len() as u64;
            assert(name_bytes == names[k as int]);
            match bytes.checked_add(name_bytes) {
                Some(sum) => bytes = sum,
                None => return None,
            }
            k = k + 1;
        }
        proof {
            assert(names.take(k as int) =~= names);
        }
        let ghost base = bytes as nat;
        let mut k: usize = 0;
        while k < self.protobuf_fields.len()
            invariant
                k <= protobuf.len() == self.spec_protobuf_fields().len(),
                protobuf == protobuf_field_terms(self.spec_protobuf_fields()),
                total == self.spec_retained_metadata_bytes(),
                total >= base + nat_sum(protobuf),
                bytes == base + nat_sum(protobuf.take(k as int)),
            decreases protobuf.len() - k,
        {
            proof {
                lemma_nat_sum_step(protobuf, k as int);
                lemma_nat_sum_prefix(protobuf, k + 1);
            }
            let field = &self.protobuf_fields[k];
            match bytes.checked_add(field.name.as_str().as_bytes().len() as u64) {
                Some(sum) => bytes = sum,
                None => return None,
            }
            let default_bytes: u64 = match &field.default {
                Some(default) => default.len() as u64,
                None => 0,
            };
            match bytes.checked_add(default_bytes) {
                Some(sum) => bytes = sum,
                None => return None,
            }
            k = k + 1;
        }
        proof {
            assert(protobuf.take(k as int) =~= protobuf);
        }
        let ghost base = bytes as nat;
        let mut k: usize = 0;
        while k < self.protobuf_oneofs.len()
            invariant
                k <= oneof_names.len() == self.spec_protobuf_oneofs().len(),
                oneof_names == oneof_name_bytes(self.spec_protobuf_oneofs()),
                total == self.spec_retained_metadata_bytes(),
                total >= base + nat_sum(oneof_names),
                bytes == base + nat_sum(oneof_names.take(k as int)),
            decreases oneof_names.len() - k,
        {
            proof {
                lemma_nat_sum_step(oneof_names, k as int);
                lemma_nat_sum_prefix(oneof_names, k + 1);
            }
            match bytes.checked_add(self.protobuf_oneofs[k].name.as_str().as_bytes().len() as u64) {
                Some(sum) => bytes = sum,
                None => return None,
            }
            k = k + 1;
        }
        proof {
            assert(oneof_names.take(k as int) =~= oneof_names);
        }
        let ghost base = bytes as nat;
        let mut k: usize = 0;
        while k < self.protobuf_enums.len()
            invariant
                k <= enum_names.len() == self.spec_protobuf_enums().len(),
                enum_names == enum_terms(self.spec_protobuf_enums()),
                total == self.spec_retained_metadata_bytes(),
                total >= base + nat_sum(enum_names),
                bytes == base + nat_sum(enum_names.take(k as int)),
            decreases enum_names.len() - k,
        {
            proof {
                lemma_nat_sum_step(enum_names, k as int);
                lemma_nat_sum_prefix(enum_names, k + 1);
            }
            let values = &self.protobuf_enums[k].values;
            let ghost value_names = enum_value_name_bytes(values@);
            let ghost before = bytes as nat;
            let mut j: usize = 0;
            while j < values.len()
                invariant
                    j <= value_names.len() == values@.len(),
                    k < enum_names.len(),
                    total == self.spec_retained_metadata_bytes(),
                    value_names == enum_value_name_bytes(values@),
                    enum_names[k as int] == nat_sum(value_names),
                    total >= before + nat_sum(value_names),
                    bytes == before + nat_sum(value_names.take(j as int)),
                decreases value_names.len() - j,
            {
                proof {
                    lemma_nat_sum_step(value_names, j as int);
                    lemma_nat_sum_prefix(value_names, j + 1);
                }
                match bytes.checked_add(values[j].name.as_str().as_bytes().len() as u64) {
                    Some(sum) => bytes = sum,
                    None => return None,
                }
                j = j + 1;
            }
            proof {
                assert(value_names.take(j as int) =~= value_names);
            }
            k = k + 1;
        }
        proof {
            assert(enum_names.take(k as int) =~= enum_names);
        }
        let component = &self.domain.component;
        match bytes.checked_add(component.component.as_str().as_bytes().len() as u64) {
            Some(sum) => bytes = sum,
            None => return None,
        }
        match &component.archetype {
            Some(archetype) => match bytes.checked_add(archetype.as_str().as_bytes().len() as u64) {
                Some(sum) => bytes = sum,
                None => return None,
            },
            None => {},
        }
        match &component.component_type {
            Some(component_type) => match bytes.checked_add(
                component_type.as_str().as_bytes().len() as u64,
            ) {
                Some(sum) => bytes = sum,
                None => return None,
            },
            None => {},
        }
        Some(bytes)
    }
}

/// Issues a typed output descriptor from the values that a live executable factory holds.
pub fn issue_from_live_factory_v1(
    channel_id: u16,
    kind: RemoteTypedOutputKindV1,
    config_digest: [u8; 16],
    schema_handle: u16,
    fields: Vec<RemoteTypedFieldContractV1>,
    protobuf_fields: Vec<RemoteTypedProtobufFieldV1>,
    protobuf_oneofs: Vec<RemoteTypedProtobufOneofV1>,
    protobuf_enums: Vec<RemoteTypedProtobufEnumV1>,
    protobuf_root_message: Option<u32>,
    domain: RemoteTypedDomainOutputV1,
    time_type: RemoteMcapTimeType,
) -> (descriptor: RemoteTypedOutputDescriptorV1)
    ensures
        descriptor.spec_channel_id() == channel_id,
        descriptor.spec_kind() == kind,
        descriptor.spec_config_digest() == config_digest,
        descriptor.spec_schema_handle() == schema_handle,
        descriptor.spec_fields() == fields@,
        descriptor.spec_protobuf_fields() == protobuf_fields@,
        descriptor.spec_protobuf_oneofs() == protobuf_oneofs@,
        descriptor.spec_protobuf_enums() == protobuf_enums@,
        descriptor.spec_protobuf_root_message() == protobuf_root_message,
        descriptor.spec_domain() == domain,
        descriptor.spec_time_type() == time_type,
{
    RemoteTypedOutputDescriptorV1 {
        channel_id,
        kind,
        config_digest,
        schema_handle,
        fields,
        protobuf_fields,
        protobuf_oneofs,
        protobuf_enums,
        protobuf_root_message,
        domain,
        time_type,
    }
}

} // verus!
