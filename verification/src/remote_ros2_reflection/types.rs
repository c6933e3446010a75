//! The bounded V1 field types: primitives, bounded strings, nested message names and arrays.
use crate::remote_ros2_reflection::lexer::{self, TextSlice};
use crate::remote_ros2_reflection::names::{self, QualifiedTypeNameValidityV1};
use crate::remote_ros2_reflection::steps::{
    self, RemoteRos2InitializationError, RemoteRos2ResourceLimit, RemoteRos2StepOwnershipV1,
    UnsupportedForRemote,
};
use vstd::prelude::*;

verus! {

/// The resource limits of one remote ROS 2 admission, before they are frozen into a budget.
#[derive(Clone, Copy, Debug)]
pub struct UnfrozenRemoteRos2LimitsV1 {
    pub max_schemas: u64,
    pub max_definition_bytes: u64,
    pub max_specifications: u64,
    pub max_fields: u64,
    pub max_constants: u64,
    pub max_members: u64,
    pub max_line_bytes: u64,
    pub max_token_bytes: u64,
    pub max_identifier_bytes: u64,
    pub max_default_bytes: u64,
    pub max_string_literal_bytes: u64,
    pub max_string_bound: u64,
    pub max_array_bound: u64,
    pub max_dependency_edges: u64,
    pub max_dependency_depth: u64,
    pub max_signature_steps: u64,
    pub max_projection_steps: u64,
    pub max_recognition_steps: u64,
    pub max_census_steps: u64,
    pub max_materialization_steps: u64,
    pub max_retained_bytes: u64,
    pub max_working_bytes: u64,
}

/// One ROS 2 Schema record: its id, its record index in the Summary, its name and its
/// definition text.
#[derive(Clone, Copy)]
pub struct SchemaView<'a> {
    pub id: u16,
    pub record_index: usize,
    pub name: &'a [u8],
    pub data: &'a [u8],
}

#[derive(Clone, Copy, Debug, PartialEq, Eq, Structural)]
pub enum SourceTextKind {
    SchemaName,
    SchemaData,
    SyntheticPadding,
}

/// A borrowed-free reference to text of a Schema record.
#[derive(Clone, Copy, Debug, PartialEq, Eq, Structural)]
pub struct SourceTextSpan {
    pub schema_record_index: usize,
    pub kind: SourceTextKind,
    pub start: u32,
    pub len: u32,
}

#[derive(Clone, Copy, Debug, PartialEq, Eq, Structural)]
pub enum PrimitiveTypeV1 {
    Bool,
    Byte,
    Char,
    Float32,
    Float64,
    Int8,
    Int16,
    Int32,
    Int64,
    UInt8,
    UInt16,
    UInt32,
    UInt64,
    String { bound: Option<u64> },
}

#[derive(Clone, Copy, Debug, PartialEq, Eq, Structural)]
pub enum ElementTypeV1 {
    Primitive(PrimitiveTypeV1),
    Complex(SourceTextSpan),
}

#[derive(Clone, Copy, Debug, PartialEq, Eq, Structural)]
pub enum ArraySizeV1 {
    Scalar,
    Fixed(u64),
    Bounded(u64),
    Unbounded,
}

#[derive(Clone, Copy, Debug, PartialEq, Eq, Structural)]
pub struct ParsedTypeV1 {
    pub element: ElementTypeV1,
    pub array: ArraySizeV1,
}

/// Name of the member that pads a specification without fields.
pub open spec fn synthetic_padding_name() -> Seq<u8> {
    seq![
        0x73u8, 0x74, 0x72, 0x75, 0x63, 0x74, 0x75, 0x72, 0x65, 0x5f, 0x6e, 0x65, 0x65, 0x64,
        0x73, 0x5f, 0x61, 0x74, 0x5f, 0x6c, 0x65, 0x61, 0x73, 0x74, 0x5f, 0x6f, 0x6e, 0x65, 0x5f,
        0x6d, 0x65, 0x6d, 0x62, 0x65, 0x72,
    ]
}

/// The span of `len` definition bytes at `start`.
pub open spec fn data_span(schema_record_index: usize, data_len: nat, start: int, len: int) -> Result<
    SourceTextSpan,
    RemoteRos2InitializationError,
> {
    if start + len > usize::MAX {
        Err(steps::limit_error(RemoteRos2ResourceLimit::Arithmetic))
    } else if start + len > data_len {
        Err(RemoteRos2InitializationError::InvalidRemoteSchema)
    } else if start > u32::MAX || len > u32::MAX {
        Err(steps::limit_error(RemoteRos2ResourceLimit::Arithmetic))
    } else {
        Ok(
            SourceTextSpan {
                schema_record_index,
                kind: SourceTextKind::SchemaData,
                start: start as u32,
                len: len as u32,
            },
        )
    }
}

pub fn span_from_data(schema: SchemaView<'_>, start: usize, len: usize) -> (span: Result<
    SourceTextSpan,
    RemoteRos2InitializationError,
>)
    ensures
        span == data_span(schema.record_index, schema.data@.len(), start as int, len as int),
{
    if start > usize::MAX - len {
        return Err(
            RemoteRos2InitializationError::ResourceLimitExceeded(
                RemoteRos2ResourceLimit::Arithmetic,
            ),
        );
    }
    if start + len > schema.data.len() {
        return Err(RemoteRos2InitializationError::InvalidRemoteSchema);
    }
    let start = steps::checked_u32(start)?;
    let len = steps::checked_u32(len)?;
    Ok(
        SourceTextSpan {
            schema_record_index: schema.record_index,
            kind: SourceTextKind::SchemaData,
            start,
            len,
        },
    )
}

pub fn schema_name_span(schema: SchemaView<'_>) -> (span: Result<
    SourceTextSpan,
    RemoteRos2InitializationError,
>)
    ensures
        schema.name@.len() <= u32::MAX ==> span == Ok::<
            SourceTextSpan,
            RemoteRos2InitializationError,
        >(
            SourceTextSpan {
                schema_record_index: schema.record_index,
                kind: SourceTextKind::SchemaName,
                start: 0,
                len: schema.name@.len() as u32,
            },
        ),
        schema.name@.len() > u32::MAX ==> span == Err::<
            SourceTextSpan,
            RemoteRos2InitializationError,
        >(steps::limit_error(RemoteRos2ResourceLimit::Arithmetic)),
{
    let len = steps::checked_u32(schema.name.len())?;
    Ok(
        SourceTextSpan {
            schema_record_index: schema.record_index,
            kind: SourceTextKind::SchemaName,
            start: 0,
            len,
        },
    )
}

pub fn synthetic_padding_span(schema: SchemaView<'_>) -> (span: SourceTextSpan)
    ensures
        span == (SourceTextSpan {
            schema_record_index: schema.record_index,
            kind: SourceTextKind::SyntheticPadding,
            start: 0,
            len: synthetic_padding_name().len() as u32,
        }),
{
    SourceTextSpan {
        schema_record_index: schema.record_index,
        kind: SourceTextKind::SyntheticPadding,
        start: 0,
        len: 35,
    }
}

/// Whether `span` names text of `schema`: its whole name, a range of its definition, or the
/// synthetic padding name.
pub open spec fn span_within(schema: SchemaView, span: SourceTextSpan) -> bool {
    &&& span.schema_record_index == schema.record_index
    &&& match span.kind {
        SourceTextKind::SchemaName => span.start == 0 && span.len == schema.name@.len(),
        SourceTextKind::SchemaData => span.start + span.len <= schema.data@.len(),
        SourceTextKind::SyntheticPadding => span.start == 0 && span.len
            == synthetic_padding_name().len(),
    }
}

/// The text that `span` names.
pub open spec fn span_text(schema: SchemaView, span: SourceTextSpan) -> Seq<u8> {
    match span.kind {
        SourceTextKind::SchemaName => schema.name@,
        SourceTextKind::SchemaData => schema.data@.subrange(
            span.start as int,
            span.start + span.len,
        ),
        SourceTextKind::SyntheticPadding => synthetic_padding_name(),
    }
}

/// The text of a span of `schema`.
pub fn text_for_span<'a>(schema: SchemaView<'a>, span: SourceTextSpan) -> (text: &'a [u8])
    requires
        span_within(schema, span),
    ensures
        text@ == span_text(schema, span),
{
    match span.kind {
        SourceTextKind::SyntheticPadding => {
            let name = "structure_needs_at_least_one_member";
            proof {
                reveal_strlit("structure_needs_at_least_one_member");
                vstd::string::is_ascii_spec_bytes(name);
            }
            let bytes = name.as_bytes();
            assert(bytes@ =~= synthetic_padding_name());
            bytes
        },
        SourceTextKind::SchemaName => schema.name,
        SourceTextKind::SchemaData => {
            let available = schema.data.len();
            let start = span.start as usize;
            assert(start + span.len as usize <= available);
            let end = start + span.len as usize;
            &schema.data[start..end]
        },
    }
}

/// The decimal scan of `text[at..end]` continuing from `value`: the parsed value, or a
/// non-digit or overflow error, with one step per inspected byte.
pub open spec fn decimal_scan(text: Seq<u8>, at: int, end: int, value: int) -> (Result<
    u64,
    RemoteRos2InitializationError,
>, nat)
    decreases end - at,
{
    if at < 0 || at >= end || at >= text.len() {
        (Ok(value as u64), 0)
    } else {
        let byte = text[at];
        if !names::is_digit(byte) {
            (Err(RemoteRos2InitializationError::InvalidRemoteSchema), 1)
        } else if value * 10 + (byte - 0x30) > u64::MAX {
            (Err(RemoteRos2InitializationError::InvalidRemoteSchema), 1)
        } else {
            let rest = decimal_scan(text, at + 1, end, value * 10 + (byte - 0x30));
            (rest.0, rest.1 + 1)
        }
    }
}

/// A non-empty decimal `u64` without sign.
pub open spec fn decimal_u64(text: Seq<u8>, input: TextSlice) -> (Result<
    u64,
    RemoteRos2InitializationError,
>, nat) {
    if input.spec_len() == 0 {
        (Err(RemoteRos2InitializationError::InvalidRemoteSchema), 0)
    } else {
        decimal_scan(text, input.start as int, input.end as int, 0)
    }
}

pub fn parse_u64(text: &[u8], input: TextSlice, steps: &mut RemoteRos2StepOwnershipV1) -> (result:
    Result<u64, RemoteRos2InitializationError>)
    requires
        input.within(text@),
    ensures
        steps::metered(
            *old(steps),
            decimal_u64(text@, input).0,
            decimal_u64(text@, input).1,
            result,
            *final(steps),
        ),
{
    let ghost initial = *steps;
    proof {
        steps::lemma_metered_pure(initial, Ok::<(), RemoteRos2InitializationError>(()));
    }
    if input.start == input.end {
        return Err(RemoteRos2InitializationError::InvalidRemoteSchema);
    }
    let ghost scan = decimal_scan(text@, input.start as int, input.end as int, 0);
    let mut value: u64 = 0;
    let mut at = input.start;
    while at < input.end
        invariant
            input.within(text@),
            input.start <= at <= input.end,
            input.start < input.end,
            initial == *old(steps),
            scan == decimal_scan(text@, input.start as int, input.end as int, 0),
            scan.0 == decimal_scan(text@, at as int, input.end as int, value as int).0,
            scan.1 == (at - input.start) + decimal_scan(
                text@,
                at as int,
                input.end as int,
                value as int,
            ).1,
            steps::metered(initial, Ok(()), (at - input.start) as nat, Ok(()), *steps),
        decreases input.end - at,
    {
        let ghost before = *steps;
        let step = steps.consume();
        if step.is_err() {
            proof {
                steps::lemma_charge_stop(
                    initial,
                    (at - input.start) as nat,
                    before,
                    step,
                    *steps,
                    scan.0,
                    scan.1,
                );
            }
            return Err(step.unwrap_err());
        }
        proof {
            steps::lemma_charge_ok(initial, (at - input.start) as nat, before, step, *steps);
        }
        let byte = text[at];
        if !(byte >= 0x30 && byte <= 0x39) {
            return Err(RemoteRos2InitializationError::InvalidRemoteSchema);
        }
        let digit = (byte - 0x30) as u64;
        if value > (u64::MAX - digit) / 10 {
            assert(value * 10 + digit > u64::MAX) by (nonlinear_arith)
                requires
                    value > (u64::MAX - digit) / 10,
                    digit <= 9,
            ;
            return Err(RemoteRos2InitializationError::InvalidRemoteSchema);
        }
        assert(value * 10 + digit <= u64::MAX) by (nonlinear_arith)
            requires
                value <= (u64::MAX - digit) / 10,
                digit <= 9,
        ;
        value = value * 10 + digit;
        at = at + 1;
    }
    Ok(value)
}


/// Whether `text[slice]` is exactly `word`.
pub fn word_matches(text: &[u8], slice: TextSlice, word: &[u8]) -> (matches: bool)
    requires
        slice.within(text@),
    ensures
        matches == (lexer::slice_text(text@, slice) == word@),
{
    if slice.end - slice.start != word.len() {
        assert(lexer::slice_text(text@, slice).len() != word@.len());
        return false;
    }
    let mut at: usize = 0;
    while at < word.len()
        invariant
            slice.within(text@),
            slice.end - slice.start == word@.len(),
            at <= word@.len(),
            forall|i: int| 0 <= i < at ==> text@[slice.start + i] == word@[i],
        decreases word@.len() - at,
    {
        if text[slice.start + at] != word[at] {
            assert(lexer::slice_text(text@, slice)[at as int] != word@[at as int]);
            return false;
        }
        at = at + 1;
    }
    assert(lexer::slice_text(text@, slice) =~= word@);
    true
}

/// Whether `text[slice]` starts with `word`.
pub fn starts_with_word(text: &[u8], slice: TextSlice, word: &[u8]) -> (matches: bool)
    requires
        slice.within(text@),
    ensures
        matches == (slice.spec_len() >= word@.len() && lexer::slice_text(text@, slice).subrange(
            0,
            word@.len() as int,
        ) == word@),
{
    if slice.end - slice.start < word.len() {
        return false;
    }
    let prefix = TextSlice { start: slice.start, end: slice.start + word.len() };
    let matches = word_matches(text, prefix, word);
    assert(lexer::slice_text(text@, slice).subrange(0, word@.len() as int) =~= lexer::slice_text(
        text@,
        prefix,
    ));
    matches
}

pub open spec fn word_bool() -> Seq<u8> { seq![0x62u8, 0x6f, 0x6f, 0x6c] }
pub open spec fn word_byte() -> Seq<u8> { seq![0x62u8, 0x79, 0x74, 0x65] }
pub open spec fn word_char() -> Seq<u8> { seq![0x63u8, 0x68, 0x61, 0x72] }
pub open spec fn word_float32() -> Seq<u8> { seq![0x66u8, 0x6c, 0x6f, 0x61, 0x74, 0x33, 0x32] }
pub open spec fn word_float64() -> Seq<u8> { seq![0x66u8, 0x6c, 0x6f, 0x61, 0x74, 0x36, 0x34] }
pub open spec fn word_int8() -> Seq<u8> { seq![0x69u8, 0x6e, 0x74, 0x38] }
pub open spec fn word_int16() -> Seq<u8> { seq![0x69u8, 0x6e, 0x74, 0x31, 0x36] }
pub open spec fn word_int32() -> Seq<u8> { seq![0x69u8, 0x6e, 0x74, 0x33, 0x32] }
pub open spec fn word_int64() -> Seq<u8> { seq![0x69u8, 0x6e, 0x74, 0x36, 0x34] }
pub open spec fn word_uint8() -> Seq<u8> { seq![0x75u8, 0x69, 0x6e, 0x74, 0x38] }
pub open spec fn word_uint16() -> Seq<u8> { seq![0x75u8, 0x69, 0x6e, 0x74, 0x31, 0x36] }
pub open spec fn word_uint32() -> Seq<u8> { seq![0x75u8, 0x69, 0x6e, 0x74, 0x33, 0x32] }
pub open spec fn word_uint64() -> Seq<u8> { seq![0x75u8, 0x69, 0x6e, 0x74, 0x36, 0x34] }
pub open spec fn word_string() -> Seq<u8> { seq![0x73u8, 0x74, 0x72, 0x69, 0x6e, 0x67] }
pub open spec fn word_wstring() -> Seq<u8> { seq![0x77u8, 0x73, 0x74, 0x72, 0x69, 0x6e, 0x67] }
pub open spec fn word_string_bound() -> Seq<u8> {
    seq![0x73u8, 0x74, 0x72, 0x69, 0x6e, 0x67, 0x3c, 0x3d]
}
pub open spec fn word_wstring_bound() -> Seq<u8> {
    seq![0x77u8, 0x73, 0x74, 0x72, 0x69, 0x6e, 0x67, 0x3c, 0x3d]
}

/// The fixed V1 table of primitive type names.
pub open spec fn primitive_for_name(name: Seq<u8>) -> Option<PrimitiveTypeV1> {
    if name == word_bool() {
        Some(PrimitiveTypeV1::Bool)
    } else if name == word_byte() {
        Some(PrimitiveTypeV1::Byte)
    } else if name == word_char() {
        Some(PrimitiveTypeV1::Char)
    } else if name == word_float32() {
        Some(PrimitiveTypeV1::Float32)
    } else if name == word_float64() {
        Some(PrimitiveTypeV1::Float64)
    } else if name == word_int8() {
        Some(PrimitiveTypeV1::Int8)
    } else if name == word_int16() {
        Some(PrimitiveTypeV1::Int16)
    } else if name == word_int32() {
        Some(PrimitiveTypeV1::Int32)
    } else if name == word_int64() {
        Some(PrimitiveTypeV1::Int64)
    } else if name == word_uint8() {
        Some(PrimitiveTypeV1::UInt8)
    } else if name == word_uint16() {
        Some(PrimitiveTypeV1::UInt16)
    } else if name == word_uint32() {
        Some(PrimitiveTypeV1::UInt32)
    } else if name == word_uint64() {
        Some(PrimitiveTypeV1::UInt64)
    } else if name == word_string() {
        Some(PrimitiveTypeV1::String { bound: None })
    } else {
        None
    }
}

pub fn primitive_named(text: &[u8], base: TextSlice) -> (primitive: Option<PrimitiveTypeV1>)
    requires
        base.within(text@),
    ensures
        primitive == primitive_for_name(lexer::slice_text(text@, base)),
{
    let ghost name = lexer::slice_text(text@, base);
    if word_matches(text, base, &[0x62u8, 0x6f, 0x6f, 0x6c]) {
        return Some(PrimitiveTypeV1::Bool);
    }
    if word_matches(text, base, &[0x62u8, 0x79, 0x74, 0x65]) {
        return Some(PrimitiveTypeV1::Byte);
    }
    if word_matches(text, base, &[0x63u8, 0x68, 0x61, 0x72]) {
        return Some(PrimitiveTypeV1::Char);
    }
    if word_matches(text, base, &[0x66u8, 0x6c, 0x6f, 0x61, 0x74, 0x33, 0x32]) {
        return Some(PrimitiveTypeV1::Float32);
    }
    if word_matches(text, base, &[0x66u8, 0x6c, 0x6f, 0x61, 0x74, 0x36, 0x34]) {
        return Some(PrimitiveTypeV1::Float64);
    }
    if word_matches(text, base, &[0x69u8, 0x6e, 0x74, 0x38]) {
        return Some(PrimitiveTypeV1::Int8);
    }
    if word_matches(text, base, &[0x69u8, 0x6e, 0x74, 0x31, 0x36]) {
        return Some(PrimitiveTypeV1::Int16);
    }
    if word_matches(text, base, &[0x69u8, 0x6e, 0x74, 0x33, 0x32]) {
        return Some(PrimitiveTypeV1::Int32);
    }
    if word_matches(text, base, &[0x69u8, 0x6e, 0x74, 0x36, 0x34]) {
        return Some(PrimitiveTypeV1::Int64);
    }
    if word_matches(text, base, &[0x75u8, 0x69, 0x6e, 0x74, 0x38]) {
        return Some(PrimitiveTypeV1::UInt8);
    }
    if word_matches(text, base, &[0x75u8, 0x69, 0x6e, 0x74, 0x31, 0x36]) {
        return Some(PrimitiveTypeV1::UInt16);
    }
    if word_matches(text, base, &[0x75u8, 0x69, 0x6e, 0x74, 0x33, 0x32]) {
        return Some(PrimitiveTypeV1::UInt32);
    }
    if word_matches(text, base, &[0x75u8, 0x69, 0x6e, 0x74, 0x36, 0x34]) {
        return Some(PrimitiveTypeV1::UInt64);
    }
    if word_matches(text, base, &[0x73u8, 0x74, 0x72, 0x69, 0x6e, 0x67]) {
        return Some(PrimitiveTypeV1::String { bound: None });
    }
    None
}


/// The bracket scan of a type token from `at` on: the relative positions of its `[` and `]`, or
/// the error of a repeated or unopened bracket, with one step per inspected byte.
pub open spec fn bracket_scan(
    text: Seq<u8>,
    start: int,
    at: int,
    end: int,
    open: Option<usize>,
    close: Option<usize>,
) -> (Result<(Option<usize>, Option<usize>), RemoteRos2InitializationError>, nat)
    decreases end - at,
{
    if at < 0 || at >= end || at >= text.len() {
        (Ok((open, close)), 0)
    } else {
        let byte = text[at];
        if byte == 0x5B && open is Some {
            (Err(RemoteRos2InitializationError::InvalidRemoteSchema), 1)
        } else if byte == 0x5D && open is None {
            (Err(steps::unsupported(UnsupportedForRemote::GrammarFeature)), 1)
        } else if byte == 0x5D && close is Some {
            (Err(RemoteRos2InitializationError::InvalidRemoteSchema), 1)
        } else {
            let next_open = if byte == 0x5B {
                Some((at - start) as usize)
            } else {
                open
            };
            let next_close = if byte == 0x5D {
                Some((at - start) as usize)
            } else {
                close
            };
            let rest = bracket_scan(text, start, at + 1, end, next_open, next_close);
            (rest.0, rest.1 + 1)
        }
    }
}

pub proof fn lemma_bracket_scan_bounds(
    text: Seq<u8>,
    start: int,
    at: int,
    end: int,
    open: Option<usize>,
    close: Option<usize>,
)
    requires
        0 <= start <= at,
        end <= text.len(),
        end <= usize::MAX,
        open matches Some(o) ==> o < at - start,
        close matches Some(c) ==> c < at - start,
        close is Some ==> open is Some,
        open matches Some(o) ==> (close matches Some(c) ==> o < c),
    ensures
        bracket_scan(text, start, at, end, open, close).0 matches Ok((o, c)) ==> (o matches Some(
            i,
        ) ==> i < end - start || (i < at - start)) && (c matches Some(j) ==> j < end - start || j
            < at - start) && (c is Some ==> o is Some) && (o matches Some(i) ==> (c matches Some(
            j,
        ) ==> i < j)),
        bracket_scan(text, start, at, end, open, close).0 matches Ok((o, c)) ==> (o matches Some(
            i,
        ) ==> i < end - start || at >= end) && (c matches Some(j) ==> j < end - start || at
            >= end),
    decreases end - at,
{
    if at < end {
        let byte = text[at];
        let next_open = if byte == 0x5B {
            Some((at - start) as usize)
        } else {
            open
        };
        let next_close = if byte == 0x5D {
            Some((at - start) as usize)
        } else {
            close
        };
        if !(byte == 0x5B && open is Some) && !(byte == 0x5D && (open is None || close is Some)) {
            lemma_bracket_scan_bounds(text, start, at + 1, end, next_open, next_close);
        }
    }
}

pub fn scan_type_brackets(
    text: &[u8],
    token: TextSlice,
    steps: &mut RemoteRos2StepOwnershipV1,
) -> (result: Result<(Option<usize>, Option<usize>), RemoteRos2InitializationError>)
    requires
        token.within(text@),
    ensures
        steps::metered(
            *old(steps),
            bracket_scan(text@, token.start as int, token.start as int, token.end as int, None, None).0,
            bracket_scan(text@, token.start as int, token.start as int, token.end as int, None, None).1,
            result,
            *final(steps),
        ),
{
    let ghost initial = *steps;
    let ghost scan = bracket_scan(
        text@,
        token.start as int,
        token.start as int,
        token.end as int,
        None,
        None,
    );
    proof {
        steps::lemma_metered_pure(initial, Ok::<(), RemoteRos2InitializationError>(()));
    }
    let mut open: Option<usize> = None;
    let mut close: Option<usize> = None;
    let mut at = token.start;
    while at < token.end
        invariant
            token.within(text@),
            token.start <= at <= token.end,
            initial == *old(steps),
            scan == bracket_scan(
                text@,
                token.start as int,
                token.start as int,
                token.end as int,
                None,
                None,
            ),
            scan.0 == bracket_scan(
                text@,
                token.start as int,
                at as int,
                token.end as int,
                open,
                close,
            ).0,
            scan.1 == (at - token.start) + bracket_scan(
                text@,
                token.start as int,
                at as int,
                token.end as int,
                open,
                close,
            ).1,
            steps::metered(initial, Ok(()), (at - token.start) as nat, Ok(()), *steps),
        decreases token.end - at,
    {
        let ghost before = *steps;
        let step = steps.consume();
        if step.is_err() {
            proof {
                steps::lemma_charge_stop(
                    initial,
                    (at - token.start) as nat,
                    before,
                    step,
                    *steps,
                    scan.0,
                    scan.1,
                );
            }
            return Err(step.unwrap_err());
        }
        proof {
            steps::lemma_charge_ok(initial, (at - token.start) as nat, before, step, *steps);
        }
        let byte = text[at];
        if byte == 0x5B {
            if open.is_some() {
                return Err(RemoteRos2InitializationError::InvalidRemoteSchema);
            }
            open = Some(at - token.start);
        } else if byte == 0x5D {
            if open.is_none() {
                return Err(
                    RemoteRos2InitializationError::UnsupportedForRemote(
                        UnsupportedForRemote::GrammarFeature,
                    ),
                );
            }
            if close.is_some() {
                return Err(RemoteRos2InitializationError::InvalidRemoteSchema);
            }
            close = Some(at - token.start);
        }
        at = at + 1;
    }
    Ok((open, close))
}

/// Splits a type token at its brackets: the base type and the array size.
#[verifier::opaque]
pub open spec fn type_array_split(
    text: Seq<u8>,
    token: TextSlice,
    open: Option<usize>,
    close: Option<usize>,
    max_array_bound: u64,
) -> (Result<(TextSlice, ArraySizeV1), RemoteRos2InitializationError>, nat) {
    match open {
        Some(o) => if close != Some((token.spec_len() - 1) as usize) {
            (Err(RemoteRos2InitializationError::InvalidRemoteSchema), 0)
        } else {
            let inner = TextSlice { start: (token.start + o + 1) as usize, end: (token.end - 1) as usize };
            let base = TextSlice { start: token.start, end: (token.start + o) as usize };
            if inner.spec_len() == 0 {
                (Ok((base, ArraySizeV1::Unbounded)), 0)
            } else if inner.spec_len() >= 2 && text[inner.start as int] == 0x3C && text[inner.start
                + 1] == 0x3D {
                let bound = decimal_u64(
                    text,
                    TextSlice { start: (inner.start + 2) as usize, end: inner.end },
                );
                match bound.0 {
                    Err(error) => (Err(error), bound.1),
                    Ok(value) => if value > max_array_bound {
                        (Err(steps::limit_error(RemoteRos2ResourceLimit::ArrayBound)), bound.1)
                    } else {
                        (Ok((base, ArraySizeV1::Bounded(value))), bound.1)
                    },
                }
            } else {
                let bound = decimal_u64(text, inner);
                match bound.0 {
                    Err(error) => (Err(error), bound.1),
                    Ok(value) => if value > max_array_bound {
                        (Err(steps::limit_error(RemoteRos2ResourceLimit::ArrayBound)), bound.1)
                    } else {
                        (Ok((base, ArraySizeV1::Fixed(value))), bound.1)
                    },
                }
            }
        },
        None => if close is Some {
            (Err(RemoteRos2InitializationError::InvalidRemoteSchema), 0)
        } else {
            (Ok((token, ArraySizeV1::Scalar)), 0)
        },
    }
}

pub fn split_type_array(
    text: &[u8],
    token: TextSlice,
    open: Option<usize>,
    close: Option<usize>,
    max_array_bound: u64,
    steps: &mut RemoteRos2StepOwnershipV1,
) -> (result: Result<(TextSlice, ArraySizeV1), RemoteRos2InitializationError>)
    requires
        token.within(text@),
        open matches Some(o) ==> o < token.spec_len(),
        close matches Some(c) ==> c < token.spec_len(),
        open matches Some(o) ==> (close matches Some(c) ==> o < c),
    ensures
        steps::metered(
            *old(steps),
            type_array_split(text@, token, open, close, max_array_bound).0,
            type_array_split(text@, token, open, close, max_array_bound).1,
            result,
            *final(steps),
        ),
        type_array_split(text@, token, open, close, max_array_bound).0 matches Ok((base, _))
            ==> base.within(text@) && base.start == token.start && base.end <= token.end,
{
    let ghost initial = *steps;
    proof {
        reveal(type_array_split);
    }
    proof {
        steps::lemma_metered_pure(initial, Ok::<(), RemoteRos2InitializationError>(()));
    }
    match open {
        Some(o) => {
            if close != Some(token.end - token.start - 1) {
                return Err(RemoteRos2InitializationError::InvalidRemoteSchema);
            }
            let inner = TextSlice { start: token.start + o + 1, end: token.end - 1 };
            let base = TextSlice { start: token.start, end: token.start + o };
            if inner.start == inner.end {
                return Ok((base, ArraySizeV1::Unbounded));
            }
            if inner.end - inner.start >= 2 && text[inner.start] == 0x3C && text[inner.start + 1]
                == 0x3D {
                let value = parse_u64(text, TextSlice { start: inner.start + 2, end: inner.end }, steps)?;
                if value > max_array_bound {
                    return Err(
                        RemoteRos2InitializationError::ResourceLimitExceeded(
                            RemoteRos2ResourceLimit::ArrayBound,
                        ),
                    );
                }
                Ok((base, ArraySizeV1::Bounded(value)))
            } else {
                let value = parse_u64(text, inner, steps)?;
                if value > max_array_bound {
                    return Err(
                        RemoteRos2InitializationError::ResourceLimitExceeded(
                            RemoteRos2ResourceLimit::ArrayBound,
                        ),
                    );
                }
                Ok((base, ArraySizeV1::Fixed(value)))
            }
        },
        None => {
            if close.is_some() {
                return Err(RemoteRos2InitializationError::InvalidRemoteSchema);
            }
            Ok((token, ArraySizeV1::Scalar))
        },
    }
}

/// The primitive named by a base type, including bounded strings; wide strings are outside the
/// remote subset.
#[verifier::opaque]
pub open spec fn base_primitive(text: Seq<u8>, base: TextSlice, max_string_bound: u64) -> (Result<
    Option<PrimitiveTypeV1>,
    RemoteRos2InitializationError,
>, nat) {
    let name = lexer::slice_text(text, base);
    if name == word_wstring() {
        (Err(steps::unsupported(UnsupportedForRemote::Ros2Wstring)), 0)
    } else if base.spec_len() >= 8 && name.subrange(0, 8) == word_string_bound() {
        let bound = decimal_u64(text, TextSlice { start: (base.start + 8) as usize, end: base.end });
        match bound.0 {
            Err(error) => (Err(error), bound.1),
            Ok(value) => if value > max_string_bound {
                (Err(steps::limit_error(RemoteRos2ResourceLimit::StringBound)), bound.1)
            } else {
                (Ok(Some(PrimitiveTypeV1::String { bound: Some(value) })), bound.1)
            },
        }
    } else if base.spec_len() >= 9 && name.subrange(0, 9) == word_wstring_bound() {
        let bound = decimal_u64(text, TextSlice { start: (base.start + 9) as usize, end: base.end });
        match bound.0 {
            Err(error) => (Err(error), bound.1),
            Ok(_) => (Err(steps::unsupported(UnsupportedForRemote::Ros2Wstring)), bound.1),
        }
    } else {
        (Ok(primitive_for_name(name)), 0)
    }
}

pub fn primitive_base(
    text: &[u8],
    base: TextSlice,
    max_string_bound: u64,
    steps: &mut RemoteRos2StepOwnershipV1,
) -> (result: Result<Option<PrimitiveTypeV1>, RemoteRos2InitializationError>)
    requires
        base.within(text@),
    ensures
        steps::metered(
            *old(steps),
            base_primitive(text@, base, max_string_bound).0,
            base_primitive(text@, base, max_string_bound).1,
            result,
            *final(steps),
        ),
{
    let ghost initial = *steps;
    proof {
        reveal(base_primitive);
    }
    proof {
        steps::lemma_metered_pure(initial, Ok::<(), RemoteRos2InitializationError>(()));
    }
    if word_matches(text, base, &[0x77u8, 0x73, 0x74, 0x72, 0x69, 0x6e, 0x67]) {
        return Err(
            RemoteRos2InitializationError::UnsupportedForRemote(UnsupportedForRemote::Ros2Wstring),
        );
    }
    if starts_with_word(text, base, &[0x73u8, 0x74, 0x72, 0x69, 0x6e, 0x67, 0x3c, 0x3d]) {
        let value = parse_u64(text, TextSlice { start: base.start + 8, end: base.end }, steps)?;
        if value > max_string_bound {
            return Err(
                RemoteRos2InitializationError::ResourceLimitExceeded(
                    RemoteRos2ResourceLimit::StringBound,
                ),
            );
        }
        return Ok(Some(PrimitiveTypeV1::String { bound: Some(value) }));
    }
    if starts_with_word(text, base, &[0x77u8, 0x73, 0x74, 0x72, 0x69, 0x6e, 0x67, 0x3c, 0x3d]) {
        parse_u64(text, TextSlice { start: base.start + 9, end: base.end }, steps)?;
        return Err(
            RemoteRos2InitializationError::UnsupportedForRemote(UnsupportedForRemote::Ros2Wstring),
        );
    }
    Ok(primitive_named(text, base))
}

/// Whether `text[slice]` contains `<=`.
pub open spec fn contains_less_equal(text: Seq<u8>, slice: TextSlice) -> bool {
    exists|i: int| slice.start <= i && i + 1 < slice.end && #[trigger] text[i] == 0x3C && text[i + 1] == 0x3D
}

pub fn has_less_equal(text: &[u8], slice: TextSlice) -> (found: bool)
    requires
        slice.within(text@),
    ensures
        found == contains_less_equal(text@, slice),
{
    let mut at = slice.start;
    while at < slice.end && slice.end - at >= 2
        invariant
            slice.within(text@),
            slice.start <= at <= slice.end,
            forall|i: int| slice.start <= i < at && i + 1 < slice.end ==> !(#[trigger] text@[i] == 0x3C && text@[i
                + 1] == 0x3D),
        decreases slice.end - at,
    {
        if text[at] == 0x3C && text[at + 1] == 0x3D {
            return true;
        }
        at = at + 1;
    }
    false
}

/// The nested message type named by a base type that is no primitive.
#[verifier::opaque]
pub open spec fn complex_element(
    text: Seq<u8>,
    base: TextSlice,
    record_index: usize,
    token_start: usize,
    max_identifier_bytes: u64,
) -> (Result<ElementTypeV1, RemoteRos2InitializationError>, nat) {
    let charged = base.spec_len();
    if contains_less_equal(text, base) {
        (Err(steps::unsupported(UnsupportedForRemote::GrammarFeature)), charged)
    } else {
        let cost = charged + names::qualified_name_cost(text, base);
        match names::qualified_name_class(text, base) {
            QualifiedTypeNameValidityV1::LocalInvalid => (
                Err(RemoteRos2InitializationError::InvalidRemoteSchema),
                cost,
            ),
            QualifiedTypeNameValidityV1::OutsideRemoteSubset => (
                Err(steps::unsupported(UnsupportedForRemote::GrammarFeature)),
                cost,
            ),
            QualifiedTypeNameValidityV1::StrictSubset => if base.spec_len() > max_identifier_bytes {
                (Err(steps::limit_error(RemoteRos2ResourceLimit::IdentifierBytes)), cost)
            } else {
                match data_span(record_index, text.len(), token_start as int, base.spec_len() as int) {
                    Ok(span) => (Ok(ElementTypeV1::Complex(span)), cost),
                    Err(error) => (Err(error), cost),
                }
            },
        }
    }
}

pub fn complex_base(
    schema: SchemaView<'_>,
    base: TextSlice,
    token_start: usize,
    max_identifier_bytes: u64,
    steps: &mut RemoteRos2StepOwnershipV1,
) -> (result: Result<ElementTypeV1, RemoteRos2InitializationError>)
    requires
        base.within(schema.data@),
    ensures
        steps::metered(
            *old(steps),
            complex_element(schema.data@, base, schema.record_index, token_start, max_identifier_bytes).0,
            complex_element(schema.data@, base, schema.record_index, token_start, max_identifier_bytes).1,
            result,
            *final(steps),
        ),
{
    let ghost initial = *steps;
    proof {
        reveal(complex_element);
    }
    let ghost outcome = complex_element(
        schema.data@,
        base,
        schema.record_index,
        token_start,
        max_identifier_bytes,
    );
    let charged = steps.consume_bytes(base.end - base.start);
    if charged.is_err() {
        proof {
            steps::lemma_metered_stop(
                initial,
                Ok::<(), RemoteRos2InitializationError>(()),
                base.spec_len(),
                charged,
                *steps,
                outcome.0,
                outcome.1,
            );
        }
        return Err(charged.unwrap_err());
    }
    if has_less_equal(schema.data, base) {
        return Err(
            RemoteRos2InitializationError::UnsupportedForRemote(
                UnsupportedForRemote::GrammarFeature,
            ),
        );
    }
    let ghost middle = *steps;
    let class = names::classify_qualified_type_name_v1(schema.data, base, steps);
    proof {
        steps::lemma_metered_then(
            initial,
            Ok::<(), RemoteRos2InitializationError>(()),
            base.spec_len(),
            charged,
            middle,
            Ok(names::qualified_name_class(schema.data@, base)),
            names::qualified_name_cost(schema.data@, base),
            class,
            *steps,
        );
    }
    let class = match class {
        Ok(class) => class,
        Err(error) => {
            proof {
                steps::lemma_metered_stop(
                    initial,
                    Ok(names::qualified_name_class(schema.data@, base)),
                    base.spec_len() + names::qualified_name_cost(schema.data@, base),
                    class,
                    *steps,
                    outcome.0,
                    outcome.1,
                );
            }
            return Err(error);
        },
    };
    match class {
        QualifiedTypeNameValidityV1::StrictSubset => {},
        QualifiedTypeNameValidityV1::LocalInvalid => {
            return Err(RemoteRos2InitializationError::InvalidRemoteSchema);
        },
        QualifiedTypeNameValidityV1::OutsideRemoteSubset => {
            return Err(
                RemoteRos2InitializationError::UnsupportedForRemote(
                    UnsupportedForRemote::GrammarFeature,
                ),
            );
        },
    }
    lexer::ensure_length(
        base.end - base.start,
        max_identifier_bytes,
        RemoteRos2ResourceLimit::IdentifierBytes,
    )?;
    let span = span_from_data(schema, token_start, base.end - base.start)?;
    Ok(ElementTypeV1::Complex(span))
}


/// A field type token `base`, `base[N]`, `base[<=N]` or `base[]`: its element type and array
/// size, or the first grammar, validity or resource error, with the steps charged.
pub open spec fn parsed_type(
    text: Seq<u8>,
    record_index: usize,
    token: TextSlice,
    limits: UnfrozenRemoteRos2LimitsV1,
) -> (Result<ParsedTypeV1, RemoteRos2InitializationError>, nat) {
    if token.spec_len() > limits.max_token_bytes {
        (Err(steps::limit_error(RemoteRos2ResourceLimit::TokenBytes)), 0)
    } else {
        let scan = bracket_scan(text, token.start as int, token.start as int, token.end as int, None, None);
        match scan.0 {
            Err(error) => (Err(error), scan.1),
            Ok((open, close)) => {
                let split = type_array_split(text, token, open, close, limits.max_array_bound);
                let split_cost = scan.1 + split.1;
                match split.0 {
                    Err(error) => (Err(error), split_cost),
                    Ok((base, array)) => if base.spec_len() == 0 {
                        (Err(RemoteRos2InitializationError::InvalidRemoteSchema), split_cost)
                    } else {
                        let primitive = base_primitive(text, base, limits.max_string_bound);
                        let primitive_cost = split_cost + base.spec_len() + primitive.1;
                        match primitive.0 {
                            Err(error) => (Err(error), primitive_cost),
                            Ok(Some(primitive)) => (
                                Ok(
                                    ParsedTypeV1 {
                                        element: ElementTypeV1::Primitive(primitive),
                                        array,
                                    },
                                ),
                                primitive_cost,
                            ),
                            Ok(None) => {
                                let complex = complex_element(
                                    text,
                                    base,
                                    record_index,
                                    token.start,
                                    limits.max_identifier_bytes,
                                );
                                match complex.0 {
                                    Err(error) => (Err(error), primitive_cost + complex.1),
                                    Ok(element) => (
                                        Ok(ParsedTypeV1 { element, array }),
                                        primitive_cost + complex.1,
                                    ),
                                }
                            },
                        }
                    },
                }
            },
        }
    }
}

/// Whether `span` is a range of the definition of the Schema record at `record_index`, whose
/// definition has `data_len` bytes.
pub open spec fn data_span_within(record_index: usize, data_len: nat, span: SourceTextSpan) -> bool {
    &&& span.schema_record_index == record_index
    &&& span.kind == SourceTextKind::SchemaData
    &&& span.start + span.len <= data_len
}

/// Whether a nested element type names a range of that definition.
pub open spec fn element_within(record_index: usize, data_len: nat, element: ElementTypeV1) -> bool {
    match element {
        ElementTypeV1::Complex(span) => data_span_within(record_index, data_len, span),
        ElementTypeV1::Primitive(_) => true,
    }
}

/// A parsed nested type names a range of the definition it was parsed from.
pub proof fn lemma_parsed_type_within(
    text: Seq<u8>,
    record_index: usize,
    token: TextSlice,
    limits: UnfrozenRemoteRos2LimitsV1,
)
    ensures
        parsed_type(text, record_index, token, limits).0 matches Ok(ty) ==> element_within(
            record_index,
            text.len(),
            ty.element,
        ),
{
    reveal(complex_element);
}

/// Parses one field type token.
pub fn parse_type_v1(
    schema: SchemaView<'_>,
    token: TextSlice,
    limits: &UnfrozenRemoteRos2LimitsV1,
    steps: &mut RemoteRos2StepOwnershipV1,
) -> (result: Result<ParsedTypeV1, RemoteRos2InitializationError>)
    requires
        token.within(schema.data@),
    ensures
        steps::metered(
            *old(steps),
            parsed_type(schema.data@, schema.record_index, token, *limits).0,
            parsed_type(schema.data@, schema.record_index, token, *limits).1,
            result,
            *final(steps),
        ),
{
    let ghost initial = *steps;
    let ghost outcome = parsed_type(schema.data@, schema.record_index, token, *limits);
    let text = schema.data;
    lexer::ensure_length(
        token.end - token.start,
        limits.max_token_bytes,
        RemoteRos2ResourceLimit::TokenBytes,
    )?;
    let ghost scan_spec = bracket_scan(
        text@,
        token.start as int,
        token.start as int,
        token.end as int,
        None,
        None,
    );
    let scan = scan_type_brackets(text, token, steps);
    let (open, close) = match scan {
        Ok(found) => found,
        Err(error) => {
            proof {
                steps::lemma_metered_stop(
                    initial,
                    scan_spec.0,
                    scan_spec.1,
                    scan,
                    *steps,
                    outcome.0,
                    outcome.1,
                );
            }
            return Err(error);
        },
    };
    proof {
        lemma_bracket_scan_bounds(text@, token.start as int, token.start as int, token.end as int, None, None);
    }
    let ghost after_scan = *steps;
    let ghost split_spec = type_array_split(text@, token, open, close, limits.max_array_bound);
    let split = split_type_array(text, token, open, close, limits.max_array_bound, steps);
    proof {
        steps::lemma_metered_then(
            initial,
            scan_spec.0,
            scan_spec.1,
            scan,
            after_scan,
            split_spec.0,
            split_spec.1,
            split,
            *steps,
        );
    }
    let (base, array) = match split {
        Ok(found) => found,
        Err(error) => {
            proof {
                steps::lemma_metered_stop(
                    initial,
                    split_spec.0,
                    scan_spec.1 + split_spec.1,
                    split,
                    *steps,
                    outcome.0,
                    outcome.1,
                );
            }
            return Err(error);
        },
    };
    if base.start == base.end {
        return Err(RemoteRos2InitializationError::InvalidRemoteSchema);
    }
    let ghost split_cost = scan_spec.1 + split_spec.1;
    let ghost after_split = *steps;
    let charged = steps.consume_bytes(base.end - base.start);
    proof {
        steps::lemma_metered_then(
            initial,
            split_spec.0,
            split_cost,
            split,
            after_split,
            Ok::<(), RemoteRos2InitializationError>(()),
            base.spec_len(),
            charged,
            *steps,
        );
    }
    if charged.is_err() {
        proof {
            steps::lemma_metered_stop(
                initial,
                Ok::<(), RemoteRos2InitializationError>(()),
                split_cost + base.spec_len(),
                charged,
                *steps,
                outcome.0,
                outcome.1,
            );
        }
        return Err(charged.unwrap_err());
    }
    let ghost after_charge = *steps;
    let ghost primitive_spec = base_primitive(text@, base, limits.max_string_bound);
    let primitive = primitive_base(text, base, limits.max_string_bound, steps);
    proof {
        steps::lemma_metered_then(
            initial,
            Ok::<(), RemoteRos2InitializationError>(()),
            split_cost + base.spec_len(),
            charged,
            after_charge,
            primitive_spec.0,
            primitive_spec.1,
            primitive,
            *steps,
        );
    }
    let ghost primitive_cost = split_cost + base.spec_len() + primitive_spec.1;
    let primitive_found = match primitive {
        Ok(found) => found,
        Err(error) => {
            proof {
                steps::lemma_metered_stop(
                    initial,
                    primitive_spec.0,
                    primitive_cost,
                    primitive,
                    *steps,
                    outcome.0,
                    outcome.1,
                );
            }
            return Err(error);
        },
    };
    if let Some(found) = primitive_found {
        return Ok(ParsedTypeV1 { element: ElementTypeV1::Primitive(found), array });
    }
    let ghost after_primitive = *steps;
    let ghost complex_spec = complex_element(
        text@,
        base,
        schema.record_index,
        token.start,
        limits.max_identifier_bytes,
    );
    let complex = complex_base(schema, base, token.start, limits.max_identifier_bytes, steps);
    proof {
        steps::lemma_metered_then(
            initial,
            primitive_spec.0,
            primitive_cost,
            primitive,
            after_primitive,
            complex_spec.0,
            complex_spec.1,
            complex,
            *steps,
        );
    }
    match complex {
        Ok(element) => Ok(ParsedTypeV1 { element, array }),
        Err(error) => Err(error),
    }
}

} // verus!
