//! Members of a message specification: `type name`, `type name default` and
//! `type NAME = value`, and the iteration over the lines of one specification body.
use crate::remote_ros2_reflection::lexer::{self, TextSlice};
use crate::remote_ros2_reflection::literals;
use crate::remote_ros2_reflection::names;
use crate::remote_ros2_reflection::steps::{
    self, RemoteRos2InitializationError, RemoteRos2ResourceLimit, RemoteRos2StepOwnershipV1,
    UnsupportedForRemote,
};
use crate::remote_ros2_reflection::types::{
    self, ArraySizeV1, ElementTypeV1, ParsedTypeV1, PrimitiveTypeV1, SchemaView, SourceTextSpan,
    UnfrozenRemoteRos2LimitsV1,
};
use vstd::prelude::*;

verus! {

#[derive(Clone, Copy, Debug, PartialEq, Eq, Structural)]
pub enum ParsedMemberKindV1 {
    Field,
    Constant,
    SyntheticPadding,
}

/// One parsed member: its kind, name, type and optional constant value or default.
#[derive(Clone, Copy, Debug, PartialEq, Eq, Structural)]
pub struct MemberView {
    pub kind: ParsedMemberKindV1,
    pub name: SourceTextSpan,
    pub ty: ParsedTypeV1,
    pub literal: Option<SourceTextSpan>,
}

/// The type token and the name token of a member line.
pub open spec fn member_tokens(text: Seq<u8>, line: TextSlice, max_identifier_bytes: u64) -> (Result<
    (TextSlice, TextSlice),
    RemoteRos2InitializationError,
>, nat) {
    let type_cost = lexer::token_cost(text, line, 0);
    match lexer::token_after(text, line, 0) {
        None => (Err(RemoteRos2InitializationError::InvalidRemoteSchema), type_cost),
        Some(type_token) => {
            let offset = type_token.end - line.start;
            let cost = type_cost + lexer::token_cost(text, line, offset);
            match lexer::token_after(text, line, offset) {
                None => (Err(RemoteRos2InitializationError::InvalidRemoteSchema), cost),
                Some(name_token) => if name_token.spec_len() > max_identifier_bytes {
                    (Err(steps::limit_error(RemoteRos2ResourceLimit::IdentifierBytes)), cost)
                } else {
                    (Ok((type_token, name_token)), cost)
                },
            }
        },
    }
}

fn read_member_tokens(
    text: &[u8],
    line: TextSlice,
    max_identifier_bytes: u64,
    steps: &mut RemoteRos2StepOwnershipV1,
) -> (result: Result<(TextSlice, TextSlice), RemoteRos2InitializationError>)
    requires
        line.within(text@),
    ensures
        steps::metered(
            *old(steps),
            member_tokens(text@, line, max_identifier_bytes).0,
            member_tokens(text@, line, max_identifier_bytes).1,
            result,
            *final(steps),
        ),
        member_tokens(text@, line, max_identifier_bytes).0 matches Ok((type_token, name_token))
            ==> type_token.within(text@) && name_token.within(text@) && line.start
            <= type_token.start && type_token.end <= name_token.start && name_token.end
            <= line.end,
{
    let ghost initial = *steps;
    let ghost outcome = member_tokens(text@, line, max_identifier_bytes);
    proof {
        lexer::lemma_token_after_within(text@, line, 0);
        if let Some(type_token) = lexer::token_after(text@, line, 0) {
            lexer::lemma_token_after_within(text@, line, type_token.end - line.start);
        }
    }
    let first = lexer::next_token(text, line, 0, steps);
    let type_token = match first {
        Ok(Some(token)) => token,
        Ok(None) => {
            return Err(RemoteRos2InitializationError::InvalidRemoteSchema);
        },
        Err(error) => {
            return Err(error);
        },
    };
    let offset = lexer::token_end(line, type_token);
    let ghost middle = *steps;
    let second = lexer::next_token(text, line, offset, steps);
    proof {
        steps::lemma_metered_then(
            initial,
            Ok(lexer::token_after(text@, line, 0)),
            lexer::token_cost(text@, line, 0),
            first,
            middle,
            Ok(lexer::token_after(text@, line, offset as int)),
            lexer::token_cost(text@, line, offset as int),
            second,
            *steps,
        );
    }
    let name_token = match second {
        Ok(Some(token)) => token,
        Ok(None) => {
            return Err(RemoteRos2InitializationError::InvalidRemoteSchema);
        },
        Err(error) => {
            return Err(error);
        },
    };
    lexer::ensure_length(
        name_token.end - name_token.start,
        max_identifier_bytes,
        RemoteRos2ResourceLimit::IdentifierBytes,
    )?;
    Ok((type_token, name_token))
}

/// The name check of a member: constants need a constant name (else invalid), fields a field
/// name (else outside the subset).
#[verifier::opaque]
pub open spec fn member_name_check(text: Seq<u8>, name: TextSlice, constant: bool) -> (Result<
    (),
    RemoteRos2InitializationError,
>, nat) {
    let check = names::snake_name(text, name, constant);
    if check.0 {
        (Ok(()), check.1)
    } else if constant {
        (Err(RemoteRos2InitializationError::InvalidRemoteSchema), check.1)
    } else {
        (Err(steps::unsupported(UnsupportedForRemote::GrammarFeature)), check.1)
    }
}

fn check_member_name(
    text: &[u8],
    name: TextSlice,
    constant: bool,
    steps: &mut RemoteRos2StepOwnershipV1,
) -> (result: Result<(), RemoteRos2InitializationError>)
    requires
        name.within(text@),
    ensures
        steps::metered(
            *old(steps),
            member_name_check(text@, name, constant).0,
            member_name_check(text@, name, constant).1,
            result,
            *final(steps),
        ),
{
    proof {
        reveal(member_name_check);
    }
    if constant {
        let valid = names::is_valid_constant_name(text, name, steps)?;
        if !valid {
            return Err(RemoteRos2InitializationError::InvalidRemoteSchema);
        }
    } else {
        let valid = names::is_valid_field_name(text, name, steps)?;
        if !valid {
            return Err(
                RemoteRos2InitializationError::UnsupportedForRemote(
                    UnsupportedForRemote::GrammarFeature,
                ),
            );
        }
    }
    Ok(())
}

/// The constant value (after `=`) or default of a member, checked against its type.
#[verifier::opaque]
pub open spec fn member_literal(
    text: Seq<u8>,
    record_index: usize,
    rest: TextSlice,
    ty: ParsedTypeV1,
    constant: bool,
    limits: UnfrozenRemoteRos2LimitsV1,
) -> (Result<Option<SourceTextSpan>, RemoteRos2InitializationError>, nat) {
    if constant {
        if !(ty.array is Scalar) || !(ty.element is Primitive) {
            (Err(RemoteRos2InitializationError::InvalidRemoteSchema), 0)
        } else {
            let after = TextSlice { start: (rest.start + 1) as usize, end: rest.end };
            let value = lexer::trimmed(text, after);
            let trim_cost = lexer::trim_cost(text, after);
            if value.spec_len() == 0 && !(ty.element matches ElementTypeV1::Primitive(
                PrimitiveTypeV1::String { .. },
            )) {
                (Err(RemoteRos2InitializationError::InvalidRemoteSchema), trim_cost)
            } else if value.spec_len() > limits.max_default_bytes {
                (Err(steps::limit_error(RemoteRos2ResourceLimit::DefaultBytes)), trim_cost)
            } else {
                let check = literals::literal_check(text, value, ty, limits);
                match check.0 {
                    Err(error) => (Err(error), trim_cost + check.1),
                    Ok(_) => match types::data_span(
                        record_index,
                        text.len(),
                        value.start as int,
                        value.spec_len() as int,
                    ) {
                        Ok(span) => (Ok(Some(span)), trim_cost + check.1),
                        Err(error) => (Err(error), trim_cost + check.1),
                    },
                }
            }
        }
    } else if rest.spec_len() == 0 {
        (Ok(None), 0)
    } else if rest.spec_len() > limits.max_default_bytes {
        (Err(steps::limit_error(RemoteRos2ResourceLimit::DefaultBytes)), 0)
    } else {
        let check = literals::literal_check(text, rest, ty, limits);
        match check.0 {
            Err(error) => (Err(error), check.1),
            Ok(_) => match types::data_span(
                record_index,
                text.len(),
                rest.start as int,
                rest.spec_len() as int,
            ) {
                Ok(span) => (Ok(Some(span)), check.1),
                Err(error) => (Err(error), check.1),
            },
        }
    }
}

fn check_member_literal(
    schema: SchemaView<'_>,
    rest: TextSlice,
    ty: ParsedTypeV1,
    constant: bool,
    limits: &UnfrozenRemoteRos2LimitsV1,
    steps: &mut RemoteRos2StepOwnershipV1,
) -> (result: Result<Option<SourceTextSpan>, RemoteRos2InitializationError>)
    requires
        rest.within(schema.data@),
        constant ==> rest.spec_len() > 0,
    ensures
        steps::metered(
            *old(steps),
            member_literal(schema.data@, schema.record_index, rest, ty, constant, *limits).0,
            member_literal(schema.data@, schema.record_index, rest, ty, constant, *limits).1,
            result,
            *final(steps),
        ),
{
    let ghost initial = *steps;
    let ghost outcome = member_literal(schema.data@, schema.record_index, rest, ty, constant, *limits);
    let text = schema.data;
    proof {
        reveal(member_literal);
        steps::lemma_metered_pure(initial, Ok::<(), RemoteRos2InitializationError>(()));
    }
    if constant {
        let scalar_primitive = match (ty.array, ty.element) {
            (ArraySizeV1::Scalar, ElementTypeV1::Primitive(_)) => true,
            _ => false,
        };
        if !scalar_primitive {
            return Err(RemoteRos2InitializationError::InvalidRemoteSchema);
        }
        let after = TextSlice { start: rest.start + 1, end: rest.end };
        proof {
            lexer::lemma_trimmed_within(text@, after);
        }
        let value = match lexer::trim_ascii(text, after, steps) {
            Ok(value) => value,
            Err(error) => {
                return Err(error);
            },
        };
        let is_string = match ty.element {
            ElementTypeV1::Primitive(PrimitiveTypeV1::String { .. }) => true,
            _ => false,
        };
        if value.start == value.end && !is_string {
            return Err(RemoteRos2InitializationError::InvalidRemoteSchema);
        }
        lexer::ensure_length(
            value.end - value.start,
            limits.max_default_bytes,
            RemoteRos2ResourceLimit::DefaultBytes,
        )?;
        let ghost before = *steps;
        let checked = literals::validate_literal_v1(text, value, ty, limits, steps);
        proof {
            steps::lemma_metered_then(
                initial,
                Ok(value),
                lexer::trim_cost(text@, after),
                Ok(value),
                before,
                literals::literal_check(text@, value, ty, *limits).0,
                literals::literal_check(text@, value, ty, *limits).1,
                checked,
                *steps,
            );
        }
        if checked.is_err() {
            return Err(checked.unwrap_err());
        }
        let span = types::span_from_data(schema, value.start, value.end - value.start)?;
        Ok(Some(span))
    } else if rest.start == rest.end {
        Ok(None)
    } else {
        lexer::ensure_length(
            rest.end - rest.start,
            limits.max_default_bytes,
            RemoteRos2ResourceLimit::DefaultBytes,
        )?;
        literals::validate_literal_v1(text, rest, ty, limits, steps)?;
        let span = types::span_from_data(schema, rest.start, rest.end - rest.start)?;
        Ok(Some(span))
    }
}

/// A member line: `type name`, `type name default` or `type NAME = value`.
pub open spec fn parsed_member(
    text: Seq<u8>,
    record_index: usize,
    line: TextSlice,
    limits: UnfrozenRemoteRos2LimitsV1,
) -> (Result<MemberView, RemoteRos2InitializationError>, nat) {
    let tokens = member_tokens(text, line, limits.max_identifier_bytes);
    match tokens.0 {
        Err(error) => (Err(error), tokens.1),
        Ok((type_token, name_token)) => {
            let after_name = TextSlice { start: name_token.end, end: line.end };
            let rest = lexer::trimmed(text, after_name);
            let rest_cost = tokens.1 + lexer::trim_cost(text, after_name);
            let ty = types::parsed_type(text, record_index, type_token, limits);
            let type_cost = rest_cost + ty.1;
            match ty.0 {
                Err(error) => (Err(error), type_cost),
                Ok(ty) => {
                    let constant = rest.spec_len() > 0 && text[rest.start as int] == 0x3D;
                    let name_check = member_name_check(text, name_token, constant);
                    let name_cost = type_cost + name_check.1;
                    match name_check.0 {
                        Err(error) => (Err(error), name_cost),
                        Ok(_) => {
                            let literal = member_literal(text, record_index, rest, ty, constant, limits);
                            let cost = name_cost + literal.1;
                            match literal.0 {
                                Err(error) => (Err(error), cost),
                                Ok(literal) => match types::data_span(
                                    record_index,
                                    text.len(),
                                    name_token.start as int,
                                    name_token.spec_len() as int,
                                ) {
                                    Err(error) => (Err(error), cost),
                                    Ok(name) => (
                                        Ok(
                                            MemberView {
                                                kind: if constant {
                                                    ParsedMemberKindV1::Constant
                                                } else {
                                                    ParsedMemberKindV1::Field
                                                },
                                                name,
                                                ty,
                                                literal,
                                            },
                                        ),
                                        cost,
                                    ),
                                },
                            }
                        },
                    }
                },
            }
        },
    }
}

/// Parsing yields fields and constants only; padding is synthesized later.
pub proof fn lemma_parsed_member_kind(
    text: Seq<u8>,
    record_index: usize,
    line: TextSlice,
    limits: UnfrozenRemoteRos2LimitsV1,
)
    ensures
        parsed_member(text, record_index, line, limits).0 matches Ok(member) ==> member.kind
            != ParsedMemberKindV1::SyntheticPadding,
{
}

/// Whether the first byte after the name token of `line`, past blanks, is `=`: the mark of a
/// constant.
pub open spec fn constant_marked(text: Seq<u8>, line: TextSlice, name_token: TextSlice) -> bool {
    let rest = lexer::trimmed(text, TextSlice { start: name_token.end, end: line.end });
    rest.spec_len() > 0 && text[rest.start as int] == 0x3D
}

/// A member line without a type token, or with a type token and no name token, is invalid. A
/// parsed member is a constant exactly when `=` follows its name, and a field otherwise.
pub proof fn lemma_parsed_member_shape(
    text: Seq<u8>,
    record_index: usize,
    line: TextSlice,
    limits: UnfrozenRemoteRos2LimitsV1,
)
    ensures
        lexer::token_after(text, line, 0) is None ==> parsed_member(
            text,
            record_index,
            line,
            limits,
        ).0 == Err::<MemberView, RemoteRos2InitializationError>(
            RemoteRos2InitializationError::InvalidRemoteSchema,
        ),
        lexer::token_after(text, line, 0) matches Some(type_token) && lexer::token_after(
            text,
            line,
            type_token.end - line.start,
        ) is None ==> parsed_member(text, record_index, line, limits).0 == Err::<
            MemberView,
            RemoteRos2InitializationError,
        >(RemoteRos2InitializationError::InvalidRemoteSchema),
        parsed_member(text, record_index, line, limits).0 matches Ok(member) ==> {
            &&& member_tokens(text, line, limits.max_identifier_bytes).0 matches Ok((_, name_token))
            &&& (member.kind == ParsedMemberKindV1::Constant <==> constant_marked(
                text,
                line,
                name_token,
            ))
            &&& (member.kind == ParsedMemberKindV1::Field <==> !constant_marked(
                text,
                line,
                name_token,
            ))
        },
{
}

/// The naming rules of a member line whose type parses: a constant needs an upper-case snake
/// name and is otherwise invalid; a field needs a lower-case snake name and is otherwise outside
/// the supported subset. A parsed constant has a scalar primitive type.
pub proof fn lemma_parsed_member_names(
    text: Seq<u8>,
    record_index: usize,
    line: TextSlice,
    limits: UnfrozenRemoteRos2LimitsV1,
)
    ensures
        member_tokens(text, line, limits.max_identifier_bytes).0 matches Ok((type_token, name_token))
            ==> types::parsed_type(text, record_index, type_token, limits).0 is Ok ==> {
            let constant = constant_marked(text, line, name_token);
            let outcome = parsed_member(text, record_index, line, limits).0;
            &&& !names::snake_name(text, name_token, constant).0 && constant ==> outcome == Err::<
                MemberView,
                RemoteRos2InitializationError,
            >(RemoteRos2InitializationError::InvalidRemoteSchema)
            &&& !names::snake_name(text, name_token, constant).0 && !constant ==> outcome == Err::<
                MemberView,
                RemoteRos2InitializationError,
            >(steps::unsupported(UnsupportedForRemote::GrammarFeature))
            &&& outcome matches Ok(member) ==> names::snake_name(text, name_token, constant).0 && (
            constant ==> member.ty.array is Scalar && member.ty.element is Primitive)
        },
{
    reveal(member_name_check);
    reveal(member_literal);
}

/// A parsed member names and types itself with ranges of the definition it was parsed from.
pub proof fn lemma_parsed_member_within(
    text: Seq<u8>,
    record_index: usize,
    line: TextSlice,
    limits: UnfrozenRemoteRos2LimitsV1,
)
    ensures
        parsed_member(text, record_index, line, limits).0 matches Ok(member) ==> {
            &&& types::data_span_within(record_index, text.len(), member.name)
            &&& types::element_within(record_index, text.len(), member.ty.element)
        },
{
    if let Ok((type_token, _)) = member_tokens(text, line, limits.max_identifier_bytes).0 {
        types::lemma_parsed_type_within(text, record_index, type_token, limits);
    }
}

/// Parses one member line of a specification body.
pub fn parse_member_v1(
    schema: SchemaView<'_>,
    line: TextSlice,
    limits: &UnfrozenRemoteRos2LimitsV1,
    steps: &mut RemoteRos2StepOwnershipV1,
) -> (result: Result<MemberView, RemoteRos2InitializationError>)
    requires
        line.within(schema.data@),
    ensures
        steps::metered(
            *old(steps),
            parsed_member(schema.data@, schema.record_index, line, *limits).0,
            parsed_member(schema.data@, schema.record_index, line, *limits).1,
            result,
            *final(steps),
        ),
{
    let ghost initial = *steps;
    let ghost outcome = parsed_member(schema.data@, schema.record_index, line, *limits);
    let text = schema.data;
    let ghost tokens_spec = member_tokens(text@, line, limits.max_identifier_bytes);
    let tokens = read_member_tokens(text, line, limits.max_identifier_bytes, steps);
    let (type_token, name_token) = match tokens {
        Ok(tokens) => tokens,
        Err(error) => {
            return Err(error);
        },
    };
    let after_name = TextSlice { start: name_token.end, end: line.end };
    proof {
        lexer::lemma_trimmed_within(text@, after_name);
    }
    let ghost before = *steps;
    let rest = lexer::trim_ascii(text, after_name, steps);
    proof {
        steps::lemma_metered_then(
            initial,
            tokens_spec.0,
            tokens_spec.1,
            tokens,
            before,
            Ok(lexer::trimmed(text@, after_name)),
            lexer::trim_cost(text@, after_name),
            rest,
            *steps,
        );
    }
    let ghost rest_cost = tokens_spec.1 + lexer::trim_cost(text@, after_name);
    let rest = match rest {
        Ok(rest) => rest,
        Err(error) => {
            return Err(error);
        },
    };
    let ghost before = *steps;
    let ghost type_spec = types::parsed_type(text@, schema.record_index, type_token, *limits);
    let ty = types::parse_type_v1(schema, type_token, limits, steps);
    proof {
        steps::lemma_metered_then(
            initial,
            Ok(rest),
            rest_cost,
            Ok(rest),
            before,
            type_spec.0,
            type_spec.1,
            ty,
            *steps,
        );
    }
    let ty = match ty {
        Ok(ty) => ty,
        Err(error) => {
            return Err(error);
        },
    };
    let ghost type_cost = rest_cost + type_spec.1;
    let constant = rest.start < rest.end && text[rest.start] == 0x3D;
    let ghost before = *steps;
    let named = check_member_name(text, name_token, constant, steps);
    proof {
        steps::lemma_metered_then(
            initial,
            Ok(ty),
            type_cost,
            Ok(ty),
            before,
            member_name_check(text@, name_token, constant).0,
            member_name_check(text@, name_token, constant).1,
            named,
            *steps,
        );
    }
    if named.is_err() {
        return Err(named.unwrap_err());
    }
    let ghost name_cost = type_cost + member_name_check(text@, name_token, constant).1;
    let ghost before = *steps;
    let literal = check_member_literal(schema, rest, ty, constant, limits, steps);
    proof {
        steps::lemma_metered_then(
            initial,
            Ok(()),
            name_cost,
            Ok(()),
            before,
            member_literal(text@, schema.record_index, rest, ty, constant, *limits).0,
            member_literal(text@, schema.record_index, rest, ty, constant, *limits).1,
            literal,
            *steps,
        );
    }
    let literal = match literal {
        Ok(literal) => literal,
        Err(error) => {
            return Err(error);
        },
    };
    let name = types::span_from_data(schema, name_token.start, name_token.end - name_token.start)?;
    Ok(
        MemberView {
            kind: if constant {
                ParsedMemberKindV1::Constant
            } else {
                ParsedMemberKindV1::Field
            },
            name,
            ty,
            literal,
        },
    )
}

} // verus!
