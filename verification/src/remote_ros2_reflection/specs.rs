//! Iteration over the specifications of one schema (the main definition and each `MSG:`
//! dependency after a separator line) and over the members of one specification body.
use crate::remote_ros2_reflection::lexer::{self, LineView, TextSlice};
use crate::remote_ros2_reflection::members::{self, MemberView, ParsedMemberKindV1};
use crate::remote_ros2_reflection::steps::{
    self, RemoteRos2InitializationError, RemoteRos2ResourceLimit, RemoteRos2StepOwnershipV1,
    UnsupportedForRemote,
};
use crate::remote_ros2_reflection::types::{
    self, ElementTypeV1, PrimitiveTypeV1, SchemaView, SourceTextKind, SourceTextSpan,
    UnfrozenRemoteRos2LimitsV1,
};
use vstd::prelude::*;

verus! {

/// One specification: its name and its body `body_start..body_end` in the definition.
#[derive(Clone, Copy, Debug, PartialEq, Eq, Structural)]
pub struct SpecView {
    pub name: SourceTextSpan,
    pub body_start: usize,
    pub body_end: usize,
}

pub open spec fn word_msg_colon() -> Seq<u8> {
    seq![0x4du8, 0x53, 0x47, 0x3a]
}

/// Whether `text[slice]` starts with `MSG:`.
pub open spec fn starts_with_msg(text: Seq<u8>, slice: TextSlice) -> bool {
    slice.spec_len() >= 4 && lexer::slice_text(text, slice).subrange(0, 4) == word_msg_colon()
}

/// The line at `cursor` of a specification body: its member, or none for a blank or comment
/// line, or the first error, with the steps charged.
pub open spec fn member_line(
    text: Seq<u8>,
    record_index: usize,
    cursor: int,
    body_end: int,
    limits: UnfrozenRemoteRos2LimitsV1,
) -> (Result<Option<MemberView>, RemoteRos2InitializationError>, nat) {
    match lexer::line_at(text, cursor) {
        None => (Err(RemoteRos2InitializationError::InvalidRemoteSchema), 0),
        Some(line) => {
            let line_cost = lexer::line_cost(text, cursor);
            if line.start >= body_end || line.next > body_end + 1 {
                (Err(RemoteRos2InitializationError::InvalidRemoteSchema), line_cost)
            } else if line.content().spec_len() > limits.max_line_bytes {
                (Err(steps::limit_error(RemoteRos2ResourceLimit::LineBytes)), line_cost)
            } else {
                let stripped = lexer::uncommented(text, line.content());
                let strip_cost = line_cost + lexer::uncommented_cost(text, line.content());
                match stripped {
                    Err(error) => (Err(error), strip_cost),
                    Ok(body) => if body.spec_len() == 0 {
                        (Ok(None), strip_cost)
                    } else {
                        let separator_cost = strip_cost + lexer::separator_cost(text, body);
                        if lexer::separator_line(text, body) || starts_with_msg(text, body) {
                            (Err(RemoteRos2InitializationError::InvalidRemoteSchema), separator_cost)
                        } else {
                            let member = members::parsed_member(text, record_index, body, limits);
                            (
                                match member.0 {
                                    Ok(member) => Ok(Some(member)),
                                    Err(error) => Err(error),
                                },
                                separator_cost + member.1,
                            )
                        }
                    },
                }
            }
        },
    }
}

/// The start of the line after the one at `cursor`.
pub open spec fn next_line_start(text: Seq<u8>, cursor: int) -> int {
    match lexer::line_at(text, cursor) {
        Some(line) => line.next as int,
        None => cursor,
    }
}

/// The next member of a specification body from `cursor` on: the member, or none at the end of
/// the body, or the first error; the steps charged; and the cursor after the member's line.
pub open spec fn member_search(
    text: Seq<u8>,
    record_index: usize,
    cursor: int,
    body_end: int,
    limits: UnfrozenRemoteRos2LimitsV1,
) -> (Result<Option<MemberView>, RemoteRos2InitializationError>, nat, int)
    decreases text.len() - cursor,
{
    if cursor >= body_end {
        (Ok(None), 0, cursor)
    } else {
        let line = member_line(text, record_index, cursor, body_end, limits);
        let next = next_line_start(text, cursor);
        match line.0 {
            Err(error) => (Err(error), line.1, cursor),
            Ok(Some(member)) => (Ok(Some(member)), line.1, next),
            Ok(None) => if next <= cursor || next > text.len() {
                (Ok(None), line.1, cursor)
            } else {
                let rest = member_search(text, record_index, next, body_end, limits);
                (rest.0, line.1 + rest.1, rest.2)
            },
        }
    }
}

pub proof fn lemma_member_search_advances(
    text: Seq<u8>,
    record_index: usize,
    cursor: int,
    body_end: int,
    limits: UnfrozenRemoteRos2LimitsV1,
)
    requires
        0 <= cursor,
        text.len() <= usize::MAX,
    ensures
        member_search(text, record_index, cursor, body_end, limits).0 matches Ok(Some(_))
            ==> member_search(text, record_index, cursor, body_end, limits).2 > cursor
            && member_search(text, record_index, cursor, body_end, limits).2 <= text.len(),
        member_search(text, record_index, cursor, body_end, limits).0 matches Ok(Some(member))
            ==> member.kind != ParsedMemberKindV1::SyntheticPadding,
        member_search(text, record_index, cursor, body_end, limits).2 >= cursor,
    decreases text.len() - cursor,
{
    lexer::lemma_line_at_bounds(text, cursor);
    if let Some(line) = lexer::line_at(text, cursor) {
        if let Ok(body) = lexer::uncommented(text, line.content()) {
            members::lemma_parsed_member_kind(text, record_index, body, limits);
        }
    }
    if cursor < body_end {
        let next = next_line_start(text, cursor);
        if next > cursor && next <= text.len() {
            lemma_member_search_advances(text, record_index, next, body_end, limits);
        }
    }
}

/// Reads the line at `cursor` and parses its member, if any.
fn read_member_line(
    schema: SchemaView<'_>,
    cursor: &mut usize,
    body_end: usize,
    limits: &UnfrozenRemoteRos2LimitsV1,
    steps: &mut RemoteRos2StepOwnershipV1,
) -> (result: Result<Option<MemberView>, RemoteRos2InitializationError>)
    ensures
        steps::metered(
            *old(steps),
            member_line(schema.data@, schema.record_index, *old(cursor) as int, body_end as int, *limits).0,
            member_line(schema.data@, schema.record_index, *old(cursor) as int, body_end as int, *limits).1,
            result,
            *final(steps),
        ),
        result is Ok ==> *final(cursor) == next_line_start(schema.data@, *old(cursor) as int),
{
    let ghost initial = *steps;
    let ghost text = schema.data@;
    let ghost at = *cursor as int;
    let _data_len = schema.data.len();
    let line = lexer::next_line(schema.data, cursor, steps);
    let line: LineView = match line {
        Ok(Some(line)) => line,
        Ok(None) => {
            return Err(RemoteRos2InitializationError::InvalidRemoteSchema);
        },
        Err(error) => {
            return Err(error);
        },
    };
    proof {
        lexer::lemma_line_at_bounds(text, at);
    }
    let ghost charged = lexer::line_cost(text, at);
    if line.start >= body_end || line.next > body_end.saturating_add(1) {
        return Err(RemoteRos2InitializationError::InvalidRemoteSchema);
    }
    lexer::ensure_length(
        line.content_end - line.start,
        limits.max_line_bytes,
        RemoteRos2ResourceLimit::LineBytes,
    )?;
    let ghost before = *steps;
    let stripped = lexer::strip_comment_checked(schema.data, line.text(), steps);
    proof {
        steps::lemma_metered_then(
            initial,
            Ok(Some(line)),
            charged,
            Ok(Some(line)),
            before,
            lexer::uncommented(text, line.content()),
            lexer::uncommented_cost(text, line.content()),
            stripped,
            *steps,
        );
    }
    let body = match stripped {
        Ok(body) => body,
        Err(error) => {
            return Err(error);
        },
    };
    let ghost charged = charged + lexer::uncommented_cost(text, line.content());
    if body.start == body.end {
        return Ok(None);
    }
    let ghost before = *steps;
    let separator = lexer::is_schema_separator(schema.data, body, steps);
    proof {
        steps::lemma_metered_then(
            initial,
            Ok(body),
            charged,
            Ok(body),
            before,
            Ok(lexer::separator_line(text, body)),
            lexer::separator_cost(text, body),
            separator,
            *steps,
        );
    }
    let separator = match separator {
        Ok(separator) => separator,
        Err(error) => {
            return Err(error);
        },
    };
    let ghost charged = charged + lexer::separator_cost(text, body);
    if separator || types::starts_with_word(schema.data, body, &[0x4du8, 0x53, 0x47, 0x3a]) {
        return Err(RemoteRos2InitializationError::InvalidRemoteSchema);
    }
    let ghost before = *steps;
    let member = members::parse_member_v1(schema, body, limits, steps);
    proof {
        steps::lemma_metered_then(
            initial,
            Ok(separator),
            charged,
            Ok(separator),
            before,
            members::parsed_member(text, schema.record_index, body, *limits).0,
            members::parsed_member(text, schema.record_index, body, *limits).1,
            member,
            *steps,
        );
    }
    match member {
        Ok(member) => Ok(Some(member)),
        Err(error) => Err(error),
    }
}

/// The member iterator of one specification body.
pub struct MemberIter<'a> {
    schema: SchemaView<'a>,
    spec: SpecView,
    cursor: usize,
    limits: &'a UnfrozenRemoteRos2LimitsV1,
}

impl<'a> MemberIter<'a> {
    pub closed spec fn schema_of(&self) -> SchemaView<'a> {
        self.schema
    }

    pub closed spec fn spec_of(&self) -> SpecView {
        self.spec
    }

    pub closed spec fn cursor_of(&self) -> int {
        self.cursor as int
    }

    pub closed spec fn limits_of(&self) -> UnfrozenRemoteRos2LimitsV1 {
        *self.limits
    }

    pub fn new(schema: SchemaView<'a>, spec: SpecView, limits: &'a UnfrozenRemoteRos2LimitsV1) -> (iter: Self)
        ensures
            iter.schema_of() == schema,
            iter.spec_of() == spec,
            iter.cursor_of() == spec.body_start,
            iter.limits_of() == *limits,
    {
        MemberIter { schema, spec, cursor: spec.body_start, limits }
    }

    /// The next member of the body, charging every inspected byte.
    pub fn next_member(&mut self, steps: &mut RemoteRos2StepOwnershipV1) -> (result: Result<
        Option<MemberView>,
        RemoteRos2InitializationError,
    >)
        ensures
            steps::metered(
                *old(steps),
                member_search(
                    old(self).schema_of().data@,
                    old(self).schema_of().record_index,
                    old(self).cursor_of(),
                    old(self).spec_of().body_end as int,
                    old(self).limits_of(),
                ).0,
                member_search(
                    old(self).schema_of().data@,
                    old(self).schema_of().record_index,
                    old(self).cursor_of(),
                    old(self).spec_of().body_end as int,
                    old(self).limits_of(),
                ).1,
                result,
                *final(steps),
            ),
            final(self).schema_of() == old(self).schema_of(),
            final(self).spec_of() == old(self).spec_of(),
            final(self).limits_of() == old(self).limits_of(),
            result is Ok ==> final(self).cursor_of() == member_search(
                old(self).schema_of().data@,
                old(self).schema_of().record_index,
                old(self).cursor_of(),
                old(self).spec_of().body_end as int,
                old(self).limits_of(),
            ).2,
    {
        let ghost initial = *steps;
        let ghost text = self.schema.data@;
        let ghost record_index = self.schema.record_index;
        let ghost body_end = self.spec.body_end as int;
        let ghost limits = *self.limits;
        let ghost start = self.cursor as int;
        let ghost search = member_search(text, record_index, start, body_end, limits);
        let ghost mut charged: nat = 0;
        proof {
            steps::lemma_metered_pure(initial, Ok::<(), RemoteRos2InitializationError>(()));
        }
        let data_len = self.schema.data.len();
        while self.cursor < self.spec.body_end
            invariant
                initial == *old(steps),
                text == self.schema.data@,
                data_len == text.len(),
                record_index == self.schema.record_index,
                body_end == self.spec.body_end,
                limits == *self.limits,
                self.schema == old(self).schema,
                self.spec == old(self).spec,
                self.limits == old(self).limits,
                start == old(self).cursor,
                search == member_search(text, record_index, start, body_end, limits),
                search.0 == member_search(text, record_index, self.cursor as int, body_end, limits).0,
                search.1 == charged + member_search(text, record_index, self.cursor as int, body_end, limits).1,
                search.2 == member_search(text, record_index, self.cursor as int, body_end, limits).2,
                steps::metered(initial, Ok(()), charged, Ok(()), *steps),
            decreases text.len() - self.cursor,
        {
            let ghost at = self.cursor as int;
            proof {
                lexer::lemma_line_at_bounds(text, at);
            }
            let ghost before = *steps;
            let ghost line_spec = member_line(text, record_index, at, body_end, limits);
            let member = read_member_line(self.schema, &mut self.cursor, self.spec.body_end, self.limits, steps);
            proof {
                steps::lemma_metered_then(
                    initial,
                    Ok::<(), RemoteRos2InitializationError>(()),
                    charged,
                    Ok(()),
                    before,
                    line_spec.0,
                    line_spec.1,
                    member,
                    *steps,
                );
            }
            match member {
                Ok(Some(member)) => {
                    return Ok(Some(member));
                },
                Ok(None) => {},
                Err(error) => {
                    return Err(error);
                },
            }
            proof {
                charged = charged + line_spec.1;
            }
        }
        Ok(None)
    }
}


pub open spec fn word_msg_header() -> Seq<u8> {
    seq![0x4du8, 0x53, 0x47, 0x3a, 0x20]
}

/// The specification body ending at the next separator after `from`, or at the end of the text:
/// its end and the start of the dependency after the separator, if any.
pub open spec fn body_until_separator(text: Seq<u8>, from: int) -> (usize, Option<usize>) {
    match lexer::separator_search(text, from).0 {
        Some((separator_start, separator_end)) => (separator_start, Some(separator_end)),
        None => (text.len() as usize, None),
    }
}

/// The dependency specification whose `MSG: name` header line starts at `start`, and the start
/// of the dependency after it, with the steps charged.
pub open spec fn dependency_spec(text: Seq<u8>, record_index: usize, start: int) -> (Result<
    (SpecView, Option<usize>),
    RemoteRos2InitializationError,
>, nat) {
    let grammar = steps::unsupported(UnsupportedForRemote::GrammarFeature);
    let line_cost = lexer::line_cost(text, start);
    match lexer::line_at(text, start) {
        None => (Err(grammar), line_cost),
        Some(header) => {
            let separator_cost = line_cost + lexer::separator_cost(text, header.content());
            if lexer::separator_line(text, header.content()) {
                (Err(grammar), separator_cost)
            } else {
                let trimmed = lexer::trimmed(text, header.content());
                let trim_cost = separator_cost + lexer::trim_cost(text, header.content());
                if !(trimmed.spec_len() >= 5 && lexer::slice_text(text, trimmed).subrange(0, 5)
                    == word_msg_header()) {
                    (Err(grammar), trim_cost)
                } else {
                    let after = TextSlice { start: (trimmed.start + 5) as usize, end: trimmed.end };
                    let name = lexer::trimmed(text, after);
                    let name_cost = trim_cost + lexer::trim_cost(text, after);
                    if name.spec_len() == 0 {
                        (Err(grammar), name_cost)
                    } else {
                        match types::data_span(
                            record_index,
                            text.len(),
                            name.start as int,
                            name.spec_len() as int,
                        ) {
                            Err(error) => (Err(error), name_cost),
                            Ok(span) => {
                                let cost = name_cost + lexer::separator_search(
                                    text,
                                    header.next as int,
                                ).1;
                                let (body_end, next) = body_until_separator(text, header.next as int);
                                if header.next >= body_end {
                                    (Err(grammar), cost)
                                } else {
                                    (
                                        Ok(
                                            (
                                                SpecView {
                                                    name: span,
                                                    body_start: header.next,
                                                    body_end,
                                                },
                                                next,
                                            ),
                                        ),
                                        cost,
                                    )
                                }
                            },
                        }
                    }
                }
            }
        },
    }
}

/// The iterator state: whether the main specification was yielded, the start of the next
/// dependency, and whether the iteration is done.
pub struct SpecIterState {
    pub yielded_main: bool,
    pub next_dependency: Option<usize>,
    pub done: bool,
}

/// One step of the specification iteration over a schema, from the given state: the next
/// specification or none, the steps charged, and the state after it.
pub open spec fn spec_iter_step(schema: SchemaView, state: SpecIterState) -> (Result<
    Option<SpecView>,
    RemoteRos2InitializationError,
>, nat, SpecIterState) {
    let text = schema.data@;
    if state.done {
        (Ok(None), 0, state)
    } else if !state.yielded_main {
        let cost = lexer::separator_search(text, 0).1;
        let (body_end, next) = body_until_separator(text, 0);
        let after = SpecIterState { yielded_main: true, next_dependency: next, done: next is None };
        if schema.name@.len() > u32::MAX {
            (Err(steps::limit_error(RemoteRos2ResourceLimit::Arithmetic)), cost, after)
        } else {
            (
                Ok(
                    Some(
                        SpecView {
                            name: SourceTextSpan {
                                schema_record_index: schema.record_index,
                                kind: SourceTextKind::SchemaName,
                                start: 0,
                                len: schema.name@.len() as u32,
                            },
                            body_start: 0,
                            body_end,
                        },
                    ),
                ),
                cost,
                after,
            )
        }
    } else {
        match state.next_dependency {
            None => (Err(steps::unsupported(UnsupportedForRemote::GrammarFeature)), 0, state),
            Some(start) => {
                let dependency = dependency_spec(text, schema.record_index, start as int);
                match dependency.0 {
                    Err(error) => (Err(error), dependency.1, state),
                    Ok((spec, next)) => (
                        Ok(Some(spec)),
                        dependency.1,
                        SpecIterState { yielded_main: true, next_dependency: next, done: next is None },
                    ),
                }
            },
        }
    }
}

/// The specifications of one schema: the main definition, then every `MSG:` dependency.
pub struct SpecIter<'a> {
    schema: SchemaView<'a>,
    yielded_main: bool,
    next_dependency: Option<usize>,
    done: bool,
}

impl<'a> SpecIter<'a> {
    pub closed spec fn schema_of(&self) -> SchemaView<'a> {
        self.schema
    }

    pub closed spec fn state(&self) -> SpecIterState {
        SpecIterState {
            yielded_main: self.yielded_main,
            next_dependency: self.next_dependency,
            done: self.done,
        }
    }

    pub fn new(schema: SchemaView<'a>) -> (iter: Self)
        ensures
            iter.schema_of() == schema,
            iter.state() == (SpecIterState { yielded_main: false, next_dependency: None, done: false }),
    {
        SpecIter { schema, yielded_main: false, next_dependency: None, done: false }
    }

    /// The next specification of the schema, charging every inspected byte.
    pub fn next_spec(&mut self, steps: &mut RemoteRos2StepOwnershipV1) -> (result: Result<
        Option<SpecView>,
        RemoteRos2InitializationError,
    >)
        ensures
            steps::metered(
                *old(steps),
                spec_iter_step(old(self).schema_of(), old(self).state()).0,
                spec_iter_step(old(self).schema_of(), old(self).state()).1,
                result,
                *final(steps),
            ),
            final(self).schema_of() == old(self).schema_of(),
            result is Ok ==> final(self).state() == spec_iter_step(
                old(self).schema_of(),
                old(self).state(),
            ).2,
    {
        let ghost initial = *steps;
        let ghost text = self.schema.data@;
        if self.done {
            return Ok(None);
        }
        if !self.yielded_main {
            self.yielded_main = true;
            let separator = lexer::find_next_separator(self.schema.data, 0, steps)?;
            let body_end = match separator {
                Some((separator_start, separator_end)) => {
                    self.next_dependency = Some(separator_end);
                    separator_start
                },
                None => {
                    self.done = true;
                    self.next_dependency = None;
                    self.schema.data.len()
                },
            };
            let name = types::schema_name_span(self.schema)?;
            return Ok(Some(SpecView { name, body_start: 0, body_end }));
        }
        let start = match self.next_dependency {
            Some(start) => start,
            None => {
                return Err(
                    RemoteRos2InitializationError::UnsupportedForRemote(
                        UnsupportedForRemote::GrammarFeature,
                    ),
                );
            },
        };
        let dependency = read_dependency_spec(self.schema, start, steps);
        match dependency {
            Ok((spec, next)) => {
                self.next_dependency = next;
                if next.is_none() {
                    self.done = true;
                }
                Ok(Some(spec))
            },
            Err(error) => Err(error),
        }
    }
}

/// Reads the dependency specification whose header line starts at `start`.
fn read_dependency_spec(
    schema: SchemaView<'_>,
    start: usize,
    steps: &mut RemoteRos2StepOwnershipV1,
) -> (result: Result<(SpecView, Option<usize>), RemoteRos2InitializationError>)
    ensures
        steps::metered(
            *old(steps),
            dependency_spec(schema.data@, schema.record_index, start as int).0,
            dependency_spec(schema.data@, schema.record_index, start as int).1,
            result,
            *final(steps),
        ),
{
    let ghost initial = *steps;
    let ghost text = schema.data@;
    let text_len = schema.data.len();
    let mut cursor = start;
    let header = lexer::next_line(schema.data, &mut cursor, steps);
    let header: LineView = match header {
        Ok(Some(header)) => header,
        Ok(None) => {
            return Err(
                RemoteRos2InitializationError::UnsupportedForRemote(
                    UnsupportedForRemote::GrammarFeature,
                ),
            );
        },
        Err(error) => {
            return Err(error);
        },
    };
    proof {
        lexer::lemma_line_at_bounds(text, start as int);
    }
    let ghost charged = lexer::line_cost(text, start as int);
    let ghost before = *steps;
    let separator = lexer::is_schema_separator(schema.data, header.text(), steps);
    proof {
        steps::lemma_metered_then(
            initial,
            Ok(Some(header)),
            charged,
            Ok(Some(header)),
            before,
            Ok(lexer::separator_line(text, header.content())),
            lexer::separator_cost(text, header.content()),
            separator,
            *steps,
        );
    }
    let separator = match separator {
        Ok(separator) => separator,
        Err(error) => {
            return Err(error);
        },
    };
    let ghost charged = charged + lexer::separator_cost(text, header.content());
    if separator {
        return Err(
            RemoteRos2InitializationError::UnsupportedForRemote(UnsupportedForRemote::GrammarFeature),
        );
    }
    proof {
        lexer::lemma_trimmed_within(text, header.content());
    }
    let ghost before = *steps;
    let trimmed = lexer::trim_ascii(schema.data, header.text(), steps);
    proof {
        steps::lemma_metered_then(
            initial,
            Ok(separator),
            charged,
            Ok(separator),
            before,
            Ok(lexer::trimmed(text, header.content())),
            lexer::trim_cost(text, header.content()),
            trimmed,
            *steps,
        );
    }
    let trimmed = match trimmed {
        Ok(trimmed) => trimmed,
        Err(error) => {
            return Err(error);
        },
    };
    let ghost charged = charged + lexer::trim_cost(text, header.content());
    if !types::starts_with_word(schema.data, trimmed, &[0x4du8, 0x53, 0x47, 0x3a, 0x20]) {
        return Err(
            RemoteRos2InitializationError::UnsupportedForRemote(UnsupportedForRemote::GrammarFeature),
        );
    }
    let after = TextSlice { start: trimmed.start + 5, end: trimmed.end };
    proof {
        lexer::lemma_trimmed_within(text, after);
    }
    let ghost before = *steps;
    let name = lexer::trim_ascii(schema.data, after, steps);
    proof {
        steps::lemma_metered_then(
            initial,
            Ok(trimmed),
            charged,
            Ok(trimmed),
            before,
            Ok(lexer::trimmed(text, after)),
            lexer::trim_cost(text, after),
            name,
            *steps,
        );
    }
    let name = match name {
        Ok(name) => name,
        Err(error) => {
            return Err(error);
        },
    };
    let ghost charged = charged + lexer::trim_cost(text, after);
    if name.start == name.end {
        return Err(
            RemoteRos2InitializationError::UnsupportedForRemote(UnsupportedForRemote::GrammarFeature),
        );
    }
    let span = types::span_from_data(schema, name.start, name.end - name.start)?;
    let ghost before = *steps;
    let separator = lexer::find_next_separator(schema.data, cursor, steps);
    proof {
        steps::lemma_metered_then(
            initial,
            Ok(name),
            charged,
            Ok(name),
            before,
            Ok(lexer::separator_search(text, cursor as int).0),
            lexer::separator_search(text, cursor as int).1,
            separator,
            *steps,
        );
    }
    let separator = match separator {
        Ok(separator) => separator,
        Err(error) => {
            return Err(error);
        },
    };
    let (body_end, next) = match separator {
        Some((separator_start, separator_end)) => (separator_start, Some(separator_end)),
        None => (text_len, None),
    };
    if cursor >= body_end {
        return Err(
            RemoteRos2InitializationError::UnsupportedForRemote(UnsupportedForRemote::GrammarFeature),
        );
    }
    Ok((SpecView { name: span, body_start: cursor, body_end }, next))
}


/// The member counts of one specification and whether it needs a synthetic padding member.
#[derive(Clone, Copy, Debug, PartialEq, Eq, Structural)]
pub struct SpecificationSummary {
    pub actual_fields: u64,
    pub constants: u64,
    pub needs_padding: bool,
}

/// Constants of these types can make a field-less specification an enum-like one.
pub open spec fn enum_like_primitive(primitive: PrimitiveTypeV1) -> bool {
    primitive is Bool || primitive is Byte || primitive is Char || primitive is Int8
        || primitive is UInt8
}

/// The summary of the members from `cursor` on, given the counts so far, with one extra step
/// per member iteration.
pub open spec fn summary_scan(
    text: Seq<u8>,
    record_index: usize,
    cursor: int,
    body_end: int,
    limits: UnfrozenRemoteRos2LimitsV1,
    fields: u64,
    constants: u64,
    first_constant: Option<PrimitiveTypeV1>,
    enum_like: bool,
) -> (Result<SpecificationSummary, RemoteRos2InitializationError>, nat)
    decreases text.len() - cursor,
{
    let search = member_search(text, record_index, cursor, body_end, limits);
    let cost = 1 + search.1;
    let next = search.2;
    match search.0 {
        Err(error) => (Err(error), cost),
        Ok(None) => (
            Ok(
                SpecificationSummary {
                    actual_fields: fields,
                    constants,
                    needs_padding: fields == 0 && !(constants > 0 && enum_like),
                },
            ),
            cost,
        ),
        Ok(Some(member)) => if next <= cursor || next > text.len() {
            (Err(RemoteRos2InitializationError::InvalidRemoteSchema), cost)
        } else {
            match member.kind {
                ParsedMemberKindV1::Field => if fields == u64::MAX {
                    (Err(steps::limit_error(RemoteRos2ResourceLimit::Arithmetic)), cost)
                } else {
                    let rest = summary_scan(
                        text,
                        record_index,
                        next,
                        body_end,
                        limits,
                        (fields + 1) as u64,
                        constants,
                        first_constant,
                        enum_like,
                    );
                    (rest.0, cost + rest.1)
                },
                ParsedMemberKindV1::Constant => if constants == u64::MAX {
                    (Err(steps::limit_error(RemoteRos2ResourceLimit::Arithmetic)), cost)
                } else {
                    match member.ty.element {
                        ElementTypeV1::Complex(_) => (
                            Err(RemoteRos2InitializationError::InvalidRemoteSchema),
                            cost,
                        ),
                        ElementTypeV1::Primitive(primitive) => {
                            let still_enum_like = enum_like && enum_like_primitive(primitive) && (
                            first_constant matches Some(first) ==> first == primitive);
                            let first = if first_constant is None {
                                Some(primitive)
                            } else {
                                first_constant
                            };
                            let rest = summary_scan(
                                text,
                                record_index,
                                next,
                                body_end,
                                limits,
                                fields,
                                (constants + 1) as u64,
                                first,
                                still_enum_like,
                            );
                            (rest.0, cost + rest.1)
                        },
                    }
                },
                ParsedMemberKindV1::SyntheticPadding => (
                    Err(RemoteRos2InitializationError::InvalidRemoteSchema),
                    cost,
                ),
            }
        },
    }
}

/// Counts the fields and constants of one specification.
pub fn summarize_specification(
    schema: SchemaView<'_>,
    spec: SpecView,
    limits: &UnfrozenRemoteRos2LimitsV1,
    meter: &mut RemoteRos2StepOwnershipV1,
) -> (result: Result<SpecificationSummary, RemoteRos2InitializationError>)
    ensures
        steps::metered(
            *old(meter),
            summary_scan(
                schema.data@,
                schema.record_index,
                spec.body_start as int,
                spec.body_end as int,
                *limits,
                0,
                0,
                None,
                true,
            ).0,
            summary_scan(
                schema.data@,
                schema.record_index,
                spec.body_start as int,
                spec.body_end as int,
                *limits,
                0,
                0,
                None,
                true,
            ).1,
            result,
            *final(meter),
        ),
{
    let ghost initial = *meter;
    let ghost text = schema.data@;
    let ghost scan = summary_scan(
        text,
        schema.record_index,
        spec.body_start as int,
        spec.body_end as int,
        *limits,
        0,
        0,
        None,
        true,
    );
    let ghost mut charged: nat = 0;
    proof {
        steps::lemma_metered_pure(initial, Ok::<(), RemoteRos2InitializationError>(()));
    }
    let _data_len = schema.data.len();
    let mut members = MemberIter::new(schema, spec, limits);
    let mut fields: u64 = 0;
    let mut constants: u64 = 0;
    let mut first_constant: Option<PrimitiveTypeV1> = None;
    let mut enum_like = true;
    loop
        invariant
            initial == *old(meter),
            text == schema.data@,
            text.len() <= usize::MAX,
            members.schema_of() == schema,
            members.spec_of() == spec,
            members.limits_of() == *limits,
            0 <= members.cursor_of(),
            scan == summary_scan(
                text,
                schema.record_index,
                spec.body_start as int,
                spec.body_end as int,
                *limits,
                0,
                0,
                None,
                true,
            ),
            scan.0 == summary_scan(
                text,
                schema.record_index,
                members.cursor_of(),
                spec.body_end as int,
                *limits,
                fields,
                constants,
                first_constant,
                enum_like,
            ).0,
            scan.1 == charged + summary_scan(
                text,
                schema.record_index,
                members.cursor_of(),
                spec.body_end as int,
                *limits,
                fields,
                constants,
                first_constant,
                enum_like,
            ).1,
            steps::metered(initial, Ok(()), charged, Ok(()), *meter),
        decreases text.len() - members.cursor_of(),
    {
        let ghost at = members.cursor_of();
        let ghost search = member_search(text, schema.record_index, at, spec.body_end as int, *limits);
        proof {
            lemma_member_search_advances(text, schema.record_index, at, spec.body_end as int, *limits);
        }
        let ghost before = *meter;
        let step = meter.step();
        if step.is_err() {
            proof {
                steps::lemma_charge_stop(initial, charged, before, step, *meter, scan.0, scan.1);
            }
            return Err(step.unwrap_err());
        }
        proof {
            steps::lemma_charge_ok(initial, charged, before, step, *meter);
        }
        let ghost before = *meter;
        let member = members.next_member(meter);
        proof {
            steps::lemma_metered_then(
                initial,
                Ok::<(), RemoteRos2InitializationError>(()),
                charged + 1,
                Ok(()),
                before,
                search.0,
                search.1,
                member,
                *meter,
            );
        }
        let member = match member {
            Ok(Some(member)) => member,
            Ok(None) => {
                return Ok(
                    SpecificationSummary {
                        actual_fields: fields,
                        constants,
                        needs_padding: fields == 0 && !(constants > 0 && enum_like),
                    },
                );
            },
            Err(error) => {
                return Err(error);
            },
        };
        proof {
            charged = charged + 1 + search.1;
        }
        match member.kind {
            ParsedMemberKindV1::Field => {
                if fields == u64::MAX {
                    return Err(
                        RemoteRos2InitializationError::ResourceLimitExceeded(
                            RemoteRos2ResourceLimit::Arithmetic,
                        ),
                    );
                }
                fields = fields + 1;
            },
            ParsedMemberKindV1::Constant => {
                if constants == u64::MAX {
                    return Err(
                        RemoteRos2InitializationError::ResourceLimitExceeded(
                            RemoteRos2ResourceLimit::Arithmetic,
                        ),
                    );
                }
                constants = constants + 1;
                let primitive = match member.ty.element {
                    ElementTypeV1::Primitive(primitive) => primitive,
                    ElementTypeV1::Complex(_) => {
                        return Err(RemoteRos2InitializationError::InvalidRemoteSchema);
                    },
                };
                let enum_like_type = match primitive {
                    PrimitiveTypeV1::Bool | PrimitiveTypeV1::Byte | PrimitiveTypeV1::Char
                    | PrimitiveTypeV1::Int8 | PrimitiveTypeV1::UInt8 => true,
                    _ => false,
                };
                if !enum_like_type {
                    enum_like = false;
                }
                match first_constant {
                    Some(first) => {
                        if first != primitive {
                            enum_like = false;
                        }
                    },
                    None => {
                        first_constant = Some(primitive);
                    },
                }
            },
            ParsedMemberKindV1::SyntheticPadding => {
                proof {
                    assert(false);
                }
                return Err(RemoteRos2InitializationError::InvalidRemoteSchema);
            },
        }
    }
}

/// Steps through the specifications from the given state until the one `remaining` positions
/// ahead: that specification or none, with the steps charged (one more per specification).
pub open spec fn nth_spec_from(schema: SchemaView, state: SpecIterState, remaining: nat) -> (Result<
    Option<SpecView>,
    RemoteRos2InitializationError,
>, nat)
    decreases remaining,
{
    let step = spec_iter_step(schema, state);
    match step.0 {
        Err(error) => (Err(error), step.1),
        Ok(None) => (Ok(None), step.1),
        Ok(Some(spec)) => if remaining == 0 {
            (Ok(Some(spec)), step.1 + 1)
        } else {
            let rest = nth_spec_from(schema, step.2, (remaining - 1) as nat);
            (rest.0, step.1 + 1 + rest.1)
        },
    }
}

pub open spec fn initial_spec_state() -> SpecIterState {
    SpecIterState { yielded_main: false, next_dependency: None, done: false }
}

/// The specification at `index` (the main one first), re-scanning from the start.
pub fn nth_spec_metered(
    schema: SchemaView<'_>,
    index: usize,
    meter: &mut RemoteRos2StepOwnershipV1,
) -> (result: Result<Option<SpecView>, RemoteRos2InitializationError>)
    ensures
        steps::metered(
            *old(meter),
            nth_spec_from(schema, initial_spec_state(), index as nat).0,
            nth_spec_from(schema, initial_spec_state(), index as nat).1,
            result,
            *final(meter),
        ),
{
    let ghost initial = *meter;
    let ghost target = nth_spec_from(schema, initial_spec_state(), index as nat);
    let ghost mut charged: nat = 0;
    proof {
        steps::lemma_metered_pure(initial, Ok::<(), RemoteRos2InitializationError>(()));
    }
    let mut specs = SpecIter::new(schema);
    let mut current: usize = 0;
    loop
        invariant
            initial == *old(meter),
            current <= index,
            specs.schema_of() == schema,
            target == nth_spec_from(schema, initial_spec_state(), index as nat),
            target.0 == nth_spec_from(schema, specs.state(), (index - current) as nat).0,
            target.1 == charged + nth_spec_from(schema, specs.state(), (index - current) as nat).1,
            steps::metered(initial, Ok(()), charged, Ok(()), *meter),
        decreases index - current,
    {
        let ghost state = specs.state();
        let ghost step = spec_iter_step(schema, state);
        let ghost before = *meter;
        let spec = specs.next_spec(meter);
        proof {
            steps::lemma_metered_then(
                initial,
                Ok::<(), RemoteRos2InitializationError>(()),
                charged,
                Ok(()),
                before,
                step.0,
                step.1,
                spec,
                *meter,
            );
        }
        let spec = match spec {
            Ok(Some(spec)) => spec,
            Ok(None) => {
                return Ok(None);
            },
            Err(error) => {
                return Err(error);
            },
        };
        let ghost before = *meter;
        let stepped = meter.step();
        if stepped.is_err() {
            proof {
                steps::lemma_charge_stop(
                    initial,
                    charged + step.1,
                    before,
                    stepped,
                    *meter,
                    target.0,
                    target.1,
                );
            }
            return Err(stepped.unwrap_err());
        }
        proof {
            steps::lemma_charge_ok(initial, charged + step.1, before, stepped, *meter);
            charged = charged + step.1 + 1;
        }
        if current == index {
            return Ok(Some(spec));
        }
        current = current + 1;
    }
}

/// Steps through the members of a body from `cursor` until the one `remaining` positions
/// ahead: that member or none, with the steps charged (one more per member).
pub open spec fn nth_member_from(
    text: Seq<u8>,
    record_index: usize,
    cursor: int,
    body_end: int,
    limits: UnfrozenRemoteRos2LimitsV1,
    remaining: nat,
) -> (Result<Option<MemberView>, RemoteRos2InitializationError>, nat)
    decreases remaining,
{
    let search = member_search(text, record_index, cursor, body_end, limits);
    match search.0 {
        Err(error) => (Err(error), search.1),
        Ok(None) => (Ok(None), search.1),
        Ok(Some(member)) => if remaining == 0 {
            (Ok(Some(member)), search.1 + 1)
        } else {
            let rest = nth_member_from(
                text,
                record_index,
                search.2,
                body_end,
                limits,
                (remaining - 1) as nat,
            );
            (rest.0, search.1 + 1 + rest.1)
        },
    }
}

/// The member at `index` of a specification body, re-scanning from the body start.
pub fn nth_member_metered(
    schema: SchemaView<'_>,
    spec: SpecView,
    index: usize,
    limits: &UnfrozenRemoteRos2LimitsV1,
    meter: &mut RemoteRos2StepOwnershipV1,
) -> (result: Result<Option<MemberView>, RemoteRos2InitializationError>)
    ensures
        steps::metered(
            *old(meter),
            nth_member_from(
                schema.data@,
                schema.record_index,
                spec.body_start as int,
                spec.body_end as int,
                *limits,
                index as nat,
            ).0,
            nth_member_from(
                schema.data@,
                schema.record_index,
                spec.body_start as int,
                spec.body_end as int,
                *limits,
                index as nat,
            ).1,
            result,
            *final(meter),
        ),
{
    let ghost initial = *meter;
    let ghost text = schema.data@;
    let ghost target = nth_member_from(
        text,
        schema.record_index,
        spec.body_start as int,
        spec.body_end as int,
        *limits,
        index as nat,
    );
    let ghost mut charged: nat = 0;
    proof {
        steps::lemma_metered_pure(initial, Ok::<(), RemoteRos2InitializationError>(()));
    }
    let mut members = MemberIter::new(schema, spec, limits);
    let mut current: usize = 0;
    loop
        invariant
            initial == *old(meter),
            text == schema.data@,
            current <= index,
            members.schema_of() == schema,
            members.spec_of() == spec,
            members.limits_of() == *limits,
            target == nth_member_from(
                text,
                schema.record_index,
                spec.body_start as int,
                spec.body_end as int,
                *limits,
                index as nat,
            ),
            target.0 == nth_member_from(
                text,
                schema.record_index,
                members.cursor_of(),
                spec.body_end as int,
                *limits,
                (index - current) as nat,
            ).0,
            target.1 == charged + nth_member_from(
                text,
                schema.record_index,
                members.cursor_of(),
                spec.body_end as int,
                *limits,
                (index - current) as nat,
            ).1,
            steps::metered(initial, Ok(()), charged, Ok(()), *meter),
        decreases index - current,
    {
        let ghost search = member_search(
            text,
            schema.record_index,
            members.cursor_of(),
            spec.body_end as int,
            *limits,
        );
        let ghost before = *meter;
        let member = members.next_member(meter);
        proof {
            steps::lemma_metered_then(
                initial,
                Ok::<(), RemoteRos2InitializationError>(()),
                charged,
                Ok(()),
                before,
                search.0,
                search.1,
                member,
                *meter,
            );
        }
        let member = match member {
            Ok(Some(member)) => member,
            Ok(None) => {
                return Ok(None);
            },
            Err(error) => {
                return Err(error);
            },
        };
        let ghost before = *meter;
        let stepped = meter.step();
        if stepped.is_err() {
            proof {
                steps::lemma_charge_stop(
                    initial,
                    charged + search.1,
                    before,
                    stepped,
                    *meter,
                    target.0,
                    target.1,
                );
            }
            return Err(stepped.unwrap_err());
        }
        proof {
            steps::lemma_charge_ok(initial, charged + search.1, before, stepped, *meter);
            charged = charged + search.1 + 1;
        }
        if current == index {
            return Ok(Some(member));
        }
        current = current + 1;
    }
}


/// Every member found in a body names and types itself with ranges of the definition.
pub proof fn lemma_member_search_within(
    text: Seq<u8>,
    record_index: usize,
    cursor: int,
    body_end: int,
    limits: UnfrozenRemoteRos2LimitsV1,
)
    ensures
        member_search(text, record_index, cursor, body_end, limits).0 matches Ok(Some(member))
            ==> {
            &&& types::data_span_within(record_index, text.len(), member.name)
            &&& types::element_within(record_index, text.len(), member.ty.element)
        },
    decreases text.len() - cursor,
{
    if cursor < body_end {
        if let Some(line) = lexer::line_at(text, cursor) {
            if let Ok(body) = lexer::uncommented(text, line.content()) {
                members::lemma_parsed_member_within(text, record_index, body, limits);
            }
        }
        let next = next_line_start(text, cursor);
        if member_line(text, record_index, cursor, body_end, limits).0 == Ok::<
            Option<MemberView>,
            RemoteRos2InitializationError,
        >(None) && next > cursor && next <= text.len() {
            lemma_member_search_within(text, record_index, next, body_end, limits);
        }
    }
}

/// Every member found by index names and types itself with ranges of the definition.
pub proof fn lemma_nth_member_within(
    text: Seq<u8>,
    record_index: usize,
    cursor: int,
    body_end: int,
    limits: UnfrozenRemoteRos2LimitsV1,
    remaining: nat,
)
    ensures
        nth_member_from(text, record_index, cursor, body_end, limits, remaining).0 matches Ok(
            Some(member),
        ) ==> {
            &&& types::data_span_within(record_index, text.len(), member.name)
            &&& types::element_within(record_index, text.len(), member.ty.element)
        },
    decreases remaining,
{
    lemma_member_search_within(text, record_index, cursor, body_end, limits);
    if remaining > 0 {
        let search = member_search(text, record_index, cursor, body_end, limits);
        lemma_nth_member_within(
            text,
            record_index,
            search.2,
            body_end,
            limits,
            (remaining - 1) as nat,
        );
    }
}

/// Every specification found by index names itself with text of its schema.
pub proof fn lemma_nth_spec_within(schema: SchemaView, state: SpecIterState, remaining: nat)
    ensures
        nth_spec_from(schema, state, remaining).0 matches Ok(Some(spec)) ==> types::span_within(
            schema,
            spec.name,
        ),
    decreases remaining,
{
    if remaining > 0 {
        lemma_nth_spec_within(schema, spec_iter_step(schema, state).2, (remaining - 1) as nat);
    }
}


/// Every specification the iteration yields names itself with text of its schema.
pub proof fn lemma_spec_iter_step_within(schema: SchemaView, state: SpecIterState)
    ensures
        spec_iter_step(schema, state).0 matches Ok(Some(spec)) ==> types::span_within(
            schema,
            spec.name,
        ),
{
}


/// The member at position `remaining` lies on a line of its own after `cursor`, so there are
/// fewer members than bytes.
pub proof fn lemma_nth_member_bound(
    text: Seq<u8>,
    record_index: usize,
    cursor: int,
    body_end: int,
    limits: UnfrozenRemoteRos2LimitsV1,
    remaining: nat,
)
    requires
        0 <= cursor,
        text.len() <= usize::MAX,
    ensures
        nth_member_from(text, record_index, cursor, body_end, limits, remaining).0 matches Ok(
            Some(_),
        ) ==> cursor + remaining < text.len(),
    decreases remaining,
{
    lemma_member_search_advances(text, record_index, cursor, body_end, limits);
    if remaining > 0 {
        let search = member_search(text, record_index, cursor, body_end, limits);
        if search.0 matches Ok(Some(_)) {
            lemma_nth_member_bound(
                text,
                record_index,
                search.2,
                body_end,
                limits,
                (remaining - 1) as nat,
            );
        }
    }
}

} // verus!
