//! Typed admission outcomes of the bounded runtime-identifier interning step.
use crate::remote_ros2_reflection::policy::str_bytes;
use vstd::prelude::*;

verus! {

#[derive(Clone, Copy, Debug, PartialEq, Eq, Structural)]
pub enum RemoteRuntimeInternAdmissionPhaseV1 {
    Opening,
    ActiveChunk,
}

#[derive(Clone, Copy, Debug, PartialEq, Eq, Structural)]
pub enum RemoteRuntimeInternAdmissionErrorV1 {
    CensusLimitExceeded,
    BudgetExhausted,
    CoordinationRevisionExhausted,
    AllocationFailed,
    ProtocolViolation,
    ConstructorCannotBeDelayed,
}

/// How an admission failure ends the remote session.
#[derive(Clone, Copy, Debug, PartialEq, Eq, Structural)]
pub enum RemoteRuntimeInternTerminalV1 {
    OpeningExhausted,
    ActiveSessionFatal,
}

impl RemoteRuntimeInternAdmissionErrorV1 {
    /// A failure while opening exhausts the opening; one during an active Chunk is fatal.
    pub fn terminal_kind_v1(phase: RemoteRuntimeInternAdmissionPhaseV1) -> (kind: RemoteRuntimeInternTerminalV1)
        ensures
            phase == RemoteRuntimeInternAdmissionPhaseV1::Opening ==> kind
                == RemoteRuntimeInternTerminalV1::OpeningExhausted,
            phase == RemoteRuntimeInternAdmissionPhaseV1::ActiveChunk ==> kind
                == RemoteRuntimeInternTerminalV1::ActiveSessionFatal,
    {
        match phase {
            RemoteRuntimeInternAdmissionPhaseV1::Opening => RemoteRuntimeInternTerminalV1::OpeningExhausted,
            RemoteRuntimeInternAdmissionPhaseV1::ActiveChunk => RemoteRuntimeInternTerminalV1::ActiveSessionFatal,
        }
    }
}

/// A constructor that cannot be delayed until after admission is rejected with a typed error.
pub fn reject_undelayable_constructor_v1() -> (error: RemoteRuntimeInternAdmissionErrorV1)
    ensures
        error == RemoteRuntimeInternAdmissionErrorV1::ConstructorCannotBeDelayed,
{
    RemoteRuntimeInternAdmissionErrorV1::ConstructorCannotBeDelayed
}

/// `rerun.archetypes.` as UTF-8 bytes.
pub open spec fn archetype_prefix() -> Seq<u8> {
    seq![
        0x72u8, 0x65, 0x72, 0x75, 0x6e, 0x2e, 0x61, 0x72, 0x63, 0x68, 0x65, 0x74, 0x79, 0x70, 0x65,
        0x73, 0x2e,
    ]
}

/// `rerun.blueprint.archetypes.` as UTF-8 bytes.
pub open spec fn blueprint_archetype_prefix() -> Seq<u8> {
    seq![
        0x72u8, 0x65, 0x72, 0x75, 0x6e, 0x2e, 0x62, 0x6c, 0x75, 0x65, 0x70, 0x72, 0x69, 0x6e, 0x74,
        0x2e, 0x61, 0x72, 0x63, 0x68, 0x65, 0x74, 0x79, 0x70, 0x65, 0x73, 0x2e,
    ]
}

/// Whether `bytes` starts with `prefix` and a character starts right after it.
pub open spec fn strippable(bytes: Seq<u8>, prefix: Seq<u8>) -> bool {
    prefix.len() <= bytes.len() && bytes.subrange(0, prefix.len() as int) == prefix
        && vstd::utf8::is_char_boundary(bytes, prefix.len() as int)
}

/// The short name of an archetype: without the `rerun.archetypes.` or
/// `rerun.blueprint.archetypes.` namespace.
pub open spec fn archetype_short_name(bytes: Seq<u8>) -> Seq<u8> {
    if strippable(bytes, archetype_prefix()) {
        bytes.subrange(archetype_prefix().len() as int, bytes.len() as int)
    } else if strippable(bytes, blueprint_archetype_prefix()) {
        bytes.subrange(blueprint_archetype_prefix().len() as int, bytes.len() as int)
    } else {
        bytes
    }
}

fn starts_with_bytes(bytes: &[u8], prefix: &[u8]) -> (starts: bool)
    ensures
        starts == (prefix@.len() <= bytes@.len() && bytes@.subrange(0, prefix@.len() as int)
            == prefix@),
{
    if prefix.len() > bytes.len() {
        return false;
    }
    let mut at: usize = 0;
    while at < prefix.len()
        invariant
            prefix@.len() <= bytes@.len(),
            at <= prefix@.len(),
            forall|i: int| 0 <= i < at ==> bytes@[i] == prefix@[i],
        decreases prefix@.len() - at,
    {
        if bytes[at] != prefix[at] {
            assert(bytes@.subrange(0, prefix@.len() as int)[at as int] != prefix@[at as int]);
            return false;
        }
        at = at + 1;
    }
    assert(bytes@.subrange(0, prefix@.len() as int) =~= prefix@);
    true
}

pub fn archetype_short_name_v1(archetype: &str) -> (short: &str)
    ensures
        str_bytes(short) == archetype_short_name(str_bytes(archetype)),
{
    let bytes = archetype.as_bytes();
    let long: &[u8] = &[
        0x72u8, 0x65, 0x72, 0x75, 0x6e, 0x2e, 0x61, 0x72, 0x63, 0x68, 0x65, 0x74, 0x79, 0x70, 0x65,
        0x73, 0x2e,
    ];
    if starts_with_bytes(bytes, long) && archetype.is_char_boundary(17) {
        let (_, rest) = archetype.split_at(17);
        return rest;
    }
    let blueprint: &[u8] = &[
        0x72u8, 0x65, 0x72, 0x75, 0x6e, 0x2e, 0x62, 0x6c, 0x75, 0x65, 0x70, 0x72, 0x69, 0x6e, 0x74,
        0x2e, 0x61, 0x72, 0x63, 0x68, 0x65, 0x74, 0x79, 0x70, 0x65, 0x73, 0x2e,
    ];
    if starts_with_bytes(bytes, blueprint) && archetype.is_char_boundary(27) {
        let (_, rest) = archetype.split_at(27);
        return rest;
    }
    archetype
}


/// Appends `character` to `output` (`String::push`).
#[verifier::external_body]
fn push_char(output: &mut String, character: char)
    ensures
        final(output)@ == old(output)@.push(character),
{
    output.push(character);
}

/// The characters of `raw`, in order.
fn chars_of(raw: &str) -> (chars: Vec<char>)
    ensures
        chars@ == raw@,
{
    let mut chars: Vec<char> = Vec::new();
    for character in iter: raw.chars()
        invariant
            chars@ == iter.seq().take(iter.index() as int),
            iter.seq() == raw@,
    {
        chars.push(character);
    }
    chars
}


/// Length of the UTF-8 encoding of `character`.
pub open spec fn utf8_len(character: char) -> int {
    if (character as u32) < 0x80 {
        1
    } else if (character as u32) < 0x800 {
        2
    } else if (character as u32) < 0x10000 {
        3
    } else {
        4
    }
}

fn char_utf8_len(character: char) -> (len: usize)
    ensures
        len == utf8_len(character),
{
    let code = character as u32;
    if code < 0x80 {
        1
    } else if code < 0x800 {
        2
    } else if code < 0x10000 {
        3
    } else {
        4
    }
}

/// How many characters of `input` the body of a `\u` escape consumes, counting from `taken`
/// characters that encode to `bytes` bytes: characters are taken up to and including the first
/// `}`, or until exactly six bytes have been taken, or to the end of the input.
pub open spec fn escape_take(input: Seq<char>, taken: int, bytes: int) -> int
    decreases input.len() - taken,
{
    if taken < 0 || taken >= input.len() {
        input.len() as int
    } else if input[taken] == '}' || bytes + utf8_len(input[taken]) == 6 {
        taken + 1
    } else {
        escape_take(input, taken + 1, bytes + utf8_len(input[taken]))
    }
}

pub proof fn lemma_escape_take_bounds(input: Seq<char>, taken: int, bytes: int)
    requires
        0 <= taken <= input.len(),
    ensures
        taken <= escape_take(input, taken, bytes) <= input.len(),
    decreases input.len() - taken,
{
    if taken < input.len() && !(input[taken] == '}' || bytes + utf8_len(input[taken]) == 6) {
        lemma_escape_take_bounds(input, taken + 1, bytes + utf8_len(input[taken]));
    }
}

pub open spec fn is_hex_digit(character: char) -> bool {
    ('0' <= character && character <= '9') || ('a' <= character && character <= 'f') || ('A'
        <= character && character <= 'F')
}

pub open spec fn hex_value(character: char) -> int {
    if '0' <= character && character <= '9' {
        character as int - '0' as int
    } else if 'a' <= character && character <= 'f' {
        character as int - 'a' as int + 10
    } else {
        character as int - 'A' as int + 10
    }
}

/// The value of four escape digits read as hexadecimal, where the first may be a `+` sign.
pub open spec fn escape_digits_value(digits: Seq<char>) -> Option<int> {
    if digits.len() != 4 || !is_hex_digit(digits[1]) || !is_hex_digit(digits[2])
        || !is_hex_digit(digits[3]) {
        None
    } else if digits[0] == '+' {
        Some(hex_value(digits[1]) * 256 + hex_value(digits[2]) * 16 + hex_value(digits[3]))
    } else if is_hex_digit(digits[0]) {
        Some(
            hex_value(digits[0]) * 4096 + hex_value(digits[1]) * 256 + hex_value(digits[2]) * 16
                + hex_value(digits[3]),
        )
    } else {
        None
    }
}

/// The hexadecimal digit that writes `value` (below 16), in uppercase where `upper`.
pub open spec fn hex_digit_char(value: int, upper: bool) -> char {
    if value == 0 {
        '0'
    } else if value == 1 {
        '1'
    } else if value == 2 {
        '2'
    } else if value == 3 {
        '3'
    } else if value == 4 {
        '4'
    } else if value == 5 {
        '5'
    } else if value == 6 {
        '6'
    } else if value == 7 {
        '7'
    } else if value == 8 {
        '8'
    } else if value == 9 {
        '9'
    } else if value == 10 {
        if upper {
            'A'
        } else {
            'a'
        }
    } else if value == 11 {
        if upper {
            'B'
        } else {
            'b'
        }
    } else if value == 12 {
        if upper {
            'C'
        } else {
            'c'
        }
    } else if value == 13 {
        if upper {
            'D'
        } else {
            'd'
        }
    } else if value == 14 {
        if upper {
            'E'
        } else {
            'e'
        }
    } else if value == 15 {
        if upper {
            'F'
        } else {
            'f'
        }
    } else {
        'f'
    }
}

/// Each hexadecimal digit, in either case, is a digit of its value.
proof fn lemma_hex_digit_char(value: int, upper: bool)
    requires
        0 <= value < 16,
    ensures
        is_hex_digit(hex_digit_char(value, upper)),
        hex_value(hex_digit_char(value, upper)) == value,
{
}

/// Four hexadecimal digits, each written in lowercase or uppercase, read as the number they
/// spell: the case of a digit never changes the value of an escape.
pub proof fn lemma_escape_digits_value_any_case(
    digits: (int, int, int, int),
    cases: (bool, bool, bool, bool),
)
    requires
        0 <= digits.0 < 16,
        0 <= digits.1 < 16,
        0 <= digits.2 < 16,
        0 <= digits.3 < 16,
    ensures
        escape_digits_value(
            seq![
                hex_digit_char(digits.0, cases.0),
                hex_digit_char(digits.1, cases.1),
                hex_digit_char(digits.2, cases.2),
                hex_digit_char(digits.3, cases.3),
            ],
        ) == Some(digits.0 * 4096 + digits.1 * 256 + digits.2 * 16 + digits.3),
{
    lemma_hex_digit_char(digits.0, cases.0);
    lemma_hex_digit_char(digits.1, cases.1);
    lemma_hex_digit_char(digits.2, cases.2);
    lemma_hex_digit_char(digits.3, cases.3);
}

/// The `\u` escape body at the front of `input`: how many characters it consumes, and the
/// character it stands for when the consumed text is `{` four hexadecimal digits `}` naming a
/// Unicode scalar value.
pub open spec fn unicode_escape(input: Seq<char>) -> (int, Option<char>) {
    let consumed = escape_take(input, 0, 0);
    if consumed == 6 && input[0] == '{' && input[5] == '}' {
        match escape_digits_value(input.subrange(1, 5)) {
            Some(value) => if 0xD800 <= value <= 0xDFFF {
                (consumed, None)
            } else {
                (consumed, Some(value as char))
            },
            None => (consumed, None),
        }
    } else {
        (consumed, None)
    }
}

/// One step of entity-path unescaping at the front of a nonempty `input`: how many characters
/// it consumes and the text it produces. `\n`, `\r`, `\t` and `\u{XXXX}` escapes are decoded, a
/// backslash before any other character keeps only that character, a trailing backslash stays,
/// and an invalid `\u` escape stays as written.
pub open spec fn unescape_step(input: Seq<char>) -> (int, Seq<char>) {
    if input[0] != '\\' {
        (1, seq![input[0]])
    } else if input.len() == 1 {
        (1, seq!['\\'])
    } else {
        let next = input[1];
        if next == 'n' {
            (2, seq!['\n'])
        } else if next == 'r' {
            (2, seq!['\r'])
        } else if next == 't' {
            (2, seq!['\t'])
        } else if next == 'u' {
            let rest = input.skip(2);
            let (consumed, decoded) = unicode_escape(rest);
            match decoded {
                Some(character) => (2 + consumed, seq![character]),
                None => (2 + consumed, seq!['\\', 'u'] + rest.take(consumed)),
            }
        } else {
            (2, seq![next])
        }
    }
}

pub proof fn lemma_unescape_step_bounds(input: Seq<char>)
    requires
        input.len() > 0,
    ensures
        1 <= unescape_step(input).0 <= input.len(),
{
    if input[0] == '\\' && input.len() > 1 && input[1] == 'u' {
        lemma_escape_take_bounds(input.skip(2), 0, 0);
    }
}

/// The canonical text of an entity-path part: the unescaping steps applied front to back.
pub open spec fn unescaped_part(input: Seq<char>) -> Seq<char>
    decreases input.len(),
{
    if input.len() == 0 {
        Seq::empty()
    } else {
        proof {
            lemma_unescape_step_bounds(input);
        }
        unescape_step(input).1 + unescaped_part(input.skip(unescape_step(input).0))
    }
}

/// `Some(value as char)` when `value` is a Unicode scalar value, else `None`
/// (`char::from_u32`).
#[verifier::external_body]
fn char_from_u32(value: u32) -> (character: Option<char>)
    ensures
        (value <= 0x10FFFF && !(0xD800 <= value <= 0xDFFF)) ==> character == Some(value as char),
        !(value <= 0x10FFFF && !(0xD800 <= value <= 0xDFFF)) ==> character is None,
{
    char::from_u32(value)
}

pub proof fn lemma_escape_take_saturated(input: Seq<char>, taken: int, bytes: int)
    requires
        bytes >= 7,
    ensures
        escape_take(input, taken, bytes) == escape_take(input, taken, 7),
    decreases input.len() - taken,
{
    if 0 <= taken < input.len() && input[taken] != '}' {
        lemma_escape_take_saturated(input, taken + 1, bytes + utf8_len(input[taken]));
        lemma_escape_take_saturated(input, taken + 1, 7 + utf8_len(input[taken]));
    }
}

fn hex_digit_value(character: char) -> (value: Option<u32>)
    ensures
        is_hex_digit(character) ==> value == Some(hex_value(character) as u32),
        !is_hex_digit(character) ==> value is None,
{
    if '0' <= character && character <= '9' {
        Some(character as u32 - '0' as u32)
    } else if 'a' <= character && character <= 'f' {
        Some(character as u32 - 'a' as u32 + 10)
    } else if 'A' <= character && character <= 'F' {
        Some(character as u32 - 'A' as u32 + 10)
    } else {
        None
    }
}

/// Reads the body of a `\u` escape that starts at `input[start]`: returns the index after the
/// consumed characters and the decoded character, or `None` where the escape is invalid.
pub fn parse_remote_entity_path_unicode_escape(input: &[char], start: usize) -> (parsed: (
    usize,
    Option<char>,
))
    requires
        start <= input@.len(),
    ensures
        parsed.0 == start + unicode_escape(input@.skip(start as int)).0,
        parsed.1 == unicode_escape(input@.skip(start as int)).1,
{
    let ghost rest = input@.skip(start as int);
    let mut at = start;
    let mut bytes: usize = 0;
    proof {
        lemma_escape_take_bounds(rest, 0, 0);
    }
    while at < input.len()
        invariant_except_break
            escape_take(rest, 0, 0) == escape_take(rest, at - start, bytes as int),
        invariant
            start <= at <= input@.len(),
            rest == input@.skip(start as int),
            bytes <= 7,
        ensures
            start <= at <= input@.len(),
            escape_take(rest, 0, 0) == at - start,
        decreases input@.len() - at,
    {
        let character = input[at];
        let next_bytes = bytes + char_utf8_len(character);
        at = at + 1;
        if character == '}' || next_bytes == 6 {
            break;
        }
        if next_bytes >= 7 {
            proof {
                lemma_escape_take_saturated(rest, at - start, next_bytes as int);
            }
            bytes = 7;
        } else {
            bytes = next_bytes;
        }
    }
    let consumed = at - start;
    let ghost expected = unicode_escape(rest);
    assert(consumed == expected.0);
    if consumed != 6 || input[start] != '{' || input[start + 5] != '}' {
        return (at, None);
    }
    assert(rest.subrange(1, 5) == input@.subrange(start + 1, start + 5));
    let first = input[start + 1];
    let d1 = match hex_digit_value(input[start + 2]) {
        Some(value) => value,
        None => return (at, None),
    };
    let d2 = match hex_digit_value(input[start + 3]) {
        Some(value) => value,
        None => return (at, None),
    };
    let d3 = match hex_digit_value(input[start + 4]) {
        Some(value) => value,
        None => return (at, None),
    };
    let value = if first == '+' {
        d1 * 256 + d2 * 16 + d3
    } else {
        match hex_digit_value(first) {
            Some(d0) => d0 * 4096 + d1 * 256 + d2 * 16 + d3,
            None => return (at, None),
        }
    };
    (at, char_from_u32(value))
}

/// Unescapes the step that starts at `input[start]` onto `output` and returns the index after
/// the consumed characters.
pub fn push_remote_entity_path_unescaped_character(
    input: &[char],
    start: usize,
    output: &mut String,
) -> (end: usize)
    requires
        start < input@.len(),
    ensures
        end == start + unescape_step(input@.skip(start as int)).0,
        final(output)@ == old(output)@ + unescape_step(input@.skip(start as int)).1,
{
    let ghost rest = input@.skip(start as int);
    let first = input[start];
    if first != '\\' {
        push_char(output, first);
        assert(output@ == old(output)@ + seq![first]);
        return start + 1;
    }
    if start + 1 >= input.len() {
        push_char(output, '\\');
        assert(output@ == old(output)@ + seq!['\\']);
        return start + 1;
    }
    let next = input[start + 1];
    if next == 'n' {
        push_char(output, '\n');
        assert(output@ == old(output)@ + seq!['\n']);
        start + 2
    } else if next == 'r' {
        push_char(output, '\r');
        assert(output@ == old(output)@ + seq!['\r']);
        start + 2
    } else if next == 't' {
        push_char(output, '\t');
        assert(output@ == old(output)@ + seq!['\t']);
        start + 2
    } else if next == 'u' {
        assert(rest.skip(2) == input@.skip(start + 2));
        let (end, decoded) = parse_remote_entity_path_unicode_escape(input, start + 2);
        proof {
            lemma_escape_take_bounds(input@.skip(start + 2), 0, 0);
        }
        match decoded {
            Some(character) => {
                push_char(output, character);
                assert(output@ == old(output)@ + seq![character]);
            },
            None => {
                push_char(output, '\\');
                push_char(output, 'u');
                let mut at = start + 2;
                while at < end
                    invariant
                        start + 2 <= at <= end <= input@.len(),
                        output@ == old(output)@ + seq!['\\', 'u'] + input@.subrange(
                            start + 2,
                            at as int,
                        ),
                    decreases end - at,
                {
                    push_char(output, input[at]);
                    assert(input@.subrange(start + 2, at + 1) == input@.subrange(
                        start + 2,
                        at as int,
                    ).push(input@[at as int]));
                    at = at + 1;
                }
                assert(input@.subrange(start + 2, end as int) == rest.skip(2).take(
                    end - start - 2,
                ));
            },
        }
        end
    } else {
        push_char(output, next);
        assert(output@ == old(output)@ + seq![next]);
        start + 2
    }
}

/// Appends the canonical text of the raw entity-path part `raw` to `output`.
pub fn canonicalize_remote_entity_path_part_into(raw: &str, output: &mut String)
    ensures
        final(output)@ == old(output)@ + unescaped_part(raw@),
{
    let input = chars_of(raw);
    let mut at: usize = 0;
    assert(input@.skip(0) == raw@);
    while at < input.len()
        invariant
            input@ == raw@,
            at <= input@.len(),
            old(output)@ + unescaped_part(raw@) == output@ + unescaped_part(input@.skip(at as int)),
        decreases input@.len() - at,
    {
        let ghost before = output@;
        let ghost rest = input@.skip(at as int);
        proof {
            lemma_unescape_step_bounds(rest);
        }
        let next = push_remote_entity_path_unescaped_character(input.as_slice(), at, output);
        assert(rest.skip(unescape_step(rest).0) == input@.skip(next as int));
        assert(output@ + unescaped_part(input@.skip(next as int)) == before + unescaped_part(rest));
        at = next;
    }
    assert(input@.skip(at as int) == Seq::<char>::empty());
    assert(output@ + Seq::<char>::empty() == output@);
}

} // verus!

