//! Literal grammars of constants and defaults: Rust's decimal integer and floating-point
//! syntax, quoted strings and bracketed arrays, each charged to the step owner.
use crate::remote_ros2_reflection::lexer::{self, TextSlice};
use crate::remote_ros2_reflection::names;
use crate::remote_ros2_reflection::steps::{
    self, RemoteRos2InitializationError, RemoteRos2ResourceLimit, RemoteRos2StepOwnershipV1,
    UnsupportedForRemote,
};
use crate::remote_ros2_reflection::types::{
    self, ArraySizeV1, ElementTypeV1, ParsedTypeV1, PrimitiveTypeV1, UnfrozenRemoteRos2LimitsV1,
};
use vstd::prelude::*;

verus! {

/// The decimal value of an all-digit byte string.
pub open spec fn digits_value(digits: Seq<u8>) -> int
    decreases digits.len(),
{
    if digits.len() == 0 {
        0
    } else {
        digits_value(digits.drop_last()) * 10 + (digits.last() - 0x30)
    }
}

pub open spec fn all_digits(digits: Seq<u8>) -> bool {
    forall|i: int| 0 <= i < digits.len() ==> #[trigger] names::is_digit(digits[i])
}

pub proof fn lemma_digits_value_prefix(digits: Seq<u8>, count: int)
    requires
        all_digits(digits),
        0 <= count <= digits.len(),
    ensures
        0 <= digits_value(digits.take(count)) <= digits_value(digits),
    decreases digits.len(),
{
    if count == digits.len() {
        assert(digits.take(count) =~= digits);
        lemma_digits_value_nonnegative(digits);
    } else {
        let shorter = digits.drop_last();
        assert(shorter.take(count) =~= digits.take(count));
        assert(all_digits(shorter)) by {
            assert forall|i: int| 0 <= i < shorter.len() implies #[trigger] names::is_digit(shorter[i]) by {
                assert(names::is_digit(digits[i]));
            }
        }
        lemma_digits_value_prefix(shorter, count);
        lemma_digits_value_nonnegative(shorter);
        assert(names::is_digit(digits[digits.len() - 1]));
    }
}

pub proof fn lemma_digits_value_nonnegative(digits: Seq<u8>)
    requires
        all_digits(digits),
    ensures
        digits_value(digits) >= 0,
    decreases digits.len(),
{
    if digits.len() > 0 {
        let shorter = digits.drop_last();
        assert(all_digits(shorter)) by {
            assert forall|i: int| 0 <= i < shorter.len() implies #[trigger] names::is_digit(shorter[i]) by {
                assert(names::is_digit(digits[i]));
            }
        }
        lemma_digits_value_nonnegative(shorter);
        assert(names::is_digit(digits[digits.len() - 1]));
    }
}

/// The magnitude of a non-empty all-digit byte string that fits in a `u64`.
pub open spec fn decimal_magnitude(digits: Seq<u8>) -> Option<u64> {
    if digits.len() > 0 && all_digits(digits) && digits_value(digits) <= u64::MAX {
        Some(digits_value(digits) as u64)
    } else {
        None
    }
}

pub fn magnitude_of(text: &[u8], slice: TextSlice) -> (magnitude: Option<u64>)
    requires
        slice.within(text@),
    ensures
        magnitude == decimal_magnitude(lexer::slice_text(text@, slice)),
{
    let ghost digits = lexer::slice_text(text@, slice);
    if slice.start == slice.end {
        return None;
    }
    let mut value: u64 = 0;
    let mut at = slice.start;
    while at < slice.end
        invariant
            slice.within(text@),
            slice.start <= at <= slice.end,
            digits == lexer::slice_text(text@, slice),
            forall|i: int| 0 <= i < at - slice.start ==> #[trigger] names::is_digit(digits[i]),
            value == digits_value(digits.take(at - slice.start)),
        decreases slice.end - at,
    {
        let byte = text[at];
        if !(byte >= 0x30 && byte <= 0x39) {
            assert(!names::is_digit(digits[at - slice.start]));
            return None;
        }
        let ghost count = at - slice.start;
        assert(digits.take(count + 1).drop_last() =~= digits.take(count));
        let digit = (byte - 0x30) as u64;
        if value > (u64::MAX - digit) / 10 {
            assert(value * 10 + digit > u64::MAX) by (nonlinear_arith)
                requires
                    value > (u64::MAX - digit) / 10,
                    digit <= 9,
            ;
            proof {
                if all_digits(digits) {
                    lemma_digits_value_prefix(digits, count + 1);
                }
            }
            return None;
        }
        assert(value * 10 + digit <= u64::MAX) by (nonlinear_arith)
            requires
                value <= (u64::MAX - digit) / 10,
                digit <= 9,
        ;
        value = value * 10 + digit;
        at = at + 1;
    }
    assert(digits.take(slice.end - slice.start) =~= digits);
    Some(value)
}

/// `u64::from_str`: an optional `+` and a non-empty run of digits whose value fits.
pub open spec fn unsigned_literal(literal: Seq<u8>) -> Option<u64> {
    if literal.len() > 0 && literal[0] == 0x2B {
        decimal_magnitude(literal.drop_first())
    } else {
        decimal_magnitude(literal)
    }
}

/// `i64::from_str`: an optional sign and a non-empty run of digits whose value fits.
pub open spec fn signed_literal(literal: Seq<u8>) -> Option<int> {
    let negative = literal.len() > 0 && literal[0] == 0x2D;
    let body = if literal.len() > 0 && (literal[0] == 0x2B || literal[0] == 0x2D) {
        literal.drop_first()
    } else {
        literal
    };
    if body.len() > 0 && all_digits(body) {
        let value = if negative {
            -digits_value(body)
        } else {
            digits_value(body)
        };
        if i64::MIN <= value <= i64::MAX {
            Some(value)
        } else {
            None
        }
    } else {
        None
    }
}

/// `i64::from_str` as an `Option<i64>`.
pub open spec fn signed_literal_i64(literal: Seq<u8>) -> Option<i64> {
    match signed_literal(literal) {
        Some(value) => Some(value as i64),
        None => None,
    }
}

pub fn parse_unsigned_literal(text: &[u8], literal: TextSlice) -> (value: Option<u64>)
    requires
        literal.within(text@),
    ensures
        value == unsigned_literal(lexer::slice_text(text@, literal)),
{
    if literal.start < literal.end && text[literal.start] == 0x2B {
        let body = TextSlice { start: literal.start + 1, end: literal.end };
        assert(lexer::slice_text(text@, body) =~= lexer::slice_text(text@, literal).drop_first());
        magnitude_of(text, body)
    } else {
        magnitude_of(text, literal)
    }
}

pub fn parse_signed_literal(text: &[u8], literal: TextSlice) -> (value: Option<i64>)
    requires
        literal.within(text@),
    ensures
        value matches Some(v) ==> signed_literal(lexer::slice_text(text@, literal)) == Some(v as int),
        value is None ==> signed_literal(lexer::slice_text(text@, literal)) is None,
        value == signed_literal_i64(lexer::slice_text(text@, literal)),
{
    let ghost whole = lexer::slice_text(text@, literal);
    let signed = literal.start < literal.end && (text[literal.start] == 0x2B || text[literal.start]
        == 0x2D);
    let negative = literal.start < literal.end && text[literal.start] == 0x2D;
    let body = if signed {
        TextSlice { start: literal.start + 1, end: literal.end }
    } else {
        literal
    };
    assert(signed ==> lexer::slice_text(text@, body) =~= whole.drop_first());
    let ghost digits = lexer::slice_text(text@, body);
    assert(signed == (whole.len() > 0 && (whole[0] == 0x2B || whole[0] == 0x2D)));
    assert(negative == (whole.len() > 0 && whole[0] == 0x2D));
    assert(!signed ==> digits == whole);
    let magnitude = magnitude_of(text, body);
    let result = match magnitude {
        None => {
            proof {
                if digits.len() > 0 && all_digits(digits) {
                    assert(digits_value(digits) > u64::MAX);
                }
            }
            assert(signed_literal(whole) is None);
            None
        },
        Some(magnitude) => {
            proof {
                lemma_digits_value_nonnegative(digits);
            }
            assert(digits.len() > 0 && all_digits(digits) && digits_value(digits) == magnitude);
            if negative {
                if magnitude > 0x8000_0000_0000_0000u64 {
                    assert(signed_literal(whole) is None);
                    None
                } else if magnitude == 0x8000_0000_0000_0000u64 {
                    assert(signed_literal(whole) == Some(i64::MIN as int));
                    Some(i64::MIN)
                } else {
                    assert(signed_literal(whole) == Some(-(magnitude as int)));
                    Some(-(magnitude as i64))
                }
            } else if magnitude > i64::MAX as u64 {
                assert(signed_literal(whole) is None);
                None
            } else {
                assert(signed_literal(whole) == Some(magnitude as int));
                Some(magnitude as i64)
            }
        },
    };
    result
}

pub open spec fn lower_ascii(byte: u8) -> u8 {
    if 0x41 <= byte <= 0x5A {
        (byte + 0x20) as u8
    } else {
        byte
    }
}

/// `literal` equals the lowercase `word`, ignoring ASCII case.
pub open spec fn equals_ignoring_case(literal: Seq<u8>, word: Seq<u8>) -> bool {
    literal.len() == word.len() && forall|i: int|
        0 <= i < word.len() ==> lower_ascii(#[trigger] literal[i]) == word[i]
}

/// The number of digits at `literal[at..]`.
pub open spec fn digit_run(literal: Seq<u8>, at: int) -> nat
    decreases literal.len() - at,
{
    if at < 0 || at >= literal.len() {
        0
    } else if names::is_digit(literal[at]) {
        1 + digit_run(literal, at + 1)
    } else {
        0
    }
}

/// The position after the mantissa `Digit+ | Digit+ '.' Digit* | Digit* '.' Digit+`, if any.
pub open spec fn mantissa_end(literal: Seq<u8>) -> Option<int> {
    let integer = digit_run(literal, 0) as int;
    if integer < literal.len() && literal[integer] == 0x2E {
        let fraction = digit_run(literal, integer + 1) as int;
        if integer + fraction > 0 {
            Some(integer + 1 + fraction)
        } else {
            None
        }
    } else if integer > 0 {
        Some(integer)
    } else {
        None
    }
}

/// The exponent `('e' | 'E') Sign? Digit+` fills `literal[at..]` exactly, or is absent.
pub open spec fn exponent_fills(literal: Seq<u8>, at: int) -> bool {
    if at >= literal.len() {
        true
    } else if lower_ascii(literal[at]) == 0x65 {
        let digits_at = if at + 1 < literal.len() && (literal[at + 1] == 0x2B || literal[at + 1]
            == 0x2D) {
            at + 2
        } else {
            at + 1
        };
        let digits = digit_run(literal, digits_at);
        digits > 0 && digits_at + digits == literal.len()
    } else {
        false
    }
}

pub open spec fn word_inf() -> Seq<u8> {
    seq![0x69u8, 0x6e, 0x66]
}

pub open spec fn word_infinity() -> Seq<u8> {
    seq![0x69u8, 0x6e, 0x66, 0x69, 0x6e, 0x69, 0x74, 0x79]
}

pub open spec fn word_nan() -> Seq<u8> {
    seq![0x6eu8, 0x61, 0x6e]
}

/// `f64::from_str` succeeds exactly on `Sign? ('inf' | 'infinity' | 'nan' | Number)`, with
/// `Number ::= Mantissa Exponent?` and letters in any ASCII case.
pub open spec fn float_literal(literal: Seq<u8>) -> bool {
    let body = if literal.len() > 0 && (literal[0] == 0x2B || literal[0] == 0x2D) {
        literal.drop_first()
    } else {
        literal
    };
    equals_ignoring_case(body, word_inf()) || equals_ignoring_case(body, word_infinity())
        || equals_ignoring_case(body, word_nan()) || (mantissa_end(body) matches Some(end)
        && exponent_fills(body, end))
}

pub fn matches_ignoring_case(text: &[u8], slice: TextSlice, word: &[u8]) -> (matches: bool)
    requires
        slice.within(text@),
    ensures
        matches == equals_ignoring_case(lexer::slice_text(text@, slice), word@),
{
    let ghost literal = lexer::slice_text(text@, slice);
    if slice.end - slice.start != word.len() {
        return false;
    }
    let mut at: usize = 0;
    while at < word.len()
        invariant
            slice.within(text@),
            literal == lexer::slice_text(text@, slice),
            slice.end - slice.start == word@.len(),
            at <= word@.len(),
            forall|i: int| 0 <= i < at ==> lower_ascii(#[trigger] literal[i]) == word@[i],
        decreases word@.len() - at,
    {
        let byte = text[slice.start + at];
        let lowered = if byte >= 0x41 && byte <= 0x5A {
            byte + 0x20
        } else {
            byte
        };
        if lowered != word[at] {
            assert(lower_ascii(literal[at as int]) != word@[at as int]);
            return false;
        }
        at = at + 1;
    }
    true
}

/// The number of digits at `text[at..end]`, computed.
fn count_digits(text: &[u8], at: usize, end: usize) -> (count: usize)
    requires
        at <= end <= text@.len(),
    ensures
        count == digit_run(text@.subrange(0, end as int), at as int),
        at + count <= end,
{
    let ghost window = text@.subrange(0, end as int);
    let mut cursor = at;
    while cursor < end && text[cursor] >= 0x30 && text[cursor] <= 0x39
        invariant
            at <= cursor <= end <= text@.len(),
            window == text@.subrange(0, end as int),
            digit_run(window, at as int) == (cursor - at) + digit_run(window, cursor as int),
        decreases end - cursor,
    {
        cursor = cursor + 1;
    }
    cursor - at
}

pub fn is_float_literal(text: &[u8], literal: TextSlice) -> (valid: bool)
    requires
        literal.within(text@),
    ensures
        valid == float_literal(lexer::slice_text(text@, literal)),
{
    let ghost whole = lexer::slice_text(text@, literal);
    let signed = literal.start < literal.end && (text[literal.start] == 0x2B || text[literal.start]
        == 0x2D);
    let body = if signed {
        TextSlice { start: literal.start + 1, end: literal.end }
    } else {
        literal
    };
    assert(signed ==> lexer::slice_text(text@, body) =~= whole.drop_first());
    assert(signed == (whole.len() > 0 && (whole[0] == 0x2B || whole[0] == 0x2D)));
    let special = matches_ignoring_case(text, body, &[0x69u8, 0x6e, 0x66]) || matches_ignoring_case(
        text,
        body,
        &[0x69u8, 0x6e, 0x66, 0x69, 0x6e, 0x69, 0x74, 0x79],
    ) || matches_ignoring_case(text, body, &[0x6eu8, 0x61, 0x6e]);
    if special {
        return true;
    }
    is_decimal_number(text, body)
}

/// Whether `text[body]` is a mantissa followed by an optional exponent.
fn is_decimal_number(text: &[u8], body: TextSlice) -> (valid: bool)
    requires
        body.within(text@),
    ensures
        valid == (mantissa_end(lexer::slice_text(text@, body)) matches Some(end) && exponent_fills(
            lexer::slice_text(text@, body),
            end,
        )),
{
    let ghost b = lexer::slice_text(text@, body);
    proof {
        lemma_digit_run_window(text@, body.start as int, body.end as int, body.start as int);
    }
    let integer = count_digits(text, body.start, body.end);
    let mut cursor = body.start + integer;
    if cursor < body.end && text[cursor] == 0x2E {
        proof {
            lemma_digit_run_window(text@, body.start as int, body.end as int, cursor + 1);
        }
        let fraction = count_digits(text, cursor + 1, body.end);
        if integer + fraction == 0 {
            return false;
        }
        cursor = cursor + 1 + fraction;
    } else if integer == 0 {
        return false;
    }
    assert(mantissa_end(b) == Some(cursor - body.start));
    if cursor >= body.end {
        return true;
    }
    let marker = text[cursor];
    if !(marker == 0x65 || marker == 0x45) {
        return false;
    }
    let mut digits_at = cursor + 1;
    if digits_at < body.end && (text[digits_at] == 0x2B || text[digits_at] == 0x2D) {
        digits_at = digits_at + 1;
    }
    proof {
        lemma_digit_run_window(text@, body.start as int, body.end as int, digits_at as int);
    }
    let exponent = count_digits(text, digits_at, body.end);
    exponent > 0 && digits_at + exponent == body.end
}

/// Digit runs of a window of the text agree with those of the slice it starts.
pub proof fn lemma_digit_run_window(text: Seq<u8>, start: int, end: int, at: int)
    requires
        0 <= start <= at <= end <= text.len(),
    ensures
        digit_run(text.subrange(0, end), at) == digit_run(text.subrange(start, end), at - start),
    decreases end - at,
{
    if at < end {
        lemma_digit_run_window(text, start, end, at + 1);
    }
}


/// Parses an unsigned integer literal after charging one step per byte.
pub fn metered_parse_unsigned(
    text: &[u8],
    literal: TextSlice,
    steps: &mut RemoteRos2StepOwnershipV1,
) -> (result: Result<Option<u64>, RemoteRos2InitializationError>)
    requires
        literal.within(text@),
    ensures
        steps::metered(
            *old(steps),
            Ok(unsigned_literal(lexer::slice_text(text@, literal))),
            literal.spec_len(),
            result,
            *final(steps),
        ),
{
    steps.consume_bytes(literal.end - literal.start)?;
    Ok(parse_unsigned_literal(text, literal))
}

/// Parses a signed integer literal after charging one step per byte.
pub fn metered_parse_signed(
    text: &[u8],
    literal: TextSlice,
    steps: &mut RemoteRos2StepOwnershipV1,
) -> (result: Result<Option<i64>, RemoteRos2InitializationError>)
    requires
        literal.within(text@),
    ensures
        steps::metered(
            *old(steps),
            Ok(signed_literal_i64(lexer::slice_text(text@, literal))),
            literal.spec_len(),
            result,
            *final(steps),
        ),
{
    steps.consume_bytes(literal.end - literal.start)?;
    Ok(parse_signed_literal(text, literal))
}

/// Checks a floating-point literal after charging one step per byte.
pub fn metered_parse_float(
    text: &[u8],
    literal: TextSlice,
    steps: &mut RemoteRos2StepOwnershipV1,
) -> (result: Result<bool, RemoteRos2InitializationError>)
    requires
        literal.within(text@),
    ensures
        steps::metered(
            *old(steps),
            Ok(float_literal(lexer::slice_text(text@, literal))),
            literal.spec_len(),
            result,
            *final(steps),
        ),
{
    steps.consume_bytes(literal.end - literal.start)?;
    Ok(is_float_literal(text, literal))
}

/// A literal the local parser rejects is an invalid schema.
pub fn require_local_integer<T>(parsed: Option<T>) -> (result: Result<T, RemoteRos2InitializationError>)
    ensures
        match parsed {
            Some(value) => result == Ok::<T, RemoteRos2InitializationError>(value),
            None => result == Err::<T, RemoteRos2InitializationError>(
                RemoteRos2InitializationError::InvalidRemoteSchema,
            ),
        },
{
    match parsed {
        Some(value) => Ok(value),
        None => Err(RemoteRos2InitializationError::InvalidRemoteSchema),
    }
}

/// A literal the local parser accepts but the remote type cannot hold is outside the subset.
pub fn reject_outside_remote_narrowing(within_remote_type: bool) -> (result: Result<
    (),
    RemoteRos2InitializationError,
>)
    ensures
        within_remote_type ==> result == Ok::<(), RemoteRos2InitializationError>(()),
        !within_remote_type ==> result == Err::<(), RemoteRos2InitializationError>(
            steps::unsupported(UnsupportedForRemote::GrammarFeature),
        ),
{
    if within_remote_type {
        Ok(())
    } else {
        Err(RemoteRos2InitializationError::UnsupportedForRemote(UnsupportedForRemote::GrammarFeature))
    }
}

/// The scan of a quoted string body from `at`: whether no unescaped closing quote occurs and no
/// escape is left open, with one step per inspected byte.
pub open spec fn quote_scan(text: Seq<u8>, at: int, end: int, quote: u8, escaped: bool) -> (bool, nat)
    decreases end - at,
{
    if at < 0 || at >= end || at >= text.len() {
        (!escaped, 0)
    } else if escaped {
        let rest = quote_scan(text, at + 1, end, quote, false);
        (rest.0, rest.1 + 1)
    } else if text[at] == 0x5C {
        let rest = quote_scan(text, at + 1, end, quote, true);
        (rest.0, rest.1 + 1)
    } else if text[at] == quote {
        (false, 1)
    } else {
        let rest = quote_scan(text, at + 1, end, quote, false);
        (rest.0, rest.1 + 1)
    }
}

/// A string literal: unquoted text as is, or the body of a single- or double-quoted string.
pub open spec fn quoted_string(text: Seq<u8>, input: TextSlice) -> (Result<
    TextSlice,
    RemoteRos2InitializationError,
>, nat) {
    let len = input.spec_len();
    if len == 0 {
        (Ok(input), len)
    } else {
        let first = text[input.start as int];
        if first != 0x27 && first != 0x22 {
            (Ok(input), len)
        } else if len < 2 || text[input.end - 1] != first {
            (Err(steps::unsupported(UnsupportedForRemote::GrammarFeature)), len)
        } else {
            let scan = quote_scan(text, input.start + 1, input.end - 1, first, false);
            if scan.0 {
                (
                    Ok(TextSlice { start: (input.start + 1) as usize, end: (input.end - 1) as usize }),
                    len + scan.1,
                )
            } else {
                (Err(steps::unsupported(UnsupportedForRemote::GrammarFeature)), len + scan.1)
            }
        }
    }
}

pub fn parse_quoted_string(
    text: &[u8],
    input: TextSlice,
    steps: &mut RemoteRos2StepOwnershipV1,
) -> (result: Result<TextSlice, RemoteRos2InitializationError>)
    requires
        input.within(text@),
    ensures
        steps::metered(
            *old(steps),
            quoted_string(text@, input).0,
            quoted_string(text@, input).1,
            result,
            *final(steps),
        ),
        quoted_string(text@, input).0 matches Ok(body) ==> body.within(text@) && input.start
            <= body.start && body.end <= input.end,
{
    let ghost initial = *steps;
    let ghost outcome = quoted_string(text@, input);
    let charged = steps.consume_bytes(input.end - input.start);
    if charged.is_err() {
        proof {
            steps::lemma_metered_stop(
                initial,
                Ok::<(), RemoteRos2InitializationError>(()),
                input.spec_len(),
                charged,
                *steps,
                outcome.0,
                outcome.1,
            );
        }
        return Err(charged.unwrap_err());
    }
    if input.start == input.end {
        return Ok(input);
    }
    let first = text[input.start];
    if first != 0x27 && first != 0x22 {
        return Ok(input);
    }
    if input.end - input.start < 2 || text[input.end - 1] != first {
        return Err(
            RemoteRos2InitializationError::UnsupportedForRemote(
                UnsupportedForRemote::GrammarFeature,
            ),
        );
    }
    let inner = TextSlice { start: input.start + 1, end: input.end - 1 };
    let ghost scan = quote_scan(text@, inner.start as int, inner.end as int, first, false);
    let mut escaped = false;
    let mut at = inner.start;
    while at < inner.end
        invariant
            input.within(text@),
            inner.start == input.start + 1,
            inner.end == input.end - 1,
            inner.start <= at <= inner.end,
            initial == *old(steps),
            outcome == quoted_string(text@, input),
            first == text@[input.start as int],
            first == 0x27 || first == 0x22,
            input.spec_len() >= 2,
            text@[input.end - 1] == first,
            scan == quote_scan(text@, inner.start as int, inner.end as int, first, false),
            scan.0 == quote_scan(text@, at as int, inner.end as int, first, escaped).0,
            scan.1 == (at - inner.start) + quote_scan(text@, at as int, inner.end as int, first, escaped).1,
            steps::metered(
                initial,
                Ok(()),
                (input.spec_len() + (at - inner.start)) as nat,
                Ok(()),
                *steps,
            ),
        decreases inner.end - at,
    {
        let ghost before = *steps;
        let step = steps.consume();
        if step.is_err() {
            proof {
                steps::lemma_charge_stop(
                    initial,
                    (input.spec_len() + (at - inner.start)) as nat,
                    before,
                    step,
                    *steps,
                    outcome.0,
                    outcome.1,
                );
            }
            return Err(step.unwrap_err());
        }
        proof {
            steps::lemma_charge_ok(
                initial,
                (input.spec_len() + (at - inner.start)) as nat,
                before,
                step,
                *steps,
            );
        }
        let byte = text[at];
        if escaped {
            escaped = false;
        } else if byte == 0x5C {
            escaped = true;
        } else if byte == first {
            return Err(
                RemoteRos2InitializationError::UnsupportedForRemote(
                    UnsupportedForRemote::GrammarFeature,
                ),
            );
        }
        at = at + 1;
    }
    if escaped {
        return Err(
            RemoteRos2InitializationError::UnsupportedForRemote(
                UnsupportedForRemote::GrammarFeature,
            ),
        );
    }
    Ok(inner)
}

pub open spec fn word_true() -> Seq<u8> {
    seq![0x74u8, 0x72, 0x75, 0x65]
}

pub open spec fn word_false() -> Seq<u8> {
    seq![0x66u8, 0x61, 0x6c, 0x73, 0x65]
}

/// An unsigned literal must parse locally and fit the remote type.
pub open spec fn narrowed_unsigned(literal: Seq<u8>, max: int) -> Result<(), RemoteRos2InitializationError> {
    match unsigned_literal(literal) {
        None => Err(RemoteRos2InitializationError::InvalidRemoteSchema),
        Some(value) => if value <= max {
            Ok(())
        } else {
            Err(steps::unsupported(UnsupportedForRemote::GrammarFeature))
        },
    }
}

/// A signed literal must parse locally and fit the remote type.
pub open spec fn narrowed_signed(literal: Seq<u8>, min: int, max: int) -> Result<
    (),
    RemoteRos2InitializationError,
> {
    match signed_literal(literal) {
        None => Err(RemoteRos2InitializationError::InvalidRemoteSchema),
        Some(value) => if min <= value <= max {
            Ok(())
        } else {
            Err(steps::unsupported(UnsupportedForRemote::GrammarFeature))
        },
    }
}

pub open spec fn valid_or_invalid(valid: bool) -> Result<(), RemoteRos2InitializationError> {
    if valid {
        Ok(())
    } else {
        Err(RemoteRos2InitializationError::InvalidRemoteSchema)
    }
}

/// The check of one scalar literal of the given primitive type, with its steps.
pub open spec fn scalar_literal_check(
    text: Seq<u8>,
    input: TextSlice,
    primitive: PrimitiveTypeV1,
    limits: UnfrozenRemoteRos2LimitsV1,
) -> (Result<(), RemoteRos2InitializationError>, nat) {
    let len = input.spec_len();
    let literal = lexer::slice_text(text, input);
    match primitive {
        PrimitiveTypeV1::Bool => (valid_or_invalid(literal == word_true() || literal == word_false()), len),
        PrimitiveTypeV1::Byte | PrimitiveTypeV1::UInt8 => (narrowed_unsigned(literal, 0xff), len),
        PrimitiveTypeV1::Char | PrimitiveTypeV1::Int8 => (narrowed_signed(literal, -0x80, 0x7f), len),
        PrimitiveTypeV1::Int16 => (narrowed_signed(literal, -0x8000, 0x7fff), len),
        PrimitiveTypeV1::Int32 => (narrowed_signed(literal, -0x8000_0000, 0x7fff_ffff), len),
        PrimitiveTypeV1::Int64 => (valid_or_invalid(signed_literal(literal) is Some), len),
        PrimitiveTypeV1::UInt16 => (narrowed_unsigned(literal, 0xffff), len),
        PrimitiveTypeV1::UInt32 => (narrowed_unsigned(literal, 0xffff_ffff), len),
        PrimitiveTypeV1::UInt64 => (valid_or_invalid(unsigned_literal(literal) is Some), len),
        PrimitiveTypeV1::Float32 | PrimitiveTypeV1::Float64 => (valid_or_invalid(float_literal(literal)), len),
        PrimitiveTypeV1::String { bound } => {
            let quoted = quoted_string(text, input);
            match quoted.0 {
                Err(error) => (Err(error), quoted.1),
                Ok(body) => if body.spec_len() > limits.max_string_literal_bytes {
                    (Err(steps::limit_error(RemoteRos2ResourceLimit::StringLiteralBytes)), quoted.1)
                } else if bound matches Some(bound) && body.spec_len() > bound {
                    (Err(steps::unsupported(UnsupportedForRemote::GrammarFeature)), quoted.1)
                } else {
                    (Ok(()), quoted.1)
                },
            }
        },
    }
}

/// Whether `primitive` is one of the signed integer types, `char` included.
pub open spec fn is_signed_integer(primitive: PrimitiveTypeV1) -> bool {
    ||| primitive is Char
    ||| primitive is Int8
    ||| primitive is Int16
    ||| primitive is Int32
    ||| primitive is Int64
}

/// Whether `primitive` is one of the unsigned integer types, `byte` included.
pub open spec fn is_unsigned_integer(primitive: PrimitiveTypeV1) -> bool {
    ||| primitive is Byte
    ||| primitive is UInt8
    ||| primitive is UInt16
    ||| primitive is UInt32
    ||| primitive is UInt64
}

/// A scalar literal of a non-string type costs one step per byte. An integer literal is invalid
/// exactly where it does not parse as a 64-bit integer of its signedness; one that parses but
/// lies outside its type is an unsupported grammar feature, never anything else. A `bool`
/// literal is valid exactly when it is `true` or `false`, a float literal exactly when it has
/// float syntax.
pub proof fn lemma_scalar_literal_classification(
    text: Seq<u8>,
    input: TextSlice,
    primitive: PrimitiveTypeV1,
    limits: UnfrozenRemoteRos2LimitsV1,
)
    requires
        !(primitive is String),
    ensures
        ({
            let check = scalar_literal_check(text, input, primitive, limits);
            let literal = lexer::slice_text(text, input);
            &&& check.1 == input.spec_len()
            &&& check.0 is Ok || check.0 == Err::<(), RemoteRos2InitializationError>(
                RemoteRos2InitializationError::InvalidRemoteSchema,
            ) || check.0 == Err::<(), RemoteRos2InitializationError>(
                steps::unsupported(UnsupportedForRemote::GrammarFeature),
            )
            &&& is_signed_integer(primitive) ==> (check.0 == Err::<
                (),
                RemoteRos2InitializationError,
            >(RemoteRos2InitializationError::InvalidRemoteSchema) <==> signed_literal(literal)
                is None)
            &&& is_unsigned_integer(primitive) ==> (check.0 == Err::<
                (),
                RemoteRos2InitializationError,
            >(RemoteRos2InitializationError::InvalidRemoteSchema) <==> unsigned_literal(literal)
                is None)
            &&& primitive is Bool ==> (check.0 is Ok <==> (literal == word_true() || literal
                == word_false()))
            &&& (primitive is Float32 || primitive is Float64) ==> (check.0 is Ok <==> float_literal(
                literal,
            ))
        }),
{
}

/// An integer literal of a fixed-width type is accepted exactly when it parses as a 64-bit
/// integer of its signedness whose value lies in the range of that type: `char` and `int8` in
/// `i8`, `int16` in `i16`, `int32` in `i32`, `int64` in `i64`, `byte` and `uint8` in `u8`,
/// `uint16` in `u16`, `uint32` in `u32`, `uint64` in `u64`.
pub proof fn lemma_integer_literal_ranges(
    text: Seq<u8>,
    input: TextSlice,
    primitive: PrimitiveTypeV1,
    limits: UnfrozenRemoteRos2LimitsV1,
)
    ensures
        ({
            let accepted = scalar_literal_check(text, input, primitive, limits).0 is Ok;
            let literal = lexer::slice_text(text, input);
            let signed_in = |min: int, max: int|
                signed_literal(literal) matches Some(value) && min <= value <= max;
            let unsigned_in = |max: int|
                unsigned_literal(literal) matches Some(value) && value <= max;
            &&& (primitive is Char || primitive is Int8) ==> (accepted <==> signed_in(
                i8::MIN as int,
                i8::MAX as int,
            ))
            &&& primitive is Int16 ==> (accepted <==> signed_in(i16::MIN as int, i16::MAX as int))
            &&& primitive is Int32 ==> (accepted <==> signed_in(i32::MIN as int, i32::MAX as int))
            &&& primitive is Int64 ==> (accepted <==> signed_in(i64::MIN as int, i64::MAX as int))
            &&& (primitive is Byte || primitive is UInt8) ==> (accepted <==> unsigned_in(
                u8::MAX as int,
            ))
            &&& primitive is UInt16 ==> (accepted <==> unsigned_in(u16::MAX as int))
            &&& primitive is UInt32 ==> (accepted <==> unsigned_in(u32::MAX as int))
            &&& primitive is UInt64 ==> (accepted <==> unsigned_in(u64::MAX as int))
        }),
{
}

/// A `bool` literal is accepted exactly when it is the word `true` or the word `false`.
pub proof fn lemma_bool_literal_words(
    text: Seq<u8>,
    input: TextSlice,
    limits: UnfrozenRemoteRos2LimitsV1,
)
    ensures
        scalar_literal_check(text, input, PrimitiveTypeV1::Bool, limits).0 is Ok <==> (
        lexer::slice_text(text, input) == seq![0x74u8, 0x72, 0x75, 0x65] || lexer::slice_text(
            text,
            input,
        ) == seq![0x66u8, 0x61, 0x6c, 0x73, 0x65]),
{
    assert(word_true() =~= seq![0x74u8, 0x72, 0x75, 0x65]);
    assert(word_false() =~= seq![0x66u8, 0x61, 0x6c, 0x73, 0x65]);
}

fn check_unsigned_literal(
    text: &[u8],
    input: TextSlice,
    max: u64,
    steps: &mut RemoteRos2StepOwnershipV1,
) -> (result: Result<(), RemoteRos2InitializationError>)
    requires
        input.within(text@),
    ensures
        steps::metered(
            *old(steps),
            narrowed_unsigned(lexer::slice_text(text@, input), max as int),
            input.spec_len(),
            result,
            *final(steps),
        ),
{
    let ghost initial = *steps;
    let parsed = metered_parse_unsigned(text, input, steps);
    let parsed = match parsed {
        Ok(parsed) => parsed,
        Err(error) => {
            proof {
                steps::lemma_metered_stop(
                    initial,
                    Ok(unsigned_literal(lexer::slice_text(text@, input))),
                    input.spec_len(),
                    parsed,
                    *steps,
                    narrowed_unsigned(lexer::slice_text(text@, input), max as int),
                    input.spec_len(),
                );
            }
            return Err(error);
        },
    };
    assert(parsed == unsigned_literal(lexer::slice_text(text@, input)));
    let value = match require_local_integer(parsed) {
        Ok(value) => value,
        Err(error) => {
            return Err(error);
        },
    };
    reject_outside_remote_narrowing(value <= max)
}

fn check_signed_literal(
    text: &[u8],
    input: TextSlice,
    min: i64,
    max: i64,
    steps: &mut RemoteRos2StepOwnershipV1,
) -> (result: Result<(), RemoteRos2InitializationError>)
    requires
        input.within(text@),
    ensures
        steps::metered(
            *old(steps),
            narrowed_signed(lexer::slice_text(text@, input), min as int, max as int),
            input.spec_len(),
            result,
            *final(steps),
        ),
{
    let ghost initial = *steps;
    let parsed = metered_parse_signed(text, input, steps);
    let parsed = match parsed {
        Ok(parsed) => parsed,
        Err(error) => {
            proof {
                steps::lemma_metered_stop(
                    initial,
                    Ok(signed_literal_i64(lexer::slice_text(text@, input))),
                    input.spec_len(),
                    parsed,
                    *steps,
                    narrowed_signed(lexer::slice_text(text@, input), min as int, max as int),
                    input.spec_len(),
                );
            }
            return Err(error);
        },
    };
    assert(parsed == signed_literal_i64(lexer::slice_text(text@, input)));
    let value = match require_local_integer(parsed) {
        Ok(value) => value,
        Err(error) => {
            return Err(error);
        },
    };
    assert(signed_literal(lexer::slice_text(text@, input)) == Some(value as int));
    reject_outside_remote_narrowing(min <= value && value <= max)
}

/// Validates one scalar literal of the given primitive type.
pub fn validate_scalar_literal(
    text: &[u8],
    input: TextSlice,
    primitive: PrimitiveTypeV1,
    limits: &UnfrozenRemoteRos2LimitsV1,
    steps: &mut RemoteRos2StepOwnershipV1,
) -> (result: Result<(), RemoteRos2InitializationError>)
    requires
        input.within(text@),
    ensures
        steps::metered(
            *old(steps),
            scalar_literal_check(text@, input, primitive, *limits).0,
            scalar_literal_check(text@, input, primitive, *limits).1,
            result,
            *final(steps),
        ),
{
    let ghost initial = *steps;
    let ghost outcome = scalar_literal_check(text@, input, primitive, *limits);
    match primitive {
        PrimitiveTypeV1::Bool => {
            steps.consume_bytes(input.end - input.start)?;
            let valid = types::word_matches(text, input, &[0x74u8, 0x72, 0x75, 0x65])
                || types::word_matches(text, input, &[0x66u8, 0x61, 0x6c, 0x73, 0x65]);
            if valid {
                Ok(())
            } else {
                Err(RemoteRos2InitializationError::InvalidRemoteSchema)
            }
        },
        PrimitiveTypeV1::Byte | PrimitiveTypeV1::UInt8 => check_unsigned_literal(text, input, 0xff, steps),
        PrimitiveTypeV1::Char | PrimitiveTypeV1::Int8 => check_signed_literal(text, input, -0x80, 0x7f, steps),
        PrimitiveTypeV1::Int16 => check_signed_literal(text, input, -0x8000, 0x7fff, steps),
        PrimitiveTypeV1::Int32 => check_signed_literal(
            text,
            input,
            -0x8000_0000,
            0x7fff_ffff,
            steps,
        ),
        PrimitiveTypeV1::Int64 => {
            let parsed = metered_parse_signed(text, input, steps)?;
            if parsed.is_some() {
                Ok(())
            } else {
                Err(RemoteRos2InitializationError::InvalidRemoteSchema)
            }
        },
        PrimitiveTypeV1::UInt16 => check_unsigned_literal(text, input, 0xffff, steps),
        PrimitiveTypeV1::UInt32 => check_unsigned_literal(text, input, 0xffff_ffff, steps),
        PrimitiveTypeV1::UInt64 => {
            let parsed = metered_parse_unsigned(text, input, steps)?;
            if parsed.is_some() {
                Ok(())
            } else {
                Err(RemoteRos2InitializationError::InvalidRemoteSchema)
            }
        },
        PrimitiveTypeV1::Float32 | PrimitiveTypeV1::Float64 => {
            let valid = metered_parse_float(text, input, steps)?;
            if valid {
                Ok(())
            } else {
                Err(RemoteRos2InitializationError::InvalidRemoteSchema)
            }
        },
        PrimitiveTypeV1::String { bound } => {
            let body = parse_quoted_string(text, input, steps)?;
            lexer::ensure_length(
                body.end - body.start,
                limits.max_string_literal_bytes,
                RemoteRos2ResourceLimit::StringLiteralBytes,
            )?;
            if let Some(bound) = bound {
                if (body.end - body.start) as u64 > bound {
                    return Err(
                        RemoteRos2InitializationError::UnsupportedForRemote(
                            UnsupportedForRemote::GrammarFeature,
                        ),
                    );
                }
            }
            Ok(())
        },
    }
}


/// The number of non-comma bytes at `text[at..end]`.
pub open spec fn comma_run(text: Seq<u8>, at: int, end: int) -> nat
    decreases end - at,
{
    if at < 0 || at >= end || at >= text.len() {
        0
    } else if text[at] == 0x2C {
        0
    } else {
        1 + comma_run(text, at + 1, end)
    }
}

pub proof fn lemma_comma_run_bounded(text: Seq<u8>, at: int, end: int)
    requires
        0 <= at,
        end <= text.len(),
    ensures
        at <= end ==> at + comma_run(text, at, end) <= end,
        at + comma_run(text, at, end) < end ==> text[at + comma_run(text, at, end)] == 0x2C,
    decreases end - at,
{
    if at < end {
        lemma_comma_run_bounded(text, at + 1, end);
    }
}

/// One array element `text[element]`: one step, the trimming and the scalar check; the element
/// count after it, or the first error.
pub open spec fn array_element_step(
    text: Seq<u8>,
    element: TextSlice,
    count: int,
    primitive: PrimitiveTypeV1,
    limits: UnfrozenRemoteRos2LimitsV1,
) -> (Result<u64, RemoteRos2InitializationError>, nat) {
    let body = lexer::trimmed(text, element);
    let trim_cost = 1 + lexer::trim_cost(text, element);
    if body.spec_len() == 0 {
        (Err(steps::unsupported(UnsupportedForRemote::GrammarFeature)), trim_cost)
    } else {
        let scalar = scalar_literal_check(text, body, primitive, limits);
        let cost = trim_cost + scalar.1;
        match scalar.0 {
            Err(error) => (Err(error), cost),
            Ok(_) => if count + 1 > u64::MAX {
                (Err(steps::limit_error(RemoteRos2ResourceLimit::Arithmetic)), cost)
            } else if count + 1 > limits.max_array_bound {
                (Err(steps::limit_error(RemoteRos2ResourceLimit::ArrayBound)), cost)
            } else {
                (Ok((count + 1) as u64), cost)
            },
        }
    }
}

fn check_array_element(
    text: &[u8],
    element: TextSlice,
    count: u64,
    primitive: PrimitiveTypeV1,
    limits: &UnfrozenRemoteRos2LimitsV1,
    steps: &mut RemoteRos2StepOwnershipV1,
) -> (result: Result<u64, RemoteRos2InitializationError>)
    requires
        element.within(text@),
    ensures
        steps::metered(
            *old(steps),
            array_element_step(text@, element, count as int, primitive, *limits).0,
            array_element_step(text@, element, count as int, primitive, *limits).1,
            result,
            *final(steps),
        ),
{
    let ghost initial = *steps;
    let ghost outcome = array_element_step(text@, element, count as int, primitive, *limits);
    proof {
        lexer::lemma_trimmed_within(text@, element);
    }
    let step = steps.consume();
    if step.is_err() {
        proof {
            steps::lemma_metered_stop(
                initial,
                Ok::<(), RemoteRos2InitializationError>(()),
                1,
                step,
                *steps,
                outcome.0,
                outcome.1,
            );
        }
        return Err(step.unwrap_err());
    }
    let ghost before = *steps;
    let body = lexer::trim_ascii(text, element, steps);
    proof {
        steps::lemma_metered_then(
            initial,
            Ok::<(), RemoteRos2InitializationError>(()),
            1,
            step,
            before,
            Ok(lexer::trimmed(text@, element)),
            lexer::trim_cost(text@, element),
            body,
            *steps,
        );
    }
    let body = match body {
        Ok(body) => body,
        Err(error) => {
            proof {
                steps::lemma_metered_stop(
                    initial,
                    Ok(lexer::trimmed(text@, element)),
                    1 + lexer::trim_cost(text@, element),
                    Err::<TextSlice, RemoteRos2InitializationError>(error),
                    *steps,
                    outcome.0,
                    outcome.1,
                );
            }
            return Err(error);
        },
    };
    if body.start == body.end {
        return Err(
            RemoteRos2InitializationError::UnsupportedForRemote(UnsupportedForRemote::GrammarFeature),
        );
    }
    let ghost before = *steps;
    let checked = validate_scalar_literal(text, body, primitive, limits, steps);
    proof {
        steps::lemma_metered_then(
            initial,
            Ok(body),
            1 + lexer::trim_cost(text@, element),
            Ok(body),
            before,
            scalar_literal_check(text@, body, primitive, *limits).0,
            scalar_literal_check(text@, body, primitive, *limits).1,
            checked,
            *steps,
        );
    }
    if checked.is_err() {
        proof {
            steps::lemma_metered_stop(
                initial,
                scalar_literal_check(text@, body, primitive, *limits).0,
                1 + lexer::trim_cost(text@, element) + scalar_literal_check(text@, body, primitive, *limits).1,
                checked,
                *steps,
                outcome.0,
                outcome.1,
            );
        }
        return Err(checked.unwrap_err());
    }
    if count == u64::MAX {
        return Err(
            RemoteRos2InitializationError::ResourceLimitExceeded(RemoteRos2ResourceLimit::Arithmetic),
        );
    }
    if count + 1 > limits.max_array_bound {
        return Err(
            RemoteRos2InitializationError::ResourceLimitExceeded(RemoteRos2ResourceLimit::ArrayBound),
        );
    }
    Ok(count + 1)
}

/// The check of the comma-separated elements from `at` on, after `count` valid elements: the
/// element count, or the first error, with the steps charged.
pub open spec fn array_elements(
    text: Seq<u8>,
    at: int,
    end: int,
    count: int,
    primitive: PrimitiveTypeV1,
    limits: UnfrozenRemoteRos2LimitsV1,
) -> (Result<u64, RemoteRos2InitializationError>, nat)
    decreases end - at,
{
    if at < 0 || at > end || end > text.len() {
        (Ok(count as u64), 0)
    } else {
        let element_end = at + comma_run(text, at, end);
        let element = TextSlice { start: at as usize, end: element_end as usize };
        let step = array_element_step(text, element, count, primitive, limits);
        match step.0 {
            Err(error) => (Err(error), step.1),
            Ok(next) => if element_end >= end {
                (Ok(next), step.1)
            } else {
                let rest = array_elements(text, element_end + 1, end, next as int, primitive, limits);
                (rest.0, step.1 + rest.1)
            },
        }
    }
}

fn check_array_elements(
    text: &[u8],
    inner: TextSlice,
    primitive: PrimitiveTypeV1,
    limits: &UnfrozenRemoteRos2LimitsV1,
    steps: &mut RemoteRos2StepOwnershipV1,
) -> (result: Result<u64, RemoteRos2InitializationError>)
    requires
        inner.within(text@),
    ensures
        steps::metered(
            *old(steps),
            array_elements(text@, inner.start as int, inner.end as int, 0, primitive, *limits).0,
            array_elements(text@, inner.start as int, inner.end as int, 0, primitive, *limits).1,
            result,
            *final(steps),
        ),
{
    let ghost initial = *steps;
    let ghost elements = array_elements(text@, inner.start as int, inner.end as int, 0, primitive, *limits);
    let ghost mut charged: nat = 0;
    proof {
        steps::lemma_metered_pure(initial, Ok::<(), RemoteRos2InitializationError>(()));
    }
    let mut count: u64 = 0;
    let mut at = inner.start;
    loop
        invariant
            inner.within(text@),
            inner.start <= at <= inner.end,
            initial == *old(steps),
            elements == array_elements(text@, inner.start as int, inner.end as int, 0, primitive, *limits),
            elements.0 == array_elements(text@, at as int, inner.end as int, count as int, primitive, *limits).0,
            elements.1 == charged + array_elements(
                text@,
                at as int,
                inner.end as int,
                count as int,
                primitive,
                *limits,
            ).1,
            steps::metered(initial, Ok(()), charged, Ok(()), *steps),
        decreases inner.end - at,
    {
        proof {
            lemma_comma_run_bounded(text@, at as int, inner.end as int);
        }
        let mut element_end = at;
        while element_end < inner.end && text[element_end] != 0x2C
            invariant
                inner.within(text@),
                at <= element_end <= inner.end,
                comma_run(text@, at as int, inner.end as int) == (element_end - at) + comma_run(
                    text@,
                    element_end as int,
                    inner.end as int,
                ),
            decreases inner.end - element_end,
        {
            element_end = element_end + 1;
        }
        let element = TextSlice { start: at, end: element_end };
        let ghost before = *steps;
        let next = check_array_element(text, element, count, primitive, limits, steps);
        let ghost step = array_element_step(text@, element, count as int, primitive, *limits);
        proof {
            steps::lemma_metered_then(
                initial,
                Ok::<(), RemoteRos2InitializationError>(()),
                charged,
                Ok(()),
                before,
                step.0,
                step.1,
                next,
                *steps,
            );
        }
        let next = match next {
            Ok(next) => next,
            Err(error) => {
                proof {
                    steps::lemma_metered_stop(
                        initial,
                        step.0,
                        charged + step.1,
                        Err::<u64, RemoteRos2InitializationError>(error),
                        *steps,
                        elements.0,
                        elements.1,
                    );
                }
                return Err(error);
            },
        };
        proof {
            charged = charged + step.1;
        }
        count = next;
        if element_end >= inner.end {
            return Ok(count);
        }
        at = element_end + 1;
    }
}

/// The check of a bracketed array literal against the element type and the declared size.
pub open spec fn array_literal_check(
    text: Seq<u8>,
    input: TextSlice,
    primitive: PrimitiveTypeV1,
    bound: Option<(ArraySizeV1, u64)>,
    limits: UnfrozenRemoteRos2LimitsV1,
) -> (Result<(), RemoteRos2InitializationError>, nat) {
    let len = input.spec_len();
    if !(len > 0 && text[input.start as int] == 0x5B && text[input.end - 1] == 0x5D) {
        (Err(RemoteRos2InitializationError::InvalidRemoteSchema), len)
    } else {
        let inner = TextSlice { start: (input.start + 1) as usize, end: (input.end - 1) as usize };
        let opened = len + lexer::trim_cost(text, inner);
        let elements = if lexer::trimmed(text, inner).spec_len() == 0 {
            (Ok(0u64), 0nat)
        } else {
            array_elements(text, inner.start as int, inner.end as int, 0, primitive, limits)
        };
        match elements.0 {
            Err(error) => (Err(error), opened + elements.1),
            Ok(count) => (
                match bound {
                    Some((ArraySizeV1::Fixed(_), expected)) => if count != expected {
                        Err(steps::unsupported(UnsupportedForRemote::GrammarFeature))
                    } else {
                        Ok(())
                    },
                    Some((ArraySizeV1::Bounded(_), expected)) => if count > expected {
                        Err(steps::unsupported(UnsupportedForRemote::GrammarFeature))
                    } else {
                        Ok(())
                    },
                    _ => Ok(()),
                },
                opened + elements.1,
            ),
        }
    }
}

pub fn validate_array_literal(
    text: &[u8],
    input: TextSlice,
    primitive: PrimitiveTypeV1,
    bound: Option<(ArraySizeV1, u64)>,
    limits: &UnfrozenRemoteRos2LimitsV1,
    steps: &mut RemoteRos2StepOwnershipV1,
) -> (result: Result<(), RemoteRos2InitializationError>)
    requires
        input.within(text@),
    ensures
        steps::metered(
            *old(steps),
            array_literal_check(text@, input, primitive, bound, *limits).0,
            array_literal_check(text@, input, primitive, bound, *limits).1,
            result,
            *final(steps),
        ),
{
    let ghost initial = *steps;
    let ghost outcome = array_literal_check(text@, input, primitive, bound, *limits);
    let charged = steps.consume_bytes(input.end - input.start);
    if charged.is_err() {
        proof {
            steps::lemma_metered_stop(
                initial,
                Ok::<(), RemoteRos2InitializationError>(()),
                input.spec_len(),
                charged,
                *steps,
                outcome.0,
                outcome.1,
            );
        }
        return Err(charged.unwrap_err());
    }
    if !(input.start < input.end && text[input.start] == 0x5B && text[input.end - 1] == 0x5D) {
        return Err(RemoteRos2InitializationError::InvalidRemoteSchema);
    }
    let inner = TextSlice { start: input.start + 1, end: input.end - 1 };
    let ghost after_charge = *steps;
    let trimmed_inner = lexer::trim_ascii(text, inner, steps);
    proof {
        steps::lemma_metered_then(
            initial,
            Ok::<(), RemoteRos2InitializationError>(()),
            input.spec_len(),
            charged,
            after_charge,
            Ok(lexer::trimmed(text@, inner)),
            lexer::trim_cost(text@, inner),
            trimmed_inner,
            *steps,
        );
    }
    let trimmed_inner = match trimmed_inner {
        Ok(body) => body,
        Err(error) => {
            proof {
                steps::lemma_metered_stop(
                    initial,
                    Ok(lexer::trimmed(text@, inner)),
                    input.spec_len() + lexer::trim_cost(text@, inner),
                    Err::<TextSlice, RemoteRos2InitializationError>(error),
                    *steps,
                    outcome.0,
                    outcome.1,
                );
            }
            return Err(error);
        },
    };
    let ghost opened = input.spec_len() + lexer::trim_cost(text@, inner);
    let mut count: u64 = 0;
    if trimmed_inner.start != trimmed_inner.end {
        let ghost elements = array_elements(text@, inner.start as int, inner.end as int, 0, primitive, *limits);
        let ghost before = *steps;
        let counted = check_array_elements(text, inner, primitive, limits, steps);
        proof {
            steps::lemma_metered_then(
                initial,
                Ok(trimmed_inner),
                opened,
                Ok(trimmed_inner),
                before,
                elements.0,
                elements.1,
                counted,
                *steps,
            );
        }
        count = match counted {
            Ok(count) => count,
            Err(error) => {
                proof {
                    steps::lemma_metered_stop(
                        initial,
                        elements.0,
                        opened + elements.1,
                        Err::<u64, RemoteRos2InitializationError>(error),
                        *steps,
                        outcome.0,
                        outcome.1,
                    );
                }
                return Err(error);
            },
        };
    }
    match bound {
        Some((ArraySizeV1::Fixed(_), expected)) => {
            if count != expected {
                return Err(
                    RemoteRos2InitializationError::UnsupportedForRemote(
                        UnsupportedForRemote::GrammarFeature,
                    ),
                );
            }
        },
        Some((ArraySizeV1::Bounded(_), expected)) => {
            if count > expected {
                return Err(
                    RemoteRos2InitializationError::UnsupportedForRemote(
                        UnsupportedForRemote::GrammarFeature,
                    ),
                );
            }
        },
        _ => {},
    }
    Ok(())
}

/// The check of a constant or default value against its field type.
pub open spec fn literal_check(
    text: Seq<u8>,
    input: TextSlice,
    ty: ParsedTypeV1,
    limits: UnfrozenRemoteRos2LimitsV1,
) -> (Result<(), RemoteRos2InitializationError>, nat) {
    match ty.element {
        ElementTypeV1::Complex(_) => (Err(steps::unsupported(UnsupportedForRemote::GrammarFeature)), 0),
        ElementTypeV1::Primitive(primitive) => match ty.array {
            ArraySizeV1::Scalar => scalar_literal_check(text, input, primitive, limits),
            ArraySizeV1::Fixed(expected) => array_literal_check(
                text,
                input,
                primitive,
                Some((ty.array, expected)),
                limits,
            ),
            ArraySizeV1::Bounded(expected) => array_literal_check(
                text,
                input,
                primitive,
                Some((ty.array, expected)),
                limits,
            ),
            ArraySizeV1::Unbounded => array_literal_check(text, input, primitive, None, limits),
        },
    }
}

pub fn validate_literal_v1(
    text: &[u8],
    input: TextSlice,
    ty: ParsedTypeV1,
    limits: &UnfrozenRemoteRos2LimitsV1,
    steps: &mut RemoteRos2StepOwnershipV1,
) -> (result: Result<(), RemoteRos2InitializationError>)
    requires
        input.within(text@),
    ensures
        steps::metered(
            *old(steps),
            literal_check(text@, input, ty, *limits).0,
            literal_check(text@, input, ty, *limits).1,
            result,
            *final(steps),
        ),
{
    proof {
        steps::lemma_metered_pure(*steps, Ok::<(), RemoteRos2InitializationError>(()));
    }
    let primitive = match ty.element {
        ElementTypeV1::Primitive(primitive) => primitive,
        ElementTypeV1::Complex(_) => {
            return Err(
                RemoteRos2InitializationError::UnsupportedForRemote(
                    UnsupportedForRemote::GrammarFeature,
                ),
            );
        },
    };
    match ty.array {
        ArraySizeV1::Scalar => validate_scalar_literal(text, input, primitive, limits, steps),
        ArraySizeV1::Fixed(expected) => validate_array_literal(
            text,
            input,
            primitive,
            Some((ty.array, expected)),
            limits,
            steps,
        ),
        ArraySizeV1::Bounded(expected) => validate_array_literal(
            text,
            input,
            primitive,
            Some((ty.array, expected)),
            limits,
            steps,
        ),
        ArraySizeV1::Unbounded => validate_array_literal(text, input, primitive, None, limits, steps),
    }
}

} // verus!
