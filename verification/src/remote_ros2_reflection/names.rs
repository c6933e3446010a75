//! Metered validation of type, field and constant names of the remote V1 grammar.
use crate::remote_ros2_reflection::lexer::{self, TextSlice};
use crate::remote_ros2_reflection::steps::{
    self, RemoteRos2InitializationError, RemoteRos2StepOwnershipV1,
};
use vstd::prelude::*;

verus! {

pub open spec fn is_alpha(byte: u8) -> bool {
    (0x41 <= byte <= 0x5A) || (0x61 <= byte <= 0x7A)
}

pub open spec fn is_digit(byte: u8) -> bool {
    0x30 <= byte <= 0x39
}

pub open spec fn is_lower(byte: u8) -> bool {
    0x61 <= byte <= 0x7A
}

pub open spec fn is_upper(byte: u8) -> bool {
    0x41 <= byte <= 0x5A
}

/// A byte that may follow the first letter of an identifier segment.
pub open spec fn is_identifier_tail(byte: u8) -> bool {
    is_alpha(byte) || is_digit(byte) || byte == 0x5F
}

/// The number of identifier-tail bytes at `text[at..end]`.
pub open spec fn identifier_tail_run(text: Seq<u8>, at: int, end: int) -> nat
    decreases end - at,
{
    if at < 0 || at >= end || at >= text.len() {
        0
    } else if is_identifier_tail(text[at]) {
        1 + identifier_tail_run(text, at + 1, end)
    } else {
        0
    }
}

/// An identifier segment: an ASCII letter followed by letters, digits and underscores.
pub open spec fn identifier_segment(text: Seq<u8>, name: TextSlice) -> bool {
    name.spec_len() > 0 && is_alpha(text[name.start as int]) && identifier_tail_run(
        text,
        name.start + 1,
        name.end as int,
    ) >= name.spec_len() - 1
}

pub open spec fn identifier_segment_cost(text: Seq<u8>, name: TextSlice) -> nat {
    if name.spec_len() == 0 {
        0
    } else if !is_alpha(text[name.start as int]) {
        1
    } else {
        1 + lexer::run_cost(
            identifier_tail_run(text, name.start + 1, name.end as int),
            (name.spec_len() - 1) as nat,
        )
    }
}

pub fn is_valid_identifier_segment(
    text: &[u8],
    name: TextSlice,
    steps: &mut RemoteRos2StepOwnershipV1,
) -> (result: Result<bool, RemoteRos2InitializationError>)
    requires
        name.within(text@),
    ensures
        steps::metered(
            *old(steps),
            Ok(identifier_segment(text@, name)),
            identifier_segment_cost(text@, name),
            result,
            *final(steps),
        ),
{
    let ghost initial = *steps;
    if name.start == name.end {
        return Ok(false);
    }
    steps.consume()?;
    let first = text[name.start];
    if !((first >= 0x41 && first <= 0x5A) || (first >= 0x61 && first <= 0x7A)) {
        return Ok(false);
    }
    let ghost run = identifier_tail_run(text@, name.start + 1, name.end as int);
    let mut at = name.start + 1;
    while at < name.end
        invariant
            name.within(text@),
            name.start < at <= name.end,
            is_alpha(text@[name.start as int]),
            initial == *old(steps),
            run == identifier_tail_run(text@, name.start + 1, name.end as int),
            run == (at - name.start - 1) + identifier_tail_run(text@, at as int, name.end as int),
            steps::metered(initial, Ok(()), (at - name.start) as nat, Ok(()), *steps),
        decreases name.end - at,
    {
        let ghost before = *steps;
        let step = steps.consume();
        if step.is_err() {
            proof {
                steps::lemma_charge_stop(
                    initial,
                    (at - name.start) as nat,
                    before,
                    step,
                    *steps,
                    Ok(identifier_segment(text@, name)),
                    identifier_segment_cost(text@, name),
                );
            }
            return Err(step.unwrap_err());
        }
        proof {
            steps::lemma_charge_ok(initial, (at - name.start) as nat, before, step, *steps);
        }
        let byte = text[at];
        if !((byte >= 0x41 && byte <= 0x5A) || (byte >= 0x61 && byte <= 0x7A) || (byte >= 0x30
            && byte <= 0x39) || byte == 0x5F) {
            return Ok(false);
        }
        at = at + 1;
    }
    Ok(true)
}

/// The classification of a qualified type name against the local and the remote grammar.
#[derive(Clone, Copy, Debug, PartialEq, Eq, Structural)]
pub enum QualifiedTypeNameValidityV1 {
    StrictSubset,
    LocalInvalid,
    OutsideRemoteSubset,
}

/// The position of the last `/` in `text[start..end]`.
pub open spec fn last_slash(text: Seq<u8>, start: int, end: int) -> Option<int>
    decreases end - start,
{
    if end <= start || end > text.len() {
        None
    } else if text[end - 1] == 0x2F {
        Some(end - 1)
    } else {
        last_slash(text, start, end - 1)
    }
}

/// The number of non-`/` bytes at `text[at..end]`.
pub open spec fn segment_run(text: Seq<u8>, at: int, end: int) -> nat
    decreases end - at,
{
    if at < 0 || at >= end || at >= text.len() {
        0
    } else if text[at] == 0x2F {
        0
    } else {
        1 + segment_run(text, at + 1, end)
    }
}

/// Checks the `/`-separated segments from `at` on: whether all are identifier segments, and the
/// steps charged (one identifier scan per segment, one more per valid segment).
pub open spec fn segments_scan(text: Seq<u8>, at: int, end: int) -> (bool, nat)
    decreases end - at,
{
    let segment_end = at + segment_run(text, at, end);
    let segment = TextSlice { start: at as usize, end: segment_end as usize };
    if segment_end <= at {
        (false, 0)
    } else if !identifier_segment(text, segment) {
        (false, identifier_segment_cost(text, segment))
    } else if segment_end >= end {
        (true, identifier_segment_cost(text, segment) + 1)
    } else {
        let rest = segments_scan(text, segment_end + 1, end);
        (rest.0, identifier_segment_cost(text, segment) + 1 + rest.1)
    }
}

/// A name is locally invalid when empty, or when its last `/` is its first or last byte.
pub open spec fn qualified_name_local_invalid(text: Seq<u8>, name: TextSlice) -> bool {
    name.spec_len() == 0 || (last_slash(text, name.start as int, name.end as int) matches Some(
        slash,
    ) && (slash == name.start || slash + 1 == name.end))
}

pub open spec fn qualified_name_class(text: Seq<u8>, name: TextSlice) -> QualifiedTypeNameValidityV1 {
    if qualified_name_local_invalid(text, name) {
        QualifiedTypeNameValidityV1::LocalInvalid
    } else if segments_scan(text, name.start as int, name.end as int).0 {
        QualifiedTypeNameValidityV1::StrictSubset
    } else {
        QualifiedTypeNameValidityV1::OutsideRemoteSubset
    }
}

pub open spec fn qualified_name_cost(text: Seq<u8>, name: TextSlice) -> nat {
    if qualified_name_local_invalid(text, name) {
        name.spec_len()
    } else {
        name.spec_len() + segments_scan(text, name.start as int, name.end as int).1
    }
}

pub proof fn lemma_segment_run_bounded(text: Seq<u8>, at: int, end: int)
    requires
        0 <= at,
        end <= text.len(),
    ensures
        at <= end ==> at + segment_run(text, at, end) <= end,
        at + segment_run(text, at, end) < end ==> text[at + segment_run(text, at, end)] == 0x2F,
    decreases end - at,
{
    if at < end {
        lemma_segment_run_bounded(text, at + 1, end);
    }
}

/// Classifies a qualified type name `package/Type` or `Type`.
pub fn classify_qualified_type_name_v1(
    text: &[u8],
    name: TextSlice,
    steps: &mut RemoteRos2StepOwnershipV1,
) -> (result: Result<QualifiedTypeNameValidityV1, RemoteRos2InitializationError>)
    requires
        name.within(text@),
    ensures
        steps::metered(
            *old(steps),
            Ok(qualified_name_class(text@, name)),
            qualified_name_cost(text@, name),
            result,
            *final(steps),
        ),
{
    let ghost initial = *steps;
    proof {
        steps::lemma_metered_pure(initial, Ok::<(), RemoteRos2InitializationError>(()));
    }
    if name.start == name.end {
        return Ok(QualifiedTypeNameValidityV1::LocalInvalid);
    }
    let mut slash: Option<usize> = None;
    let mut at = name.start;
    while at < name.end
        invariant
            name.within(text@),
            name.start <= at <= name.end,
            initial == *old(steps),
            slash == match last_slash(text@, name.start as int, at as int) {
                Some(position) => Some(position as usize),
                None => None::<usize>,
            },
            last_slash(text@, name.start as int, at as int) matches Some(position) ==> name.start
                <= position < at,
            steps::metered(initial, Ok(()), (at - name.start) as nat, Ok(()), *steps),
        decreases name.end - at,
    {
        let ghost before = *steps;
        let step = steps.consume();
        if step.is_err() {
            proof {
                steps::lemma_charge_stop(
                    initial,
                    (at - name.start) as nat,
                    before,
                    step,
                    *steps,
                    Ok(qualified_name_class(text@, name)),
                    qualified_name_cost(text@, name),
                );
            }
            return Err(step.unwrap_err());
        }
        proof {
            steps::lemma_charge_ok(initial, (at - name.start) as nat, before, step, *steps);
        }
        if text[at] == 0x2F {
            slash = Some(at);
        }
        at = at + 1;
    }
    if let Some(position) = slash {
        if position == name.start || position + 1 == name.end {
            return Ok(QualifiedTypeNameValidityV1::LocalInvalid);
        }
    }
    let ghost charged = name.spec_len();
    let ghost scan = segments_scan(text@, name.start as int, name.end as int);
    let ghost mut segments_charged: nat = 0;
    let mut segment_start = name.start;
    loop
        invariant
            name.within(text@),
            name.start <= segment_start <= name.end,
            !qualified_name_local_invalid(text@, name),
            initial == *old(steps),
            charged == name.spec_len(),
            scan == segments_scan(text@, name.start as int, name.end as int),
            scan.0 == segments_scan(text@, segment_start as int, name.end as int).0,
            scan.1 == segments_charged + segments_scan(text@, segment_start as int, name.end as int).1,
            steps::metered(initial, Ok(()), charged + segments_charged, Ok(()), *steps),
        decreases name.end - segment_start,
    {
        proof {
            lemma_segment_run_bounded(text@, segment_start as int, name.end as int);
        }
        let mut segment_end = segment_start;
        while segment_end < name.end && text[segment_end] != 0x2F
            invariant
                name.within(text@),
                segment_start <= segment_end <= name.end,
                segment_run(text@, segment_start as int, name.end as int) == (segment_end
                    - segment_start) + segment_run(text@, segment_end as int, name.end as int),
            decreases name.end - segment_end,
        {
            segment_end = segment_end + 1;
        }
        if segment_end == segment_start {
            return Ok(QualifiedTypeNameValidityV1::OutsideRemoteSubset);
        }
        let segment = TextSlice { start: segment_start, end: segment_end };
        let ghost before = *steps;
        let valid = is_valid_identifier_segment(text, segment, steps);
        let valid = match valid {
            Ok(valid) => valid,
            Err(error) => {
                proof {
                    steps::lemma_metered_then_stop(
                        initial,
                        Ok::<(), RemoteRos2InitializationError>(()),
                        charged + segments_charged,
                        Ok(()),
                        before,
                        Ok(identifier_segment(text@, segment)),
                        identifier_segment_cost(text@, segment),
                        Err::<bool, RemoteRos2InitializationError>(error),
                        *steps,
                        Ok(qualified_name_class(text@, name)),
                        qualified_name_cost(text@, name),
                    );
                }
                return Err(error);
            },
        };
        proof {
            steps::lemma_metered_then(
                initial,
                Ok::<(), RemoteRos2InitializationError>(()),
                charged + segments_charged,
                Ok(()),
                before,
                Ok(identifier_segment(text@, segment)),
                identifier_segment_cost(text@, segment),
                Ok(valid),
                *steps,
            );
            segments_charged = segments_charged + identifier_segment_cost(text@, segment);
        }
        if !valid {
            return Ok(QualifiedTypeNameValidityV1::OutsideRemoteSubset);
        }
        let ghost before = *steps;
        let step = steps.consume();
        if step.is_err() {
            proof {
                steps::lemma_charge_stop(
                    initial,
                    charged + segments_charged,
                    before,
                    step,
                    *steps,
                    Ok(qualified_name_class(text@, name)),
                    qualified_name_cost(text@, name),
                );
            }
            return Err(step.unwrap_err());
        }
        proof {
            steps::lemma_charge_ok(initial, charged + segments_charged, before, step, *steps);
            segments_charged = segments_charged + 1;
        }
        if segment_end >= name.end {
            return Ok(QualifiedTypeNameValidityV1::StrictSubset);
        }
        segment_start = segment_end + 1;
    }
}

pub fn is_valid_qualified_type_name(
    text: &[u8],
    name: TextSlice,
    steps: &mut RemoteRos2StepOwnershipV1,
) -> (result: Result<bool, RemoteRos2InitializationError>)
    requires
        name.within(text@),
    ensures
        steps::metered(
            *old(steps),
            Ok(qualified_name_class(text@, name) == QualifiedTypeNameValidityV1::StrictSubset),
            qualified_name_cost(text@, name),
            result,
            *final(steps),
        ),
{
    let class = classify_qualified_type_name_v1(text, name, steps)?;
    Ok(class == QualifiedTypeNameValidityV1::StrictSubset)
}

/// A byte that may follow the first letter of a field (`upper == false`) or constant name.
pub open spec fn is_snake_byte(byte: u8, upper: bool) -> bool {
    (if upper {
        is_upper(byte)
    } else {
        is_lower(byte)
    }) || is_digit(byte) || byte == 0x5F
}

/// The scan after the first letter of a snake-case name: whether the rest is valid (no doubled
/// and no trailing underscore) and the steps charged.
pub open spec fn snake_scan(text: Seq<u8>, at: int, end: int, previous_underscore: bool, upper: bool) -> (
    bool,
    nat,
)
    decreases end - at,
{
    if at < 0 || at >= end || at >= text.len() {
        (!previous_underscore, 0)
    } else {
        let byte = text[at];
        if !is_snake_byte(byte, upper) {
            (false, 1)
        } else if byte == 0x5F && previous_underscore {
            (false, 1)
        } else {
            let rest = snake_scan(text, at + 1, end, byte == 0x5F, upper);
            (rest.0, rest.1 + 1)
        }
    }
}

pub open spec fn snake_name(text: Seq<u8>, name: TextSlice, upper: bool) -> (bool, nat) {
    if name.spec_len() == 0 {
        (false, 0)
    } else if !(if upper {
        is_upper(text[name.start as int])
    } else {
        is_lower(text[name.start as int])
    }) {
        (false, 1)
    } else {
        let rest = snake_scan(text, name.start + 1, name.end as int, false, upper);
        (rest.0, rest.1 + 1)
    }
}

/// Whether `byte` is an ASCII letter of the given case (uppercase when `upper`).
pub open spec fn cased_letter(byte: u8, upper: bool) -> bool {
    if upper {
        0x41 <= byte <= 0x5A
    } else {
        0x61 <= byte <= 0x7A
    }
}

/// Whether every byte of `text[at..end]` is a letter of the given case, an ASCII digit or an
/// underscore, no two neighbouring bytes are both underscores, the first is not an underscore
/// where one came before it, and the last is not an underscore.
pub open spec fn snake_tail(text: Seq<u8>, at: int, end: int, previous_underscore: bool, upper: bool) -> bool {
    &&& forall|i: int|
        at <= i < end ==> cased_letter(#[trigger] text[i], upper) || (0x30 <= text[i] <= 0x39)
            || text[i] == 0x5F
    &&& forall|i: int| at <= i < end - 1 ==> !(#[trigger] text[i] == 0x5F && text[i + 1] == 0x5F)
    &&& at < end ==> !(previous_underscore && text[at] == 0x5F)
    &&& at < end ==> text[end - 1] != 0x5F
    &&& at >= end ==> !previous_underscore
}

proof fn lemma_snake_scan_characterized(
    text: Seq<u8>,
    at: int,
    end: int,
    previous_underscore: bool,
    upper: bool,
)
    requires
        0 <= at <= end <= text.len(),
    ensures
        snake_scan(text, at, end, previous_underscore, upper).0 <==> snake_tail(
            text,
            at,
            end,
            previous_underscore,
            upper,
        ),
    decreases end - at,
{
    if at < end {
        let byte = text[at];
        lemma_snake_scan_characterized(text, at + 1, end, byte == 0x5F, upper);
        if cased_letter(byte, upper) || (0x30 <= byte <= 0x39) || byte == 0x5F {
            if !(previous_underscore && byte == 0x5F) && snake_tail(
                text,
                at + 1,
                end,
                byte == 0x5F,
                upper,
            ) {
                assert forall|i: int| at <= i < end - 1 implies !(#[trigger] text[i] == 0x5F && text[i
                    + 1] == 0x5F) by {
                    if i == at && at + 1 < end {
                        assert(!(byte == 0x5F && text[at + 1] == 0x5F));
                    }
                }
            }
        }
        if snake_tail(text, at, end, previous_underscore, upper) {
            assert(cased_letter(text[at], upper) || (0x30 <= text[at] <= 0x39) || text[at] == 0x5F);
            if at + 1 < end {
                assert(!(text[at] == 0x5F && text[at + 1] == 0x5F));
            }
        }
    }
}

/// A field name (`upper == false`) or a constant name (`upper == true`) is valid exactly when it
/// is a letter of its case followed by letters of that case, ASCII digits and single
/// underscores, and does not end in an underscore.
pub proof fn lemma_snake_name_characterized(text: Seq<u8>, name: TextSlice, upper: bool)
    requires
        name.within(text),
    ensures
        snake_name(text, name, upper).0 <==> {
            &&& name.spec_len() > 0
            &&& cased_letter(text[name.start as int], upper)
            &&& forall|i: int|
                name.start <= i < name.end ==> cased_letter(#[trigger] text[i], upper) || (0x30
                    <= text[i] <= 0x39) || text[i] == 0x5F
            &&& forall|i: int|
                name.start <= i < name.end - 1 ==> !(#[trigger] text[i] == 0x5F && text[i + 1]
                    == 0x5F)
            &&& text[name.end - 1] != 0x5F
        },
{
    if name.spec_len() > 0 {
        lemma_snake_scan_characterized(text, name.start + 1, name.end as int, false, upper);
    }
}

fn is_valid_snake_name(
    text: &[u8],
    name: TextSlice,
    upper: bool,
    steps: &mut RemoteRos2StepOwnershipV1,
) -> (result: Result<bool, RemoteRos2InitializationError>)
    requires
        name.within(text@),
    ensures
        steps::metered(
            *old(steps),
            Ok(snake_name(text@, name, upper).0),
            snake_name(text@, name, upper).1,
            result,
            *final(steps),
        ),
{
    let ghost initial = *steps;
    if name.start == name.end {
        return Ok(false);
    }
    steps.consume()?;
    let first = text[name.start];
    let first_ok = if upper {
        first >= 0x41 && first <= 0x5A
    } else {
        first >= 0x61 && first <= 0x7A
    };
    if !first_ok {
        return Ok(false);
    }
    let ghost scan = snake_scan(text@, name.start + 1, name.end as int, false, upper);
    let mut previous_underscore = false;
    let mut at = name.start + 1;
    while at < name.end
        invariant
            name.within(text@),
            name.start < at <= name.end,
            initial == *old(steps),
            snake_name(text@, name, upper) == (scan.0, scan.1 + 1),
            scan.0 == snake_scan(text@, at as int, name.end as int, previous_underscore, upper).0,
            scan.1 == (at - name.start - 1) + snake_scan(
                text@,
                at as int,
                name.end as int,
                previous_underscore,
                upper,
            ).1,
            steps::metered(initial, Ok(()), (at - name.start) as nat, Ok(()), *steps),
        decreases name.end - at,
    {
        let ghost before = *steps;
        let step = steps.consume();
        if step.is_err() {
            proof {
                steps::lemma_charge_stop(
                    initial,
                    (at - name.start) as nat,
                    before,
                    step,
                    *steps,
                    Ok(snake_name(text@, name, upper).0),
                    snake_name(text@, name, upper).1,
                );
            }
            return Err(step.unwrap_err());
        }
        proof {
            steps::lemma_charge_ok(initial, (at - name.start) as nat, before, step, *steps);
        }
        let byte = text[at];
        let cased = if upper {
            byte >= 0x41 && byte <= 0x5A
        } else {
            byte >= 0x61 && byte <= 0x7A
        };
        if !cased && !(byte >= 0x30 && byte <= 0x39) && byte != 0x5F {
            return Ok(false);
        }
        if byte == 0x5F && previous_underscore {
            return Ok(false);
        }
        previous_underscore = byte == 0x5F;
        at = at + 1;
    }
    Ok(!previous_underscore)
}

/// A field name: a lowercase letter, then lowercase letters, digits and single underscores, not
/// ending in an underscore.
pub fn is_valid_field_name(
    text: &[u8],
    name: TextSlice,
    steps: &mut RemoteRos2StepOwnershipV1,
) -> (result: Result<bool, RemoteRos2InitializationError>)
    requires
        name.within(text@),
    ensures
        steps::metered(
            *old(steps),
            Ok(snake_name(text@, name, false).0),
            snake_name(text@, name, false).1,
            result,
            *final(steps),
        ),
{
    is_valid_snake_name(text, name, false, steps)
}

/// A constant name: an uppercase letter, then uppercase letters, digits and single underscores,
/// not ending in an underscore.
pub fn is_valid_constant_name(
    text: &[u8],
    name: TextSlice,
    steps: &mut RemoteRos2StepOwnershipV1,
) -> (result: Result<bool, RemoteRos2InitializationError>)
    requires
        name.within(text@),
    ensures
        steps::metered(
            *old(steps),
            Ok(snake_name(text@, name, true).0),
            snake_name(text@, name, true).1,
            result,
            *final(steps),
        ),
{
    is_valid_snake_name(text, name, true, steps)
}

/// Byte-string equality charged with one step per byte of each side.
pub fn metered_bytes_eq(
    left: &[u8],
    right: &[u8],
    steps: &mut RemoteRos2StepOwnershipV1,
) -> (result: Result<bool, RemoteRos2InitializationError>)
    ensures
        steps::metered(
            *old(steps),
            Ok(left@ == right@),
            left@.len() + right@.len(),
            result,
            *final(steps),
        ),
{
    let ghost initial = *steps;
    let charged = steps.consume_bytes(left.len());
    let ghost middle = *steps;
    if charged.is_err() {
        proof {
            steps::lemma_metered_stop(
                initial,
                Ok::<(), RemoteRos2InitializationError>(()),
                left@.len(),
                charged,
                *steps,
                Ok(left@ == right@),
                left@.len() + right@.len(),
            );
        }
        return Err(charged.unwrap_err());
    }
    let charged_right = steps.consume_bytes(right.len());
    if charged_right.is_err() {
        proof {
            steps::lemma_metered_then_stop(
                initial,
                Ok::<(), RemoteRos2InitializationError>(()),
                left@.len(),
                charged,
                middle,
                Ok::<(), RemoteRos2InitializationError>(()),
                right@.len(),
                charged_right,
                *steps,
                Ok(left@ == right@),
                left@.len() + right@.len(),
            );
        }
        return Err(charged_right.unwrap_err());
    }
    proof {
        steps::lemma_metered_then(
            initial,
            Ok::<(), RemoteRos2InitializationError>(()),
            left@.len(),
            charged,
            middle,
            Ok::<(), RemoteRos2InitializationError>(()),
            right@.len(),
            charged_right,
            *steps,
        );
    }
    Ok(bytes_equal(left, right))
}

/// Plain byte-string equality.
pub fn bytes_equal(left: &[u8], right: &[u8]) -> (equal: bool)
    ensures
        equal == (left@ == right@),
{
    if left.len() != right.len() {
        return false;
    }
    let mut at: usize = 0;
    while at < left.len()
        invariant
            left@.len() == right@.len(),
            at <= left@.len(),
            forall|i: int| 0 <= i < at ==> left@[i] == right@[i],
        decreases left@.len() - at,
    {
        if left[at] != right[at] {
            return false;
        }
        at = at + 1;
    }
    assert(left@ =~= right@);
    true
}

} // verus!
