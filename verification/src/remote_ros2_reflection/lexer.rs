//! Metered line, token and comment scanning over the bytes of one schema definition.
//!
//! Positions are absolute byte offsets into the definition; a `TextSlice` is a half-open range
//! of them.
use crate::remote_ros2_reflection::steps::{
    self, RemoteRos2InitializationError, RemoteRos2ResourceLimit, RemoteRos2StepOwnershipV1,
    UnsupportedForRemote,
};
use vstd::prelude::*;

verus! {

/// A half-open byte range `start..end` of the text being scanned.
#[derive(Clone, Copy, Debug, PartialEq, Eq, Structural)]
pub struct TextSlice {
    pub start: usize,
    pub end: usize,
}

impl TextSlice {
    pub open spec fn within(self, text: Seq<u8>) -> bool {
        self.start <= self.end <= text.len()
    }

    pub open spec fn spec_len(self) -> nat {
        (self.end - self.start) as nat
    }

    pub fn len(&self) -> (len: usize)
        requires
            self.start <= self.end,
        ensures
            len == self.spec_len(),
    {
        self.end - self.start
    }

    pub fn is_empty(&self) -> (empty: bool)
        requires
            self.start <= self.end,
        ensures
            empty == (self.spec_len() == 0),
    {
        self.end == self.start
    }
}

/// The bytes of `slice`.
pub open spec fn slice_text(text: Seq<u8>, slice: TextSlice) -> Seq<u8> {
    text.subrange(slice.start as int, slice.end as int)
}

/// ASCII whitespace as `u8::is_ascii_whitespace` defines it: space, tab, line feed, form feed
/// and carriage return.
pub open spec fn is_ascii_ws(byte: u8) -> bool {
    byte == 0x20 || byte == 0x09 || byte == 0x0A || byte == 0x0C || byte == 0x0D
}

pub fn is_ascii_whitespace(byte: u8) -> (whitespace: bool)
    ensures
        whitespace == is_ascii_ws(byte),
{
    byte == 0x20 || byte == 0x09 || byte == 0x0A || byte == 0x0C || byte == 0x0D
}

/// The number of consecutive whitespace bytes at `text[at..end]`.
pub open spec fn ws_run(text: Seq<u8>, at: int, end: int) -> nat
    decreases end - at,
{
    if at < 0 || at >= end || at >= text.len() {
        0
    } else if is_ascii_ws(text[at]) {
        1 + ws_run(text, at + 1, end)
    } else {
        0
    }
}

/// The number of consecutive whitespace bytes ending just before `end`, not below `start`.
pub open spec fn ws_run_back(text: Seq<u8>, start: int, end: int) -> nat
    decreases end - start,
{
    if end <= start || end < 1 || end > text.len() {
        0
    } else if is_ascii_ws(text[end - 1]) {
        1 + ws_run_back(text, start, end - 1)
    } else {
        0
    }
}

/// Steps charged by a scan that stops after a run of `run` matching bytes out of `len`: one per
/// matching byte, and one for the byte that ends the run, if any.
pub open spec fn run_cost(run: nat, len: nat) -> nat {
    if run >= len {
        len
    } else {
        run + 1
    }
}

/// `slice` without leading and trailing ASCII whitespace.
pub open spec fn trimmed(text: Seq<u8>, slice: TextSlice) -> TextSlice {
    let start = slice.start + ws_run(text, slice.start as int, slice.end as int);
    TextSlice {
        start: start as usize,
        end: (slice.end - ws_run_back(text, start, slice.end as int)) as usize,
    }
}

pub open spec fn trim_cost(text: Seq<u8>, slice: TextSlice) -> nat {
    let start = trimmed(text, slice).start;
    run_cost(ws_run(text, slice.start as int, slice.end as int), slice.spec_len()) + run_cost(
        ws_run_back(text, start as int, slice.end as int),
        (slice.end - start) as nat,
    )
}

pub proof fn lemma_ws_run_bounded(text: Seq<u8>, at: int, end: int)
    requires
        0 <= at,
        end <= text.len(),
    ensures
        at <= end ==> at + ws_run(text, at, end) <= end,
        at + ws_run(text, at, end) < end ==> !is_ascii_ws(text[at + ws_run(text, at, end)]),
    decreases end - at,
{
    if at < end {
        lemma_ws_run_bounded(text, at + 1, end);
    }
}

pub proof fn lemma_ws_run_back_bounded(text: Seq<u8>, start: int, end: int)
    requires
        0 <= start,
        end <= text.len(),
    ensures
        start <= end ==> end - ws_run_back(text, start, end) >= start,
    decreases end - start,
{
    if start < end {
        lemma_ws_run_back_bounded(text, start, end - 1);
    }
}

pub proof fn lemma_trimmed_within(text: Seq<u8>, slice: TextSlice)
    requires
        slice.within(text),
    ensures
        trimmed(text, slice).within(text),
        slice.start <= trimmed(text, slice).start,
        trimmed(text, slice).end <= slice.end,
{
    lemma_ws_run_bounded(text, slice.start as int, slice.end as int);
    let start = slice.start + ws_run(text, slice.start as int, slice.end as int);
    lemma_ws_run_back_bounded(text, start, slice.end as int);
}

/// Strips leading and trailing ASCII whitespace, charging each inspected byte.
pub fn trim_ascii(
    text: &[u8],
    slice: TextSlice,
    steps: &mut RemoteRos2StepOwnershipV1,
) -> (result: Result<TextSlice, RemoteRos2InitializationError>)
    requires
        slice.within(text@),
    ensures
        steps::metered(
            *old(steps),
            Ok(trimmed(text@, slice)),
            trim_cost(text@, slice),
            result,
            *final(steps),
        ),
        trimmed(text@, slice).within(text@),
        slice.start <= trimmed(text@, slice).start,
        trimmed(text@, slice).end <= slice.end,
{
    let ghost initial = *steps;
    let ghost lead = ws_run(text@, slice.start as int, slice.end as int);
    proof {
        lemma_trimmed_within(text@, slice);
        steps::lemma_metered_pure(initial, Ok::<(), RemoteRos2InitializationError>(()));
    }
    let mut start = slice.start;
    let mut stopped = false;
    while !stopped && start < slice.end
        invariant
            slice.within(text@),
            slice.start <= start <= slice.end,
            initial == *old(steps),
            trimmed(text@, slice).within(text@),
            slice.start <= trimmed(text@, slice).start,
            trimmed(text@, slice).end <= slice.end,
            lead == ws_run(text@, slice.start as int, slice.end as int),
            lead == (start - slice.start) + ws_run(text@, start as int, slice.end as int),
            stopped ==> start < slice.end && !is_ascii_ws(text@[start as int]),
            steps::metered(
                initial,
                Ok(()),
                ((start - slice.start) + if stopped {
                    1int
                } else {
                    0int
                }) as nat,
                Ok(()),
                *steps,
            ),
        decreases slice.end - start + if stopped { 0int } else { 1int },
    {
        let ghost before = *steps;
        let step = steps.consume();
        if step.is_err() {
            proof {
                steps::lemma_charge_stop(
                    initial,
                    (start - slice.start) as nat,
                    before,
                    step,
                    *steps,
                    Ok(trimmed(text@, slice)),
                    trim_cost(text@, slice),
                );
            }
            return Err(step.unwrap_err());
        }
        proof {
            steps::lemma_charge_ok(initial, (start - slice.start) as nat, before, step, *steps);
        }
        if is_ascii_whitespace(text[start]) {
            start = start + 1;
        } else {
            stopped = true;
        }
    }
    let ghost first_cost = run_cost(lead, slice.spec_len());
    assert(steps::metered(initial, Ok(()), first_cost, Ok(()), *steps));
    let ghost tail = ws_run_back(text@, start as int, slice.end as int);
    let mut end = slice.end;
    let mut stopped = false;
    while !stopped && end > start
        invariant
            slice.within(text@),
            slice.start <= start <= end <= slice.end,
            initial == *old(steps),
            trimmed(text@, slice).within(text@),
            slice.start <= trimmed(text@, slice).start,
            trimmed(text@, slice).end <= slice.end,
            first_cost == run_cost(
                ws_run(text@, slice.start as int, slice.end as int),
                slice.spec_len(),
            ),
            start == trimmed(text@, slice).start,
            tail == ws_run_back(text@, start as int, slice.end as int),
            tail == (slice.end - end) + ws_run_back(text@, start as int, end as int),
            stopped ==> end > start && !is_ascii_ws(text@[end - 1]),
            steps::metered(
                initial,
                Ok(()),
                (first_cost + (slice.end - end) + if stopped {
                    1int
                } else {
                    0int
                }) as nat,
                Ok(()),
                *steps,
            ),
        decreases end - start + if stopped { 0int } else { 1int },
    {
        let ghost before = *steps;
        let step = steps.consume();
        if step.is_err() {
            proof {
                steps::lemma_charge_stop(
                    initial,
                    (first_cost + (slice.end - end)) as nat,
                    before,
                    step,
                    *steps,
                    Ok(trimmed(text@, slice)),
                    trim_cost(text@, slice),
                );
            }
            return Err(step.unwrap_err());
        }
        proof {
            steps::lemma_charge_ok(
                initial,
                (first_cost + (slice.end - end)) as nat,
                before,
                step,
                *steps,
            );
        }
        if is_ascii_whitespace(text[end - 1]) {
            end = end - 1;
        } else {
            stopped = true;
        }
    }
    Ok(TextSlice { start, end })
}


/// Fails with the given resource error when `actual` exceeds `limit`.
pub fn ensure_length(actual: usize, limit: u64, kind: RemoteRos2ResourceLimit) -> (result: Result<
    (),
    RemoteRos2InitializationError,
>)
    ensures
        actual <= limit ==> result == Ok::<(), RemoteRos2InitializationError>(()),
        actual > limit ==> result == Err::<(), RemoteRos2InitializationError>(
            steps::limit_error(kind),
        ),
{
    if actual as u64 > limit {
        Err(RemoteRos2InitializationError::ResourceLimitExceeded(kind))
    } else {
        Ok(())
    }
}

/// One line of the definition: its content `start..content_end`, without the line feed and a
/// trailing carriage return, and the start of the following line.
#[derive(Clone, Copy, Debug, PartialEq, Eq, Structural)]
pub struct LineView {
    pub start: usize,
    pub content_end: usize,
    pub next: usize,
}

impl LineView {
    pub open spec fn content(self) -> TextSlice {
        TextSlice { start: self.start, end: self.content_end }
    }

    pub fn text(&self) -> (text: TextSlice)
        ensures
            text == self.content(),
    {
        TextSlice { start: self.start, end: self.content_end }
    }
}

/// The number of bytes before the next line feed at or after `at`.
pub open spec fn line_run(text: Seq<u8>, at: int) -> nat
    decreases text.len() - at,
{
    if at < 0 || at >= text.len() {
        0
    } else if text[at] == 0x0A {
        0
    } else {
        1 + line_run(text, at + 1)
    }
}

/// The line starting at `cursor`, if the cursor is inside the text.
pub open spec fn line_at(text: Seq<u8>, cursor: int) -> Option<LineView> {
    if cursor < 0 || cursor >= text.len() {
        None
    } else {
        let end = cursor + line_run(text, cursor);
        let next = if end < text.len() {
            end + 1
        } else {
            end
        };
        let content_end = if end > cursor && text[end - 1] == 0x0D {
            end - 1
        } else {
            end
        };
        Some(LineView { start: cursor as usize, content_end: content_end as usize, next: next as usize })
    }
}

pub open spec fn line_cost(text: Seq<u8>, cursor: int) -> nat {
    if cursor < 0 || cursor >= text.len() {
        0
    } else {
        let end = cursor + line_run(text, cursor);
        line_run(text, cursor) + (if end < text.len() {
            1nat
        } else {
            0nat
        }) + (if end > cursor {
            1nat
        } else {
            0nat
        })
    }
}

pub proof fn lemma_line_run_bounded(text: Seq<u8>, at: int)
    requires
        0 <= at <= text.len(),
    ensures
        at + line_run(text, at) <= text.len(),
        at + line_run(text, at) < text.len() ==> text[at + line_run(text, at)] == 0x0A,
    decreases text.len() - at,
{
    if at < text.len() && text[at] != 0x0A {
        lemma_line_run_bounded(text, at + 1);
    }
}

pub proof fn lemma_line_at_bounds(text: Seq<u8>, cursor: int)
    requires
        0 <= cursor,
        text.len() <= usize::MAX,
    ensures
        line_at(text, cursor) matches Some(line) ==> cursor == line.start && line.start
            <= line.content_end <= line.next <= text.len() && line.start < line.next,
{
    if cursor < text.len() {
        lemma_line_run_bounded(text, cursor);
    }
}

/// Reads the line at `cursor` and advances the cursor past its line feed.
pub fn next_line(
    input: &[u8],
    cursor: &mut usize,
    steps: &mut RemoteRos2StepOwnershipV1,
) -> (result: Result<Option<LineView>, RemoteRos2InitializationError>)
    ensures
        steps::metered(
            *old(steps),
            Ok(line_at(input@, *old(cursor) as int)),
            line_cost(input@, *old(cursor) as int),
            result,
            *final(steps),
        ),
        match result {
            Ok(Some(line)) => *final(cursor) == line.next,
            _ => *final(cursor) == *old(cursor),
        },
{
    let ghost initial = *steps;
    proof {
        steps::lemma_metered_pure(initial, Ok::<(), RemoteRos2InitializationError>(()));
    }
    if *cursor >= input.len() {
        return Ok(None);
    }
    let start = *cursor;
    proof {
        lemma_line_run_bounded(input@, start as int);
    }
    let mut end = start;
    while end < input.len() && input[end] != 0x0A
        invariant
            start <= end <= input@.len(),
            start < input@.len(),
            initial == *old(steps),
            start == *old(cursor),
            start == *cursor,
            line_run(input@, start as int) == (end - start) + line_run(input@, end as int),
            steps::metered(initial, Ok(()), (end - start) as nat, Ok(()), *steps),
        decreases input@.len() - end,
    {
        let ghost before = *steps;
        let step = steps.consume();
        if step.is_err() {
            proof {
                steps::lemma_charge_stop(
                    initial,
                    (end - start) as nat,
                    before,
                    step,
                    *steps,
                    Ok(line_at(input@, start as int)),
                    line_cost(input@, start as int),
                );
            }
            return Err(step.unwrap_err());
        }
        proof {
            steps::lemma_charge_ok(initial, (end - start) as nat, before, step, *steps);
        }
        end = end + 1;
    }
    let ghost mut charged: nat = (end - start) as nat;
    if end < input.len() {
        let ghost before = *steps;
        let step = steps.consume();
        if step.is_err() {
            proof {
                steps::lemma_charge_stop(
                    initial,
                    charged,
                    before,
                    step,
                    *steps,
                    Ok(line_at(input@, start as int)),
                    line_cost(input@, start as int),
                );
            }
            return Err(step.unwrap_err());
        }
        proof {
            steps::lemma_charge_ok(initial, charged, before, step, *steps);
            charged = charged + 1;
        }
    }
    let next = if end < input.len() {
        end + 1
    } else {
        end
    };
    let content_end = if end > start {
        let ghost before = *steps;
        let step = steps.consume();
        if step.is_err() {
            proof {
                steps::lemma_charge_stop(
                    initial,
                    charged,
                    before,
                    step,
                    *steps,
                    Ok(line_at(input@, start as int)),
                    line_cost(input@, start as int),
                );
            }
            return Err(step.unwrap_err());
        }
        proof {
            steps::lemma_charge_ok(initial, charged, before, step, *steps);
            charged = charged + 1;
        }
        if input[end - 1] == 0x0D {
            end - 1
        } else {
            end
        }
    } else {
        end
    };
    *cursor = next;
    Ok(Some(LineView { start, content_end, next }))
}

/// The number of consecutive `=` bytes at `text[at..end]`.
pub open spec fn equals_run(text: Seq<u8>, at: int, end: int) -> nat
    decreases end - at,
{
    if at < 0 || at >= end || at >= text.len() {
        0
    } else if text[at] == 0x3D {
        1 + equals_run(text, at + 1, end)
    } else {
        0
    }
}

/// A dependency separator line: at least three `=` and nothing else but surrounding whitespace.
pub open spec fn separator_line(text: Seq<u8>, line: TextSlice) -> bool {
    let body = trimmed(text, line);
    body.spec_len() >= 3 && equals_run(text, body.start as int, body.end as int) >= body.spec_len()
}

pub open spec fn separator_cost(text: Seq<u8>, line: TextSlice) -> nat {
    let body = trimmed(text, line);
    trim_cost(text, line) + if body.spec_len() < 3 {
        0
    } else {
        run_cost(equals_run(text, body.start as int, body.end as int), body.spec_len())
    }
}

pub fn is_schema_separator(
    text: &[u8],
    line: TextSlice,
    steps: &mut RemoteRos2StepOwnershipV1,
) -> (result: Result<bool, RemoteRos2InitializationError>)
    requires
        line.within(text@),
    ensures
        steps::metered(
            *old(steps),
            Ok(separator_line(text@, line)),
            separator_cost(text@, line),
            result,
            *final(steps),
        ),
{
    let ghost initial = *steps;
    let body = trim_ascii(text, line, steps);
    let body = match body {
        Ok(body) => body,
        Err(error) => {
            return Err(error);
        },
    };
    let ghost trim_charged = trim_cost(text@, line);
    if body.end - body.start < 3 {
        return Ok(false);
    }
    let ghost run = equals_run(text@, body.start as int, body.end as int);
    let mut at = body.start;
    while at < body.end
        invariant
            body == trimmed(text@, line),
            body.within(text@),
            body.spec_len() >= 3,
            body.start <= at <= body.end,
            initial == *old(steps),
            trim_charged == trim_cost(text@, line),
            run == equals_run(text@, body.start as int, body.end as int),
            run == (at - body.start) + equals_run(text@, at as int, body.end as int),
            steps::metered(initial, Ok(()), (trim_charged + (at - body.start)) as nat, Ok(()), *steps),
        decreases body.end - at,
    {
        let ghost before = *steps;
        let step = steps.consume();
        if step.is_err() {
            proof {
                steps::lemma_charge_stop(
                    initial,
                    (trim_charged + (at - body.start)) as nat,
                    before,
                    step,
                    *steps,
                    Ok(separator_line(text@, line)),
                    separator_cost(text@, line),
                );
            }
            return Err(step.unwrap_err());
        }
        proof {
            steps::lemma_charge_ok(
                initial,
                (trim_charged + (at - body.start)) as nat,
                before,
                step,
                *steps,
            );
        }
        if text[at] != 0x3D {
            return Ok(false);
        }
        at = at + 1;
    }
    Ok(true)
}

/// The next separator line at or after `cursor`: its start and the start of the line after it,
/// with the steps charged to find it.
pub open spec fn separator_search(text: Seq<u8>, cursor: int) -> (Option<(usize, usize)>, nat)
    decreases text.len() - cursor,
{
    match line_at(text, cursor) {
        None => (None, 0),
        Some(line) => {
            let here = line_cost(text, cursor) + separator_cost(text, line.content());
            if separator_line(text, line.content()) {
                (Some((line.start, line.next)), here)
            } else if line.next <= cursor || line.next > text.len() {
                (None, here)
            } else {
                let rest = separator_search(text, line.next as int);
                (rest.0, here + rest.1)
            }
        },
    }
}

pub fn find_next_separator(
    input: &[u8],
    start: usize,
    steps: &mut RemoteRos2StepOwnershipV1,
) -> (result: Result<Option<(usize, usize)>, RemoteRos2InitializationError>)
    ensures
        steps::metered(
            *old(steps),
            Ok(separator_search(input@, start as int).0),
            separator_search(input@, start as int).1,
            result,
            *final(steps),
        ),
{
    let ghost initial = *steps;
    let ghost mut charged: nat = 0;
    proof {
        steps::lemma_metered_pure(initial, Ok::<(), RemoteRos2InitializationError>(()));
    }
    let mut cursor = start;
    let input_len = input.len();
    loop
        invariant
            initial == *old(steps),
            input_len == input@.len(),
            separator_search(input@, start as int).0 == separator_search(input@, cursor as int).0,
            separator_search(input@, start as int).1 == charged + separator_search(
                input@,
                cursor as int,
            ).1,
            steps::metered(initial, Ok(()), charged, Ok(()), *steps),
        decreases input@.len() - cursor,
    {
        let ghost before = *steps;
        let ghost at = cursor;
        proof {
            lemma_line_at_bounds(input@, cursor as int);
        }
        let line = next_line(input, &mut cursor, steps);
        let line = match line {
            Ok(line) => line,
            Err(error) => {
                proof {
                    steps::lemma_metered_then_stop(
                        initial,
                        Ok::<(), RemoteRos2InitializationError>(()),
                        charged,
                        Ok(()),
                        before,
                        Ok(line_at(input@, at as int)),
                        line_cost(input@, at as int),
                        Err::<Option<LineView>, RemoteRos2InitializationError>(error),
                        *steps,
                        Ok(separator_search(input@, start as int).0),
                        separator_search(input@, start as int).1,
                    );
                }
                return Err(error);
            },
        };
        proof {
            steps::lemma_metered_then(
                initial,
                Ok::<(), RemoteRos2InitializationError>(()),
                charged,
                Ok(()),
                before,
                Ok(line_at(input@, at as int)),
                line_cost(input@, at as int),
                Ok(line),
                *steps,
            );
            charged = charged + line_cost(input@, at as int);
        }
        let line = match line {
            None => {
                return Ok(None);
            },
            Some(line) => line,
        };
        let ghost before = *steps;
        let separator = is_schema_separator(input, line.text(), steps);
        let separator = match separator {
            Ok(separator) => separator,
            Err(error) => {
                proof {
                    steps::lemma_metered_then_stop(
                        initial,
                        Ok::<(), RemoteRos2InitializationError>(()),
                        charged,
                        Ok(()),
                        before,
                        Ok(separator_line(input@, line.content())),
                        separator_cost(input@, line.content()),
                        Err::<bool, RemoteRos2InitializationError>(error),
                        *steps,
                        Ok(separator_search(input@, start as int).0),
                        separator_search(input@, start as int).1,
                    );
                }
                return Err(error);
            },
        };
        proof {
            steps::lemma_metered_then(
                initial,
                Ok::<(), RemoteRos2InitializationError>(()),
                charged,
                Ok(()),
                before,
                Ok(separator_line(input@, line.content())),
                separator_cost(input@, line.content()),
                Ok(separator),
                *steps,
            );
            charged = charged + separator_cost(input@, line.content());
        }
        if separator {
            return Ok(Some((line.start, line.next)));
        }
    }
}


/// The comment scan of `text[at..end]` inside the given quote and escape state: the position of
/// the first `#` outside quotes, if any, and otherwise whether a quote or escape is left open.
pub open spec fn comment_scan(
    text: Seq<u8>,
    at: int,
    end: int,
    quote: Option<u8>,
    escaped: bool,
) -> (Option<int>, bool)
    decreases end - at,
{
    if at < 0 || at >= end || at >= text.len() {
        (None, quote is Some || escaped)
    } else if escaped {
        comment_scan(text, at + 1, end, quote, false)
    } else {
        let byte = text[at];
        if byte == 0x5C && quote is Some {
            comment_scan(text, at + 1, end, quote, true)
        } else if (byte == 0x27 || byte == 0x22) && quote is None {
            comment_scan(text, at + 1, end, Some(byte), false)
        } else if (byte == 0x27 || byte == 0x22) && quote == Some(byte) {
            comment_scan(text, at + 1, end, None, false)
        } else if byte == 0x23 && quote is None {
            (Some(at), false)
        } else {
            comment_scan(text, at + 1, end, quote, false)
        }
    }
}

pub proof fn lemma_comment_scan_bounds(
    text: Seq<u8>,
    at: int,
    end: int,
    quote: Option<u8>,
    escaped: bool,
)
    requires
        0 <= at,
        end <= text.len(),
    ensures
        comment_scan(text, at, end, quote, escaped).0 matches Some(hash) ==> at <= hash < end,
    decreases end - at,
{
    if at < end {
        lemma_comment_scan_bounds(text, at + 1, end, quote, false);
        lemma_comment_scan_bounds(text, at + 1, end, quote, true);
        lemma_comment_scan_bounds(text, at + 1, end, None, false);
        lemma_comment_scan_bounds(text, at + 1, end, Some(text[at]), false);
    }
}

/// The line without its comment and surrounding whitespace; an unterminated quote or escape is
/// outside the grammar.
pub open spec fn uncommented(text: Seq<u8>, line: TextSlice) -> Result<
    TextSlice,
    RemoteRos2InitializationError,
> {
    match comment_scan(text, line.start as int, line.end as int, None, false) {
        (Some(hash), _) => Ok(trimmed(text, TextSlice { start: line.start, end: hash as usize })),
        (None, true) => Err(steps::unsupported(UnsupportedForRemote::GrammarFeature)),
        (None, false) => Ok(trimmed(text, line)),
    }
}

pub open spec fn uncommented_cost(text: Seq<u8>, line: TextSlice) -> nat {
    match comment_scan(text, line.start as int, line.end as int, None, false) {
        (Some(hash), _) => (hash - line.start + 1) as nat + trim_cost(
            text,
            TextSlice { start: line.start, end: hash as usize },
        ),
        (None, true) => line.spec_len(),
        (None, false) => line.spec_len() + trim_cost(text, line),
    }
}

/// Removes a `#` comment outside quotes and trims the rest.
pub fn strip_comment_checked(
    text: &[u8],
    line: TextSlice,
    steps: &mut RemoteRos2StepOwnershipV1,
) -> (result: Result<TextSlice, RemoteRos2InitializationError>)
    requires
        line.within(text@),
    ensures
        steps::metered(
            *old(steps),
            uncommented(text@, line),
            uncommented_cost(text@, line),
            result,
            *final(steps),
        ),
        uncommented(text@, line) matches Ok(body) ==> body.within(text@) && line.start
            <= body.start && body.end <= line.end,
{
    let ghost initial = *steps;
    proof {
        steps::lemma_metered_pure(initial, Ok::<(), RemoteRos2InitializationError>(()));
        lemma_comment_scan_bounds(text@, line.start as int, line.end as int, None, false);
        lemma_trimmed_within(text@, line);
        let scan = comment_scan(text@, line.start as int, line.end as int, None, false);
        if scan.0 is Some {
            lemma_trimmed_within(text@, TextSlice { start: line.start, end: scan.0->0 as usize });
        }
    }
    let mut quote: Option<u8> = None;
    let mut escaped = false;
    let mut at = line.start;
    while at < line.end
        invariant
            line.within(text@),
            line.start <= at <= line.end,
            initial == *old(steps),
            uncommented(text@, line) matches Ok(body) ==> body.within(text@) && line.start
                <= body.start && body.end <= line.end,
            comment_scan(text@, line.start as int, line.end as int, None, false) == comment_scan(
                text@,
                at as int,
                line.end as int,
                quote,
                escaped,
            ),
            steps::metered(initial, Ok(()), (at - line.start) as nat, Ok(()), *steps),
        decreases line.end - at,
    {
        proof {
            lemma_comment_scan_bounds(text@, at as int, line.end as int, quote, escaped);
        }
        let ghost before = *steps;
        let step = steps.consume();
        if step.is_err() {
            proof {
                steps::lemma_charge_stop(
                    initial,
                    (at - line.start) as nat,
                    before,
                    step,
                    *steps,
                    uncommented(text@, line),
                    uncommented_cost(text@, line),
                );
            }
            return Err(step.unwrap_err());
        }
        proof {
            steps::lemma_charge_ok(initial, (at - line.start) as nat, before, step, *steps);
        }
        let byte = text[at];
        if escaped {
            escaped = false;
        } else if byte == 0x5C && quote.is_some() {
            escaped = true;
        } else if (byte == 0x27 || byte == 0x22) && quote.is_none() {
            quote = Some(byte);
        } else if (byte == 0x27 || byte == 0x22) && quote == Some(byte) {
            quote = None;
        } else if byte == 0x23 && quote.is_none() {
            let ghost before = *steps;
            let body = trim_ascii(text, TextSlice { start: line.start, end: at }, steps);
            proof {
                let charged = (at - line.start + 1) as nat;
                if body is Ok {
                    steps::lemma_metered_then(
                        initial,
                        Ok::<(), RemoteRos2InitializationError>(()),
                        charged,
                        Ok(()),
                        before,
                        Ok(trimmed(text@, TextSlice { start: line.start, end: at })),
                        trim_cost(text@, TextSlice { start: line.start, end: at }),
                        body,
                        *steps,
                    );
                } else {
                    steps::lemma_metered_then_stop(
                        initial,
                        Ok::<(), RemoteRos2InitializationError>(()),
                        charged,
                        Ok(()),
                        before,
                        Ok(trimmed(text@, TextSlice { start: line.start, end: at })),
                        trim_cost(text@, TextSlice { start: line.start, end: at }),
                        body,
                        *steps,
                        uncommented(text@, line),
                        uncommented_cost(text@, line),
                    );
                }
            }
            return body;
        }
        at = at + 1;
    }
    if quote.is_some() || escaped {
        return Err(
            RemoteRos2InitializationError::UnsupportedForRemote(
                UnsupportedForRemote::GrammarFeature,
            ),
        );
    }
    let ghost before = *steps;
    let body = trim_ascii(text, line, steps);
    proof {
        let charged = line.spec_len();
        if body is Ok {
            steps::lemma_metered_then(
                initial,
                Ok::<(), RemoteRos2InitializationError>(()),
                charged,
                Ok(()),
                before,
                Ok(trimmed(text@, line)),
                trim_cost(text@, line),
                body,
                *steps,
            );
        } else {
            steps::lemma_metered_then_stop(
                initial,
                Ok::<(), RemoteRos2InitializationError>(()),
                charged,
                Ok(()),
                before,
                Ok(trimmed(text@, line)),
                trim_cost(text@, line),
                body,
                *steps,
                uncommented(text@, line),
                uncommented_cost(text@, line),
            );
        }
    }
    body
}

/// Whether the byte at `at` ends a token that started at or after `start`: whitespace, or an
/// `=` that is not the second byte of `<=`.
pub open spec fn is_token_stop(text: Seq<u8>, start: int, at: int) -> bool {
    is_ascii_ws(text[at]) || (text[at] == 0x3D && (at == start || text[at - 1] != 0x3C))
}

/// The number of token bytes at `text[at..end]`.
pub open spec fn token_run(text: Seq<u8>, start: int, at: int, end: int) -> nat
    decreases end - at,
{
    if at < 0 || at >= end || at >= text.len() {
        0
    } else if is_token_stop(text, start, at) {
        0
    } else {
        1 + token_run(text, start, at + 1, end)
    }
}

/// Where the next token of `input` would begin when scanning from `offset` (relative).
pub open spec fn token_begin(text: Seq<u8>, input: TextSlice, offset: int) -> int {
    input.start + offset + ws_run(text, input.start + offset, input.end as int)
}

/// The next whitespace-separated token of `input` at or after the relative `offset`; none at
/// the end of the input or at an `=`.
pub open spec fn token_after(text: Seq<u8>, input: TextSlice, offset: int) -> Option<TextSlice> {
    let begin = token_begin(text, input, offset);
    if begin >= input.end || text[begin] == 0x3D {
        None
    } else {
        Some(
            TextSlice {
                start: begin as usize,
                end: (begin + token_run(text, input.start as int, begin, input.end as int)) as usize,
            },
        )
    }
}

pub open spec fn token_cost(text: Seq<u8>, input: TextSlice, offset: int) -> nat {
    let begin = token_begin(text, input, offset);
    ws_run(text, input.start + offset, input.end as int) + if begin >= input.end || text[begin]
        == 0x3D {
        0
    } else {
        run_cost(
            token_run(text, input.start as int, begin, input.end as int),
            (input.end - begin) as nat,
        )
    }
}

pub proof fn lemma_token_run_bounded(text: Seq<u8>, start: int, at: int, end: int)
    requires
        0 <= at,
        end <= text.len(),
    ensures
        at <= end ==> at + token_run(text, start, at, end) <= end,
    decreases end - at,
{
    if at < end {
        lemma_token_run_bounded(text, start, at + 1, end);
    }
}

pub proof fn lemma_token_after_within(text: Seq<u8>, input: TextSlice, offset: int)
    requires
        input.within(text),
        0 <= offset,
    ensures
        token_after(text, input, offset) matches Some(token) ==> token.within(text) && input.start
            + offset <= token.start < token.end <= input.end,
{
    lemma_ws_run_bounded(text, input.start + offset, input.end as int);
    let begin = token_begin(text, input, offset);
    if begin < input.end {
        lemma_token_run_bounded(text, input.start as int, begin, input.end as int);
    }
}

/// Reads the next token of `input` at or after the relative `offset`.
pub fn next_token(
    text: &[u8],
    input: TextSlice,
    offset: usize,
    steps: &mut RemoteRos2StepOwnershipV1,
) -> (result: Result<Option<TextSlice>, RemoteRos2InitializationError>)
    requires
        input.within(text@),
    ensures
        steps::metered(
            *old(steps),
            Ok(token_after(text@, input, offset as int)),
            token_cost(text@, input, offset as int),
            result,
            *final(steps),
        ),
        token_after(text@, input, offset as int) matches Some(token) ==> token.within(text@)
            && input.start <= token.start < token.end <= input.end,
{
    let ghost initial = *steps;
    let ghost skipped = ws_run(text@, input.start + offset, input.end as int);
    proof {
        steps::lemma_metered_pure(initial, Ok::<(), RemoteRos2InitializationError>(()));
        lemma_ws_run_bounded(text@, input.start + offset, input.end as int);
        let begin = token_begin(text@, input, offset as int);
        if begin < input.end {
            lemma_token_run_bounded(text@, input.start as int, begin, input.end as int);
        }
    }
    let len = input.end - input.start;
    let mut cursor = offset;
    while cursor < len && is_ascii_whitespace(text[input.start + cursor])
        invariant
            input.within(text@),
            len == input.end - input.start,
            offset <= cursor,
            offset < len ==> cursor <= len,
            initial == *old(steps),
            token_after(text@, input, offset as int) matches Some(token) ==> token.within(text@)
                && input.start <= token.start < token.end <= input.end,
            skipped == ws_run(text@, input.start + offset, input.end as int),
            skipped == (cursor - offset) + ws_run(text@, input.start + cursor, input.end as int),
            steps::metered(initial, Ok(()), (cursor - offset) as nat, Ok(()), *steps),
        decreases len - cursor,
    {
        let ghost before = *steps;
        let step = steps.consume();
        if step.is_err() {
            proof {
                steps::lemma_charge_stop(
                    initial,
                    (cursor - offset) as nat,
                    before,
                    step,
                    *steps,
                    Ok(token_after(text@, input, offset as int)),
                    token_cost(text@, input, offset as int),
                );
            }
            return Err(step.unwrap_err());
        }
        proof {
            steps::lemma_charge_ok(initial, (cursor - offset) as nat, before, step, *steps);
        }
        cursor = cursor + 1;
    }
    if cursor >= len || text[input.start + cursor] == 0x3D {
        return Ok(None);
    }
    let token_start = cursor;
    let ghost run = token_run(text@, input.start as int, input.start + token_start, input.end as int);
    let mut stopped = false;
    while !stopped && cursor < len
        invariant
            input.within(text@),
            len == input.end - input.start,
            offset <= token_start <= cursor <= len,
            token_start < len,
            token_after(text@, input, offset as int) matches Some(token) ==> token.within(text@)
                && input.start <= token.start < token.end <= input.end,
            text@[input.start + token_start] != 0x3D,
            !is_ascii_ws(text@[input.start + token_start]),
            initial == *old(steps),
            skipped == token_start - offset,
            token_begin(text@, input, offset as int) == input.start + token_start,
            run == token_run(text@, input.start as int, input.start + token_start, input.end as int),
            run == (cursor - token_start) + token_run(
                text@,
                input.start as int,
                input.start + cursor,
                input.end as int,
            ),
            stopped ==> cursor < len && is_token_stop(text@, input.start as int, input.start + cursor),
            steps::metered(
                initial,
                Ok(()),
                (skipped + (cursor - token_start) + if stopped {
                    1int
                } else {
                    0int
                }) as nat,
                Ok(()),
                *steps,
            ),
        decreases len - cursor + if stopped { 0int } else { 1int },
    {
        let ghost before = *steps;
        let step = steps.consume();
        if step.is_err() {
            proof {
                steps::lemma_charge_stop(
                    initial,
                    (skipped + (cursor - token_start)) as nat,
                    before,
                    step,
                    *steps,
                    Ok(token_after(text@, input, offset as int)),
                    token_cost(text@, input, offset as int),
                );
            }
            return Err(step.unwrap_err());
        }
        proof {
            steps::lemma_charge_ok(
                initial,
                (skipped + (cursor - token_start)) as nat,
                before,
                step,
                *steps,
            );
        }
        let byte = text[input.start + cursor];
        if is_ascii_whitespace(byte) || (byte == 0x3D && (cursor == 0 || text[input.start + cursor
            - 1] != 0x3C)) {
            stopped = true;
        } else {
            cursor = cursor + 1;
        }
    }
    Ok(Some(TextSlice { start: input.start + token_start, end: input.start + cursor }))
}

/// The position just after `token`, relative to the start of `input`.
pub fn token_end(input: TextSlice, token: TextSlice) -> (end: usize)
    requires
        input.start <= token.end,
    ensures
        end == token.end - input.start,
{
    token.end - input.start
}

} // verus!
