//! Per-request window / output / safety arithmetic and the size of tool
//! output shown to the model.

use vstd::prelude::*;
use vstd::string::StringSliceAdditionalSpecFns;
use vstd::utf8::{decode_utf8, encode_utf8, is_char_boundary};

use crate::text::{decimal_seq, push_decimal, push_str};

verus! {

broadcast use vstd::utf8::group_utf8_lib;

/// Default cap on a single tool presentation sent back to the model.
pub const MAX_TOOL_PRESENTATION_BYTES: usize = 32768;
/// Soft target: keep this many most-recent turns before lite compact.
pub const RECENT_TURN_TARGET: usize = 6;
/// Extra tokens counted per serialized message for role/envelope overhead.
pub const MESSAGE_WRAP: u64 = 16;
/// Smallest safety margin.
pub const MIN_SAFETY_MARGIN: u64 = 1024;
/// Room kept for the truncation notice inside the presentation cap.
pub const TRUNCATION_NOTICE_ROOM: usize = 160;

#[derive(Debug, Clone, Copy, PartialEq, Eq, Structural)]
pub struct BudgetConfig {
    pub window: u64,
    pub max_output: u64,
    pub compact_soft_percent: u8,
    pub compact_recent_turns: usize,
}

#[derive(Debug, Clone, Copy, PartialEq, Eq, Structural)]
pub enum BudgetError {
    WindowTooSmall { window: u64, max_output: u64, safety: u64 },
    PromptExceedsBudget { budget: u64, estimated: u64 },
    HistoryExceedsBudget { budget: u64, estimated: u64 },
}

/// `max(1024, ceil(min(window × 5, u64::MAX) / 100))`.
pub open spec fn safety_margin_spec(window: u64) -> u64 {
    let m: int = if window * 5 <= u64::MAX {
        window * 5
    } else {
        u64::MAX as int
    };
    let five_pct: int = (m + 99) / 100;
    if five_pct >= MIN_SAFETY_MARGIN {
        five_pct as u64
    } else {
        MIN_SAFETY_MARGIN
    }
}

/// Window left for input once output and safety are taken, or the error.
pub open spec fn input_budget_spec(window: u64, max_output: u64) -> Result<u64, BudgetError> {
    let safety = safety_margin_spec(window);
    let used: int = if max_output + safety <= u64::MAX {
        max_output + safety
    } else {
        u64::MAX as int
    };
    if window <= used {
        Err(BudgetError::WindowTooSmall { window, max_output, safety })
    } else {
        Ok((window - used) as u64)
    }
}

pub open spec fn soft_percent(percent: u8) -> u8 {
    if percent == 0 {
        80
    } else if percent > 100 {
        100
    } else {
        percent
    }
}

impl BudgetConfig {
    pub fn new(window: u64, max_output: u64) -> (r: Self)
        ensures
            r == (BudgetConfig {
                window,
                max_output,
                compact_soft_percent: 80,
                compact_recent_turns: RECENT_TURN_TARGET,
            }),
    {
        BudgetConfig {
            window,
            max_output,
            compact_soft_percent: 80,
            compact_recent_turns: RECENT_TURN_TARGET,
        }
    }

    /// Compact settings: percent 0 means the default 80, above 100 means 100;
    /// zero recent turns means the default.
    pub fn with_compact(self, percent: u8, recent_turns: usize) -> (r: Self)
        ensures
            r == (BudgetConfig {
                compact_soft_percent: soft_percent(percent),
                compact_recent_turns: if recent_turns == 0 {
                    RECENT_TURN_TARGET
                } else {
                    recent_turns
                },
                ..self
            }),
    {
        let mut c = self;
        c.compact_soft_percent = if percent == 0 {
            80
        } else if percent > 100 {
            100
        } else {
            percent
        };
        c.compact_recent_turns = if recent_turns == 0 {
            RECENT_TURN_TARGET
        } else {
            recent_turns
        };
        c
    }

    /// `max(1024, ceil(window × 5%))`, the product saturating.
    pub fn safety_margin(self) -> (r: u64)
        ensures
            r == safety_margin_spec(self.window),
    {
        let m: u64 = if self.window <= u64::MAX / 5 {
            self.window * 5
        } else {
            u64::MAX
        };
        let five_pct: u64 = m / 100 + if m % 100 != 0 {
            1u64
        } else {
            0u64
        };
        assert(five_pct == (m + 99) / 100);
        if five_pct >= MIN_SAFETY_MARGIN {
            five_pct
        } else {
            MIN_SAFETY_MARGIN
        }
    }

    /// `window - max_output - safety_margin`, or `WindowTooSmall` when that
    /// leaves nothing.
    pub fn input_budget(self) -> (r: Result<u64, BudgetError>)
        ensures
            r == input_budget_spec(self.window, self.max_output),
    {
        let safety = self.safety_margin();
        let used = self.max_output.saturating_add(safety);
        if self.window <= used {
            return Err(
                BudgetError::WindowTooSmall {
                    window: self.window,
                    max_output: self.max_output,
                    safety,
                },
            );
        }
        Ok(self.window - used)
    }
}

impl BudgetError {
    pub open spec fn message_spec(self) -> Seq<char> {
        match self {
            BudgetError::WindowTooSmall { window, max_output, safety } => "context_budget: window "@
                + decimal_seq(window as nat) + " cannot fit output "@ + decimal_seq(
                max_output as nat,
            ) + " plus safety "@ + decimal_seq(safety as nat),
            BudgetError::PromptExceedsBudget { budget, .. } =>
                "context_budget: current prompt and required context exceed input budget "@
                + decimal_seq(budget as nat),
            BudgetError::HistoryExceedsBudget { budget, .. } =>
                "context_budget: minimal legal history still exceeds input budget "@ + decimal_seq(
                budget as nat,
            ),
        }
    }

    /// Text of the error.
    pub fn message(&self) -> (r: String)
        ensures
            r@ == self.message_spec(),
    {
        let mut s = String::new();
        match *self {
            BudgetError::WindowTooSmall { window, max_output, safety } => {
                push_str(&mut s, "context_budget: window ");
                push_decimal(&mut s, window);
                push_str(&mut s, " cannot fit output ");
                push_decimal(&mut s, max_output);
                push_str(&mut s, " plus safety ");
                push_decimal(&mut s, safety);
            },
            BudgetError::PromptExceedsBudget { budget, .. } => {
                push_str(
                    &mut s,
                    "context_budget: current prompt and required context exceed input budget ",
                );
                push_decimal(&mut s, budget);
            },
            BudgetError::HistoryExceedsBudget { budget, .. } => {
                push_str(&mut s, "context_budget: minimal legal history still exceeds input budget ");
                push_decimal(&mut s, budget);
            },
        }
        proof {
            reveal_strlit("");
        }
        s
    }
}

/// Conservative request-size estimate: the UTF-8 byte length. Not `chars/4`.
pub fn estimate_tokens_bytes(text: &str) -> (r: u64)
    ensures
        r == text.spec_bytes().len(),
{
    text.as_bytes().len() as u64
}

pub open spec fn sat_add(a: int, b: int) -> int {
    if a + b <= u64::MAX {
        a + b
    } else {
        u64::MAX as int
    }
}

/// Saturating sum of `sizes`, each plus `wrap`, starting from `start`.
pub open spec fn sum_sizes(start: int, sizes: Seq<u64>, wrap: int) -> int
    decreases sizes.len(),
{
    if sizes.len() == 0 {
        start
    } else {
        sat_add(sat_add(sum_sizes(start, sizes.drop_last(), wrap), sizes.last() as int), wrap)
    }
}

/// Request estimate from the sizes of its serialized parts: preamble plus an
/// envelope, every tool schema, every history message plus an envelope, and
/// the prompt plus an envelope, the sum saturating.
pub open spec fn request_estimate_spec(
    preamble_bytes: u64,
    schema_sizes: Seq<u64>,
    history_sizes: Seq<u64>,
    prompt_size: u64,
) -> u64 {
    let base = preamble_bytes + MESSAGE_WRAP;
    let s = sum_sizes(base, schema_sizes, 0);
    let h = sum_sizes(s, history_sizes, MESSAGE_WRAP as int);
    sat_add(sat_add(h, prompt_size as int), MESSAGE_WRAP as int) as u64
}

fn add_sizes(start: u64, sizes: &Vec<u64>, wrap: u64) -> (r: u64)
    ensures
        r == sum_sizes(start as int, sizes@, wrap as int),
{
    let mut n = start;
    let mut i: usize = 0;
    while i < sizes.len()
        invariant
            i <= sizes.len(),
            n == sum_sizes(start as int, sizes@.take(i as int), wrap as int),
        decreases sizes.len() - i,
    {
        assert(sizes@.take(i + 1).drop_last() =~= sizes@.take(i as int));
        n = n.saturating_add(sizes[i]).saturating_add(wrap);
        i += 1;
    }
    assert(sizes@.take(sizes.len() as int) =~= sizes@);
    n
}

/// Estimate of a whole request from the sizes of its parts.
pub fn estimate_request_sizes(
    preamble_bytes: u64,
    schema_sizes: &Vec<u64>,
    history_sizes: &Vec<u64>,
    prompt_size: u64,
) -> (r: u64)
    requires
        preamble_bytes + MESSAGE_WRAP <= u64::MAX,
    ensures
        r == request_estimate_spec(preamble_bytes, schema_sizes@, history_sizes@, prompt_size),
{
    let n = preamble_bytes + MESSAGE_WRAP;
    let n = add_sizes(n, schema_sizes, 0);
    let n = add_sizes(n, history_sizes, MESSAGE_WRAP);
    n.saturating_add(prompt_size).saturating_add(MESSAGE_WRAP)
}

/// Fail closed when the estimate does not fit the input budget: with no
/// history the prompt is too large, otherwise the history is.
pub open spec fn check_budget_spec(config: BudgetConfig, estimated: u64, history_empty: bool) -> Result<
    u64,
    BudgetError,
> {
    match input_budget_spec(config.window, config.max_output) {
        Err(e) => Err(e),
        Ok(budget) => if estimated >= budget {
            if history_empty {
                Err(BudgetError::PromptExceedsBudget { budget, estimated })
            } else {
                Err(BudgetError::HistoryExceedsBudget { budget, estimated })
            }
        } else {
            Ok(estimated)
        },
    }
}

pub fn check_request_budget(config: BudgetConfig, estimated: u64, history_empty: bool) -> (r:
    Result<u64, BudgetError>)
    ensures
        r == check_budget_spec(config, estimated, history_empty),
{
    let budget = match config.input_budget() {
        Ok(b) => b,
        Err(e) => return Err(e),
    };
    if estimated >= budget {
        if history_empty {
            Err(BudgetError::PromptExceedsBudget { budget, estimated })
        } else {
            Err(BudgetError::HistoryExceedsBudget { budget, estimated })
        }
    } else {
        Ok(estimated)
    }
}

// ----- truncation -----

/// Largest char boundary of `b` at or below `e`.
pub open spec fn boundary_at_or_below(b: Seq<u8>, e: int) -> int
    decreases e,
{
    if e <= 0 || is_char_boundary(b, e) {
        if e <= 0 {
            0
        } else {
            e
        }
    } else {
        boundary_at_or_below(b, e - 1)
    }
}

/// Index of the last `\n` byte in `b[..e]`, if any.
pub open spec fn last_newline_before(b: Seq<u8>, e: int) -> Option<int>
    decreases e,
{
    if e <= 0 {
        None
    } else if b[e - 1] == 10u8 {
        Some(e - 1)
    } else {
        last_newline_before(b, e - 1)
    }
}

/// Where a presentation over the cap is cut: the last char boundary within
/// the cap less the notice room, then back to the last line break before it.
pub open spec fn cut_point(b: Seq<u8>) -> int {
    let keep = MAX_TOOL_PRESENTATION_BYTES - TRUNCATION_NOTICE_ROOM;
    let e0 = if keep <= b.len() {
        keep as int
    } else {
        b.len() as int
    };
    let e1 = boundary_at_or_below(b, e0);
    match last_newline_before(b, e1) {
        Some(i) => i,
        None => e1,
    }
}

pub open spec fn truncation_notice(omitted: nat) -> Seq<char> {
    "\n[truncated: "@ + decimal_seq(omitted)
        + " bytes omitted; recall this tool_call_id or re-read with a higher offset to continue]"@
}

/// The presentation as shown: unchanged when it fits 32 KiB, otherwise cut at
/// [`cut_point`] with a notice telling how many bytes were left out and how
/// to get them.
pub open spec fn truncate_spec(raw: Seq<char>) -> (Seq<char>, bool) {
    let b = encode_utf8(raw);
    if b.len() <= MAX_TOOL_PRESENTATION_BYTES {
        (raw, false)
    } else {
        let end = cut_point(b);
        (decode_utf8(b.subrange(0, end)) + truncation_notice((b.len() - end) as nat), true)
    }
}

proof fn lemma_boundary(b: Seq<u8>, e: int)
    requires
        0 <= e <= b.len(),
        vstd::utf8::valid_utf8(b),
    ensures
        0 <= boundary_at_or_below(b, e) <= e,
        is_char_boundary(b, boundary_at_or_below(b, e)),
    decreases e,
{
    if e > 0 && !is_char_boundary(b, e) {
        lemma_boundary(b, e - 1);
    }
}

proof fn lemma_newline(b: Seq<u8>, e: int)
    requires
        0 <= e <= b.len(),
    ensures
        last_newline_before(b, e) matches Some(i) ==> 0 <= i < e && b[i] == 10u8,
    decreases e,
{
    if e > 0 && b[e - 1] != 10u8 {
        lemma_newline(b, e - 1);
    }
}

/// Truncate a tool presentation to 32 KiB at a line/char boundary. The
/// remaining input budget is not used: shrinking a page to it would eat the
/// continuation hints.
pub fn truncate_presentation(raw: &str, remaining_input_bytes: u64) -> (r: (String, bool))
    ensures
        (r.0@, r.1) == truncate_spec(raw@),
{
    let bytes = raw.as_bytes();
    let n = bytes.len();
    let ghost b = raw.spec_bytes();
    assert(vstd::utf8::valid_utf8(b));
    if n <= MAX_TOOL_PRESENTATION_BYTES {
        return (raw.to_owned(), false);
    }
    let keep = MAX_TOOL_PRESENTATION_BYTES - TRUNCATION_NOTICE_ROOM;
    let mut end: usize = if keep <= n {
        keep
    } else {
        n
    };
    let ghost e0 = end as int;
    while end > 0 && !raw.is_char_boundary(end)
        invariant
            end <= e0 <= b.len(),
            n == b.len(),
            b == raw.spec_bytes(),
            vstd::utf8::valid_utf8(b),
            boundary_at_or_below(b, end as int) == boundary_at_or_below(b, e0),
        decreases end,
    {
        end -= 1;
    }
    assert(boundary_at_or_below(b, end as int) == end);
    proof {
        lemma_boundary(b, e0);
    }
    let ghost e1 = end as int;
    let mut j: usize = end;
    while j > 0 && bytes[j - 1] != 10u8
        invariant
            j <= e1 <= b.len(),
            bytes@ == b,
            last_newline_before(b, j as int) == last_newline_before(b, e1),
        decreases j,
    {
        j -= 1;
    }
    proof {
        lemma_newline(b, e1);
    }
    if j > 0 {
        end = j - 1;
        assert(is_char_boundary(b, end as int)) by {
            assert(b[end as int] == 10u8);
            vstd::utf8::is_char_boundary_iff_not_is_continuation_byte(b, end as int);
            assert(!vstd::utf8::is_continuation_byte(10u8)) by (bit_vector);
        }
    }
    assert(end == cut_point(b));
    let (head, _) = raw.split_at(end);
    let omitted = n - end;
    let mut s = head.to_owned();
    push_str(&mut s, "\n[truncated: ");
    push_decimal(&mut s, omitted as u64);
    push_str(
        &mut s,
        " bytes omitted; recall this tool_call_id or re-read with a higher offset to continue]",
    );
    proof {
        assert(head.spec_bytes() == b.subrange(0, end as int));
        assert(decode_utf8(head.spec_bytes()) == head@);
    }
    (s, true)
}

} // verus!
