//! The token gauge: a bar of five segments and the token counts in thousands.

use crate::colors::{COLOR_RESET, COLOR_TOKENS};
use crate::decimal::{decimal_digits, decimal_string};
use crate::input::{CurrentUsage, Input};
use vstd::prelude::*;
use vstd::string::*;

verus! {

/// Glyph of a segment that is in use.
pub const SEGMENT_SOLID: &'static str = "\u{25B0}";

/// Glyph of a segment that is free.
pub const SEGMENT_HOLLOW: &'static str = "\u{25B1}";

/// A count that was not reported stands for zero.
pub open spec fn count_or_zero(count: Option<u64>) -> nat {
    match count {
        Some(n) => n as nat,
        None => 0,
    }
}

/// Tokens in use: input, cache-creation and cache-read tokens together.
pub open spec fn tokens_in_use(usage: Option<CurrentUsage>) -> nat {
    match usage {
        Some(u) => count_or_zero(u.input_tokens) + count_or_zero(u.cache_creation_input_tokens)
            + count_or_zero(u.cache_read_input_tokens),
        None => 0,
    }
}

/// The share of the window in use, in whole percent.
pub open spec fn usage_percent(current: nat, size: nat) -> nat
    recommends
        size > 0,
{
    (current * 100) / size
}

/// Segments drawn solid: one per full twenty percent, and never more than five.
pub open spec fn filled_segments(current: nat, size: nat) -> nat
    recommends
        size > 0,
{
    let steps = usage_percent(current, size) / 20;
    if steps > 5 {
        5
    } else {
        steps
    }
}

/// The bar: `filled` solid segments, then hollow ones up to five.
pub open spec fn gauge_bar(filled: nat) -> Seq<char> {
    Seq::new(
        5,
        |i: int|
            if i < filled {
                '\u{25B0}'
            } else {
                '\u{25B1}'
            },
    )
}

/// The gauge for `current` tokens in a window of `size`.
pub open spec fn gauge_text(current: nat, size: nat) -> Seq<char> {
    COLOR_TOKENS@ + gauge_bar(filled_segments(current, size)) + "  "@ + decimal_digits(
        current / 1000,
    ) + "k/"@ + decimal_digits(size / 1000) + "k tokens"@ + COLOR_RESET@
}

/// No gauge is shown without a context window, or when its size is missing or zero.
pub open spec fn gauge_hidden(input: Input) -> bool {
    match input.context_window {
        Some(ctx) => count_or_zero(ctx.context_window_size) == 0,
        None => true,
    }
}

/// What `get_token_info` renders for `input`.
pub open spec fn token_info(input: Input) -> Seq<char> {
    match input.context_window {
        Some(ctx) => if count_or_zero(ctx.context_window_size) == 0 {
            Seq::empty()
        } else {
            gauge_text(tokens_in_use(ctx.current_usage), count_or_zero(ctx.context_window_size))
        },
        None => Seq::empty(),
    }
}

/// While no more tokens are in use than the window holds, the share is at
/// most a hundred percent, and the bar shows one solid segment for each full
/// twenty percent.
pub proof fn lemma_segments_within_window(current: nat, size: nat)
    requires
        size > 0,
        current <= size,
    ensures
        usage_percent(current, size) <= 100,
        filled_segments(current, size) == usage_percent(current, size) / 20,
        filled_segments(current, size) <= 5,
{
    assert((current * 100) / size <= 100) by (nonlinear_arith)
        requires
            size > 0,
            current <= size,
    ;
}

fn unwrap_count(count: Option<u64>) -> (n: u128)
    ensures
        n == count_or_zero(count),
{
    match count {
        Some(n) => n as u128,
        None => 0,
    }
}

/// Adds up the token counts of `usage`.
pub fn sum_usage(usage: &Option<CurrentUsage>) -> (total: u128)
    ensures
        total == tokens_in_use(*usage),
        total <= 3 * u64::MAX,
{
    match usage {
        Some(u) => unwrap_count(u.input_tokens) + unwrap_count(u.cache_creation_input_tokens)
            + unwrap_count(u.cache_read_input_tokens),
        None => 0,
    }
}

/// Computes the number of solid segments for `current` tokens in a window of `size`.
pub fn count_filled_segments(current: u128, size: u64) -> (filled: usize)
    requires
        size > 0,
    ensures
        filled == filled_segments(current as nat, size as nat),
        filled <= 5,
{
    match current.checked_mul(100) {
        Some(scaled) => {
            let steps: u128 = scaled / (size as u128) / 20;
            if steps > 5 {
                5
            } else {
                steps as usize
            }
        },
        None => {
            // A product beyond the machine's range is far beyond any window.
            assert((current * 100) / (size as int) >= 120) by (nonlinear_arith)
                requires
                    current * 100 >= 120 * size,
                    size > 0,
            ;
            5
        },
    }
}

/// Draws the bar with `filled` solid segments.
pub fn render_bar(filled: usize) -> (bar: String)
    ensures
        bar@ == gauge_bar(filled as nat),
{
    let mut bar = String::new();
    let mut i: usize = 0;
    proof {
        reveal_strlit("\u{25B0}");
        reveal_strlit("\u{25B1}");
    }
    while i < 5
        invariant
            i <= 5,
            bar@ == gauge_bar(filled as nat).take(i as int),
            SEGMENT_SOLID@ == seq!['\u{25B0}'],
            SEGMENT_HOLLOW@ == seq!['\u{25B1}'],
        decreases 5 - i,
    {
        if i < filled {
            bar.append(SEGMENT_SOLID);
        } else {
            bar.append(SEGMENT_HOLLOW);
        }
        i = i + 1;
        assert(bar@ =~= gauge_bar(filled as nat).take(i as int));
    }
    assert(gauge_bar(filled as nat).take(5) =~= gauge_bar(filled as nat));
    bar
}

/// Renders the gauge for `current` tokens in a window of `size`.
pub fn render_gauge(current: u128, size: u64) -> (text: String)
    requires
        size > 0,
    ensures
        text@ == gauge_text(current as nat, size as nat),
{
    let filled = count_filled_segments(current, size);
    let bar = render_bar(filled);
    let current_k = decimal_string(current / 1000);
    let size_k = decimal_string((size / 1000) as u128);
    let mut text = String::from_str(COLOR_TOKENS);
    text.append(bar.as_str());
    text.append("  ");
    text.append(current_k.as_str());
    text.append("k/");
    text.append(size_k.as_str());
    text.append("k tokens");
    text.append(COLOR_RESET);
    text
}

/// Renders the token gauge of a session, or nothing where no gauge is shown.
pub fn get_token_info(input: &Input) -> (text: String)
    ensures
        text@ == token_info(*input),
        gauge_hidden(*input) <==> text@.len() == 0,
{
    match &input.context_window {
        None => String::new(),
        Some(ctx) => {
            let size = match ctx.context_window_size {
                Some(n) => n,
                None => 0,
            };
            if size == 0 {
                String::new()
            } else {
                let current = sum_usage(&ctx.current_usage);
                render_gauge(current, size)
            }
        },
    }
}

} // verus!
