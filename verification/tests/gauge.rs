use statusline::decimal::decimal_string;
use statusline::gauge::{count_filled_segments, get_token_info, render_bar, render_gauge, sum_usage};
use statusline::input::{ContextWindow, CurrentUsage, Input, Model};

fn session(context_window: Option<ContextWindow>) -> Input {
    Input {
        cwd: String::from("/repo"),
        transcript_path: String::from("/tmp/transcript.jsonl"),
        model: Model { display_name: String::from("Opus") },
        context_window,
    }
}

fn window(input: Option<u64>, creation: Option<u64>, read: Option<u64>, size: Option<u64>) -> ContextWindow {
    ContextWindow {
        current_usage: Some(CurrentUsage {
            input_tokens: input,
            cache_creation_input_tokens: creation,
            cache_read_input_tokens: read,
        }),
        context_window_size: size,
    }
}

#[test]
fn empty_window_fills_no_segment() {
    assert_eq!(count_filled_segments(0, 100), 0);
    assert_eq!(render_bar(0), "\u{25B1}\u{25B1}\u{25B1}\u{25B1}\u{25B1}");
}

#[test]
fn full_window_fills_every_segment() {
    assert_eq!(count_filled_segments(100, 100), 5);
    assert_eq!(render_bar(5), "\u{25B0}\u{25B0}\u{25B0}\u{25B0}\u{25B0}");
}

#[test]
fn half_window_fills_two_segments() {
    assert_eq!(count_filled_segments(50, 100), 2);
    assert_eq!(render_bar(2), "\u{25B0}\u{25B0}\u{25B1}\u{25B1}\u{25B1}");
}

#[test]
fn segments_follow_whole_percent() {
    assert_eq!(count_filled_segments(19, 100), 0);
    assert_eq!(count_filled_segments(20, 100), 1);
    assert_eq!(count_filled_segments(99, 100), 4);
    assert_eq!(count_filled_segments(1, 3), 1);
    assert_eq!(count_filled_segments(199, 1000), 0);
    assert_eq!(count_filled_segments(599, 1000), 2);
}

#[test]
fn segments_never_exceed_five() {
    assert_eq!(count_filled_segments(120, 100), 5);
    assert_eq!(count_filled_segments(3 * (u64::MAX as u128), 1), 5);
}

#[test]
fn gauge_for_scenario_values() {
    let input = session(Some(window(Some(50), None, None, Some(100))));
    assert_eq!(
        get_token_info(&input),
        "\x1b[38;5;216m\u{25B0}\u{25B0}\u{25B1}\u{25B1}\u{25B1}  0k/0k tokens\x1b[0m"
    );
    let input = session(Some(window(Some(0), None, None, Some(100))));
    assert_eq!(
        get_token_info(&input),
        "\x1b[38;5;216m\u{25B1}\u{25B1}\u{25B1}\u{25B1}\u{25B1}  0k/0k tokens\x1b[0m"
    );
    let input = session(Some(window(Some(100), None, None, Some(100))));
    assert_eq!(
        get_token_info(&input),
        "\x1b[38;5;216m\u{25B0}\u{25B0}\u{25B0}\u{25B0}\u{25B0}  0k/0k tokens\x1b[0m"
    );
}

#[test]
fn gauge_sums_the_three_counts() {
    let input = session(Some(window(Some(10_000), Some(20_500), Some(30_000), Some(200_000))));
    assert_eq!(
        get_token_info(&input),
        "\x1b[38;5;216m\u{25B0}\u{25B1}\u{25B1}\u{25B1}\u{25B1}  60k/200k tokens\x1b[0m"
    );
}

#[test]
fn absent_counts_stand_for_zero() {
    let input = session(Some(window(None, Some(45_999), None, Some(100_000))));
    assert_eq!(
        get_token_info(&input),
        "\x1b[38;5;216m\u{25B0}\u{25B0}\u{25B1}\u{25B1}\u{25B1}  45k/100k tokens\x1b[0m"
    );
    let input = session(Some(ContextWindow { current_usage: None, context_window_size: Some(1000) }));
    assert_eq!(
        get_token_info(&input),
        "\x1b[38;5;216m\u{25B1}\u{25B1}\u{25B1}\u{25B1}\u{25B1}  0k/1k tokens\x1b[0m"
    );
}

#[test]
fn gauge_is_omitted_without_context_window() {
    assert_eq!(get_token_info(&session(None)), "");
}

#[test]
fn gauge_is_omitted_for_zero_size() {
    let input = session(Some(window(Some(5), Some(5), Some(5), Some(0))));
    assert_eq!(get_token_info(&input), "");
}

#[test]
fn gauge_is_omitted_for_absent_size() {
    let input = session(Some(window(Some(5), Some(5), Some(5), None)));
    assert_eq!(get_token_info(&input), "");
}

#[test]
fn usage_sum_does_not_wrap() {
    let usage = Some(CurrentUsage {
        input_tokens: Some(u64::MAX),
        cache_creation_input_tokens: Some(u64::MAX),
        cache_read_input_tokens: Some(u64::MAX),
    });
    assert_eq!(sum_usage(&usage), 3 * (u64::MAX as u128));
    assert_eq!(sum_usage(&None), 0);
}

#[test]
fn gauge_for_overfull_window() {
    assert_eq!(
        render_gauge(250_000, 100_000),
        "\x1b[38;5;216m\u{25B0}\u{25B0}\u{25B0}\u{25B0}\u{25B0}  250k/100k tokens\x1b[0m"
    );
}

#[test]
fn decimal_agrees_with_std() {
    for n in [0u128, 1, 9, 10, 11, 99, 100, 101, 1000, 65_535, 1_000_000, u64::MAX as u128, u128::MAX] {
        assert_eq!(decimal_string(n), n.to_string());
    }
}
