use statusline::input::{ContextWindow, CurrentUsage, Input, Model};
use statusline::status::{format_status, render_status};

#[test]
fn fields_are_coloured_and_separated() {
    assert_eq!(
        format_status("main", 12, 3, "Opus", "GAUGE"),
        "\x1b[38;5;111mmain\x1b[0m | \x1b[38;5;151m+12\x1b[0m \x1b[38;5;211m-3\x1b[0m | \x1b[38;5;183mOpus\x1b[0m | GAUGE"
    );
}

#[test]
fn session_without_transcript_or_window() {
    let input = Input {
        cwd: String::from("/repo"),
        transcript_path: String::from("/tmp/missing.jsonl"),
        model: Model { display_name: String::from("Opus") },
        context_window: None,
    };
    for (printed, branch) in [(Some("trunk\n"), "trunk"), (None, "no-git"), (Some(""), "no-git")] {
        let line = render_status(&input, printed, 0, 0);
        let plain = line
            .replace("\x1b[38;5;111m", "")
            .replace("\x1b[38;5;151m", "")
            .replace("\x1b[38;5;211m", "")
            .replace("\x1b[38;5;183m", "")
            .replace("\x1b[0m", "");
        assert_eq!(plain, format!("{} | +0 -0 | Opus | ", branch));
        assert_eq!(
            line,
            format!(
                "\x1b[38;5;111m{}\x1b[0m | \x1b[38;5;151m+0\x1b[0m \x1b[38;5;211m-0\x1b[0m | \x1b[38;5;183mOpus\x1b[0m | ",
                branch
            )
        );
    }
}

#[test]
fn session_with_gauge() {
    let input = Input {
        cwd: String::from("/repo"),
        transcript_path: String::from("/tmp/t.jsonl"),
        model: Model { display_name: String::from("Sonnet 4") },
        context_window: Some(ContextWindow {
            current_usage: Some(CurrentUsage {
                input_tokens: Some(80_000),
                cache_creation_input_tokens: None,
                cache_read_input_tokens: Some(1_000),
            }),
            context_window_size: Some(100_000),
        }),
    };
    assert_eq!(
        render_status(&input, Some(" dev \n"), 7, 1_000_000),
        "\x1b[38;5;111mdev\x1b[0m | \x1b[38;5;151m+7\x1b[0m \x1b[38;5;211m-1000000\x1b[0m | \x1b[38;5;183mSonnet 4\x1b[0m | \x1b[38;5;216m\u{25B0}\u{25B0}\u{25B0}\u{25B0}\u{25B1}  81k/100k tokens\x1b[0m"
    );
}
