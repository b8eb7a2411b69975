use statusline::netdiff::{Action, DiffAggregator, Event};
use statusline::transcript::{FileOriginals, ToolUseResult, TranscriptEntry};

fn edit(path: &str, original: &str) -> TranscriptEntry {
    TranscriptEntry {
        tool_use_result: Some(ToolUseResult {
            file_path: Some(String::from(path)),
            original_file: Some(String::from(original)),
            content: None,
        }),
    }
}

/// What a driver would find out about one file.
enum Seen {
    Missing,
    WriteFailed,
    DiffFailed,
    Compared(&'static str),
}

/// Drives an aggregation to its end, answering for each path from `seen`.
fn drive(entries: &Vec<TranscriptEntry>, seen: &dyn Fn(&str) -> Seen) -> (u128, u128) {
    let mut aggregator = DiffAggregator::new(FileOriginals::from_entries(entries));
    let mut current = String::new();
    let mut steps = 0;
    loop {
        let event = match aggregator.next_action() {
            Action::CheckExists(path) => {
                current = path.clone();
                Event::Exists(!matches!(seen(&current), Seen::Missing))
            }
            Action::WriteScratch(_) => {
                Event::Written(!matches!(seen(&current), Seen::WriteFailed))
            }
            Action::RunDiff(path) => {
                assert_eq!(path, &current);
                match seen(path) {
                    Seen::Compared(output) => Event::Compared(Some(String::from(output))),
                    _ => Event::Compared(None),
                }
            }
            Action::Finish(added, removed) => {
                assert!(aggregator.is_finished());
                assert_eq!(aggregator.totals(), (added, removed));
                return (added, removed);
            }
        };
        aggregator = aggregator.step(&event);
        steps += 1;
        assert!(steps <= 3 * entries.len(), "the aggregation does not end");
    }
}

#[test]
fn no_files_no_changes() {
    let aggregator = DiffAggregator::new(FileOriginals::new());
    assert!(aggregator.is_finished());
    assert!(matches!(aggregator.next_action(), Action::Finish(0, 0)));
    assert_eq!(aggregator.totals(), (0, 0));
}

#[test]
fn deleted_file_removes_its_two_lines() {
    let entries = vec![edit("/repo/a.txt", "line1\nline2\n")];
    assert_eq!(drive(&entries, &|_| Seen::Missing), (0, 2));
}

#[test]
fn deleted_file_counts_only_non_empty_lines() {
    let entries = vec![edit("/repo/a.txt", "one\n\n\ntwo\n\nthree")];
    assert_eq!(drive(&entries, &|_| Seen::Missing), (0, 3));
}

#[test]
fn deleted_file_leaves_added_alone() {
    let entries = vec![edit("/repo/a.txt", "x\n"), edit("/repo/gone.txt", "1\n2\n3\n")];
    let seen = |path: &str| {
        if path == "/repo/gone.txt" {
            Seen::Missing
        } else {
            Seen::Compared("1a2,3\n> y\n> z\n")
        }
    };
    assert_eq!(drive(&entries, &seen), (2, 3));
}

#[test]
fn unchanged_file_contributes_nothing() {
    let entries = vec![edit("/repo/a.txt", "same\n")];
    assert_eq!(drive(&entries, &|_| Seen::Compared("")), (0, 0));
}

#[test]
fn changed_file_counts_both_sides() {
    let entries = vec![edit("/repo/a.txt", "old\n")];
    let output = "1c1,2\n< old\n---\n> new\n> newer\n";
    assert_eq!(drive(&entries, &|_| Seen::Compared(output)), (2, 1));
}

#[test]
fn failed_diff_contributes_nothing() {
    let entries = vec![edit("/repo/a.txt", "old\n")];
    assert_eq!(drive(&entries, &|_| Seen::DiffFailed), (0, 0));
}

#[test]
fn failed_scratch_write_skips_the_file_only() {
    let entries = vec![edit("/repo/a.txt", "a\n"), edit("/repo/b.txt", "b\n")];
    let seen = |path: &str| match path {
        "/repo/a.txt" => Seen::WriteFailed,
        _ => Seen::Compared("1c1\n< b\n---\n> c\n"),
    };
    assert_eq!(drive(&entries, &seen), (1, 1));
}

#[test]
fn totals_add_up_over_files() {
    let entries = vec![
        edit("/repo/a.txt", "a\n"),
        edit("/repo/b.txt", "b1\nb2\n"),
        edit("/repo/c.txt", "c\n"),
        edit("/repo/a.txt", "ignored\n"),
    ];
    let seen = |path: &str| match path {
        "/repo/a.txt" => Seen::Compared("> 1\n> 2\n< 3\n"),
        "/repo/b.txt" => Seen::Missing,
        _ => Seen::Compared("< 4\n"),
    };
    assert_eq!(drive(&entries, &seen), (2, 4));
}

#[test]
fn totals_do_not_depend_on_the_order_of_files() {
    let forward = vec![
        edit("/repo/a.txt", "a\n"),
        edit("/repo/b.txt", "b1\nb2\n"),
        edit("/repo/c.txt", "c\n"),
    ];
    let backward = vec![
        edit("/repo/c.txt", "c\n"),
        edit("/repo/b.txt", "b1\nb2\n"),
        edit("/repo/a.txt", "a\n"),
    ];
    let seen = |path: &str| match path {
        "/repo/a.txt" => Seen::Compared("> 1\n> 2\n< 3\n"),
        "/repo/b.txt" => Seen::Missing,
        _ => Seen::DiffFailed,
    };
    assert_eq!(drive(&forward, &seen), drive(&backward, &seen));
}

#[test]
fn running_twice_gives_the_same_totals() {
    let entries = vec![edit("/repo/a.txt", "a\n"), edit("/repo/b.txt", "b1\n\nb2\n")];
    let seen = |path: &str| match path {
        "/repo/a.txt" => Seen::Compared("2a3\n> more\n"),
        _ => Seen::Missing,
    };
    let first = drive(&entries, &seen);
    let second = drive(&entries, &seen);
    assert_eq!(first, (1, 2));
    assert_eq!(first, second);
}

#[test]
fn actions_follow_probe_write_compare() {
    let entries = vec![edit("/repo/a.txt", "old\n")];
    let aggregator = DiffAggregator::new(FileOriginals::from_entries(&entries));
    assert!(matches!(aggregator.next_action(), Action::CheckExists(p) if p == "/repo/a.txt"));
    let aggregator = aggregator.step(&Event::Exists(true));
    assert!(matches!(aggregator.next_action(), Action::WriteScratch(c) if c == "old\n"));
    let aggregator = aggregator.step(&Event::Written(true));
    assert!(matches!(aggregator.next_action(), Action::RunDiff(p) if p == "/repo/a.txt"));
    let aggregator = aggregator.step(&Event::Compared(Some(String::from("> x\n"))));
    assert!(matches!(aggregator.next_action(), Action::Finish(1, 0)));
}

#[test]
fn report_that_answers_another_action_is_ignored() {
    let entries = vec![edit("/repo/a.txt", "old\n")];
    let aggregator = DiffAggregator::new(FileOriginals::from_entries(&entries));
    let aggregator = aggregator.step(&Event::Written(false));
    let aggregator = aggregator.step(&Event::Compared(Some(String::from("> x\n"))));
    assert!(matches!(aggregator.next_action(), Action::CheckExists(_)));
    assert_eq!(aggregator.totals(), (0, 0));
    let aggregator = aggregator.step(&Event::Exists(true));
    let aggregator = aggregator.step(&Event::Exists(false));
    assert!(matches!(aggregator.next_action(), Action::WriteScratch(_)));
    assert_eq!(aggregator.totals(), (0, 0));
}

#[test]
fn reports_after_the_end_are_ignored() {
    let entries = vec![edit("/repo/a.txt", "old\n")];
    let aggregator = DiffAggregator::new(FileOriginals::from_entries(&entries));
    let aggregator = aggregator.step(&Event::Exists(false));
    assert!(matches!(aggregator.next_action(), Action::Finish(0, 1)));
    let aggregator = aggregator.step(&Event::Exists(false));
    assert!(matches!(aggregator.next_action(), Action::Finish(0, 1)));
}

#[test]
fn entry_with_empty_path_counts_nothing() {
    let entries = vec![edit("", "a\nb\n")];
    let aggregator = DiffAggregator::new(FileOriginals::from_entries(&entries));
    assert!(matches!(aggregator.next_action(), Action::Finish(0, 0)));
    assert_eq!(drive(&entries, &|_| Seen::Missing), (0, 0));
}

#[test]
fn empty_path_does_not_disturb_other_files() {
    let entries = vec![edit("", "a\nb\n"), edit("/repo/gone.txt", "1\n2\n3\n")];
    assert_eq!(drive(&entries, &|_| Seen::Missing), (0, 3));
}
