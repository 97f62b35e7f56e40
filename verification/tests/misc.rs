use rtlog::cli::{parse, Args};
use rtlog::clock::{current_epoch_sec, seconds_of};
use rtlog::discover::{entry_action, EntryAction, EntryKind};
use rtlog::text::{
    chars_of, contains_chars, contains_ignore_ascii_case, ends_of, folded_chars_of, lower_char,
    occurs_at_index,
};
use rtlog::filter::FilterRule;
use rtlog::highlight::Segment;
use rtlog::state::AppState;
use rtlog::viewport::{
    context_range, frame_due, visible_range, Row, FRAME_INTERVAL_MS, IDLE_SLEEP_MS,
};
use std::path::PathBuf;

fn args_with(alerts: Vec<&str>, no_alerts: bool) -> Args {
    Args {
        inputs: vec![PathBuf::from("a"), PathBuf::from("b")],
        follow: true,
        regex: Some("x".to_string()),
        recursive: true,
        alerts: alerts.into_iter().map(|s| s.to_string()).collect(),
        no_alerts,
    }
}

#[test]
fn parse_defaults_alerts() {
    let config = parse(args_with(vec![], false));
    assert_eq!(config.alerts, vec!["ERROR".to_string(), "FATAL".to_string()]);
    assert_eq!(config.inputs, vec![PathBuf::from("a"), PathBuf::from("b")]);
    assert!(config.follow);
    assert!(config.recursive);
    assert_eq!(config.regex, Some("x".to_string()));
}

#[test]
fn parse_keeps_given_alerts() {
    let config = parse(args_with(vec!["PANIC", "oops"], false));
    assert_eq!(config.alerts, vec!["PANIC".to_string(), "oops".to_string()]);
}

#[test]
fn parse_no_alerts_wins() {
    assert!(parse(args_with(vec!["PANIC"], true)).alerts.is_empty());
    assert!(parse(args_with(vec![], true)).alerts.is_empty());
    let plain = parse(Args {
        inputs: vec![],
        follow: false,
        regex: None,
        recursive: false,
        alerts: vec![],
        no_alerts: false,
    });
    assert!(!plain.follow && !plain.recursive);
    assert!(plain.regex.is_none());
    assert!(plain.inputs.is_empty());
}

#[test]
fn seconds_of_divides_and_clamps() {
    assert_eq!(seconds_of(0), 0);
    assert_eq!(seconds_of(999), 0);
    assert_eq!(seconds_of(1_000), 1);
    assert_eq!(seconds_of(123_456), 123);
    assert_eq!(seconds_of(u128::MAX), u64::MAX);
    assert_eq!(seconds_of(u64::MAX as u128 * 1000 + 999), u64::MAX);
    assert_eq!(seconds_of(u64::MAX as u128 * 1000 - 1), u64::MAX - 1);
}

#[test]
fn clock_reads_the_present() {
    assert!(current_epoch_sec() > 1_500_000_000);
}

#[test]
fn discovery_rule() {
    assert_eq!(entry_action(EntryKind::File, false, false), EntryAction::Collect);
    assert_eq!(entry_action(EntryKind::File, true, false), EntryAction::Collect);
    assert_eq!(entry_action(EntryKind::Directory, false, false), EntryAction::Expand);
    assert_eq!(entry_action(EntryKind::Directory, false, true), EntryAction::Expand);
    assert_eq!(entry_action(EntryKind::Directory, true, false), EntryAction::Skip);
    assert_eq!(entry_action(EntryKind::Directory, true, true), EntryAction::Expand);
    assert_eq!(entry_action(EntryKind::Other, false, true), EntryAction::Skip);
    assert_eq!(entry_action(EntryKind::Other, true, true), EntryAction::Skip);
}

#[test]
fn visible_range_follows_offset_and_height() {
    assert_eq!(visible_range(100, 10, 0), (90, 100));
    assert_eq!(visible_range(100, 10, 5), (85, 95));
    assert_eq!(visible_range(100, 10, 95), (0, 5));
    assert_eq!(visible_range(100, 10, 200), (0, 0));
    assert_eq!(visible_range(5, 10, 0), (0, 5));
    assert_eq!(visible_range(5, 10, 2), (0, 3));
    assert_eq!(visible_range(0, 10, 0), (0, 0));
    assert_eq!(visible_range(10, 10, 0), (0, 10));
    assert_eq!(visible_range(100, usize::MAX, 3), (0, 97));
    assert_eq!(visible_range(100, 10, usize::MAX), (0, 0));
}

#[test]
fn context_range_surrounds_selection() {
    assert_eq!(context_range(10, 3, 100), (7, 14));
    assert_eq!(context_range(1, 3, 100), (0, 5));
    assert_eq!(context_range(98, 3, 100), (95, 100));
    assert_eq!(context_range(0, 0, 1), (0, 1));
    assert_eq!(context_range(5, usize::MAX, 8), (0, 8));
    assert_eq!(context_range(usize::MAX, 1, 8), (usize::MAX - 1, 8));
}

#[test]
fn text_helpers() {
    assert_eq!(lower_char('A'), 'a');
    assert_eq!(lower_char('Z'), 'z');
    assert_eq!(lower_char('a'), 'a');
    assert_eq!(lower_char('@'), '@');
    assert_eq!(lower_char('['), '[');
    assert_eq!(lower_char('É'), 'É');
    assert_eq!(chars_of("aé"), vec!['a', 'é']);
    assert_eq!(folded_chars_of("AbÉ"), vec!['a', 'b', 'É']);
    assert_eq!(ends_of(""), (None, None));
    assert_eq!(ends_of("x"), (Some('x'), Some('x')));
    assert_eq!(ends_of("^ab$"), (Some('^'), Some('$')));
    let hay = chars_of("hello world");
    assert!(occurs_at_index(&hay, &chars_of("world"), 6));
    assert!(!occurs_at_index(&hay, &chars_of("world"), 5));
    assert!(contains_chars(&hay, &chars_of("lo w")));
    assert!(contains_chars(&hay, &chars_of("")));
    assert!(contains_chars(&chars_of(""), &chars_of("")));
    assert!(!contains_chars(&hay, &chars_of("worlds")));
    assert!(!contains_chars(&chars_of("ab"), &chars_of("abc")));
    assert!(contains_ignore_ascii_case("An ERRor", &chars_of("error")));
    assert!(!contains_ignore_ascii_case("An ERRor", &chars_of("ERROR")));
}

#[test]
fn frames_are_paced() {
    assert_eq!(FRAME_INTERVAL_MS, 33);
    assert_eq!(IDLE_SLEEP_MS, 10);
    assert!(!frame_due(0));
    assert!(!frame_due(32));
    assert!(frame_due(33));
    assert!(frame_due(1_000));
}

#[test]
fn visible_rows_show_filtered_lines_on_screen() {
    let mut state = AppState::new_at(1_000, None);
    assert!(state.visible_rows(10).is_empty());
    state.set_sources(vec![("a".to_string(), PathBuf::from("a"))]);
    assert!(state.visible_rows(10).is_empty());
    for line in ["zero", "one ERROR", "two", "three ERROR", "four", "five ERROR"] {
        state.push_line_at(1, 0, line.to_string());
    }
    // no rules: every line on screen is shown, oldest first
    let rows = state.visible_rows(4);
    let indices: Vec<usize> = rows.iter().map(|r| r.index).collect();
    assert_eq!(indices, vec![2, 3, 4, 5]);
    assert_eq!(rows[0], Row {
        index: 2,
        segments: vec![Segment { start: 0, end: 3, highlighted: false }],
        alert: false,
        selected: false,
    });
    // a rule narrows the rows and highlights its matches
    state.filters.push(FilterRule::new("ERROR".to_string(), false, false, false, false));
    state.set_alert_patterns(&vec!["five".to_string()]);
    state.sources[0].selected_log = Some(3);
    let rows = state.visible_rows(4);
    assert_eq!(rows, vec![
        Row {
            index: 3,
            segments: vec![
                Segment { start: 0, end: 6, highlighted: false },
                Segment { start: 6, end: 11, highlighted: true },
            ],
            alert: false,
            selected: true,
        },
        Row {
            index: 5,
            segments: vec![
                Segment { start: 0, end: 5, highlighted: false },
                Segment { start: 5, end: 10, highlighted: true },
            ],
            alert: true,
            selected: false,
        },
    ]);
    // scrolled up by two, the newest two lines leave the screen
    state.scroll_up(2);
    let indices: Vec<usize> = state.visible_rows(4).iter().map(|r| r.index).collect();
    assert_eq!(indices, vec![1, 3]);
    // the active search is highlighted too
    state.search.search_input = "one".to_string();
    state.apply_search();
    let rows = state.visible_rows(4);
    assert_eq!(rows[0].segments, vec![
        Segment { start: 0, end: 3, highlighted: true },
        Segment { start: 3, end: 4, highlighted: false },
        Segment { start: 4, end: 9, highlighted: true },
    ]);
}
