use rtlog::state::AppState;
use rtlog::tail::{
    trim_line_end, FileTail, TailAction, TailEvent, TailOutcome, TailState, Tailer,
    CHANNEL_CAPACITY, POLL_INTERVAL_MS,
};
use std::collections::VecDeque;
use std::path::PathBuf;

fn tailer_in(state: TailState, follow: bool) -> Tailer {
    Tailer { follow, source_id: 4, state }
}

#[test]
fn trim_line_end_strips_terminator() {
    assert_eq!(trim_line_end("abc\n".to_string()), "abc");
    assert_eq!(trim_line_end("abc\r\n".to_string()), "abc");
    assert_eq!(trim_line_end("abc".to_string()), "abc");
    assert_eq!(trim_line_end("abc\r".to_string()), "abc");
    assert_eq!(trim_line_end("\n".to_string()), "");
    assert_eq!(trim_line_end("".to_string()), "");
    assert_eq!(trim_line_end("abc\n\n".to_string()), "abc\n");
    assert_eq!(trim_line_end("abc\r\r\n".to_string()), "abc\r");
    assert_eq!(trim_line_end("abc\n\r".to_string()), "abc\n");
    assert_eq!(trim_line_end("a\nb\n".to_string()), "a\nb");
    assert_eq!(trim_line_end("é\r\n".to_string()), "é");
}

#[test]
fn tail_constants() {
    assert_eq!(POLL_INTERVAL_MS, 200);
    assert_eq!(CHANNEL_CAPACITY, 1024);
}

#[test]
fn file_tail_makes_opening_tailer() {
    let tail = FileTail::new(PathBuf::from("/var/log/x"), true);
    assert_eq!(tail.path, PathBuf::from("/var/log/x"));
    assert!(tail.follow);
    let t = tail.tailer(3);
    assert_eq!(t, Tailer { follow: true, source_id: 3, state: TailState::Opening });
    assert_eq!(t.start(), TailAction::Open);
    assert!(!t.is_closed());
}

#[test]
fn draining_tailer_reads_to_end() {
    let mut t = FileTail::new(PathBuf::from("f"), false).tailer(0);
    assert_eq!(t.on_event(TailEvent::Opened), TailAction::ReadLine);
    assert_eq!(t.state, TailState::Draining);
    assert_eq!(
        t.on_event(TailEvent::Line("one\r\n".to_string())),
        TailAction::Send(0, "one".to_string())
    );
    assert_eq!(t.state, TailState::Draining);
    assert_eq!(t.on_event(TailEvent::Sent), TailAction::ReadLine);
    assert_eq!(t.on_event(TailEvent::EndOfFile), TailAction::Stop(TailOutcome::Finished));
    assert!(t.is_closed());
}

#[test]
fn following_tailer_seeks_then_polls() {
    let mut t = FileTail::new(PathBuf::from("f"), true).tailer(7);
    assert_eq!(t.on_event(TailEvent::Opened), TailAction::SeekToEnd);
    assert_eq!(t.state, TailState::Seeking);
    assert_eq!(t.on_event(TailEvent::Sought), TailAction::ReadLine);
    assert_eq!(t.state, TailState::Following);
    assert_eq!(t.on_event(TailEvent::EndOfFile), TailAction::Sleep(200));
    assert_eq!(t.state, TailState::Idle);
    assert_eq!(t.on_event(TailEvent::Woke), TailAction::ReadLine);
    assert_eq!(t.state, TailState::Following);
    assert_eq!(
        t.on_event(TailEvent::Line("new\n".to_string())),
        TailAction::Send(7, "new".to_string())
    );
    assert_eq!(t.on_event(TailEvent::Sent), TailAction::ReadLine);
    assert_eq!(t.source_id, 7);
    assert!(t.follow);
}

#[test]
fn lost_receiver_ends_tailer_normally() {
    for follow in [true, false] {
        let reading = if follow { TailState::Following } else { TailState::Draining };
        let mut t = tailer_in(reading, follow);
        assert_eq!(t.on_event(TailEvent::ReceiverGone), TailAction::Stop(TailOutcome::Finished));
        assert_eq!(t.state, TailState::Closed);
    }
}

#[test]
fn failures_close_the_tailer() {
    let mut t = tailer_in(TailState::Opening, false);
    assert_eq!(t.on_event(TailEvent::Failed), TailAction::Stop(TailOutcome::Failed));
    assert!(t.is_closed());
    let mut t = tailer_in(TailState::Seeking, true);
    assert_eq!(t.on_event(TailEvent::Failed), TailAction::Stop(TailOutcome::Failed));
    let mut t = tailer_in(TailState::Following, true);
    assert_eq!(t.on_event(TailEvent::Failed), TailAction::Stop(TailOutcome::Failed));
    assert!(t.is_closed());
}

#[test]
fn unexpected_events_close_the_tailer() {
    let cases = vec![
        (TailState::Opening, TailEvent::Sought),
        (TailState::Opening, TailEvent::Line("x".to_string())),
        (TailState::Seeking, TailEvent::Opened),
        (TailState::Following, TailEvent::Opened),
        (TailState::Following, TailEvent::Woke),
        (TailState::Draining, TailEvent::Sought),
        (TailState::Idle, TailEvent::Sent),
        (TailState::Idle, TailEvent::EndOfFile),
        (TailState::Idle, TailEvent::ReceiverGone),
        (TailState::Closed, TailEvent::Opened),
        (TailState::Closed, TailEvent::Line("x".to_string())),
        (TailState::Closed, TailEvent::Woke),
        (TailState::Closed, TailEvent::EndOfFile),
    ];
    for (state, event) in cases {
        let mut t = tailer_in(state, true);
        assert_eq!(t.on_event(event), TailAction::Stop(TailOutcome::Failed));
        assert_eq!(t.state, TailState::Closed);
    }
}

// Runs a tailer over what a file holds, up to the point where it stops or
// waits, sending into the queue.
fn run_tailer(t: &mut Tailer, content: &mut VecDeque<String>, queue: &mut VecDeque<(usize, String)>) {
    let mut action = if t.state == TailState::Opening {
        t.start()
    } else {
        t.on_event(TailEvent::Woke)
    };
    loop {
        action = match action {
            TailAction::Open => t.on_event(TailEvent::Opened),
            TailAction::SeekToEnd => {
                content.clear();
                t.on_event(TailEvent::Sought)
            }
            TailAction::ReadLine => match content.pop_front() {
                Some(raw) => t.on_event(TailEvent::Line(raw)),
                None => t.on_event(TailEvent::EndOfFile),
            },
            TailAction::Send(id, line) => {
                queue.push_back((id, line));
                t.on_event(TailEvent::Sent)
            }
            TailAction::Sleep(_) => return,
            TailAction::Stop(_) => return,
        };
    }
}

#[test]
fn two_sources_scenario_buffers_seven_lines() {
    let mut queue: VecDeque<(usize, String)> = VecDeque::new();
    let mut first = FileTail::new(PathBuf::from("a.log"), false).tailer(0);
    let mut second = FileTail::new(PathBuf::from("b.log"), true).tailer(1);
    let mut file_a: VecDeque<String> = (0..5).map(|i| format!("a{}\n", i)).collect();
    let mut file_b: VecDeque<String> = vec!["old content\n".to_string()].into();
    run_tailer(&mut first, &mut file_a, &mut queue);
    run_tailer(&mut second, &mut file_b, &mut queue);
    assert_eq!(second.state, TailState::Idle);
    // two lines are appended to the followed file
    file_b.push_back("b0\r\n".to_string());
    file_b.push_back("b1\n".to_string());
    run_tailer(&mut second, &mut file_b, &mut queue);

    let mut state = AppState::new_at(1_000, None);
    state.set_sources(vec![
        ("a.log".to_string(), PathBuf::from("a.log")),
        ("b.log".to_string(), PathBuf::from("b.log")),
    ]);
    while let Some((id, line)) = queue.pop_front() {
        state.push_line_at(1_000_000, id, line);
    }
    assert_eq!(state.sources[0].lines, vec!["a0", "a1", "a2", "a3", "a4"]);
    assert_eq!(state.sources[1].lines, vec!["b0", "b1"]);
    assert_eq!(state.sources[0].lines.len() + state.sources[1].lines.len(), 7);
    assert!(first.is_closed());
    assert!(!second.is_closed());
    assert_eq!(second.state, TailState::Idle);
}
