use rtlog::event::{key_event, Key, KeyMods, UiEvent};
use rtlog::filter::FilterRule;
use rtlog::state::{AppState, FilterFocus};
use std::path::PathBuf;

const BARE: KeyMods = KeyMods { shift: false, other: false };
const SHIFT: KeyMods = KeyMods { shift: true, other: false };
const CTRL: KeyMods = KeyMods { shift: false, other: true };

fn event_state(n: usize) -> AppState {
    let mut state = AppState::new_at(1_000, None);
    state.set_sources(vec![
        ("one".to_string(), PathBuf::from("/tmp/one.log")),
        ("two".to_string(), PathBuf::from("/tmp/two.log")),
    ]);
    for i in 0..n {
        state.push_line_at(1_000_000, 0, format!("line {}", i));
    }
    state
}

#[test]
fn keys_outside_panels() {
    let state = event_state(0);
    assert_eq!(key_event(&state, Key::Char('q'), BARE), UiEvent::Quit);
    assert_eq!(key_event(&state, Key::Esc, BARE), UiEvent::Quit);
    assert_eq!(key_event(&state, Key::Up, BARE), UiEvent::ScrollUp(1));
    assert_eq!(key_event(&state, Key::Down, BARE), UiEvent::ScrollDown(1));
    assert_eq!(key_event(&state, Key::PageUp, BARE), UiEvent::ScrollUp(10));
    assert_eq!(key_event(&state, Key::PageDown, BARE), UiEvent::ScrollDown(10));
    assert_eq!(key_event(&state, Key::Home, BARE), UiEvent::Top);
    assert_eq!(key_event(&state, Key::End, BARE), UiEvent::Bottom);
    assert_eq!(key_event(&state, Key::Char(' '), BARE), UiEvent::ToggleAuto);
    assert_eq!(key_event(&state, Key::Char('/'), BARE), UiEvent::ToggleFilterPanel);
    assert_eq!(key_event(&state, Key::Char('?'), SHIFT), UiEvent::ToggleSearch);
    assert_eq!(key_event(&state, Key::Enter, BARE), UiEvent::ToggleContextPanel);
    assert_eq!(key_event(&state, Key::Backspace, BARE), UiEvent::Backspace);
    assert_eq!(key_event(&state, Key::Tab, BARE), UiEvent::FocusNext);
    assert_eq!(key_event(&state, Key::BackTab, SHIFT), UiEvent::PrevSource);
    assert_eq!(key_event(&state, Key::Char(']'), BARE), UiEvent::NextSource);
    assert_eq!(key_event(&state, Key::Char('['), BARE), UiEvent::PrevSource);
    assert_eq!(key_event(&state, Key::Char('r'), BARE), UiEvent::ToggleInputRegex);
    assert_eq!(key_event(&state, Key::Char('i'), BARE), UiEvent::ToggleInputCase);
    assert_eq!(key_event(&state, Key::Char('w'), BARE), UiEvent::ToggleInputWord);
    assert_eq!(key_event(&state, Key::Char('x'), BARE), UiEvent::ToggleInputLine);
    assert_eq!(key_event(&state, Key::Char('d'), BARE), UiEvent::DeleteFilter);
    assert_eq!(key_event(&state, Key::Char('k'), BARE), UiEvent::SelectUp);
    assert_eq!(key_event(&state, Key::Char('j'), BARE), UiEvent::SelectDown);
    assert_eq!(key_event(&state, Key::Char('n'), BARE), UiEvent::NextMatch);
    assert_eq!(key_event(&state, Key::Char('N'), SHIFT), UiEvent::PrevMatch);
    assert_eq!(key_event(&state, Key::Char('a'), BARE), UiEvent::InputChar('a'));
    assert_eq!(key_event(&state, Key::Char('A'), SHIFT), UiEvent::InputChar('A'));
    assert_eq!(key_event(&state, Key::Char('a'), CTRL), UiEvent::Nothing);
    assert_eq!(key_event(&state, Key::Other, BARE), UiEvent::Nothing);
    assert_eq!(key_event(&state, Key::Char(' '), SHIFT), UiEvent::InputChar(' '));
    assert_eq!(key_event(&state, Key::Char(' '), CTRL), UiEvent::Nothing);
    assert_eq!(key_event(&state, Key::Char('n'), SHIFT), UiEvent::InputChar('n'));
    assert_eq!(key_event(&state, Key::Char('n'), CTRL), UiEvent::Nothing);
    assert_eq!(key_event(&state, Key::Char('N'), CTRL), UiEvent::PrevMatch);
    assert_eq!(key_event(&state, Key::Char('q'), CTRL), UiEvent::Quit);
}

#[test]
fn keys_with_filter_panel_open() {
    let mut state = event_state(0);
    state.filter_panel_open = true;
    state.filter_focus = FilterFocus::Input;
    assert_eq!(key_event(&state, Key::Enter, BARE), UiEvent::AddFilter);
    assert_eq!(key_event(&state, Key::Char(' '), BARE), UiEvent::ToggleAuto);
    assert_eq!(key_event(&state, Key::Char('n'), BARE), UiEvent::InputChar('n'));
    assert_eq!(key_event(&state, Key::Char('N'), SHIFT), UiEvent::InputChar('N'));
    assert_eq!(key_event(&state, Key::Char('N'), CTRL), UiEvent::Nothing);
    state.filter_focus = FilterFocus::List;
    assert_eq!(key_event(&state, Key::Char(' '), BARE), UiEvent::ToggleFilterEnabled);
    assert_eq!(key_event(&state, Key::Char('n'), BARE), UiEvent::NextMatch);
    assert_eq!(key_event(&state, Key::Char('N'), SHIFT), UiEvent::PrevMatch);
}

#[test]
fn keys_with_search_panel_open() {
    let mut state = event_state(0);
    state.search.search_open = true;
    state.filter_panel_open = true;
    assert_eq!(key_event(&state, Key::Esc, BARE), UiEvent::CloseSearch);
    assert_eq!(key_event(&state, Key::Enter, BARE), UiEvent::ApplySearch);
    assert_eq!(key_event(&state, Key::Backspace, BARE), UiEvent::SearchBackspace);
    assert_eq!(key_event(&state, Key::Char('r'), BARE), UiEvent::ToggleSearchRegex);
    assert_eq!(key_event(&state, Key::Char('i'), CTRL), UiEvent::ToggleSearchCase);
    assert_eq!(key_event(&state, Key::Char('q'), BARE), UiEvent::SearchChar('q'));
    assert_eq!(key_event(&state, Key::Char('Q'), SHIFT), UiEvent::SearchChar('Q'));
    assert_eq!(key_event(&state, Key::Char('q'), CTRL), UiEvent::Nothing);
    assert_eq!(key_event(&state, Key::Up, BARE), UiEvent::Nothing);
    assert_eq!(key_event(&state, Key::Tab, BARE), UiEvent::Nothing);
}

#[test]
fn quit_is_reported_and_changes_nothing() {
    let mut state = event_state(3);
    assert!(state.apply_event(UiEvent::Quit));
    assert!(!state.apply_event(UiEvent::Nothing));
    assert_eq!(state.sources[0].lines.len(), 3);
    assert_eq!(state.sources[0].scroll_offset, 0);
}

#[test]
fn scroll_events_move_the_view() {
    let mut state = event_state(20);
    assert!(!state.apply_event(UiEvent::ScrollUp(10)));
    assert_eq!(state.sources[0].scroll_offset, 10);
    state.apply_event(UiEvent::ScrollDown(1));
    assert_eq!(state.sources[0].scroll_offset, 9);
    state.apply_event(UiEvent::Top);
    assert_eq!(state.sources[0].scroll_offset, 19);
    state.apply_event(UiEvent::Bottom);
    assert_eq!(state.sources[0].scroll_offset, 0);
    assert!(state.sources[0].auto_scroll);
    state.apply_event(UiEvent::ToggleAuto);
    assert!(!state.sources[0].auto_scroll);
}

#[test]
fn panel_events_toggle_panels() {
    let mut state = event_state(5);
    state.apply_event(UiEvent::ToggleFilterPanel);
    assert!(state.filter_panel_open);
    state.apply_event(UiEvent::ToggleFilterPanel);
    assert!(!state.filter_panel_open);
    state.apply_event(UiEvent::ToggleContextPanel);
    assert!(state.context_panel_open);
    assert_eq!(state.sources[0].selected_log, Some(4));
    state.apply_event(UiEvent::ToggleContextPanel);
    assert!(!state.context_panel_open);
    assert_eq!(state.sources[0].selected_log, Some(4));
}

#[test]
fn filter_events_need_open_panel() {
    let mut state = event_state(0);
    state.apply_event(UiEvent::InputChar('a'));
    state.apply_event(UiEvent::ToggleInputRegex);
    state.apply_event(UiEvent::ToggleInputCase);
    state.apply_event(UiEvent::ToggleInputWord);
    state.apply_event(UiEvent::ToggleInputLine);
    state.apply_event(UiEvent::FocusNext);
    state.apply_event(UiEvent::AddFilter);
    assert_eq!(state.filter_input, "");
    assert!(!state.input_is_regex);
    assert!(state.input_case_insensitive);
    assert!(!state.input_whole_word);
    assert!(!state.input_whole_line);
    assert_eq!(state.filter_focus, FilterFocus::Input);
    state.filters.push(FilterRule::new("keep".to_string(), false, false, false, false));
    state.apply_event(UiEvent::DeleteFilter);
    state.apply_event(UiEvent::ToggleFilterEnabled);
    assert_eq!(state.filters.len(), 1);
    assert!(state.filters[0].enabled);
}

#[test]
fn filter_panel_edits_and_adds_rules() {
    let mut state = event_state(0);
    state.apply_event(UiEvent::ToggleFilterPanel);
    for c in "abc".chars() {
        state.apply_event(UiEvent::InputChar(c));
    }
    state.apply_event(UiEvent::Backspace);
    assert_eq!(state.filter_input, "ab");
    state.apply_event(UiEvent::ToggleInputRegex);
    state.apply_event(UiEvent::ToggleInputCase);
    state.apply_event(UiEvent::ToggleInputWord);
    state.apply_event(UiEvent::ToggleInputLine);
    assert!(state.input_is_regex && !state.input_case_insensitive);
    assert!(state.input_whole_word && state.input_whole_line);
    state.apply_event(UiEvent::AddFilter);
    assert_eq!(state.filters.len(), 1);
    assert_eq!(state.filters[0].pattern, "ab");
    assert_eq!(state.filters[0].compiled.as_ref().unwrap().as_str(), "^ab$");
    assert_eq!(state.filter_input, "");
    state.apply_event(UiEvent::FocusNext);
    assert_eq!(state.filter_focus, FilterFocus::List);
    // with the list focused the input takes no characters
    state.apply_event(UiEvent::InputChar('z'));
    state.apply_event(UiEvent::Backspace);
    assert_eq!(state.filter_input, "");
    state.apply_event(UiEvent::ToggleFilterEnabled);
    assert!(!state.filters[0].enabled);
    state.apply_event(UiEvent::DeleteFilter);
    assert!(state.filters.is_empty());
    state.apply_event(UiEvent::FocusNext);
    assert_eq!(state.filter_focus, FilterFocus::Input);
}

#[test]
fn selection_events_follow_the_open_panel() {
    let mut state = event_state(5);
    state.filters.push(FilterRule::new("a".to_string(), false, false, false, false));
    state.filters.push(FilterRule::new("b".to_string(), false, false, false, false));
    state.apply_event(UiEvent::SelectUp);
    assert_eq!(state.sources[0].selected_log, Some(3));
    assert_eq!(state.selected_filter, 0);
    state.apply_event(UiEvent::SelectDown);
    assert_eq!(state.sources[0].selected_log, Some(4));
    state.apply_event(UiEvent::ToggleFilterPanel);
    state.apply_event(UiEvent::SelectDown);
    assert_eq!(state.selected_filter, 1);
    assert_eq!(state.sources[0].selected_log, Some(4));
    state.apply_event(UiEvent::SelectUp);
    assert_eq!(state.selected_filter, 0);
}

#[test]
fn source_events_move_focus() {
    let mut state = event_state(0);
    state.apply_event(UiEvent::NextSource);
    assert_eq!(state.focused, 1);
    state.apply_event(UiEvent::NextSource);
    assert_eq!(state.focused, 0);
    state.apply_event(UiEvent::PrevSource);
    assert_eq!(state.focused, 1);
}

#[test]
fn search_events_drive_the_search() {
    let mut state = event_state(0);
    for line in ["alpha", "beta", "gamma beta"] {
        state.push_line_at(1, 0, line.to_string());
    }
    state.apply_event(UiEvent::ToggleSearch);
    assert!(state.search.search_open);
    for c in "betax".chars() {
        state.apply_event(UiEvent::SearchChar(c));
    }
    state.apply_event(UiEvent::SearchBackspace);
    assert_eq!(state.search.search_input, "beta");
    state.apply_event(UiEvent::ToggleSearchRegex);
    assert!(state.search.is_regex);
    state.apply_event(UiEvent::ToggleSearchCase);
    assert!(!state.search.case_insensitive);
    state.apply_event(UiEvent::ApplySearch);
    assert!(!state.search.search_open);
    assert_eq!(state.search.active.as_ref().unwrap().as_str(), "beta");
    state.apply_event(UiEvent::NextMatch);
    assert_eq!(state.sources[0].selected_log, Some(1));
    state.apply_event(UiEvent::NextMatch);
    assert_eq!(state.sources[0].selected_log, Some(2));
    state.apply_event(UiEvent::PrevMatch);
    assert_eq!(state.sources[0].selected_log, Some(1));
    state.apply_event(UiEvent::ToggleSearch);
    state.apply_event(UiEvent::CloseSearch);
    assert!(!state.search.search_open);
}
