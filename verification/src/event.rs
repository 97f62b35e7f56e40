//! User intent: the events that the input loop hands to the state, how a
//! key press becomes an event, and what each event does to the state.

use crate::search::{lemma_next_in_range, lemma_prev_in_range};
use crate::state::{AppState, FilterFocus, SearchState};
use crate::text::{string_pop, string_push};
use vstd::prelude::*;

verus! {

/// What the user asked for.
#[derive(Debug, Clone, Copy, PartialEq, Eq, Structural)]
pub enum UiEvent {
    Quit,
    /// No key was pressed, or one that means nothing here.
    Nothing,
    ScrollUp(usize),
    ScrollDown(usize),
    Top,
    Bottom,
    ToggleAuto,
    ToggleFilterPanel,
    ToggleContextPanel,
    InputChar(char),
    Backspace,
    AddFilter,
    ToggleInputRegex,
    ToggleInputCase,
    ToggleInputWord,
    ToggleInputLine,
    ToggleFilterEnabled,
    DeleteFilter,
    FocusNext,
    SelectUp,
    SelectDown,
    NextSource,
    PrevSource,
    ToggleSearch,
    CloseSearch,
    SearchChar(char),
    SearchBackspace,
    ApplySearch,
    NextMatch,
    PrevMatch,
    ToggleSearchRegex,
    ToggleSearchCase,
}

/// A key, as far as the viewer tells keys apart.
#[derive(Debug, Clone, Copy, PartialEq, Eq, Structural)]
pub enum Key {
    Char(char),
    Esc,
    Enter,
    Backspace,
    Up,
    Down,
    PageUp,
    PageDown,
    Home,
    End,
    Tab,
    BackTab,
    Other,
}

/// The modifiers held with a key: shift, and whether any other is held.
#[derive(Debug, Clone, Copy, PartialEq, Eq, Structural)]
pub struct KeyMods {
    pub shift: bool,
    pub other: bool,
}

impl KeyMods {
    /// No modifier is held.
    pub open spec fn none(&self) -> bool {
        !self.shift && !self.other
    }

    /// No modifier but, at most, shift is held: the key stands for the
    /// character it writes.
    pub open spec fn plain(&self) -> bool {
        !self.other
    }
}

/// What a key means while the search panel is open.
pub open spec fn search_key(key: Key, mods: KeyMods) -> UiEvent {
    match key {
        Key::Esc => UiEvent::CloseSearch,
        Key::Enter => UiEvent::ApplySearch,
        Key::Backspace => UiEvent::SearchBackspace,
        Key::Char(c) => if c == 'r' {
            UiEvent::ToggleSearchRegex
        } else if c == 'i' {
            UiEvent::ToggleSearchCase
        } else if mods.plain() {
            UiEvent::SearchChar(c)
        } else {
            UiEvent::Nothing
        },
        _ => UiEvent::Nothing,
    }
}

/// What a character key means outside the search panel.  `typing` says
/// that the filter panel is open with its input focused, `listing` that it
/// is open with its list focused.
pub open spec fn char_key(c: char, mods: KeyMods, typing: bool, listing: bool) -> UiEvent {
    if c == 'q' {
        UiEvent::Quit
    } else if c == ' ' && mods.none() {
        if listing {
            UiEvent::ToggleFilterEnabled
        } else {
            UiEvent::ToggleAuto
        }
    } else if c == '/' {
        UiEvent::ToggleFilterPanel
    } else if c == '?' {
        UiEvent::ToggleSearch
    } else if c == ']' {
        UiEvent::NextSource
    } else if c == '[' {
        UiEvent::PrevSource
    } else if c == 'r' {
        UiEvent::ToggleInputRegex
    } else if c == 'i' {
        UiEvent::ToggleInputCase
    } else if c == 'w' {
        UiEvent::ToggleInputWord
    } else if c == 'x' {
        UiEvent::ToggleInputLine
    } else if c == 'd' {
        UiEvent::DeleteFilter
    } else if c == 'k' {
        UiEvent::SelectUp
    } else if c == 'j' {
        UiEvent::SelectDown
    } else if c == 'n' && mods.none() && !typing {
        UiEvent::NextMatch
    } else if c == 'N' && !typing {
        UiEvent::PrevMatch
    } else if mods.plain() {
        UiEvent::InputChar(c)
    } else {
        UiEvent::Nothing
    }
}

/// What a key means outside the search panel.
pub open spec fn normal_key(key: Key, mods: KeyMods, panel_open: bool, focus: FilterFocus) -> UiEvent {
    match key {
        Key::Char(c) => char_key(
            c,
            mods,
            panel_open && focus == FilterFocus::Input,
            panel_open && focus == FilterFocus::List,
        ),
        Key::Esc => UiEvent::Quit,
        Key::Up => UiEvent::ScrollUp(1),
        Key::Down => UiEvent::ScrollDown(1),
        Key::PageUp => UiEvent::ScrollUp(10),
        Key::PageDown => UiEvent::ScrollDown(10),
        Key::Home => UiEvent::Top,
        Key::End => UiEvent::Bottom,
        Key::Enter => if panel_open {
            UiEvent::AddFilter
        } else {
            UiEvent::ToggleContextPanel
        },
        Key::Backspace => UiEvent::Backspace,
        Key::Tab => UiEvent::FocusNext,
        Key::BackTab => UiEvent::PrevSource,
        Key::Other => UiEvent::Nothing,
    }
}

/// What a key press means in a given state.
pub open spec fn key_meaning(state: AppState, key: Key, mods: KeyMods) -> UiEvent {
    if state.search.search_open {
        search_key(key, mods)
    } else {
        normal_key(key, mods, state.filter_panel_open, state.filter_focus)
    }
}

/// Turns a key press into the event it stands for in the present state.
pub fn key_event(state: &AppState, key: Key, mods: KeyMods) -> (ev: UiEvent)
    ensures
        ev == key_meaning(*state, key, mods),
{
    let plain = !mods.other;
    let bare = !mods.shift && !mods.other;
    if state.search.search_open {
        return match key {
            Key::Esc => UiEvent::CloseSearch,
            Key::Enter => UiEvent::ApplySearch,
            Key::Backspace => UiEvent::SearchBackspace,
            Key::Char(c) => {
                if c == 'r' {
                    UiEvent::ToggleSearchRegex
                } else if c == 'i' {
                    UiEvent::ToggleSearchCase
                } else if plain {
                    UiEvent::SearchChar(c)
                } else {
                    UiEvent::Nothing
                }
            },
            _ => UiEvent::Nothing,
        };
    }
    let typing = state.filter_panel_open && state.filter_focus == FilterFocus::Input;
    let listing = state.filter_panel_open && state.filter_focus == FilterFocus::List;
    match key {
        Key::Esc => UiEvent::Quit,
        Key::Up => UiEvent::ScrollUp(1),
        Key::Down => UiEvent::ScrollDown(1),
        Key::PageUp => UiEvent::ScrollUp(10),
        Key::PageDown => UiEvent::ScrollDown(10),
        Key::Home => UiEvent::Top,
        Key::End => UiEvent::Bottom,
        Key::Enter => {
            if state.filter_panel_open {
                UiEvent::AddFilter
            } else {
                UiEvent::ToggleContextPanel
            }
        },
        Key::Backspace => UiEvent::Backspace,
        Key::Tab => UiEvent::FocusNext,
        Key::BackTab => UiEvent::PrevSource,
        Key::Other => UiEvent::Nothing,
        Key::Char(c) => {
            if c == 'q' {
                UiEvent::Quit
            } else if c == ' ' && bare {
                if listing {
                    UiEvent::ToggleFilterEnabled
                } else {
                    UiEvent::ToggleAuto
                }
            } else if c == '/' {
                UiEvent::ToggleFilterPanel
            } else if c == '?' {
                UiEvent::ToggleSearch
            } else if c == ']' {
                UiEvent::NextSource
            } else if c == '[' {
                UiEvent::PrevSource
            } else if c == 'r' {
                UiEvent::ToggleInputRegex
            } else if c == 'i' {
                UiEvent::ToggleInputCase
            } else if c == 'w' {
                UiEvent::ToggleInputWord
            } else if c == 'x' {
                UiEvent::ToggleInputLine
            } else if c == 'd' {
                UiEvent::DeleteFilter
            } else if c == 'k' {
                UiEvent::SelectUp
            } else if c == 'j' {
                UiEvent::SelectDown
            } else if c == 'n' && bare && !typing {
                UiEvent::NextMatch
            } else if c == 'N' && !typing {
                UiEvent::PrevMatch
            } else if plain {
                UiEvent::InputChar(c)
            } else {
                UiEvent::Nothing
            }
        },
    }
}

impl FilterFocus {
    /// The other part of the filter panel.
    pub open spec fn other(&self) -> FilterFocus {
        match self {
            FilterFocus::Input => FilterFocus::List,
            FilterFocus::List => FilterFocus::Input,
        }
    }
}

impl AppState {
    /// The filter panel is open and its input takes the keys.
    pub open spec fn typing(&self) -> bool {
        self.filter_panel_open && self.filter_focus == FilterFocus::Input
    }

    /// What an event does: `after` is the state that `apply_event` leaves.
    /// Events of the filter panel do nothing while the panel is closed, and
    /// the selection keys move in the rule list while it is open and in
    /// the log while it is closed.
    pub open spec fn event_post(&self, ev: UiEvent, after: AppState) -> bool {
        match ev {
            UiEvent::Quit => after == *self,
            UiEvent::Nothing => after == *self,
            UiEvent::ScrollUp(n) => self.scroll_up_post(after, n),
            UiEvent::ScrollDown(n) => self.scroll_down_post(after, n),
            UiEvent::Top => self.scroll_top_post(after),
            UiEvent::Bottom => self.scroll_bottom_post(after),
            UiEvent::ToggleAuto => self.toggle_auto_scroll_post(after),
            UiEvent::ToggleFilterPanel => after == (AppState {
                filter_panel_open: !self.filter_panel_open,
                ..*self
            }),
            UiEvent::ToggleContextPanel => {
                &&& after.context_panel_open == !self.context_panel_open
                &&& self.ensure_log_selection_post(
                    (AppState { context_panel_open: self.context_panel_open, ..after }),
                )
            },
            UiEvent::InputChar(c) => if self.typing() {
                &&& after == (AppState { filter_input: after.filter_input, ..*self })
                &&& after.filter_input@ == self.filter_input@.push(c)
            } else {
                after == *self
            },
            UiEvent::Backspace => if self.typing() {
                &&& after == (AppState { filter_input: after.filter_input, ..*self })
                &&& after.filter_input@ == (if self.filter_input@.len() == 0 {
                    self.filter_input@
                } else {
                    self.filter_input@.drop_last()
                })
            } else {
                after == *self
            },
            UiEvent::AddFilter => if self.filter_panel_open {
                self.add_filter_from_input_post(after)
            } else {
                after == *self
            },
            UiEvent::ToggleInputRegex => after == (AppState {
                input_is_regex: if self.filter_panel_open {
                    !self.input_is_regex
                } else {
                    self.input_is_regex
                },
                ..*self
            }),
            UiEvent::ToggleInputCase => after == (AppState {
                input_case_insensitive: if self.filter_panel_open {
                    !self.input_case_insensitive
                } else {
                    self.input_case_insensitive
                },
                ..*self
            }),
            UiEvent::ToggleInputWord => after == (AppState {
                input_whole_word: if self.filter_panel_open {
                    !self.input_whole_word
                } else {
                    self.input_whole_word
                },
                ..*self
            }),
            UiEvent::ToggleInputLine => after == (AppState {
                input_whole_line: if self.filter_panel_open {
                    !self.input_whole_line
                } else {
                    self.input_whole_line
                },
                ..*self
            }),
            UiEvent::ToggleFilterEnabled => if self.filter_panel_open {
                self.toggle_selected_filter_post(after)
            } else {
                after == *self
            },
            UiEvent::DeleteFilter => if self.filter_panel_open {
                self.remove_selected_filter_post(after)
            } else {
                after == *self
            },
            UiEvent::FocusNext => after == (AppState {
                filter_focus: if self.filter_panel_open {
                    self.filter_focus.other()
                } else {
                    self.filter_focus
                },
                ..*self
            }),
            UiEvent::SelectUp => if self.filter_panel_open {
                self.move_selection_up_post(after)
            } else {
                self.move_log_selection_up_post(after)
            },
            UiEvent::SelectDown => if self.filter_panel_open {
                self.move_selection_down_post(after)
            } else {
                self.move_log_selection_down_post(after)
            },
            UiEvent::NextSource => self.focus_next_source_post(after),
            UiEvent::PrevSource => self.focus_prev_source_post(after),
            UiEvent::ToggleSearch => self.open_search_post(after),
            UiEvent::CloseSearch => self.close_search_post(after),
            UiEvent::SearchChar(c) => self.search_push_char_post(after, c),
            UiEvent::SearchBackspace => self.search_pop_char_post(after),
            UiEvent::ApplySearch => after == (AppState {
                search: SearchState {
                    active: self.search.applied(),
                    search_open: false,
                    ..self.search
                },
                ..*self
            }),
            UiEvent::NextMatch => exists|found: bool| self.jump_next_match_post(after, found),
            UiEvent::PrevMatch => exists|found: bool| self.jump_prev_match_post(after, found),
            UiEvent::ToggleSearchRegex => after == (AppState {
                search: SearchState { is_regex: !self.search.is_regex, ..self.search },
                ..*self
            }),
            UiEvent::ToggleSearchCase => after == (AppState {
                search: SearchState {
                    case_insensitive: !self.search.case_insensitive,
                    ..self.search
                },
                ..*self
            }),
        }
    }

    /// Applies one event to the state and says whether the user asked to
    /// quit.
    pub fn apply_event(&mut self, ev: UiEvent) -> (quit: bool)
        ensures
            quit == (ev == UiEvent::Quit),
            old(self).event_post(ev, *final(self)),
    {
        match ev {
            UiEvent::Quit => {
                return true;
            },
            UiEvent::Nothing => {},
            UiEvent::ScrollUp(n) => self.scroll_up(n),
            UiEvent::ScrollDown(n) => self.scroll_down(n),
            UiEvent::Top => self.scroll_top(),
            UiEvent::Bottom => self.scroll_bottom(),
            UiEvent::ToggleAuto => self.toggle_auto_scroll(),
            UiEvent::ToggleFilterPanel => {
                self.filter_panel_open = !self.filter_panel_open;
            },
            UiEvent::ToggleContextPanel => {
                self.ensure_log_selection();
                self.context_panel_open = !self.context_panel_open;
            },
            UiEvent::InputChar(c) => {
                if self.filter_panel_open && self.filter_focus == FilterFocus::Input {
                    string_push(&mut self.filter_input, c);
                }
            },
            UiEvent::Backspace => {
                if self.filter_panel_open && self.filter_focus == FilterFocus::Input {
                    let _ = string_pop(&mut self.filter_input);
                }
            },
            UiEvent::AddFilter => {
                if self.filter_panel_open {
                    self.add_filter_from_input();
                }
            },
            UiEvent::ToggleInputRegex => {
                if self.filter_panel_open {
                    self.input_is_regex = !self.input_is_regex;
                }
            },
            UiEvent::ToggleInputCase => {
                if self.filter_panel_open {
                    self.input_case_insensitive = !self.input_case_insensitive;
                }
            },
            UiEvent::ToggleInputWord => {
                if self.filter_panel_open {
                    self.input_whole_word = !self.input_whole_word;
                }
            },
            UiEvent::ToggleInputLine => {
                if self.filter_panel_open {
                    self.input_whole_line = !self.input_whole_line;
                }
            },
            UiEvent::ToggleFilterEnabled => {
                if self.filter_panel_open {
                    self.toggle_selected_filter();
                }
            },
            UiEvent::DeleteFilter => {
                if self.filter_panel_open {
                    self.remove_selected_filter();
                }
            },
            UiEvent::FocusNext => {
                if self.filter_panel_open {
                    self.filter_focus = match self.filter_focus {
                        FilterFocus::Input => FilterFocus::List,
                        FilterFocus::List => FilterFocus::Input,
                    };
                }
            },
            UiEvent::SelectUp => {
                if self.filter_panel_open {
                    self.move_selection_up();
                } else {
                    self.move_log_selection_up();
                }
            },
            UiEvent::SelectDown => {
                if self.filter_panel_open {
                    self.move_selection_down();
                } else {
                    self.move_log_selection_down();
                }
            },
            UiEvent::NextSource => self.focus_next_source(),
            UiEvent::PrevSource => self.focus_prev_source(),
            UiEvent::ToggleSearch => self.open_search(),
            UiEvent::CloseSearch => self.close_search(),
            UiEvent::SearchChar(c) => self.search_push_char(c),
            UiEvent::SearchBackspace => self.search_pop_char(),
            UiEvent::ApplySearch => {
                self.apply_search();
                self.search.search_open = false;
            },
            UiEvent::NextMatch => {
                let _ = self.jump_next_match();
            },
            UiEvent::PrevMatch => {
                let _ = self.jump_prev_match();
            },
            UiEvent::ToggleSearchRegex => {
                self.search.is_regex = !self.search.is_regex;
            },
            UiEvent::ToggleSearchCase => {
                self.search.case_insensitive = !self.search.case_insensitive;
            },
        }
        false
    }
}

/// No event breaks the state: after any event the selection of every
/// source still names one of its lines, and its scroll offset still lies
/// within its buffer.
pub proof fn lemma_event_keeps_wf(before: AppState, ev: UiEvent, after: AppState)
    requires
        before.wf(),
        before.event_post(ev, after),
    ensures
        after.wf(),
{
    if before.has_focus() {
        let i = before.focused as int;
        assert(before.sources@[i].wf());
        match ev {
            UiEvent::NextMatch => {
                if before.jump_next_match_post(after, true) {
                    lemma_next_in_range(
                        before.current(),
                        before.search.active->0,
                        after.current().selected_log->0,
                    );
                }
            },
            UiEvent::PrevMatch => {
                if before.jump_prev_match_post(after, true) {
                    lemma_prev_in_range(
                        before.current(),
                        before.search.active->0,
                        after.current().selected_log->0,
                    );
                }
            },
            _ => {},
        }
        assert forall|j: int| 0 <= j < after.sources@.len() && j != i implies (
        #[trigger] after.sources@[j]).wf() by {
            if j < before.sources@.len() {
                assert(before.sources@[j].wf());
            }
        }
    } else {
        assert forall|j: int| 0 <= j < after.sources@.len() implies (
        #[trigger] after.sources@[j]).wf() by {
            if j < before.sources@.len() {
                assert(before.sources@[j].wf());
            }
        }
    }
}

/// While the search panel is open no key quits the viewer or reaches the
/// panels behind it.
pub proof fn lemma_search_panel_takes_keys(state: AppState, key: Key, mods: KeyMods)
    requires
        state.search.search_open,
    ensures
        ({
            let ev = key_meaning(state, key, mods);
            ev == UiEvent::Nothing || ev == UiEvent::CloseSearch || ev == UiEvent::ApplySearch
                || ev == UiEvent::SearchBackspace || ev == UiEvent::ToggleSearchRegex || ev
                == UiEvent::ToggleSearchCase || ev is SearchChar
        }),
{
}

} // verus!
