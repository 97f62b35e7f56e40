//! Application state: the sources with their line buffers, the rule list,
//! the statistics window, the search and the alert state, and every
//! operation that an event may ask for.

use crate::clock::current_epoch_sec;
use crate::engine::{regex_as_str, regex_source};
use crate::filter::{compile_enabled_rules, compiled_enabled, FilterRule};
use crate::stats::StatsWindow;
use regex::Regex;
use std::path::PathBuf;
use vstd::prelude::*;

verus! {

/// A file-system path of the standard library.  Opaque: the library only
/// carries it.
#[verifier::external_type_specification]
#[verifier::external_body]
pub struct ExPathBuf(std::path::PathBuf);

/// Which part of the filter panel takes the keys.
#[derive(Debug, Clone, Copy, PartialEq, Eq, Structural)]
pub enum FilterFocus {
    Input,
    List,
}

impl Default for FilterFocus {
    fn default() -> (focus: FilterFocus)
        ensures
            focus == FilterFocus::Input,
    {
        FilterFocus::Input
    }
}

/// One tailed input: its label, its path, the lines received so far in
/// arrival order, and where the view and the selection stand.
#[derive(Debug, Default)]
pub struct Source {
    pub name: String,
    pub path: PathBuf,
    pub lines: Vec<String>,
    /// Lines between the bottom of the view and the newest line; zero pins
    /// the view to the newest line.
    pub scroll_offset: usize,
    pub auto_scroll: bool,
    /// The selected line, as an index into `lines`.
    pub selected_log: Option<usize>,
}

impl Source {
    /// The largest scroll offset the buffer allows.
    pub open spec fn max_offset(&self) -> int {
        if self.lines@.len() == 0 {
            0
        } else {
            self.lines@.len() - 1
        }
    }

    /// The selection, if set, names a line of the buffer, and the scroll
    /// offset stays within the buffer.
    pub open spec fn wf(&self) -> bool {
        &&& self.selected_log matches Some(i) ==> i < self.lines@.len()
        &&& self.scroll_offset <= self.max_offset()
    }

    /// The line that the selection starts from when none is set: the
    /// newest line in view.
    pub open spec fn newest_visible(&self) -> int {
        let end = if self.lines@.len() >= self.scroll_offset {
            self.lines@.len() - self.scroll_offset
        } else {
            0
        };
        if end >= 1 {
            end - 1
        } else {
            0
        }
    }

    /// The selection after it has been initialised where it was unset.
    pub open spec fn ensured_selection(&self) -> Option<usize> {
        match self.selected_log {
            Some(i) => Some(i),
            None => if self.lines@.len() == 0 {
                None
            } else {
                Some(self.newest_visible() as usize)
            },
        }
    }

    /// A source with an empty buffer, pinned to the newest line.
    pub fn new(name: String, path: PathBuf) -> (src: Source)
        ensures
            src.name == name,
            src.path == path,
            src.lines@.len() == 0,
            src.scroll_offset == 0,
            src.auto_scroll,
            src.selected_log is None,
            src.wf(),
    {
        Source {
            name,
            path,
            lines: Vec::new(),
            scroll_offset: 0,
            auto_scroll: true,
            selected_log: None,
        }
    }
}

/// How long an alert stays on screen, in milliseconds.
pub const ALERT_DISPLAY_MS: u128 = 5000;

/// How long a fresh alert blinks, in milliseconds.
pub const ALERT_BLINK_MS: u128 = 1500;

/// The search panel and the matcher of the search that was last applied.
#[derive(Debug, Default)]
pub struct SearchState {
    pub search_open: bool,
    pub search_input: String,
    pub is_regex: bool,
    pub case_insensitive: bool,
    /// The matcher of the applied search; none before the first search,
    /// after an empty one, and after one that did not compile.
    pub active: Option<Regex>,
}

/// The alert patterns and the alert that is showing, if any.
#[derive(Debug, Default)]
pub struct AlertState {
    pub patterns: Vec<Regex>,
    pub alert_message: Option<String>,
    pub alert_deadline_ms: u128,
    pub alert_blink_deadline_ms: u128,
}

/// The whole state of the viewer.
#[derive(Debug, Default)]
pub struct AppState {
    pub sources: Vec<Source>,
    pub focused: usize,
    pub filters: Vec<FilterRule>,
    pub filter_panel_open: bool,
    pub filter_input: String,
    pub input_is_regex: bool,
    pub input_case_insensitive: bool,
    pub input_whole_word: bool,
    pub input_whole_line: bool,
    pub filter_focus: FilterFocus,
    pub selected_filter: usize,
    pub context_panel_open: bool,
    pub context_radius: usize,
    pub stats: StatsWindow,
    pub search: SearchState,
    pub alerts: AlertState,
}

/// A sum that stops at the largest `usize`.
pub open spec fn clamped_sum(a: usize, b: usize) -> usize {
    if a + b > usize::MAX {
        usize::MAX
    } else {
        (a + b) as usize
    }
}

/// A difference that stops at zero.
pub open spec fn clamped_diff(a: usize, b: usize) -> usize {
    if a >= b {
        (a - b) as usize
    } else {
        0
    }
}

/// A deadline `span` milliseconds after `now`, held to what a `u128` can
/// carry.
pub open spec fn deadline_after(now: u128, span: u128) -> u128 {
    if now + span > u128::MAX {
        u128::MAX
    } else {
        (now + span) as u128
    }
}

impl AppState {
    /// Some source has the focus.
    pub open spec fn has_focus(&self) -> bool {
        self.focused < self.sources@.len()
    }

    /// The focused source.
    pub open spec fn current(&self) -> Source
        recommends
            self.has_focus(),
    {
        self.sources@[self.focused as int]
    }

    /// Every source is well formed.
    pub open spec fn wf(&self) -> bool {
        forall|i: int| 0 <= i < self.sources@.len() ==> (#[trigger] self.sources@[i]).wf()
    }

    /// `after` is `self` with its focused source replaced by `src` and
    /// nothing else touched.
    pub open spec fn refocused(&self, after: AppState, src: Source) -> bool {
        &&& after == (AppState { sources: after.sources, ..*self })
        &&& after.sources@ == self.sources@.update(self.focused as int, src)
    }

    /// The state right after start-up, but for the date of the statistics
    /// window: no sources, the given matcher as the one rule if there is
    /// one, empty panels, an empty window, no search and no alert.
    pub open spec fn is_initial(&self, initial: Option<Regex>) -> bool {
        &&& self.sources@.len() == 0
        &&& self.focused == 0
        &&& match initial {
            Some(re) => {
                &&& self.filters@.len() == 1
                &&& self.filters@[0].pattern@ == regex_source(re)
                &&& self.filters@[0].is_regex
                &&& self.filters@[0].case_insensitive
                &&& !self.filters@[0].whole_word
                &&& !self.filters@[0].whole_line
                &&& self.filters@[0].enabled
                &&& self.filters@[0].compiled == Some(re)
                &&& self.filters@[0].match_count == 0
            },
            None => self.filters@.len() == 0,
        }
        &&& !self.filter_panel_open
        &&& self.filter_input@.len() == 0
        &&& !self.input_is_regex
        &&& self.input_case_insensitive
        &&& !self.input_whole_word
        &&& !self.input_whole_line
        &&& self.filter_focus == FilterFocus::Input
        &&& self.selected_filter == 0
        &&& !self.context_panel_open
        &&& self.context_radius == 3
        &&& self.stats.errors() == Seq::new(60, |i: int| 0u16)
        &&& self.stats.warnings() == Seq::new(60, |i: int| 0u16)
        &&& !self.search.search_open
        &&& self.search.search_input@.len() == 0
        &&& !self.search.is_regex
        &&& self.search.case_insensitive
        &&& self.search.active is None
        &&& self.alerts.patterns@.len() == 0
        &&& self.alerts.alert_message is None
        &&& self.alerts.alert_deadline_ms == 0
        &&& self.alerts.alert_blink_deadline_ms == 0
    }

    /// The state at start-up, with the clock read once to date the
    /// statistics window.
    pub fn new(initial_cli_regex: Option<Regex>) -> (state: AppState)
        ensures
            state.is_initial(initial_cli_regex),
            state.wf(),
    {
        let now = current_epoch_sec();
        AppState::new_at(now, initial_cli_regex)
    }

    /// The state at start-up when the clock reads `now_sec`.
    pub fn new_at(now_sec: u64, initial_cli_regex: Option<Regex>) -> (state: AppState)
        ensures
            state.is_initial(initial_cli_regex),
            state.stats.bucket_epoch_sec == clamped_back(now_sec),
            state.wf(),
    {
        let mut filters: Vec<FilterRule> = Vec::new();
        match initial_cli_regex {
            Some(re) => {
                let pattern = regex_as_str(&re).to_owned();
                filters.push(
                    FilterRule {
                        pattern,
                        is_regex: true,
                        case_insensitive: true,
                        whole_word: false,
                        whole_line: false,
                        enabled: true,
                        compiled: Some(re),
                        match_count: 0,
                    },
                );
            },
            None => {},
        }
        AppState {
            sources: Vec::new(),
            focused: 0,
            filters,
            filter_panel_open: false,
            filter_input: String::new(),
            input_is_regex: false,
            input_case_insensitive: true,
            input_whole_word: false,
            input_whole_line: false,
            filter_focus: FilterFocus::Input,
            selected_filter: 0,
            context_panel_open: false,
            context_radius: 3,
            stats: StatsWindow::new(now_sec),
            search: SearchState {
                search_open: false,
                search_input: String::new(),
                is_regex: false,
                case_insensitive: true,
                active: None,
            },
            alerts: AlertState {
                patterns: Vec::new(),
                alert_message: None,
                alert_deadline_ms: 0,
                alert_blink_deadline_ms: 0,
            },
        }
    }

    /// Replaces the sources by fresh ones, one for each name and path, and
    /// gives the first of them the focus.
    pub fn set_sources(&mut self, inputs: Vec<(String, PathBuf)>)
        ensures
            *final(self) == (AppState { sources: final(self).sources, focused: 0, ..*old(self) }),
            final(self).sources@.len() == inputs@.len(),
            forall|i: int|
                0 <= i < inputs@.len() ==> {
                    let src = #[trigger] final(self).sources@[i];
                    &&& src.name == inputs@[i].0
                    &&& src.path == inputs@[i].1
                    &&& src.lines@.len() == 0
                    &&& src.scroll_offset == 0
                    &&& src.auto_scroll
                    &&& src.selected_log is None
                },
            final(self).wf(),
    {
        let mut sources: Vec<Source> = Vec::new();
        for item in it: inputs
            invariant
                it.seq() == inputs@,
                sources@.len() == it.index(),
                forall|i: int|
                    0 <= i < sources@.len() ==> {
                        let src = #[trigger] sources@[i];
                        &&& src.name == inputs@[i].0
                        &&& src.path == inputs@[i].1
                        &&& src.lines@.len() == 0
                        &&& src.scroll_offset == 0
                        &&& src.auto_scroll
                        &&& src.selected_log is None
                    },
        {
            let (name, path) = item;
            sources.push(Source::new(name, path));
        }
        self.sources = sources;
        self.focused = 0;
    }

    /// The focused source, if there is one.
    pub fn current_source(&self) -> (r: Option<&Source>)
        ensures
            match r {
                Some(src) => self.has_focus() && *src == self.current(),
                None => !self.has_focus(),
            },
    {
        if self.focused < self.sources.len() {
            Some(&self.sources[self.focused])
        } else {
            None
        }
    }

    /// The focused source, if there is one, for the caller to change: the
    /// state ends as the caller leaves that source, with nothing else
    /// touched.
    pub fn current_source_mut(&mut self) -> (r: Option<&mut Source>)
        ensures
            match r {
                Some(src) => {
                    &&& old(self).has_focus()
                    &&& *src == old(self).current()
                    &&& old(self).refocused(*final(self), *final(src))
                },
                None => !old(self).has_focus() && *final(self) == *old(self),
            },
    {
        if self.focused < self.sources.len() {
            Some(&mut self.sources[self.focused])
        } else {
            None
        }
    }

    /// What `scroll_up` leaves as `after`.
    /// The view of the focused source has moved `n` lines toward older
    /// lines, as far as the oldest, and the source no longer follows new
    /// lines; nothing else has changed.  Without a focused source nothing
    /// has changed at all.
    pub open spec fn scroll_up_post(&self, after: AppState, n: usize) -> bool {
        &&& !self.has_focus() ==> after == *self
        &&& self.has_focus() ==> self.refocused(
            after,
            (Source {
                auto_scroll: false,
                scroll_offset: if self.current().scroll_offset + n > self.current().max_offset() {
                    self.current().max_offset() as usize
                } else {
                    (self.current().scroll_offset + n) as usize
                },
                ..self.current()
            }),
        )
        &&& self.has_focus() ==> after.current().scroll_offset <= after.current().max_offset()
    }

    /// Scrolls the focused source `n` lines toward older lines and stops
    /// following new lines.  The offset never passes the oldest line.
    pub fn scroll_up(&mut self, n: usize)
        ensures
            old(self).scroll_up_post(*final(self), n),
    {
        if self.focused < self.sources.len() {
            let src = &mut self.sources[self.focused];
            src.auto_scroll = false;
            let max_offset: usize = src.lines.len().saturating_sub(1);
            let wanted: usize = src.scroll_offset.saturating_add(n);
            src.scroll_offset = if wanted > max_offset {
                max_offset
            } else {
                wanted
            };
        }
    }

    /// What `scroll_down` leaves as `after`.
    /// The view of the focused source has moved `n` lines toward newer
    /// lines, as far as the newest, and the source follows new lines if it
    /// did before or if the view has reached the newest line; nothing else
    /// has changed.
    pub open spec fn scroll_down_post(&self, after: AppState, n: usize) -> bool {
        &&& !self.has_focus() ==> after == *self
        &&& self.has_focus() ==> self.refocused(
            after,
            (Source {
                scroll_offset: clamped_diff(self.current().scroll_offset, n),
                auto_scroll: self.current().auto_scroll || self.current().scroll_offset <= n,
                ..self.current()
            }),
        )
    }

    /// Scrolls the focused source `n` lines toward newer lines.  Reaching
    /// the newest line makes the source follow new lines again.
    pub fn scroll_down(&mut self, n: usize)
        ensures
            old(self).scroll_down_post(*final(self), n),
    {
        if self.focused < self.sources.len() {
            let src = &mut self.sources[self.focused];
            src.scroll_offset = src.scroll_offset.saturating_sub(n);
            if src.scroll_offset == 0 {
                src.auto_scroll = true;
            }
        }
    }

    /// What `scroll_top` leaves as `after`.
    /// The view of the focused source stands at its oldest line and the
    /// source no longer follows new lines; nothing else has changed.
    pub open spec fn scroll_top_post(&self, after: AppState) -> bool {
        &&& !self.has_focus() ==> after == *self
        &&& self.has_focus() ==> self.refocused(
            after,
            (Source {
                auto_scroll: false,
                scroll_offset: self.current().max_offset() as usize,
                ..self.current()
            }),
        )
    }

    /// Scrolls the focused source to its oldest line and stops following.
    pub fn scroll_top(&mut self)
        ensures
            old(self).scroll_top_post(*final(self)),
    {
        if self.focused < self.sources.len() {
            let src = &mut self.sources[self.focused];
            src.auto_scroll = false;
            src.scroll_offset = src.lines.len().saturating_sub(1);
        }
    }

    /// What `scroll_bottom` leaves as `after`.
    /// The view of the focused source stands at its newest line and the
    /// source follows new lines; nothing else has changed.
    pub open spec fn scroll_bottom_post(&self, after: AppState) -> bool {
        &&& !self.has_focus() ==> after == *self
        &&& self.has_focus() ==> self.refocused(
            after,
            (Source { scroll_offset: 0, auto_scroll: true, ..self.current() }),
        )
    }

    /// Pins the focused source to its newest line and follows new lines.
    pub fn scroll_bottom(&mut self)
        ensures
            old(self).scroll_bottom_post(*final(self)),
    {
        if self.focused < self.sources.len() {
            let src = &mut self.sources[self.focused];
            src.scroll_offset = 0;
            src.auto_scroll = true;
        }
    }

    /// What `toggle_auto_scroll` leaves as `after`.
    /// Following has flipped on the focused source, and where it was
    /// switched on the view stands at the newest line; nothing else has
    /// changed.
    pub open spec fn toggle_auto_scroll_post(&self, after: AppState) -> bool {
        &&& !self.has_focus() ==> after == *self
        &&& self.has_focus() ==> self.refocused(
            after,
            (Source {
                auto_scroll: !self.current().auto_scroll,
                scroll_offset: if self.current().auto_scroll {
                    self.current().scroll_offset
                } else {
                    0
                },
                ..self.current()
            }),
        )
    }

    /// Flips following on the focused source; switching it on also pins
    /// the view to the newest line.
    pub fn toggle_auto_scroll(&mut self)
        ensures
            old(self).toggle_auto_scroll_post(*final(self)),
    {
        if self.focused < self.sources.len() {
            let src = &mut self.sources[self.focused];
            if src.auto_scroll {
                src.auto_scroll = false;
            } else {
                src.scroll_offset = 0;
                src.auto_scroll = true;
            }
        }
    }

    /// What `ensure_log_selection` leaves as `after`.
    /// The focused source has its selection initialised where it was
    /// unset; nothing else has changed.
    pub open spec fn ensure_log_selection_post(&self, after: AppState) -> bool {
        &&& !self.has_focus() ==> after == *self
        &&& self.has_focus() ==> self.refocused(
            after,
            (Source {
                selected_log: self.current().ensured_selection(),
                ..self.current()
            }),
        )
    }

    /// Gives the focused source a selection if it has none and is not
    /// empty: the newest line in view.
    pub fn ensure_log_selection(&mut self)
        ensures
            old(self).ensure_log_selection_post(*final(self)),
    {
        if self.focused < self.sources.len() {
            let src = &mut self.sources[self.focused];
            if src.selected_log.is_none() {
                let end: usize = src.lines.len().saturating_sub(src.scroll_offset);
                let sel: usize = end.saturating_sub(1);
                src.selected_log = if src.lines.len() == 0 {
                    None
                } else {
                    Some(sel)
                };
            }
        }
    }

    /// What `move_log_selection_up` leaves as `after`.
    /// The selection of the focused source, initialised where it was
    /// unset, has moved one line toward older lines, not past the oldest;
    /// nothing else has changed.
    pub open spec fn move_log_selection_up_post(&self, after: AppState) -> bool {
        &&& !self.has_focus() ==> after == *self
        &&& self.has_focus() ==> self.refocused(
            after,
            (Source {
                selected_log: match self.current().ensured_selection() {
                    Some(i) => Some(clamped_diff(i, 1)),
                    None => None,
                },
                ..self.current()
            }),
        )
    }

    /// Moves the selection of the focused source one line toward older
    /// lines, after initialising it where it was unset.
    pub fn move_log_selection_up(&mut self)
        ensures
            old(self).move_log_selection_up_post(*final(self)),
    {
        self.ensure_log_selection();
        if self.focused < self.sources.len() {
            let src = &mut self.sources[self.focused];
            match src.selected_log {
                Some(i) => {
                    if i > 0 {
                        src.selected_log = Some(i - 1);
                    }
                },
                None => {},
            }
            assert(self.sources@ =~= old(self).sources@.update(
                self.focused as int,
                self.sources@[self.focused as int],
            ));
        }
    }

    /// What `move_log_selection_down` leaves as `after`.
    /// The selection of the focused source, initialised where it was
    /// unset, has moved one line toward newer lines, not past the newest;
    /// nothing else has changed.
    pub open spec fn move_log_selection_down_post(&self, after: AppState) -> bool {
        &&& !self.has_focus() ==> after == *self
        &&& self.has_focus() ==> self.refocused(
            after,
            (Source {
                selected_log: match self.current().ensured_selection() {
                    Some(i) => Some(
                        if i < self.current().max_offset() {
                            (i + 1) as usize
                        } else {
                            i
                        },
                    ),
                    None => None,
                },
                ..self.current()
            }),
        )
    }

    /// Moves the selection of the focused source one line toward newer
    /// lines, after initialising it where it was unset.  It stops at the
    /// newest line.
    pub fn move_log_selection_down(&mut self)
        ensures
            old(self).move_log_selection_down_post(*final(self)),
    {
        self.ensure_log_selection();
        if self.focused < self.sources.len() {
            let src = &mut self.sources[self.focused];
            match src.selected_log {
                Some(i) => {
                    let max: usize = src.lines.len().saturating_sub(1);
                    if i < max {
                        src.selected_log = Some(i + 1);
                    }
                },
                None => {},
            }
            assert(self.sources@ =~= old(self).sources@.update(
                self.focused as int,
                self.sources@[self.focused as int],
            ));
        }
    }

    /// What `focus_next_source` leaves as `after`.
    /// The focus has moved to the next source, from the last to the first;
    /// nothing else has changed, and without sources nothing at all.
    pub open spec fn focus_next_source_post(&self, after: AppState) -> bool {
        &&& after == (AppState {
            focused: if self.sources@.len() == 0 {
                self.focused
            } else {
                ((self.focused + 1) % (self.sources@.len() as int)) as usize
            },
            ..*self
        })
    }

    /// Gives the focus to the next source, the first after the last.
    pub fn focus_next_source(&mut self)
        ensures
            old(self).focus_next_source_post(*final(self)),
    {
        let count: usize = self.sources.len();
        if count == 0 {
            return;
        }
        let at: usize = self.focused % count;
        proof {
            vstd::arithmetic::div_mod::lemma_add_mod_noop(self.focused as int, 1, count as int);
            vstd::arithmetic::div_mod::lemma_small_mod(at as nat, count as nat);
            if count > 1 {
                vstd::arithmetic::div_mod::lemma_small_mod(1, count as nat);
            }
            if at + 1 < count {
                vstd::arithmetic::div_mod::lemma_small_mod((at + 1) as nat, count as nat);
            } else {
                vstd::arithmetic::div_mod::lemma_mod_self_0(count as int);
            }
        }
        self.focused = if at + 1 == count {
            0
        } else {
            at + 1
        };
    }

    /// What `focus_prev_source` leaves as `after`.
    /// The focus has moved to the source before, from the first to the
    /// last; nothing else has changed, and without sources nothing at all.
    pub open spec fn focus_prev_source_post(&self, after: AppState) -> bool {
        &&& after == (AppState {
            focused: if self.sources@.len() == 0 {
                self.focused
            } else if self.focused == 0 {
                (self.sources@.len() - 1) as usize
            } else {
                (self.focused - 1) as usize
            },
            ..*self
        })
    }

    /// Gives the focus to the source before, the last before the first.
    pub fn focus_prev_source(&mut self)
        ensures
            old(self).focus_prev_source_post(*final(self)),
    {
        if self.sources.len() == 0 {
            return;
        }
        if self.focused == 0 {
            self.focused = self.sources.len() - 1;
        } else {
            self.focused -= 1;
        }
    }

    /// What `move_selection_up` leaves as `after`.
    /// The selection in the rule list has moved one rule up, not past the
    /// first; nothing else has changed.
    pub open spec fn move_selection_up_post(&self, after: AppState) -> bool {
        &&& after == (AppState {
            selected_filter: clamped_diff(self.selected_filter, 1),
            ..*self
        })
    }

    /// Moves the selection in the rule list one rule up.
    pub fn move_selection_up(&mut self)
        ensures
            old(self).move_selection_up_post(*final(self)),
    {
        if self.selected_filter > 0 {
            self.selected_filter -= 1;
        }
    }

    /// What `move_selection_down` leaves as `after`.
    /// The selection in the rule list has moved one rule down, not past
    /// the last; nothing else has changed.
    pub open spec fn move_selection_down_post(&self, after: AppState) -> bool {
        &&& after == (AppState {
            selected_filter: if self.selected_filter + 1 < self.filters@.len() {
                (self.selected_filter + 1) as usize
            } else {
                self.selected_filter
            },
            ..*self
        })
    }

    /// Moves the selection in the rule list one rule down, not past the
    /// last rule.
    pub fn move_selection_down(&mut self)
        ensures
            old(self).move_selection_down_post(*final(self)),
    {
        let count: usize = self.filters.len();
        if self.selected_filter < count && self.selected_filter + 1 < count {
            self.selected_filter += 1;
        }
    }

    /// The index of the rule that a removal takes: the selected one, or
    /// the last when the selection lies past the end.
    pub open spec fn removal_index(&self) -> int {
        if self.selected_filter >= self.filters@.len() {
            self.filters@.len() - 1
        } else {
            self.selected_filter as int
        }
    }

    /// What `remove_selected_filter` leaves as `after`.
    /// The selected rule is gone, or the last rule where the selection lay
    /// past the end, and the selection rests on a rule again if any is
    /// left; nothing else has changed, and with no rules nothing at all.
    pub open spec fn remove_selected_filter_post(&self, after: AppState) -> bool {
        &&& self.filters@.len() == 0 ==> after == *self
        &&& self.filters@.len() > 0 ==> {
            let at = self.removal_index();
            let left = self.filters@.len() - 1;
            &&& after == (AppState {
                filters: after.filters,
                selected_filter: after.selected_filter,
                ..*self
            })
            &&& after.filters@ == self.filters@.remove(at)
            &&& after.selected_filter == (if at >= left && left > 0 {
                left - 1
            } else {
                at
            })
        }
    }

    /// Removes the selected rule.  A selection past the end takes the
    /// last rule, and afterwards the selection rests on a rule again if
    /// any is left.
    pub fn remove_selected_filter(&mut self)
        ensures
            old(self).remove_selected_filter_post(*final(self)),
    {
        if self.filters.len() == 0 {
            return;
        }
        if self.selected_filter >= self.filters.len() {
            self.selected_filter = self.filters.len() - 1;
        }
        self.filters.remove(self.selected_filter);
        if self.selected_filter >= self.filters.len() && self.filters.len() > 0 {
            self.selected_filter = self.filters.len() - 1;
        }
    }

    /// What `toggle_selected_filter` leaves as `after`.
    /// The selected rule has been switched on or off; nothing else has
    /// changed, and nothing at all where the selection names no rule.
    pub open spec fn toggle_selected_filter_post(&self, after: AppState) -> bool {
        &&& self.selected_filter >= self.filters@.len() ==> after == *self
        &&& self.selected_filter < self.filters@.len() ==> {
            let at = self.selected_filter as int;
            &&& after == (AppState { filters: after.filters, ..*self })
            &&& after.filters@ == self.filters@.update(
                at,
                (FilterRule { enabled: !self.filters@[at].enabled, ..self.filters@[at] }),
            )
        }
    }

    /// Switches the selected rule on or off.  Nothing happens when the
    /// selection names no rule.
    pub fn toggle_selected_filter(&mut self)
        ensures
            old(self).toggle_selected_filter_post(*final(self)),
    {
        if self.selected_filter < self.filters.len() {
            let rule = &mut self.filters[self.selected_filter];
            rule.enabled = !rule.enabled;
        }
    }

    /// What `add_filter_from_input` leaves as `after`.
    /// The text of the filter input has become a new enabled rule at the
    /// end of the list, compiled if it compiles, and the input is empty;
    /// nothing else has changed, and nothing at all where the input was
    /// empty.
    pub open spec fn add_filter_from_input_post(&self, after: AppState) -> bool {
        &&& self.filter_input@.len() == 0 ==> after == *self
        &&& self.filter_input@.len() > 0 ==> {
            let fresh = FilterRule {
                pattern: self.filter_input,
                is_regex: self.input_is_regex,
                case_insensitive: self.input_case_insensitive,
                whole_word: self.input_whole_word,
                whole_line: self.input_whole_line,
                enabled: true,
                compiled: None,
                match_count: 0,
            };
            &&& after == (AppState {
                filters: after.filters,
                filter_input: after.filter_input,
                ..*self
            })
            &&& after.filters@ == self.filters@.push(
                (FilterRule { compiled: fresh.refreshed(), ..fresh }),
            )
            &&& after.filter_input@.len() == 0
        }
    }

    /// Turns the text of the filter input into a new enabled rule at the
    /// end of the list, compiled at once if it compiles, and empties the
    /// input.  An empty input adds nothing.
    pub fn add_filter_from_input(&mut self)
        ensures
            old(self).add_filter_from_input_post(*final(self)),
    {
        if self.filter_input.as_str().is_empty() {
            return;
        }
        let mut rule = FilterRule::new(
            self.filter_input.clone(),
            self.input_is_regex,
            self.input_case_insensitive,
            self.input_whole_word,
            self.input_whole_line,
        );
        rule.ensure_compiled();
        self.filters.push(rule);
        self.filter_input = String::new();
    }

    /// The matchers of the enabled rules that compile, compiled afresh.
    pub fn enabled_regexes(&self) -> (out: Vec<Regex>)
        ensures
            out@ == compiled_enabled(self.filters@),
    {
        compile_enabled_rules(self.filters.as_slice())
    }
}

/// The date given to the newest slot of a window made at `now`.
pub open spec fn clamped_back(now: u64) -> u64 {
    if now >= 59 {
        (now - 59) as u64
    } else {
        0
    }
}

/// Scrolling up never takes the view past the oldest line.
pub proof fn lemma_scroll_up_stays_in_buffer(before: AppState, after: AppState, n: usize)
    requires
        before.has_focus(),
        before.scroll_up_post(after, n),
    ensures
        after.has_focus(),
        after.current().scroll_offset <= after.current().max_offset(),
        !after.current().auto_scroll,
{
}

/// Scrolling down to the newest line makes the source follow new lines
/// again.
pub proof fn lemma_scroll_down_to_newest_follows(before: AppState, after: AppState, n: usize)
    requires
        before.has_focus(),
        before.scroll_down_post(after, n),
        after.current().scroll_offset == 0,
    ensures
        after.current().auto_scroll,
{
}

} // verus!
