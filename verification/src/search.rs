//! Search and navigation: the search panel, and the jump from the selected
//! line to the next or the previous line that the search accepts, going
//! round the buffer once.

use crate::engine::{escaped, regex_build, regex_clone, regex_is_match};
use crate::filter::{compiled_enabled, is_match, FilterRule};
use crate::state::{AppState, SearchState, Source};
use crate::text::{string_pop, string_push};
use regex::Regex;
use vstd::arithmetic::div_mod::{
    lemma_add_mod_noop, lemma_add_mod_noop_right, lemma_mod_add_multiples_vanish,
    lemma_mod_bound, lemma_mod_self_0, lemma_small_mod, lemma_sub_mod_noop,
    lemma_sub_mod_noop_right,
};
use vstd::prelude::*;

verus! {

/// The index that a forward scan of a buffer of `n` lines visits at step
/// `k` when it starts just after line `cur`.
pub open spec fn step_forward(cur: int, k: int, n: int) -> int {
    (cur + 1 + k) % n
}

/// The index that a backward scan of a buffer of `n` lines visits at step
/// `k` when it starts just before line `cur`.
pub open spec fn step_backward(cur: int, k: int, n: int) -> int {
    (cur - 1 - k) % n
}

/// One step on along the ring of `n` indices.
proof fn lemma_mod_succ(x: int, n: int)
    requires
        n > 0,
    ensures
        (x + 1) % n == (if x % n + 1 == n {
            0
        } else {
            x % n + 1
        }),
{
    lemma_add_mod_noop(x, 1, n);
    lemma_mod_bound(x, n);
    if n == 1 {
        lemma_mod_bound(x + 1, n);
    } else {
        lemma_small_mod(1, n as nat);
        if x % n + 1 < n {
            lemma_small_mod((x % n + 1) as nat, n as nat);
        } else {
            lemma_mod_self_0(n);
        }
    }
}

/// One step back along the ring of `n` indices.
proof fn lemma_mod_pred(x: int, n: int)
    requires
        n > 0,
    ensures
        (x - 1) % n == (if x % n == 0 {
            n - 1
        } else {
            x % n - 1
        }),
{
    lemma_sub_mod_noop(x, 1, n);
    lemma_mod_bound(x, n);
    if n == 1 {
        lemma_mod_bound(x - 1, n);
    } else {
        lemma_small_mod(1, n as nat);
        if x % n == 0 {
            lemma_mod_add_multiples_vanish(-1, n);
            lemma_small_mod((n - 1) as nat, n as nat);
        } else {
            lemma_small_mod((x % n - 1) as nat, n as nat);
        }
    }
}

/// A forward scan of `n` steps visits every index.
proof fn lemma_forward_visits(cur: int, i: int, n: int)
    requires
        n > 0,
        0 <= i < n,
    ensures
        0 <= (i - cur - 1) % n < n,
        step_forward(cur, (i - cur - 1) % n, n) == i,
{
    lemma_mod_bound(i - cur - 1, n);
    lemma_add_mod_noop_right(cur + 1, i - cur - 1, n);
    lemma_small_mod(i as nat, n as nat);
}

/// A backward scan of `n` steps visits every index.
proof fn lemma_backward_visits(cur: int, i: int, n: int)
    requires
        n > 0,
        0 <= i < n,
    ensures
        0 <= (cur - 1 - i) % n < n,
        step_backward(cur, (cur - 1 - i) % n, n) == i,
{
    lemma_mod_bound(cur - 1 - i, n);
    lemma_sub_mod_noop_right(cur - 1, cur - 1 - i, n);
    lemma_small_mod(i as nat, n as nat);
}

impl Source {
    /// The search accepts line `i`.
    pub open spec fn hit(&self, re: Regex, i: int) -> bool {
        regex_is_match(re, self.lines@[i]@)
    }

    /// The line a forward jump starts after: the selected line, or the
    /// last line when nothing valid is selected, so that the scan begins
    /// at the first line.
    pub open spec fn forward_cursor(&self) -> int {
        match self.selected_log {
            Some(i) => if i < self.lines@.len() {
                i as int
            } else {
                self.lines@.len() - 1
            },
            None => self.lines@.len() - 1,
        }
    }

    /// The line a backward jump starts before: the selected line, or the
    /// first line when nothing valid is selected, so that the scan begins
    /// at the last line.
    pub open spec fn backward_cursor(&self) -> int {
        match self.selected_log {
            Some(i) => if i < self.lines@.len() {
                i as int
            } else {
                0
            },
            None => 0,
        }
    }

    /// `found` is the outcome of a forward jump: the first line that the
    /// search accepts on the way from just after the cursor once round the
    /// buffer, the cursor's own line coming last; or nothing when the
    /// search accepts no line at all.
    pub open spec fn is_next_match(&self, re: Regex, found: Option<usize>) -> bool {
        let n = self.lines@.len() as int;
        let cur = self.forward_cursor();
        match found {
            Some(at) => exists|k: int|
                {
                    &&& 0 <= k < n
                    &&& at == #[trigger] step_forward(cur, k, n)
                    &&& self.hit(re, at as int)
                    &&& forall|j: int| 0 <= j < k ==> !self.hit(re, #[trigger] step_forward(cur, j, n))
                },
            None => forall|i: int| 0 <= i < n ==> !#[trigger] self.hit(re, i),
        }
    }

    /// `found` is the outcome of a backward jump: the first line that the
    /// search accepts on the way from just before the cursor once round
    /// the buffer, the cursor's own line coming last; or nothing when the
    /// search accepts no line at all.
    pub open spec fn is_prev_match(&self, re: Regex, found: Option<usize>) -> bool {
        let n = self.lines@.len() as int;
        let cur = self.backward_cursor();
        match found {
            Some(at) => exists|k: int|
                {
                    &&& 0 <= k < n
                    &&& at == #[trigger] step_backward(cur, k, n)
                    &&& self.hit(re, at as int)
                    &&& forall|j: int|
                        0 <= j < k ==> !self.hit(re, #[trigger] step_backward(cur, j, n))
                },
            None => forall|i: int| 0 <= i < n ==> !#[trigger] self.hit(re, i),
        }
    }

    /// Scans forward from just after the selected line, round the end of
    /// the buffer, for the first line that the matcher accepts.
    pub fn next_match(&self, re: &Regex) -> (found: Option<usize>)
        ensures
            self.is_next_match(*re, found),
    {
        let n: usize = self.lines.len();
        if n == 0 {
            return None;
        }
        let cur: usize = match self.selected_log {
            Some(i) => if i < n {
                i
            } else {
                n - 1
            },
            None => n - 1,
        };
        let mut at: usize = if cur + 1 == n {
            0
        } else {
            cur + 1
        };
        let mut k: usize = 0;
        proof {
            lemma_mod_succ(cur as int, n as int);
            lemma_small_mod(cur as nat, n as nat);
        }
        while k < n
            invariant
                n == self.lines@.len(),
                cur == self.forward_cursor(),
                cur < n,
                k <= n,
                at < n,
                at == step_forward(cur as int, k as int, n as int),
                forall|j: int|
                    0 <= j < k ==> !self.hit(*re, #[trigger] step_forward(cur as int, j, n as int)),
            decreases n - k,
        {
            if is_match(re, self.lines[at].as_str()) {
                return Some(at);
            }
            proof {
                lemma_mod_succ(cur + 1 + k, n as int);
            }
            at = if at + 1 == n {
                0
            } else {
                at + 1
            };
            k += 1;
        }
        proof {
            assert forall|i: int| 0 <= i < n implies !#[trigger] self.hit(*re, i) by {
                lemma_forward_visits(cur as int, i, n as int);
            }
        }
        None
    }

    /// Scans backward from just before the selected line, round the start
    /// of the buffer, for the first line that the matcher accepts.
    pub fn prev_match(&self, re: &Regex) -> (found: Option<usize>)
        ensures
            self.is_prev_match(*re, found),
    {
        let n: usize = self.lines.len();
        if n == 0 {
            return None;
        }
        let cur: usize = match self.selected_log {
            Some(i) => if i < n {
                i
            } else {
                0
            },
            None => 0,
        };
        let mut at: usize = if cur == 0 {
            n - 1
        } else {
            cur - 1
        };
        let mut k: usize = 0;
        proof {
            lemma_mod_pred(cur as int, n as int);
            lemma_small_mod(cur as nat, n as nat);
        }
        while k < n
            invariant
                n == self.lines@.len(),
                cur == self.backward_cursor(),
                cur < n,
                k <= n,
                at < n,
                at == step_backward(cur as int, k as int, n as int),
                forall|j: int|
                    0 <= j < k ==> !self.hit(*re, #[trigger] step_backward(cur as int, j, n as int)),
            decreases n - k,
        {
            if is_match(re, self.lines[at].as_str()) {
                return Some(at);
            }
            proof {
                lemma_mod_pred(cur - 1 - k, n as int);
            }
            at = if at == 0 {
                n - 1
            } else {
                at - 1
            };
            k += 1;
        }
        proof {
            assert forall|i: int| 0 <= i < n implies !#[trigger] self.hit(*re, i) by {
                lemma_backward_visits(cur as int, i, n as int);
            }
        }
        None
    }
}

impl SearchState {
    /// The matcher that applying the search gives: none for an empty
    /// input or one that does not compile; else the input compiled as a
    /// regular expression or as a literal, with the panel's case flag.
    pub open spec fn applied(&self) -> Option<Regex> {
        let body = if self.is_regex {
            self.search_input@
        } else {
            escaped(self.search_input@)
        };
        if self.search_input@.len() == 0 {
            None
        } else {
            match regex_build(body, self.case_insensitive) {
                Ok(re) => Some(re),
                Err(_) => None,
            }
        }
    }
}

impl AppState {
    /// The search is ready to jump: a search has been applied and a source
    /// has the focus.
    pub open spec fn can_jump(&self) -> bool {
        self.search.active is Some && self.has_focus()
    }

    /// What `open_search` leaves as `after`.
    /// The search panel is open; nothing else has changed.
    pub open spec fn open_search_post(&self, after: AppState) -> bool {
        &&& after == (AppState {
            search: SearchState { search_open: true, ..self.search },
            ..*self
        })
    }

    /// Opens the search panel.
    pub fn open_search(&mut self)
        ensures
            old(self).open_search_post(*final(self)),
    {
        self.search.search_open = true;
    }

    /// What `close_search` leaves as `after`.
    /// The search panel is closed; nothing else has changed.
    pub open spec fn close_search_post(&self, after: AppState) -> bool {
        &&& after == (AppState {
            search: SearchState { search_open: false, ..self.search },
            ..*self
        })
    }

    /// Closes the search panel.
    pub fn close_search(&mut self)
        ensures
            old(self).close_search_post(*final(self)),
    {
        self.search.search_open = false;
    }

    /// What `search_push_char` leaves as `after`.
    /// The search input has `c` at its end; nothing else has changed.
    pub open spec fn search_push_char_post(&self, after: AppState, c: char) -> bool {
        &&& after == (AppState {
            search: SearchState {
                search_input: after.search.search_input,
                ..self.search
            },
            ..*self
        })
        &&& after.search.search_input@ == self.search.search_input@.push(c)
    }

    /// Appends a character to the search input.
    pub fn search_push_char(&mut self, c: char)
        ensures
            old(self).search_push_char_post(*final(self), c),
    {
        string_push(&mut self.search.search_input, c);
    }

    /// What `search_pop_char` leaves as `after`.
    /// The search input has lost its last character, if it had one;
    /// nothing else has changed.
    pub open spec fn search_pop_char_post(&self, after: AppState) -> bool {
        &&& after == (AppState {
            search: SearchState {
                search_input: after.search.search_input,
                ..self.search
            },
            ..*self
        })
        &&& after.search.search_input@ == (if self.search.search_input@.len() == 0 {
            self.search.search_input@
        } else {
            self.search.search_input@.drop_last()
        })
    }

    /// Removes the last character of the search input, if it has one.
    pub fn search_pop_char(&mut self)
        ensures
            old(self).search_pop_char_post(*final(self)),
    {
        let _ = string_pop(&mut self.search.search_input);
    }

    /// What `apply_search` leaves as `after`.
    /// The search input has become the active search, or no search is
    /// active where the input is empty or does not compile; nothing else
    /// has changed.
    pub open spec fn apply_search_post(&self, after: AppState) -> bool {
        &&& after == (AppState {
            search: SearchState { active: self.search.applied(), ..self.search },
            ..*self
        })
    }

    /// Makes the search input the active search.  An empty input, or one
    /// that does not compile, leaves no search active.
    pub fn apply_search(&mut self)
        ensures
            old(self).apply_search_post(*final(self)),
    {
        if self.search.search_input.as_str().is_empty() {
            self.search.active = None;
            return;
        }
        let rule = FilterRule::new(
            self.search.search_input.clone(),
            self.search.is_regex,
            self.search.case_insensitive,
            false,
            false,
        );
        self.search.active = match rule.compile() {
            Ok(re) => Some(re),
            Err(_) => None,
        };
    }

    /// What a forward jump does: `after` is the state it leaves and `found`
    /// what it reports.  A jump that finds a line selects it and touches
    /// nothing else; one that finds none leaves the state as it was, and
    /// then, if the search was ready, no line of the focused source is
    /// accepted.
    pub open spec fn jump_next_match_post(&self, after: AppState, found: bool) -> bool {
        if found {
            &&& self.can_jump()
            &&& after.current().selected_log is Some
            &&& self.current().is_next_match(
                self.search.active->0,
                after.current().selected_log,
            )
            &&& self.refocused(
                after,
                (Source { selected_log: after.current().selected_log, ..self.current() }),
            )
        } else {
            &&& after == *self
            &&& self.can_jump() ==> self.current().is_next_match(self.search.active->0, None)
        }
    }

    /// Jumps to the next line that the active search accepts, going round
    /// the end of the buffer once.  Reports whether there was one; without
    /// one, or without an active search or a focused source, nothing
    /// changes.
    pub fn jump_next_match(&mut self) -> (found: bool)
        ensures
            old(self).jump_next_match_post(*final(self), found),
            old(self).wf() ==> final(self).wf(),
    {
        let target: Option<usize> = match &self.search.active {
            Some(re) => if self.focused < self.sources.len() {
                self.sources[self.focused].next_match(re)
            } else {
                None
            },
            None => None,
        };
        match target {
            Some(at) => {
                let src = &mut self.sources[self.focused];
                src.selected_log = Some(at);
                proof {
                    lemma_next_in_range(old(self).current(), old(self).search.active->0, at);
                }
                true
            },
            None => false,
        }
    }

    /// What a backward jump does: `after` is the state it leaves and `found`
    /// what it reports.  A jump that finds a line selects it and touches
    /// nothing else; one that finds none leaves the state as it was, and
    /// then, if the search was ready, no line of the focused source is
    /// accepted.
    pub open spec fn jump_prev_match_post(&self, after: AppState, found: bool) -> bool {
        if found {
            &&& self.can_jump()
            &&& after.current().selected_log is Some
            &&& self.current().is_prev_match(
                self.search.active->0,
                after.current().selected_log,
            )
            &&& self.refocused(
                after,
                (Source { selected_log: after.current().selected_log, ..self.current() }),
            )
        } else {
            &&& after == *self
            &&& self.can_jump() ==> self.current().is_prev_match(self.search.active->0, None)
        }
    }

    /// Jumps to the previous line that the active search accepts, going
    /// round the start of the buffer once.  Reports whether there was one;
    /// without one, or without an active search or a focused source,
    /// nothing changes.
    pub fn jump_prev_match(&mut self) -> (found: bool)
        ensures
            old(self).jump_prev_match_post(*final(self), found),
            old(self).wf() ==> final(self).wf(),
    {
        let target: Option<usize> = match &self.search.active {
            Some(re) => if self.focused < self.sources.len() {
                self.sources[self.focused].prev_match(re)
            } else {
                None
            },
            None => None,
        };
        match target {
            Some(at) => {
                let src = &mut self.sources[self.focused];
                src.selected_log = Some(at);
                proof {
                    lemma_prev_in_range(old(self).current(), old(self).search.active->0, at);
                }
                true
            },
            None => false,
        }
    }

    /// The matchers whose matches are highlighted: those of the enabled
    /// rules that compile, then the active search if there is one.
    pub fn active_highlight_regexes(&self) -> (out: Vec<Regex>)
        ensures
            out@ == (match self.search.active {
                Some(re) => compiled_enabled(self.filters@).push(re),
                None => compiled_enabled(self.filters@),
            }),
    {
        let mut out = self.enabled_regexes();
        match &self.search.active {
            Some(re) => {
                out.push(regex_clone(re));
            },
            None => {},
        }
        out
    }
}

/// A line found by a forward jump is a line of the buffer.
pub proof fn lemma_next_in_range(src: Source, re: Regex, at: usize)
    requires
        src.is_next_match(re, Some(at)),
    ensures
        at < src.lines@.len(),
{
    let n = src.lines@.len() as int;
    let k = choose|k: int|
        0 <= k < n && at == #[trigger] step_forward(src.forward_cursor(), k, n) && src.hit(
            re,
            at as int,
        );
    lemma_mod_bound(src.forward_cursor() + 1 + k, n);
}

/// A line found by a backward jump is a line of the buffer.
pub proof fn lemma_prev_in_range(src: Source, re: Regex, at: usize)
    requires
        src.is_prev_match(re, Some(at)),
    ensures
        at < src.lines@.len(),
{
    let n = src.lines@.len() as int;
    let k = choose|k: int|
        0 <= k < n && at == #[trigger] step_backward(src.backward_cursor(), k, n) && src.hit(
            re,
            at as int,
        );
    lemma_mod_bound(src.backward_cursor() - 1 - k, n);
}

/// When the search accepts exactly one line of the buffer, a forward jump
/// finds that line wherever the selection stands: from the last line it
/// goes round the end of the buffer to reach it.
pub proof fn lemma_forward_finds_single_match(src: Source, re: Regex, only: int, found: Option<usize>)
    requires
        src.is_next_match(re, found),
        0 <= only < src.lines@.len(),
        src.hit(re, only),
        forall|i: int| 0 <= i < src.lines@.len() && i != only ==> !#[trigger] src.hit(re, i),
    ensures
        found == Some(only as usize),
{
    match found {
        Some(at) => {
            lemma_next_in_range(src, re, at);
        },
        None => {},
    }
}

/// When the search accepts exactly one line of the buffer, a backward jump
/// finds that line wherever the selection stands.
pub proof fn lemma_backward_finds_single_match(src: Source, re: Regex, only: int, found: Option<usize>)
    requires
        src.is_prev_match(re, found),
        0 <= only < src.lines@.len(),
        src.hit(re, only),
        forall|i: int| 0 <= i < src.lines@.len() && i != only ==> !#[trigger] src.hit(re, i),
    ensures
        found == Some(only as usize),
{
    match found {
        Some(at) => {
            lemma_prev_in_range(src, re, at);
        },
        None => {},
    }
}

/// When the search accepts no line of the focused source, a jump reports
/// failure and leaves the state as it was.
pub proof fn lemma_no_match_no_jump(before: AppState, after: AppState, found: bool)
    requires
        before.jump_next_match_post(after, found) || before.jump_prev_match_post(after, found),
        before.can_jump() ==> forall|i: int|
            0 <= i < before.current().lines@.len() ==> !#[trigger] before.current().hit(
                before.search.active->0,
                i,
            ),
    ensures
        !found,
        after == before,
{
    if found {
        let src = before.current();
        let re = before.search.active->0;
        let at = after.current().selected_log->0;
        if before.jump_next_match_post(after, found) {
            lemma_next_in_range(src, re, at);
        } else {
            lemma_prev_in_range(src, re, at);
        }
    }
}

} // verus!
