//! Ingestion: what one arriving line does to the statistics, the rule
//! counters, the alert and the buffer of its source.

use crate::clock::{current_epoch_millis, seconds_of, whole_seconds};
use crate::engine::{escaped, regex_build, regex_clone, regex_escape};
use crate::filter::{any_matches, compile_pattern, line_matches, FilterRule};
use crate::state::{
    deadline_after, AlertState, AppState, Source, ALERT_BLINK_MS, ALERT_DISPLAY_MS,
};
use regex::Regex;
use vstd::prelude::*;

verus! {

impl Source {
    /// `after` is this source with `line` appended: the view returns to
    /// the newest line if the source follows new lines and stays where it
    /// is otherwise; the selection stays.
    pub open spec fn appended(&self, after: Source, line: String) -> bool {
        &&& after.name == self.name
        &&& after.path == self.path
        &&& after.lines@ == self.lines@.push(line)
        &&& after.scroll_offset == (if self.auto_scroll {
            0
        } else {
            self.scroll_offset
        })
        &&& after.auto_scroll == self.auto_scroll
        &&& after.selected_log == self.selected_log
    }

    /// Appends a line to the buffer.
    pub fn push_line(&mut self, line: String)
        ensures
            old(self).appended(*final(self), line),
            old(self).wf() ==> final(self).wf(),
    {
        self.lines.push(line);
        if self.auto_scroll {
            self.scroll_offset = 0;
        }
    }
}

/// The matchers of the alert patterns that are not empty and compile, in
/// the order of the patterns.  An alert pattern is a literal text, matched
/// with regard to letter case.
pub open spec fn alert_matchers(patterns: Seq<String>) -> Seq<Regex>
    decreases patterns.len(),
{
    if patterns.len() == 0 {
        Seq::empty()
    } else {
        let rest = alert_matchers(patterns.drop_last());
        let text = patterns.last()@;
        if text.len() > 0 && regex_build(escaped(text), false) is Ok {
            rest.push(regex_build(escaped(text), false)->Ok_0)
        } else {
            rest
        }
    }
}

impl AlertState {
    /// The alert state after a line has arrived at `now_ms`: a line that
    /// some alert pattern accepts arms the alert afresh with the line as
    /// its message; any other line leaves it as it is.
    pub open spec fn after_line(&self, now_ms: u128, line: String) -> AlertState {
        if any_matches(self.patterns@, line@) {
            AlertState {
                alert_message: Some(line),
                alert_deadline_ms: deadline_after(now_ms, ALERT_DISPLAY_MS),
                alert_blink_deadline_ms: deadline_after(now_ms, ALERT_BLINK_MS),
                ..*self
            }
        } else {
            *self
        }
    }

    /// Whether a line raises an alert: never while there are no alert
    /// patterns, else when one of them accepts it.
    pub fn accepts(&self, line: &str) -> (b: bool)
        ensures
            b == any_matches(self.patterns@, line@),
    {
        self.patterns.len() > 0 && line_matches(line, self.patterns.as_slice())
    }

    /// Shows a line to the alert patterns.
    pub fn observe(&mut self, now_ms: u128, line: &String)
        ensures
            *final(self) == old(self).after_line(now_ms, *line),
    {
        if self.accepts(line.as_str()) {
            self.alert_message = Some(line.clone());
            self.alert_deadline_ms = now_ms.saturating_add(ALERT_DISPLAY_MS);
            self.alert_blink_deadline_ms = now_ms.saturating_add(ALERT_BLINK_MS);
        }
    }
}

impl AppState {
    /// Replaces the alert patterns.  Empty patterns and patterns that the
    /// engine refuses are left out; an empty list switches alerts off.
    pub fn set_alert_patterns(&mut self, patterns: &Vec<String>)
        ensures
            *final(self) == (AppState {
                alerts: AlertState { patterns: final(self).alerts.patterns, ..old(self).alerts },
                ..*old(self)
            }),
            final(self).alerts.patterns@ == alert_matchers(patterns@),
    {
        let mut out: Vec<Regex> = Vec::new();
        let mut i: usize = 0;
        while i < patterns.len()
            invariant
                i <= patterns@.len(),
                out@ == alert_matchers(patterns@.take(i as int)),
            decreases patterns@.len() - i,
        {
            assert(patterns@.take(i + 1).drop_last() == patterns@.take(i as int));
            if !patterns[i].as_str().is_empty() {
                let text = regex_escape(patterns[i].as_str());
                match compile_pattern(text.as_str(), false) {
                    Ok(re) => {
                        out.push(re);
                    },
                    Err(_) => {},
                }
            }
            i += 1;
        }
        assert(patterns@.take(patterns@.len() as int) == patterns@);
        self.alerts.patterns = out;
    }

    /// The alert matchers.
    pub fn alert_enabled_regexes(&self) -> (out: Vec<Regex>)
        ensures
            out@ == self.alerts.patterns@,
    {
        let mut out: Vec<Regex> = Vec::new();
        let mut i: usize = 0;
        while i < self.alerts.patterns.len()
            invariant
                i <= self.alerts.patterns@.len(),
                out@ == self.alerts.patterns@.take(i as int),
            decreases self.alerts.patterns@.len() - i,
        {
            out.push(regex_clone(&self.alerts.patterns[i]));
            assert(self.alerts.patterns@.take(i + 1) == self.alerts.patterns@.take(i as int).push(
                self.alerts.patterns@[i as int],
            ));
            i += 1;
        }
        assert(self.alerts.patterns@.take(self.alerts.patterns@.len() as int)
            == self.alerts.patterns@);
        out
    }

    /// Whether an alert is showing at `now_ms`.
    pub fn alert_active(&self, now_ms: u128) -> (b: bool)
        ensures
            b == (self.alerts.alert_deadline_ms > now_ms),
    {
        self.alerts.alert_deadline_ms > now_ms
    }

    /// Whether the alert is in the lit half of its blink at `now_ms`: it
    /// blinks until the blink deadline, lit in every other stretch of 400
    /// milliseconds.
    pub fn alert_blinking(&self, now_ms: u128) -> (b: bool)
        ensures
            b == (now_ms < self.alerts.alert_blink_deadline_ms && (now_ms / 400) % 2 == 0),
    {
        now_ms < self.alerts.alert_blink_deadline_ms && (now_ms / 400) % 2 == 0
    }

    /// Shows a line to every rule and to the classifier: each enabled rule
    /// counts it if it matches, and the newest slot of the window counts it
    /// in the classes it belongs to.
    pub fn classify_and_count(&mut self, line: &str)
        ensures
            *final(self) == (AppState {
                filters: final(self).filters,
                stats: final(self).stats,
                ..*old(self)
            }),
            final(self).filters@ == old(self).filters@.map_values(
                |rule: FilterRule| rule.counted(line@),
            ),
            old(self).stats.recorded(final(self).stats, line@),
    {
        let mut i: usize = 0;
        while i < self.filters.len()
            invariant
                i <= self.filters@.len(),
                *self == (AppState { filters: self.filters, ..*old(self) }),
                self.filters@.len() == old(self).filters@.len(),
                forall|k: int|
                    0 <= k < i ==> #[trigger] self.filters@[k] == old(self).filters@[k].counted(
                        line@,
                    ),
                forall|k: int|
                    i <= k < self.filters@.len() ==> #[trigger] self.filters@[k] == old(self).filters@[k],
            decreases self.filters@.len() - i,
        {
            let rule = &mut self.filters[i];
            rule.count_line(line);
            i += 1;
        }
        assert(self.filters@ =~= old(self).filters@.map_values(
            |rule: FilterRule| rule.counted(line@),
        ));
        self.stats.record(line);
    }

    /// What taking in a line at clock reading `now_ms` does: `after` is the
    /// state that `push_line_at` leaves.  The window has moved up to the
    /// present second and counted the line, every enabled rule has counted
    /// it if it matches, the alert is armed if an alert pattern accepts it,
    /// and the line stands at the end of its source.  A line for a source
    /// that does not exist is counted but not stored.
    pub open spec fn push_line_at_post(
        &self,
        after: AppState,
        now_ms: u128,
        source_id: usize,
        line: String,
    ) -> bool {
        &&& after == (AppState {
            sources: after.sources,
            filters: after.filters,
            stats: after.stats,
            alerts: after.alerts,
            ..*self
        })
        &&& self.stats.ingested(after.stats, whole_seconds(now_ms), line@)
        &&& after.filters@ == self.filters@.map_values(|rule: FilterRule| rule.counted(line@))
        &&& after.alerts == self.alerts.after_line(now_ms, line)
        &&& source_id >= self.sources@.len() ==> after.sources == self.sources
        &&& source_id < self.sources@.len() ==> {
            &&& after.sources@.len() == self.sources@.len()
            &&& self.sources@[source_id as int].appended(after.sources@[source_id as int], line)
            &&& forall|j: int|
                0 <= j < self.sources@.len() && j != source_id ==> #[trigger] after.sources@[j]
                    == self.sources@[j]
        }
    }

    /// Takes in one line for the source `source_id` at clock reading
    /// `now_ms`.
    pub fn push_line_at(&mut self, now_ms: u128, source_id: usize, line: String)
        ensures
            old(self).push_line_at_post(*final(self), now_ms, source_id, line),
            old(self).wf() ==> final(self).wf(),
    {
        self.stats.update_buckets(seconds_of(now_ms));
        self.classify_and_count(line.as_str());
        self.alerts.observe(now_ms, &line);
        if source_id < self.sources.len() {
            let src = &mut self.sources[source_id];
            src.push_line(line);
        }
    }

    /// Takes in one line for the source `source_id` now: reads the clock
    /// and does what `push_line_at` does at that reading, whatever it is.
    pub fn push_line_for(&mut self, source_id: usize, line: String)
        ensures
            exists|now_ms: u128| old(self).push_line_at_post(*final(self), now_ms, source_id, line),
            old(self).wf() ==> final(self).wf(),
    {
        let now_ms = current_epoch_millis();
        self.push_line_at(now_ms, source_id, line);
    }

    /// Moves the statistics window up to the present second.
    pub fn update_buckets_for_now(&mut self)
        ensures
            *final(self) == (AppState { stats: final(self).stats, ..*old(self) }),
            exists|now: u64| old(self).stats.moved_to(final(self).stats, now),
    {
        let now = seconds_of(current_epoch_millis());
        self.stats.update_buckets(now);
    }
}

} // verus!
