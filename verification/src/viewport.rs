//! The stretch of a buffer that is on screen, the stretch that the
//! context panel shows around the selected line, and the pace of the
//! screen.

use crate::engine::regex_is_match;
use crate::filter::{any_matches, compiled_enabled, line_matches};
use crate::highlight::{highlight_line, is_highlighting, Segment};
use crate::state::{clamped_diff, clamped_sum, AppState, Source};
use regex::Regex;
use vstd::prelude::*;

verus! {

/// The least time between two paints, in milliseconds: about thirty frames
/// a second.
pub const FRAME_INTERVAL_MS: u128 = 33;

/// How long the loop rests when no paint is due, in milliseconds.
pub const IDLE_SLEEP_MS: u64 = 10;

/// Whether the screen is due for a paint, so long after the last one.
pub fn frame_due(elapsed_ms: u128) -> (due: bool)
    ensures
        due == (elapsed_ms >= FRAME_INTERVAL_MS),
{
    elapsed_ms >= FRAME_INTERVAL_MS
}

/// The lines on screen, as a half-open range of indices: the view ends
/// `scroll_offset` lines before the newest line and holds `height` lines
/// once the buffer is longer than that.
pub open spec fn visible(total: usize, height: usize, scroll_offset: usize) -> (usize, usize) {
    (
        if total > height {
            clamped_diff(total, clamped_sum(height, scroll_offset))
        } else {
            0
        },
        clamped_diff(total, scroll_offset),
    )
}

/// The range of line indices on screen.
pub fn visible_range(total: usize, height: usize, scroll_offset: usize) -> (r: (usize, usize))
    ensures
        r == visible(total, height, scroll_offset),
        r.0 <= r.1 <= total,
{
    let start: usize = if total > height {
        total.saturating_sub(height.saturating_add(scroll_offset))
    } else {
        0
    };
    (start, total.saturating_sub(scroll_offset))
}

/// The lines of the context panel, as a half-open range of indices: up to
/// `radius` lines on each side of the selected line, within the buffer.
pub open spec fn context(selected: usize, radius: usize, total: usize) -> (usize, usize) {
    (
        clamped_diff(selected, radius),
        if clamped_sum(clamped_sum(selected, radius), 1) < total {
            clamped_sum(clamped_sum(selected, radius), 1)
        } else {
            total
        },
    )
}

/// The range of line indices that the context panel shows.
pub fn context_range(selected: usize, radius: usize, total: usize) -> (r: (usize, usize))
    ensures
        r == context(selected, radius, total),
        r.1 <= total,
        selected < total ==> r.0 <= selected < r.1,
{
    let from: usize = selected.saturating_sub(radius);
    let reach: usize = selected.saturating_add(radius).saturating_add(1);
    (
        from,
        if reach < total {
            reach
        } else {
            total
        },
    )
}

/// One line of the log as it is to be painted.
#[derive(Debug, Clone, PartialEq, Eq)]
pub struct Row {
    /// The index of the line in the buffer of its source.
    pub index: usize,
    /// The line cut into highlighted and plain stretches.
    pub segments: Vec<Segment>,
    /// An alert pattern accepts the line.
    pub alert: bool,
    /// The line is the selected one.
    pub selected: bool,
}

/// The indices of a list of rows.
pub open spec fn row_indices(rows: Seq<Row>) -> Seq<int> {
    rows.map_values(|row: Row| row.index as int)
}

/// The indices from `from` up to `to` of the lines that the matchers let
/// through, in order.  An empty set of matchers lets every line through.
pub open spec fn shown_between(src: Source, filters: Seq<Regex>, from: int, to: int) -> Seq<int>
    decreases to - from,
{
    if from >= to {
        Seq::empty()
    } else if filters.len() == 0 || any_matches(filters, src.lines@[to - 1]@) {
        shown_between(src, filters, from, to - 1).push(to - 1)
    } else {
        shown_between(src, filters, from, to - 1)
    }
}

impl AppState {
    /// The matchers whose matches are highlighted.
    pub open spec fn highlight_set(&self) -> Seq<Regex> {
        match self.search.active {
            Some(re) => compiled_enabled(self.filters@).push(re),
            None => compiled_enabled(self.filters@),
        }
    }

    /// `row` shows a line of the focused source as it is: cut along the
    /// highlight spans, marked as an alert if an alert pattern accepts it,
    /// and marked as selected if it is the selected line.
    pub open spec fn shows(&self, row: Row) -> bool {
        let src = self.current();
        &&& row.index < src.lines@.len()
        &&& is_highlighting(row.segments@, src.lines@[row.index as int]@, self.highlight_set())
        &&& row.alert == any_matches(self.alerts.patterns@, src.lines@[row.index as int]@)
        &&& row.selected == (src.selected_log == Some(row.index))
    }

    /// The rows to paint in a view of `height` lines: of the lines of the
    /// focused source that are on screen, those that the enabled rules let
    /// through, oldest first.
    pub fn visible_rows(&self, height: usize) -> (rows: Vec<Row>)
        ensures
            !self.has_focus() ==> rows@.len() == 0,
            self.has_focus() ==> {
                let src = self.current();
                let range = visible(src.lines@.len() as usize, height, src.scroll_offset);
                &&& row_indices(rows@) == shown_between(
                    src,
                    compiled_enabled(self.filters@),
                    range.0 as int,
                    range.1 as int,
                )
                &&& forall|k: int| 0 <= k < rows@.len() ==> self.shows(#[trigger] rows@[k])
            },
    {
        let mut rows: Vec<Row> = Vec::new();
        if self.focused >= self.sources.len() {
            return rows;
        }
        let filters = self.enabled_regexes();
        let highlights = self.active_highlight_regexes();
        let src = &self.sources[self.focused];
        let (start, end) = visible_range(src.lines.len(), height, src.scroll_offset);
        let mut i: usize = start;
        assert(row_indices(rows@) =~= shown_between(*src, filters@, start as int, start as int));
        while i < end
            invariant
                self.has_focus(),
                *src == self.current(),
                filters@ == compiled_enabled(self.filters@),
                highlights@ == self.highlight_set(),
                start <= i <= end,
                end <= src.lines@.len(),
                (start, end) == visible(src.lines@.len() as usize, height, src.scroll_offset),
                row_indices(rows@) == shown_between(*src, filters@, start as int, i as int),
                forall|k: int| 0 <= k < rows@.len() ==> self.shows(#[trigger] rows@[k]),
            decreases end - i,
        {
            let text = src.lines[i].as_str();
            if line_matches(text, filters.as_slice()) {
                let selected = match src.selected_log {
                    Some(at) => at == i,
                    None => false,
                };
                let row = Row {
                    index: i,
                    segments: highlight_line(text, highlights.as_slice()),
                    alert: self.alerts.accepts(text),
                    selected,
                };
                let ghost before = rows@;
                rows.push(row);
                assert(row_indices(rows@) =~= row_indices(before).push(i as int));
            }
            i += 1;
        }
        rows
    }
}

} // verus!
