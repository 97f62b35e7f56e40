//! Rolling statistics: a fixed window of per-second counters for error-like
//! and warning-like lines.

use crate::text::{contains_chars, folded, folded_chars_of, has_substring};
use vstd::prelude::*;

verus! {

/// The number of seconds the window spans.
pub const SPARK_WINDOW: usize = 60;

/// The per-second counters of the last `SPARK_WINDOW` seconds, oldest
/// first.  The newest slot belongs to the second `bucket_epoch_sec`.
#[derive(Debug, Clone, Copy)]
pub struct StatsWindow {
    pub err_buckets: [u16; 60],
    pub warn_buckets: [u16; 60],
    pub bucket_epoch_sec: u64,
}

impl Default for StatsWindow {
    /// An empty window dated at the start of time.
    fn default() -> (w: StatsWindow)
        ensures
            w.errors() == Seq::new(60, |i: int| 0u16),
            w.warnings() == Seq::new(60, |i: int| 0u16),
            w.bucket_epoch_sec == 0,
    {
        StatsWindow::new(0)
    }
}

/// A window after `k` seconds have passed: the oldest `k` slots are gone,
/// the others have moved up, and `k` empty slots stand at the newest end.
pub open spec fn shifted(window: Seq<u16>, k: int) -> Seq<u16> {
    Seq::new(
        window.len(),
        |i: int|
            if i + k < window.len() {
                window[i + k]
            } else {
                0u16
            },
    )
}

/// A counter raised by one, unless it is full.
pub open spec fn raised(count: u16) -> u16 {
    if count == u16::MAX {
        u16::MAX
    } else {
        (count + 1) as u16
    }
}

/// A window with its newest slot raised by one, unless that slot is full.
pub open spec fn bumped(window: Seq<u16>) -> Seq<u16> {
    if window.len() == 0 {
        window
    } else {
        window.update(window.len() - 1, raised(window.last()))
    }
}

/// The word by which a line counts as error-like.
pub open spec fn error_word() -> Seq<char> {
    seq!['e', 'r', 'r', 'o', 'r']
}

/// The word by which a line counts as warning-like.
pub open spec fn warn_word() -> Seq<char> {
    seq!['w', 'a', 'r', 'n']
}

/// A line is error-like when it contains "error" in any letter case.
pub open spec fn is_error_line(line: Seq<char>) -> bool {
    has_substring(folded(line), error_word())
}

/// A line is warning-like when it contains "warn" in any letter case.
pub open spec fn is_warning_line(line: Seq<char>) -> bool {
    has_substring(folded(line), warn_word())
}

/// Classifies a line: whether it is error-like, and whether it is
/// warning-like.  The two classes are independent.
pub fn classify(line: &str) -> (r: (bool, bool))
    ensures
        r.0 == is_error_line(line@),
        r.1 == is_warning_line(line@),
{
    let hay = folded_chars_of(line);
    let error: Vec<char> = vec!['e', 'r', 'r', 'o', 'r'];
    let warn: Vec<char> = vec!['w', 'a', 'r', 'n'];
    assert(error@ =~= error_word());
    assert(warn@ =~= warn_word());
    (contains_chars(&hay, &error), contains_chars(&hay, &warn))
}

/// Moves one window forward by `k` seconds.
fn shift_buckets(buckets: &mut [u16; 60], k: usize)
    ensures
        final(buckets)@ == shifted(old(buckets)@, k as int),
{
    let mut i: usize = 0;
    while i < 60
        invariant
            i <= 60,
            forall|j: int|
                0 <= j < i ==> #[trigger] buckets@[j] == shifted(old(buckets)@, k as int)[j],
            forall|j: int| i <= j < 60 ==> #[trigger] buckets@[j] == old(buckets)@[j],
        decreases 60 - i,
    {
        let value: u16 = if k < 60 - i {
            buckets[i + k]
        } else {
            0
        };
        buckets[i] = value;
        i += 1;
    }
    assert(buckets@ =~= shifted(old(buckets)@, k as int));
}

/// Raises the newest slot of one window.
fn bump_buckets(buckets: &mut [u16; 60])
    ensures
        final(buckets)@ == bumped(old(buckets)@),
{
    let newest: u16 = buckets[59];
    buckets[59] = newest.saturating_add(1);
}

impl StatsWindow {
    /// The error counters, oldest first.
    pub open spec fn errors(&self) -> Seq<u16> {
        self.err_buckets@
    }

    /// The warning counters, oldest first.
    pub open spec fn warnings(&self) -> Seq<u16> {
        self.warn_buckets@
    }

    /// The seconds that pass between the newest slot and `now`: none when
    /// `now` is not later.
    pub open spec fn elapsed(&self, now: u64) -> int {
        if now > self.bucket_epoch_sec {
            now - self.bucket_epoch_sec
        } else {
            0
        }
    }

    /// `after` is this window moved up to second `now`.
    pub open spec fn moved_to(&self, after: StatsWindow, now: u64) -> bool {
        &&& after.errors() == shifted(self.errors(), self.elapsed(now))
        &&& after.warnings() == shifted(self.warnings(), self.elapsed(now))
        &&& after.bucket_epoch_sec == (if now > self.bucket_epoch_sec {
            now
        } else {
            self.bucket_epoch_sec
        })
    }

    /// `after` is this window with one line counted in the newest slot of
    /// each class the line belongs to.
    pub open spec fn recorded(&self, after: StatsWindow, line: Seq<char>) -> bool {
        &&& after.errors() == (if is_error_line(line) {
            bumped(self.errors())
        } else {
            self.errors()
        })
        &&& after.warnings() == (if is_warning_line(line) {
            bumped(self.warnings())
        } else {
            self.warnings()
        })
        &&& after.bucket_epoch_sec == self.bucket_epoch_sec
    }

    /// `after` is this window moved up to second `now` and then given one
    /// line to count.
    pub open spec fn ingested(&self, after: StatsWindow, now: u64, line: Seq<char>) -> bool {
        &&& after.errors() == (if is_error_line(line) {
            bumped(shifted(self.errors(), self.elapsed(now)))
        } else {
            shifted(self.errors(), self.elapsed(now))
        })
        &&& after.warnings() == (if is_warning_line(line) {
            bumped(shifted(self.warnings(), self.elapsed(now)))
        } else {
            shifted(self.warnings(), self.elapsed(now))
        })
        &&& after.bucket_epoch_sec == (if now > self.bucket_epoch_sec {
            now
        } else {
            self.bucket_epoch_sec
        })
    }

    /// An empty window made at second `now`.  Its newest slot is dated one
    /// window length back, so that the first line to arrive moves it up to
    /// the present.
    pub fn new(now: u64) -> (w: StatsWindow)
        ensures
            w.errors() == Seq::new(60, |i: int| 0u16),
            w.warnings() == Seq::new(60, |i: int| 0u16),
            w.bucket_epoch_sec == (if now >= 59 {
                (now - 59) as u64
            } else {
                0
            }),
    {
        let err_buckets: [u16; 60] = [0u16;60];
        let warn_buckets: [u16; 60] = [0u16;60];
        assert(err_buckets@ =~= Seq::new(60, |i: int| 0u16));
        assert(warn_buckets@ =~= Seq::new(60, |i: int| 0u16));
        StatsWindow { err_buckets, warn_buckets, bucket_epoch_sec: now.saturating_sub(59) }
    }

    /// Moves the window up to second `now`: for each second that has
    /// passed the oldest slot leaves and an empty one arrives.  A clock
    /// that has not moved on, or has gone back, changes nothing.
    pub fn update_buckets(&mut self, now: u64)
        ensures
            old(self).moved_to(*final(self), now),
            final(self).errors().len() == 60,
            final(self).warnings().len() == 60,
    {
        if now <= self.bucket_epoch_sec {
            assert(self.errors() =~= shifted(self.errors(), 0));
            assert(self.warnings() =~= shifted(self.warnings(), 0));
            return;
        }
        let gap: u64 = now - self.bucket_epoch_sec;
        let k: usize = if gap >= 60 {
            60
        } else {
            gap as usize
        };
        assert(shifted(self.errors(), k as int) =~= shifted(self.errors(), gap as int));
        assert(shifted(self.warnings(), k as int) =~= shifted(self.warnings(), gap as int));
        shift_buckets(&mut self.err_buckets, k);
        shift_buckets(&mut self.warn_buckets, k);
        self.bucket_epoch_sec = now;
    }

    /// Counts one event in the newest slot of its class, saturating.
    pub fn bump_bucket(&mut self, is_error: bool)
        ensures
            final(self).errors() == (if is_error {
                bumped(old(self).errors())
            } else {
                old(self).errors()
            }),
            final(self).warnings() == (if is_error {
                old(self).warnings()
            } else {
                bumped(old(self).warnings())
            }),
            final(self).bucket_epoch_sec == old(self).bucket_epoch_sec,
    {
        if is_error {
            bump_buckets(&mut self.err_buckets);
        } else {
            bump_buckets(&mut self.warn_buckets);
        }
    }

    /// Counts a line in the classes it belongs to.
    pub fn record(&mut self, line: &str)
        ensures
            old(self).recorded(*final(self), line@),
    {
        let (error, warning) = classify(line);
        if error {
            self.bump_bucket(true);
        }
        if warning {
            self.bump_bucket(false);
        }
    }
}

/// A window that has moved forward by `k` seconds, `k` at least one, still
/// has its length, and its newest `k` slots are empty.
pub proof fn lemma_shift_clears_newest(window: Seq<u16>, k: int)
    requires
        k >= 1,
    ensures
        shifted(window, k).len() == window.len(),
        forall|i: int|
            0 <= i < window.len() && i >= window.len() - k ==> #[trigger] shifted(window, k)[i]
                == 0,
        forall|i: int|
            0 <= i < window.len() - k ==> #[trigger] shifted(window, k)[i] == window[i + k],
{
}

/// A window always holds one counter for each of its seconds.
pub proof fn lemma_window_length(window: StatsWindow)
    ensures
        window.errors().len() == SPARK_WINDOW,
        window.warnings().len() == SPARK_WINDOW,
{
}

/// After the clock has moved on by `k` seconds, `k` at least one, a window
/// moved up to the present has its newest `k` slots empty.
pub proof fn lemma_advance_clears_newest(before: StatsWindow, after: StatsWindow, now: u64)
    requires
        before.moved_to(after, now),
        now > before.bucket_epoch_sec,
    ensures
        after.errors().len() == SPARK_WINDOW,
        after.warnings().len() == SPARK_WINDOW,
        after.bucket_epoch_sec == now,
        forall|i: int|
            0 <= i < 60 && i >= 60 - (now - before.bucket_epoch_sec) ==> #[trigger] after.errors()[i]
                == 0 && #[trigger] after.warnings()[i] == 0,
{
    lemma_window_length(before);
}

} // verus!
