//! Highlight spans: the byte ranges of a line that some matcher accepts,
//! merged so that no two of them touch, and the segments they cut the line
//! into.

use crate::engine::{regex_all_matches, regex_find_all};
use regex::Regex;
use vstd::prelude::*;
use vstd::seq_lib::{to_multiset_build, to_multiset_contains, to_multiset_insert};
use vstd::utf8::encode_utf8;

verus! {

/// Every span starts no later than it ends.
pub open spec fn well_formed(spans: Seq<(usize, usize)>) -> bool {
    forall|i: int| 0 <= i < spans.len() ==> (#[trigger] spans[i]).0 <= spans[i].1
}

/// Every span ends no later than `limit`.
pub open spec fn within(spans: Seq<(usize, usize)>, limit: int) -> bool {
    forall|i: int| 0 <= i < spans.len() ==> (#[trigger] spans[i]).1 <= limit
}

/// The spans are in order of their starts.
pub open spec fn sorted_by_start(spans: Seq<(usize, usize)>) -> bool {
    forall|i: int, j: int|
        0 <= i < j < spans.len() ==> (#[trigger] spans[i]).0 <= (#[trigger] spans[j]).0
}

/// Each span ends strictly before the next one starts: no two overlap or
/// touch.
pub open spec fn separated(spans: Seq<(usize, usize)>) -> bool {
    forall|i: int, j: int|
        0 <= i < j < spans.len() ==> (#[trigger] spans[i]).1 < (#[trigger] spans[j]).0
}

/// Some span of `spans` contains the whole of `inner`.
pub open spec fn covers(spans: Seq<(usize, usize)>, inner: (usize, usize)) -> bool {
    exists|i: int|
        0 <= i < spans.len() && (#[trigger] spans[i]).0 <= inner.0 && inner.1 <= spans[i].1
}

/// Some span of `spans` starts at `at`.
pub open spec fn starts_at(spans: Seq<(usize, usize)>, at: int) -> bool {
    exists|k: int| 0 <= k < spans.len() && (#[trigger] spans[k]).0 == at
}

/// Some span of `spans` ends at `at`.
pub open spec fn ends_at(spans: Seq<(usize, usize)>, at: int) -> bool {
    exists|k: int| 0 <= k < spans.len() && (#[trigger] spans[k]).1 == at
}

/// Some single span of `spans` holds both position `p` and position
/// `p + 1`, so that the two belong together.
pub open spec fn joined(spans: Seq<(usize, usize)>, p: int) -> bool {
    exists|k: int| 0 <= k < spans.len() && (#[trigger] spans[k]).0 <= p && p + 1 <= spans[k].1
}

/// Every span of `raw` lies within one piece of `out`.
pub open spec fn all_covered(out: Seq<(usize, usize)>, raw: Seq<(usize, usize)>) -> bool {
    forall|k: int| 0 <= k < raw.len() ==> #[trigger] covers(out, raw[k])
}

/// Every piece of `out` starts where a span of `raw` starts and ends where
/// one ends.
pub open spec fn tight(out: Seq<(usize, usize)>, raw: Seq<(usize, usize)>) -> bool {
    &&& forall|i: int| 0 <= i < out.len() ==> #[trigger] starts_at(raw, out[i].0 as int)
    &&& forall|i: int| 0 <= i < out.len() ==> #[trigger] ends_at(raw, out[i].1 as int)
}

/// Inside a piece of `out`, each step from one position to the next is made
/// within a single span of `raw`.
pub open spec fn connected(out: Seq<(usize, usize)>, raw: Seq<(usize, usize)>) -> bool {
    forall|i: int, p: int|
        0 <= i < out.len() && (#[trigger] out[i]).0 <= p < out[i].1 ==> #[trigger] joined(raw, p)
}

/// `out` is the union of the spans of `raw`, cut into its connected pieces:
/// the pieces are in order and apart from each other, every raw span lies
/// in one piece, every piece starts where a raw span starts and ends where
/// one ends, and inside a piece each step from one position to the next is
/// made within a single raw span.
pub open spec fn is_merge_of(out: Seq<(usize, usize)>, raw: Seq<(usize, usize)>) -> bool {
    &&& well_formed(out)
    &&& separated(out)
    &&& all_covered(out, raw)
    &&& tight(out, raw)
    &&& connected(out, raw)
}

/// The matches of every matcher of the set in the text, matcher by matcher.
pub open spec fn raw_spans(enabled: Seq<Regex>, text: Seq<char>) -> Seq<(usize, usize)>
    decreases enabled.len(),
{
    if enabled.len() == 0 {
        Seq::empty()
    } else {
        raw_spans(enabled.drop_last(), text) + regex_find_all(enabled.last(), text)
    }
}

/// Sorts spans by their start, keeping spans of equal start in the order
/// in which they came.
pub fn sort_by_start(raw: &Vec<(usize, usize)>) -> (out: Vec<(usize, usize)>)
    ensures
        sorted_by_start(out@),
        out@.to_multiset() == raw@.to_multiset(),
{
    let mut out: Vec<(usize, usize)> = Vec::new();
    let mut i: usize = 0;
    assert(raw@.take(0) =~= Seq::<(usize, usize)>::empty());
    while i < raw.len()
        invariant
            i <= raw@.len(),
            sorted_by_start(out@),
            out@.to_multiset() == raw@.take(i as int).to_multiset(),
        decreases raw@.len() - i,
    {
        let item = raw[i];
        let mut pos: usize = out.len();
        while pos > 0 && out[pos - 1].0 > item.0
            invariant
                pos <= out@.len(),
                forall|k: int| pos <= k < out@.len() ==> (#[trigger] out@[k]).0 > item.0,
            decreases pos,
        {
            pos -= 1;
        }
        let ghost before = out@;
        out.insert(pos, item);
        proof {
            to_multiset_insert(before, pos as int, item);
            assert(raw@.take(i + 1) =~= raw@.take(i as int).push(item));
            to_multiset_build(raw@.take(i as int), item);
            assert forall|a: int, b: int| 0 <= a < b < out@.len() implies (#[trigger] out@[a]).0 <= (
            #[trigger] out@[b]).0 by {
                if a < pos && b > pos {
                    assert(out@[a] == before[a]);
                    assert(out@[b] == before[b - 1]);
                } else if a < pos && b < pos {
                    assert(out@[a] == before[a]);
                    assert(out@[b] == before[b]);
                } else if a > pos {
                    assert(out@[a] == before[a - 1]);
                    assert(out@[b] == before[b - 1]);
                } else if a == pos {
                    assert(out@[b] == before[b - 1]);
                } else {
                    assert(b == pos);
                    assert(out@[a] == before[a]);
                    if pos > 0 {
                        assert(before[pos - 1].0 <= item.0);
                    }
                }
            }
        }
        i += 1;
    }
    assert(raw@.take(raw@.len() as int) =~= raw@);
    out
}

/// The last piece with its end moved to `end`.
pub open spec fn with_last_end(prev: Seq<(usize, usize)>, end: usize) -> Seq<(usize, usize)> {
    prev.update(prev.len() - 1, (prev.last().0, end))
}

/// Moving the end of the last piece further on keeps the pieces well
/// formed and apart.
proof fn lemma_grow_apart(prev: Seq<(usize, usize)>, end: usize)
    requires
        well_formed(prev),
        separated(prev),
        prev.len() > 0,
        prev.last().1 <= end,
    ensures
        well_formed(with_last_end(prev, end)),
        separated(with_last_end(prev, end)),
{
    let out = with_last_end(prev, end);
    let n = prev.len() as int;
    assert(prev[n - 1] == prev.last());
    assert forall|a: int| 0 <= a < out.len() implies (#[trigger] out[a]).0 <= out[a].1 by {
        if a < n - 1 {
            assert(out[a] == prev[a]);
        }
    }
    assert forall|a: int, b: int| 0 <= a < b < out.len() implies (#[trigger] out[a]).1 < (
    #[trigger] out[b]).0 by {
        assert(out[a] == prev[a]);
        assert(out[b].0 == prev[b].0);
    }
}

/// After the last piece has grown to take in a new span, every span seen
/// so far and the new one lie in a piece.
proof fn lemma_grow_covered(
    prev: Seq<(usize, usize)>,
    seen: Seq<(usize, usize)>,
    item: (usize, usize),
    end: usize,
)
    requires
        all_covered(prev, seen),
        prev.len() > 0,
        prev.last().0 <= item.0,
        prev.last().1 <= end,
        item.1 <= end,
    ensures
        all_covered(with_last_end(prev, end), seen.push(item)),
{
    let out = with_last_end(prev, end);
    let more = seen.push(item);
    let n = prev.len() as int;
    assert forall|k: int| 0 <= k < more.len() implies #[trigger] covers(out, more[k]) by {
        if k < seen.len() {
            assert(more[k] == seen[k]);
            assert(covers(prev, seen[k]));
            let m = choose|m: int|
                0 <= m < prev.len() && (#[trigger] prev[m]).0 <= seen[k].0 && seen[k].1
                    <= prev[m].1;
            assert(out[m].0 <= more[k].0 && more[k].1 <= out[m].1);
        } else {
            assert(more[k] == item);
            assert(out[n - 1].0 <= more[k].0 && more[k].1 <= out[n - 1].1);
        }
    }
}

/// After the last piece has grown to the end of a new span, or stayed,
/// every piece still starts and ends where a span does.
proof fn lemma_grow_tight(
    prev: Seq<(usize, usize)>,
    seen: Seq<(usize, usize)>,
    item: (usize, usize),
    end: usize,
)
    requires
        tight(prev, seen),
        prev.len() > 0,
        end == prev.last().1 || end == item.1,
    ensures
        tight(with_last_end(prev, end), seen.push(item)),
{
    let out = with_last_end(prev, end);
    let more = seen.push(item);
    let n = prev.len() as int;
    assert(more[seen.len() as int] == item);
    assert forall|m: int| 0 <= m < out.len() implies #[trigger] starts_at(
        more,
        out[m].0 as int,
    ) by {
        assert(out[m].0 == prev[m].0);
        assert(starts_at(seen, prev[m].0 as int));
        let ks = choose|k: int| 0 <= k < seen.len() && (#[trigger] seen[k]).0 == prev[m].0;
        assert(more[ks] == seen[ks]);
    }
    assert forall|m: int| 0 <= m < out.len() implies #[trigger] ends_at(more, out[m].1 as int) by {
        assert(ends_at(seen, prev[m].1 as int));
        let ke = choose|k: int| 0 <= k < seen.len() && (#[trigger] seen[k]).1 == prev[m].1;
        assert(more[ke] == seen[ke]);
        if m < n - 1 {
            assert(out[m] == prev[m]);
        } else if end == prev.last().1 {
            assert(out[m] == prev[m]);
        } else {
            assert(more[seen.len() as int].1 == out[m].1);
        }
    }
}

/// After the last piece has grown over a new span that reaches back to
/// it, every step inside a piece is still made within a single span.
proof fn lemma_grow_connected(
    prev: Seq<(usize, usize)>,
    seen: Seq<(usize, usize)>,
    item: (usize, usize),
    end: usize,
)
    requires
        connected(prev, seen),
        prev.len() > 0,
        item.0 <= prev.last().1,
        end == prev.last().1 || end == item.1,
    ensures
        connected(with_last_end(prev, end), seen.push(item)),
{
    let out = with_last_end(prev, end);
    let more = seen.push(item);
    let n = prev.len() as int;
    assert(more[seen.len() as int] == item);
    assert forall|m: int, p: int|
        0 <= m < out.len() && (#[trigger] out[m]).0 <= p < out[m].1 implies #[trigger] joined(
        more,
        p,
    ) by {
        assert(out[m].0 == prev[m].0);
        if m < n - 1 || p < prev.last().1 {
            assert(prev[m].0 <= p < prev[m].1);
            assert(joined(seen, p));
            let k = choose|k: int|
                0 <= k < seen.len() && (#[trigger] seen[k]).0 <= p && p + 1 <= seen[k].1;
            assert(more[k] == seen[k]);
        } else {
            assert(more[seen.len() as int].0 <= p && p + 1 <= more[seen.len() as int].1);
        }
    }
}

/// A new piece that starts after the last one has ended keeps the pieces
/// well formed and apart.
proof fn lemma_push_apart(prev: Seq<(usize, usize)>, item: (usize, usize))
    requires
        well_formed(prev),
        separated(prev),
        item.0 <= item.1,
        prev.len() > 0 ==> prev.last().1 < item.0,
    ensures
        well_formed(prev.push(item)),
        separated(prev.push(item)),
{
    let out = prev.push(item);
    let n = prev.len() as int;
    assert forall|a: int| 0 <= a < out.len() implies (#[trigger] out[a]).0 <= out[a].1 by {
        if a < n {
            assert(out[a] == prev[a]);
        }
    }
    assert forall|a: int, b: int| 0 <= a < b < out.len() implies (#[trigger] out[a]).1 < (
    #[trigger] out[b]).0 by {
        assert(out[a] == prev[a]);
        if b < n {
            assert(out[b] == prev[b]);
        } else {
            assert(out[b] == item);
            assert(prev[n - 1] == prev.last());
            if a < n - 1 {
                assert(prev[a].1 < prev[n - 1].0);
                assert(prev[n - 1].0 <= prev[n - 1].1);
            }
        }
    }
}

/// With a new span as a piece of its own, every span seen so far and the
/// new one lie in a piece.
proof fn lemma_push_covered(
    prev: Seq<(usize, usize)>,
    seen: Seq<(usize, usize)>,
    item: (usize, usize),
)
    requires
        all_covered(prev, seen),
    ensures
        all_covered(prev.push(item), seen.push(item)),
{
    let out = prev.push(item);
    let more = seen.push(item);
    let n = prev.len() as int;
    assert forall|k: int| 0 <= k < more.len() implies #[trigger] covers(out, more[k]) by {
        if k < seen.len() {
            assert(more[k] == seen[k]);
            assert(covers(prev, seen[k]));
            let m = choose|m: int|
                0 <= m < prev.len() && (#[trigger] prev[m]).0 <= seen[k].0 && seen[k].1
                    <= prev[m].1;
            assert(out[m] == prev[m]);
            assert(out[m].0 <= more[k].0 && more[k].1 <= out[m].1);
        } else {
            assert(more[k] == item);
            assert(out[n].0 <= more[k].0 && more[k].1 <= out[n].1);
        }
    }
}

/// With a new span as a piece of its own, every piece still starts and
/// ends where a span does.
proof fn lemma_push_tight(
    prev: Seq<(usize, usize)>,
    seen: Seq<(usize, usize)>,
    item: (usize, usize),
)
    requires
        tight(prev, seen),
    ensures
        tight(prev.push(item), seen.push(item)),
{
    let out = prev.push(item);
    let more = seen.push(item);
    let n = prev.len() as int;
    assert(more[seen.len() as int] == item);
    assert forall|m: int| 0 <= m < out.len() implies #[trigger] starts_at(
        more,
        out[m].0 as int,
    ) by {
        if m < n {
            assert(out[m] == prev[m]);
            assert(starts_at(seen, prev[m].0 as int));
            let ks = choose|k: int| 0 <= k < seen.len() && (#[trigger] seen[k]).0 == prev[m].0;
            assert(more[ks] == seen[ks]);
        } else {
            assert(out[m] == item);
        }
    }
    assert forall|m: int| 0 <= m < out.len() implies #[trigger] ends_at(more, out[m].1 as int) by {
        if m < n {
            assert(out[m] == prev[m]);
            assert(ends_at(seen, prev[m].1 as int));
            let ke = choose|k: int| 0 <= k < seen.len() && (#[trigger] seen[k]).1 == prev[m].1;
            assert(more[ke] == seen[ke]);
        } else {
            assert(out[m] == item);
        }
    }
}

/// With a new span as a piece of its own, every step inside a piece is
/// still made within a single span.
proof fn lemma_push_connected(
    prev: Seq<(usize, usize)>,
    seen: Seq<(usize, usize)>,
    item: (usize, usize),
)
    requires
        connected(prev, seen),
    ensures
        connected(prev.push(item), seen.push(item)),
{
    let out = prev.push(item);
    let more = seen.push(item);
    let n = prev.len() as int;
    assert(more[seen.len() as int] == item);
    assert forall|m: int, p: int|
        0 <= m < out.len() && (#[trigger] out[m]).0 <= p < out[m].1 implies #[trigger] joined(
        more,
        p,
    ) by {
        if m < n {
            assert(out[m] == prev[m]);
            assert(joined(seen, p));
            let k = choose|k: int|
                0 <= k < seen.len() && (#[trigger] seen[k]).0 <= p && p + 1 <= seen[k].1;
            assert(more[k] == seen[k]);
        } else {
            assert(out[m] == item);
            assert(more[seen.len() as int].0 <= p && p + 1 <= more[seen.len() as int].1);
        }
    }
}

/// Joining a span to the last piece, which it overlaps or touches, gives
/// the merge of the raw spans with that span added.
proof fn lemma_join_last(
    prev: Seq<(usize, usize)>,
    seen: Seq<(usize, usize)>,
    item: (usize, usize),
    end: usize,
)
    requires
        is_merge_of(prev, seen),
        prev.len() > 0,
        item.0 <= item.1,
        item.0 <= prev.last().1,
        forall|k: int| 0 <= k < seen.len() ==> (#[trigger] seen[k]).0 <= item.0,
        end == (if item.1 > prev.last().1 {
            item.1
        } else {
            prev.last().1
        }),
    ensures
        is_merge_of(with_last_end(prev, end), seen.push(item)),
{
    let n = prev.len() as int;
    assert(prev[n - 1] == prev.last());
    assert(prev.last().0 <= item.0) by {
        assert(starts_at(seen, prev[n - 1].0 as int));
        let k0 = choose|k: int| 0 <= k < seen.len() && (#[trigger] seen[k]).0 == prev[n - 1].0;
    }
    lemma_grow_apart(prev, end);
    lemma_grow_covered(prev, seen, item, end);
    lemma_grow_tight(prev, seen, item, end);
    lemma_grow_connected(prev, seen, item, end);
}

/// A span that starts after the last piece has ended becomes a piece of
/// its own.
proof fn lemma_new_piece(prev: Seq<(usize, usize)>, seen: Seq<(usize, usize)>, item: (usize, usize))
    requires
        is_merge_of(prev, seen),
        item.0 <= item.1,
        prev.len() > 0 ==> prev.last().1 < item.0,
    ensures
        is_merge_of(prev.push(item), seen.push(item)),
{
    lemma_push_apart(prev, item);
    lemma_push_covered(prev, seen, item);
    lemma_push_tight(prev, seen, item);
    lemma_push_connected(prev, seen, item);
}

/// Merges spans that are sorted by start: a span that overlaps or touches
/// the piece before it is joined to that piece, any other starts a new one.
fn merge_sorted(sorted: &Vec<(usize, usize)>) -> (out: Vec<(usize, usize)>)
    requires
        well_formed(sorted@),
        sorted_by_start(sorted@),
    ensures
        is_merge_of(out@, sorted@),
{
    let mut out: Vec<(usize, usize)> = Vec::new();
    let mut i: usize = 0;
    while i < sorted.len()
        invariant
            i <= sorted@.len(),
            well_formed(sorted@),
            sorted_by_start(sorted@),
            is_merge_of(out@, sorted@.take(i as int)),
        decreases sorted@.len() - i,
    {
        let item = sorted[i];
        let n: usize = out.len();
        let ghost prev = out@;
        let ghost seen = sorted@.take(i as int);
        proof {
            assert(sorted@.take(i + 1) =~= seen.push(item));
            assert forall|k: int| 0 <= k < seen.len() implies (#[trigger] seen[k]).0 <= item.0 by {
                assert(seen[k] == sorted@[k]);
            }
        }
        if n > 0 && item.0 <= out[n - 1].1 {
            let last = out[n - 1];
            let end: usize = if item.1 > last.1 {
                item.1
            } else {
                last.1
            };
            out[n - 1] = (last.0, end);
            proof {
                lemma_join_last(prev, seen, item, end);
            }
        } else {
            out.push(item);
            proof {
                lemma_new_piece(prev, seen, item);
            }
        }
        i += 1;
    }
    assert(sorted@.take(sorted@.len() as int) =~= sorted@);
    out
}

/// Two span lists with the same members have the same merges.
pub proof fn lemma_merge_same_members(
    out: Seq<(usize, usize)>,
    a: Seq<(usize, usize)>,
    b: Seq<(usize, usize)>,
)
    requires
        is_merge_of(out, a),
        a.to_multiset() == b.to_multiset(),
    ensures
        is_merge_of(out, b),
{
    assert forall|x: (usize, usize)| a.contains(x) <==> b.contains(x) by {
        to_multiset_contains(a, x);
        to_multiset_contains(b, x);
    }
    assert forall|k: int| 0 <= k < b.len() implies #[trigger] covers(out, b[k]) by {
        assert(b.contains(b[k]));
        let j = choose|j: int| 0 <= j < a.len() && a[j] == b[k];
        assert(covers(out, a[j]));
    }
    assert forall|i: int| 0 <= i < out.len() implies #[trigger] starts_at(b, out[i].0 as int) by {
        assert(starts_at(a, out[i].0 as int));
        let j = choose|j: int| 0 <= j < a.len() && (#[trigger] a[j]).0 == out[i].0;
        assert(a.contains(a[j]));
        let k = choose|k: int| 0 <= k < b.len() && b[k] == a[j];
        assert(b[k].0 == out[i].0);
    }
    assert forall|i: int| 0 <= i < out.len() implies #[trigger] ends_at(b, out[i].1 as int) by {
        assert(ends_at(a, out[i].1 as int));
        let j = choose|j: int| 0 <= j < a.len() && (#[trigger] a[j]).1 == out[i].1;
        assert(a.contains(a[j]));
        let k = choose|k: int| 0 <= k < b.len() && b[k] == a[j];
        assert(b[k].1 == out[i].1);
    }
    assert forall|i: int, p: int|
        0 <= i < out.len() && (#[trigger] out[i]).0 <= p < out[i].1 implies #[trigger] joined(
        b,
        p,
    ) by {
        assert(joined(a, p));
        let j = choose|j: int| 0 <= j < a.len() && (#[trigger] a[j]).0 <= p && p + 1 <= a[j].1;
        assert(a.contains(a[j]));
        let k = choose|k: int| 0 <= k < b.len() && b[k] == a[j];
        assert(b[k].0 <= p && p + 1 <= b[k].1);
    }
}

/// A piece of one merge lies within a piece of any other merge of the same
/// raw spans.
proof fn lemma_piece_within(
    a: Seq<(usize, usize)>,
    b: Seq<(usize, usize)>,
    raw: Seq<(usize, usize)>,
    i: int,
) -> (j: int)
    requires
        well_formed(raw),
        is_merge_of(a, raw),
        is_merge_of(b, raw),
        0 <= i < a.len(),
    ensures
        0 <= j < b.len(),
        b[j].0 <= a[i].0,
        a[i].1 <= b[j].1,
{
    assert(starts_at(raw, a[i].0 as int));
    let k = choose|k: int| 0 <= k < raw.len() && (#[trigger] raw[k]).0 == a[i].0;
    assert(raw[k].0 <= raw[k].1);
    assert(covers(b, raw[k]));
    let j = choose|j: int|
        0 <= j < b.len() && (#[trigger] b[j]).0 <= raw[k].0 && raw[k].1 <= b[j].1;
    if b[j].1 < a[i].1 {
        let p = b[j].1 as int;
        assert(a[i].0 <= p < a[i].1);
        assert(joined(raw, p));
        let m = choose|m: int| 0 <= m < raw.len() && (#[trigger] raw[m]).0 <= p && p + 1 <= raw[m].1;
        assert(covers(b, raw[m]));
        let j2 = choose|j2: int|
            0 <= j2 < b.len() && (#[trigger] b[j2]).0 <= raw[m].0 && raw[m].1 <= b[j2].1;
        if j2 < j {
            assert(b[j2].1 < b[j].0);
        } else if j2 > j {
            assert(b[j].1 < b[j2].0);
        }
        assert(false);
    }
    j
}

/// Every piece of one merge is a piece of any other merge of the same raw
/// spans.
proof fn lemma_piece_shared(
    a: Seq<(usize, usize)>,
    b: Seq<(usize, usize)>,
    raw: Seq<(usize, usize)>,
    i: int,
) -> (j: int)
    requires
        well_formed(raw),
        is_merge_of(a, raw),
        is_merge_of(b, raw),
        0 <= i < a.len(),
    ensures
        0 <= j < b.len(),
        b[j] == a[i],
{
    let j = lemma_piece_within(a, b, raw, i);
    let i2 = lemma_piece_within(b, a, raw, j);
    assert(a[i].0 <= a[i].1);
    assert(b[j].0 <= b[j].1);
    if i2 < i {
        assert(a[i2].1 < a[i].0);
    } else if i2 > i {
        assert(a[i].1 < a[i2].0);
    }
    assert(i2 == i);
    j
}

/// Two merges of the same raw spans agree on their first `n` pieces.
proof fn lemma_same_prefix(
    a: Seq<(usize, usize)>,
    b: Seq<(usize, usize)>,
    raw: Seq<(usize, usize)>,
    n: int,
)
    requires
        well_formed(raw),
        is_merge_of(a, raw),
        is_merge_of(b, raw),
        0 <= n <= a.len(),
    ensures
        n <= b.len(),
        forall|k: int| 0 <= k < n ==> a[k] == b[k],
    decreases n,
{
    if n > 0 {
        lemma_same_prefix(a, b, raw, n - 1);
        let i = n - 1;
        let j = lemma_piece_shared(a, b, raw, i);
        if j < i {
            assert(a[j] == b[j]);
            assert(a[j].0 <= a[j].1);
            assert(a[j].1 < a[i].0);
            assert(false);
        }
        if j > i {
            let i2 = lemma_piece_shared(b, a, raw, i);
            assert(b[i].0 <= b[i].1);
            assert(b[i].1 < b[j].0);
            if i2 < i {
                assert(a[i2] == b[i2]);
                assert(b[i2].0 <= b[i2].1);
                assert(b[i2].1 < b[i].0);
                assert(false);
            } else if i2 > i {
                assert(a[i].0 <= a[i].1);
                assert(a[i].1 < a[i2].0);
                assert(false);
            }
            assert(false);
        }
    }
}

/// Raw spans have one merge only: the conditions of `is_merge_of` leave no
/// choice.
pub proof fn lemma_merge_unique(
    a: Seq<(usize, usize)>,
    b: Seq<(usize, usize)>,
    raw: Seq<(usize, usize)>,
)
    requires
        well_formed(raw),
        is_merge_of(a, raw),
        is_merge_of(b, raw),
    ensures
        a == b,
{
    lemma_same_prefix(a, b, raw, a.len() as int);
    lemma_same_prefix(b, a, raw, b.len() as int);
    assert(a =~= b);
}

/// Merges spans given in any order into the connected pieces of their
/// union.
pub fn merge_spans(raw: &Vec<(usize, usize)>) -> (out: Vec<(usize, usize)>)
    requires
        well_formed(raw@),
    ensures
        is_merge_of(out@, raw@),
{
    let sorted = sort_by_start(raw);
    proof {
        assert forall|i: int| 0 <= i < sorted@.len() implies (#[trigger] sorted@[i]).0
            <= sorted@[i].1 by {
            to_multiset_contains(sorted@, sorted@[i]);
            to_multiset_contains(raw@, sorted@[i]);
            assert(sorted@.contains(sorted@[i]));
            let k = choose|k: int| 0 <= k < raw@.len() && raw@[k] == sorted@[i];
            assert(raw@[k].0 <= raw@[k].1);
        }
    }
    let out = merge_sorted(&sorted);
    proof {
        lemma_merge_same_members(out@, sorted@, raw@);
    }
    out
}

/// Asks every matcher of the set for its matches in the text.
pub fn collect_spans(text: &str, enabled: &[Regex]) -> (raw: Vec<(usize, usize)>)
    ensures
        raw@ == raw_spans(enabled@, text@),
        well_formed(raw@),
        within(raw@, text.len() as int),
{
    let mut raw: Vec<(usize, usize)> = Vec::new();
    let mut i: usize = 0;
    while i < enabled.len()
        invariant
            i <= enabled@.len(),
            raw@ == raw_spans(enabled@.take(i as int), text@),
            well_formed(raw@),
            within(raw@, text.len() as int),
        decreases enabled@.len() - i,
    {
        let mut found = regex_all_matches(&enabled[i], text);
        proof {
            assert(enabled@.take(i + 1).drop_last() == enabled@.take(i as int));
            assert(enabled@.take(i + 1).last() == enabled@[i as int]);
        }
        raw.append(&mut found);
        i += 1;
    }
    assert(enabled@.take(enabled@.len() as int) == enabled@);
    raw
}

/// The highlight spans of a line: the matches of all the matchers, merged
/// so that no two spans overlap or touch.
pub fn highlight_spans(text: &str, enabled: &[Regex]) -> (out: Vec<(usize, usize)>)
    ensures
        is_merge_of(out@, raw_spans(enabled@, text@)),
        within(out@, text.len() as int),
{
    let raw = collect_spans(text, enabled);
    let out = merge_spans(&raw);
    proof {
        assert forall|i: int| 0 <= i < out@.len() implies (#[trigger] out@[i]).1 <= text.len() by {
            assert(ends_at(raw@, out@[i].1 as int));
        }
    }
    out
}

/// A stretch of a line, by its byte range, either highlighted or plain.
#[derive(Debug, Clone, Copy, PartialEq, Eq, Structural)]
pub struct Segment {
    pub start: usize,
    pub end: usize,
    pub highlighted: bool,
}

/// A plain stretch.
pub open spec fn plain(start: usize, end: usize) -> Segment {
    Segment { start, end, highlighted: false }
}

/// A highlighted stretch.
pub open spec fn marked(start: usize, end: usize) -> Segment {
    Segment { start, end, highlighted: true }
}

/// The segments from position `from` on: before each span the plain gap
/// that leads to it, if there is one, then the span itself, and after the
/// last span the plain rest of the line, if there is one.
pub open spec fn segments_after(spans: Seq<(usize, usize)>, from: usize, len: usize) -> Seq<
    Segment,
>
    decreases spans.len(),
{
    if spans.len() == 0 {
        if from < len {
            seq![plain(from, len)]
        } else {
            Seq::empty()
        }
    } else {
        let span = spans.first();
        let gap = if span.0 > from {
            seq![plain(from, span.0)]
        } else {
            Seq::empty()
        };
        gap + seq![marked(span.0, span.1)] + segments_after(spans.drop_first(), span.1, len)
    }
}

/// The segments of a line of `len` bytes with the given highlight spans.  A
/// line without spans is one plain segment, even when it is empty.
pub open spec fn line_segments(spans: Seq<(usize, usize)>, len: usize) -> Seq<Segment> {
    if spans.len() == 0 {
        seq![plain(0, len)]
    } else {
        segments_after(spans, 0, len)
    }
}

/// The spans of the highlighted segments, in order.
pub open spec fn marked_spans(segments: Seq<Segment>) -> Seq<(usize, usize)>
    decreases segments.len(),
{
    if segments.len() == 0 {
        Seq::empty()
    } else if segments.first().highlighted {
        seq![(segments.first().start, segments.first().end)] + marked_spans(segments.drop_first())
    } else {
        marked_spans(segments.drop_first())
    }
}

/// Cuts a line of `len` bytes into segments along the given spans.
pub fn segments_for(spans: &Vec<(usize, usize)>, len: usize) -> (out: Vec<Segment>)
    ensures
        out@ == line_segments(spans@, len),
{
    let mut out: Vec<Segment> = Vec::new();
    if spans.len() == 0 {
        out.push(Segment { start: 0, end: len, highlighted: false });
        return out;
    }
    let mut last: usize = 0;
    let mut i: usize = 0;
    assert(spans@.skip(0) == spans@);
    while i < spans.len()
        invariant
            i <= spans@.len(),
            out@ + segments_after(spans@.skip(i as int), last, len) == segments_after(
                spans@,
                0,
                len,
            ),
        decreases spans@.len() - i,
    {
        let (s, e) = spans[i];
        let ghost before = out@;
        let ghost rest = spans@.skip(i as int);
        proof {
            assert(rest.first() == (s, e));
            assert(rest.drop_first() == spans@.skip(i + 1));
        }
        if s > last {
            out.push(Segment { start: last, end: s, highlighted: false });
        }
        out.push(Segment { start: s, end: e, highlighted: true });
        proof {
            let gap = if s > last {
                seq![plain(last, s)]
            } else {
                Seq::empty()
            };
            assert(out@ =~= before + gap + seq![marked(s, e)]);
            assert(before + segments_after(rest, last, len) =~= out@ + segments_after(
                spans@.skip(i + 1),
                e,
                len,
            ));
        }
        last = e;
        i += 1;
    }
    if last < len {
        out.push(Segment { start: last, end: len, highlighted: false });
    }
    out
}

/// The highlighted segments of the cut are the spans it was made along.
pub proof fn lemma_marked_spans_of_cut(spans: Seq<(usize, usize)>, from: usize, len: usize)
    ensures
        marked_spans(segments_after(spans, from, len)) == spans,
    decreases spans.len(),
{
    if spans.len() == 0 {
        let tail = segments_after(spans, from, len);
        if from < len {
            assert(tail.drop_first() =~= Seq::<Segment>::empty());
            assert(marked_spans(tail.drop_first()) =~= Seq::<(usize, usize)>::empty());
        }
        assert(marked_spans(tail) =~= spans);
    } else {
        let span = spans.first();
        let rest = segments_after(spans.drop_first(), span.1, len);
        lemma_marked_spans_of_cut(spans.drop_first(), span.1, len);
        let tail = seq![marked(span.0, span.1)] + rest;
        assert(tail.drop_first() =~= rest);
        assert(marked_spans(tail) =~= seq![span] + spans.drop_first());
        assert(seq![span] + spans.drop_first() =~= spans);
        if span.0 > from {
            let all = seq![plain(from, span.0)] + tail;
            assert(all.drop_first() =~= tail);
            assert(segments_after(spans, from, len) =~= all);
        } else {
            assert(segments_after(spans, from, len) =~= tail);
        }
    }
}

/// The segments follow one another without gap or overlap from `from` to
/// `to`.
pub open spec fn tiles(segments: Seq<Segment>, from: int, to: int) -> bool {
    if segments.len() == 0 {
        from == to
    } else {
        &&& segments.first().start == from
        &&& segments.last().end == to
        &&& forall|i: int|
            0 <= i < segments.len() - 1 ==> (#[trigger] segments[i]).end == segments[i + 1].start
    }
}

/// Two runs of segments that tile adjoining stretches tile the whole.
proof fn lemma_tiles_join(left: Seq<Segment>, right: Seq<Segment>, from: int, mid: int, to: int)
    requires
        tiles(left, from, mid),
        tiles(right, mid, to),
    ensures
        tiles(left + right, from, to),
{
    let all = left + right;
    if left.len() == 0 {
        assert(all =~= right);
    } else if right.len() == 0 {
        assert(all =~= left);
    } else {
        assert(all.first() == left.first());
        assert(all.last() == right.last());
        assert forall|i: int| 0 <= i < all.len() - 1 implies (#[trigger] all[i]).end == all[i
            + 1].start by {
            if i < left.len() - 1 {
                assert(all[i] == left[i]);
                assert(all[i + 1] == left[i + 1]);
            } else if i == left.len() - 1 {
                assert(all[i] == left.last());
                assert(all[i + 1] == right.first());
            } else {
                assert(all[i] == right[i - left.len()]);
                assert(all[i + 1] == right[i - left.len() + 1]);
            }
        }
    }
}

/// Spans that are apart, in order and within the line cut the rest of the
/// line, from any point not after the first span, into segments that tile
/// it.
pub proof fn lemma_cut_tiles(spans: Seq<(usize, usize)>, from: usize, len: usize)
    requires
        well_formed(spans),
        separated(spans),
        within(spans, len as int),
        from <= len,
        spans.len() > 0 ==> from <= spans.first().0,
    ensures
        tiles(segments_after(spans, from, len), from as int, len as int),
    decreases spans.len(),
{
    if spans.len() > 0 {
        let span = spans.first();
        let rest = spans.drop_first();
        assert(span == spans[0]);
        assert forall|i: int| 0 <= i < rest.len() implies (#[trigger] rest[i]).0 <= rest[i].1
            && rest[i].1 <= len by {
            assert(rest[i] == spans[i + 1]);
        }
        assert forall|i: int, j: int| 0 <= i < j < rest.len() implies (#[trigger] rest[i]).1 < (
        #[trigger] rest[j]).0 by {
            assert(rest[i] == spans[i + 1]);
            assert(rest[j] == spans[j + 1]);
        }
        if rest.len() > 0 {
            assert(rest.first() == spans[1]);
            assert(spans[0].1 < spans[1].0);
        }
        lemma_cut_tiles(rest, span.1, len);
        let gap = if span.0 > from {
            seq![plain(from, span.0)]
        } else {
            Seq::<Segment>::empty()
        };
        let hit = seq![marked(span.0, span.1)];
        assert(tiles(gap, from as int, span.0 as int));
        assert(tiles(hit, span.0 as int, span.1 as int));
        lemma_tiles_join(gap, hit, from as int, span.0 as int, span.1 as int);
        lemma_tiles_join(
            gap + hit,
            segments_after(rest, span.1, len),
            from as int,
            span.1 as int,
            len as int,
        );
    }
}

/// The segments of a line tile it from its first byte to its last, when
/// the spans are apart, in order and within the line.
pub proof fn lemma_line_segments_tile(spans: Seq<(usize, usize)>, len: usize)
    requires
        well_formed(spans),
        separated(spans),
        within(spans, len as int),
    ensures
        tiles(line_segments(spans, len), 0, len as int),
{
    if spans.len() > 0 {
        lemma_cut_tiles(spans, 0, len);
    }
}

/// The length of a text in bytes, as its UTF-8 encoding has it.
pub open spec fn byte_len(text: Seq<char>) -> usize {
    encode_utf8(text).len() as usize
}

/// `segments` are the segments of the line `text` under the matchers
/// `enabled`: the highlighted ones are exactly the highlight spans of the
/// line, all within it, the plain ones fill what is left, and together
/// they tile the line from its first byte to its last.
pub open spec fn is_highlighting(
    segments: Seq<Segment>,
    text: Seq<char>,
    enabled: Seq<Regex>,
) -> bool {
    &&& is_merge_of(marked_spans(segments), raw_spans(enabled, text))
    &&& within(marked_spans(segments), byte_len(text) as int)
    &&& segments == line_segments(marked_spans(segments), byte_len(text))
    &&& tiles(segments, 0, byte_len(text) as int)
}

/// The segments of a line under a set of matchers: the highlighted ones
/// are exactly the highlight spans, the plain ones fill what is left.
pub fn highlight_line(text: &str, enabled: &[Regex]) -> (out: Vec<Segment>)
    ensures
        is_highlighting(out@, text@, enabled@),
{
    let spans = highlight_spans(text, enabled);
    let out = segments_for(&spans, text.len());
    proof {
        lemma_line_segments_tile(spans@, text.len());
        if spans@.len() == 0 {
            let one = seq![plain(0, text.len())];
            assert(one.drop_first() =~= Seq::<Segment>::empty());
            assert(marked_spans(one.drop_first()) =~= Seq::<(usize, usize)>::empty());
            assert(marked_spans(one) =~= spans@);
        } else {
            lemma_marked_spans_of_cut(spans@, 0, text.len());
        }
    }
    out
}

} // verus!
