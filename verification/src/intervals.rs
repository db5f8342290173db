//! Half-open audio positions measured in frames per channel, never in
//! interleaved samples, and the normalization that turns detector output into
//! the source ranges kept by the final conversion.
use vstd::prelude::*;

use crate::converter::ConvertError;

verus! {

/// A half-open range `[start_frame, end_frame)` of frames per channel.
#[derive(Debug, Clone, Copy, PartialEq, Eq, Structural)]
pub struct AudioInterval {
    pub start_frame: u64,
    pub end_frame: u64,
}

/// Detector positions are always expressed at this rate.
pub const DETECTOR_RATE: u32 = 16000;

/// The largest padding, in milliseconds, that normalization accepts.
pub const MAX_PADDING_MS: u32 = 1000;

pub open spec fn nonempty(i: AudioInterval) -> bool {
    i.start_frame < i.end_frame
}

pub open spec fn interval(start: int, end: int) -> AudioInterval {
    AudioInterval { start_frame: start as u64, end_frame: end as u64 }
}

/// Starts never decrease along the sequence.
pub open spec fn sorted_by_start(s: Seq<AudioInterval>) -> bool {
    forall|a: int, b: int| 0 <= a < b < s.len() ==> s[a].start_frame <= s[b].start_frame
}

/// Every range is nonempty and each one ends strictly before the next starts.
pub open spec fn separated(s: Seq<AudioInterval>) -> bool {
    &&& forall|k: int| 0 <= k < s.len() ==> nonempty(#[trigger] s[k])
    &&& forall|k: int|
        0 <= k < s.len() - 1 ==> #[trigger] s[k].end_frame < s[k + 1].start_frame
}

/// Stable insertion of `x` after every range that starts no later than it.
pub open spec fn insert_by_start(s: Seq<AudioInterval>, x: AudioInterval) -> Seq<AudioInterval>
    decreases s.len(),
{
    if s.len() == 0 {
        seq![x]
    } else if s.last().start_frame <= x.start_frame {
        s.push(x)
    } else {
        insert_by_start(s.drop_last(), x).push(s.last())
    }
}

/// The nonempty ranges of `s`, stably ordered by start.
pub open spec fn nonempty_by_start(s: Seq<AudioInterval>) -> Seq<AudioInterval>
    decreases s.len(),
{
    if s.len() == 0 {
        s
    } else if nonempty(s.last()) {
        insert_by_start(nonempty_by_start(s.drop_last()), s.last())
    } else {
        nonempty_by_start(s.drop_last())
    }
}

/// One step of merging: a range that starts at or before the end of the last
/// merged range extends it, any other range is appended.
pub open spec fn merge_step(acc: Seq<AudioInterval>, x: AudioInterval) -> Seq<AudioInterval> {
    if acc.len() > 0 && x.start_frame <= acc.last().end_frame {
        let last = acc.last();
        let end = if x.end_frame > last.end_frame { x.end_frame } else { last.end_frame };
        acc.update(acc.len() - 1, AudioInterval { start_frame: last.start_frame, end_frame: end })
    } else {
        acc.push(x)
    }
}

/// Merges overlapping or touching ranges of a sequence ordered by start.
pub open spec fn merge_touching(s: Seq<AudioInterval>) -> Seq<AudioInterval>
    decreases s.len(),
{
    if s.len() == 0 {
        s
    } else {
        merge_step(merge_touching(s.drop_last()), s.last())
    }
}

/// `value * rate / divisor`, rounded down.
pub open spec fn scale_down(value: int, rate: int, divisor: int) -> int {
    (value * rate) / divisor
}

/// `value * rate / divisor`, rounded up.
pub open spec fn scale_up(value: int, rate: int, divisor: int) -> int {
    (value * rate + divisor - 1) / divisor
}

pub open spec fn min_int(a: int, b: int) -> int {
    if a < b { a } else { b }
}

/// The detector ranges, with empty ones dropped, ordered and merged.
pub open spec fn merged_detections(intervals: Seq<AudioInterval>) -> Seq<AudioInterval> {
    merge_touching(nonempty_by_start(intervals))
}

/// Every merged range maps into the source without leaving `u64`.
pub open spec fn fits_source(merged: Seq<AudioInterval>, rate: int) -> bool {
    forall|k: int|
        0 <= k < merged.len() ==> {
            &&& scale_down(#[trigger] merged[k].start_frame as int, rate, DETECTOR_RATE as int)
                <= u64::MAX
            &&& scale_up(merged[k].end_frame as int, rate, DETECTOR_RATE as int) <= u64::MAX
        }
}

/// Maps merged detector ranges to source frames: starts round down, ends
/// round up, both clamp to the decoded length, and empty results are dropped.
pub open spec fn to_source(s: Seq<AudioInterval>, rate: int, total: int) -> Seq<AudioInterval>
    decreases s.len(),
{
    if s.len() == 0 {
        s
    } else {
        let x = s.last();
        let mapped = interval(
            min_int(scale_down(x.start_frame as int, rate, DETECTOR_RATE as int), total),
            min_int(scale_up(x.end_frame as int, rate, DETECTOR_RATE as int), total),
        );
        if nonempty(mapped) {
            to_source(s.drop_last(), rate, total).push(mapped)
        } else {
            to_source(s.drop_last(), rate, total)
        }
    }
}

/// Source frames in `ms` milliseconds, rounded down.
pub open spec fn padding_frames(ms: int, rate: int) -> int {
    (ms * rate) / 1000
}

/// Widens each range: the first start and the last end receive the full
/// padding, internal boundaries share it, `after` going after a range and
/// `padding - after` before the next one. Starts stop at zero, ends at `total`.
pub open spec fn pad(s: Seq<AudioInterval>, padding: int, after: int, total: int) -> Seq<
    AudioInterval,
> {
    Seq::new(
        s.len(),
        |k: int|
            {
                let lead = if k == 0 { padding } else { padding - after };
                let tail = if k == s.len() - 1 { padding } else { after };
                let start = s[k].start_frame - lead;
                interval(
                    if start < 0 { 0 } else { start },
                    min_int(s[k].end_frame + tail, total),
                )
            },
    )
}

/// The ranges that normalization returns on success.
pub open spec fn prepared(
    intervals: Seq<AudioInterval>,
    rate: int,
    total: int,
    padding_ms: int,
) -> Seq<AudioInterval> {
    let mapped = to_source(merged_detections(intervals), rate, total);
    merge_touching(
        pad(mapped, padding_frames(padding_ms, rate), padding_frames(padding_ms / 2, rate), total),
    )
}

/// Normalization succeeds exactly on these inputs.
pub open spec fn prepare_accepts(intervals: Seq<AudioInterval>, rate: int, padding_ms: int) -> bool {
    &&& padding_ms <= MAX_PADDING_MS
    &&& rate != 0
    &&& fits_source(merged_detections(intervals), rate)
}

// ---------------------------------------------------------------------------
// Lemmas about ordering and merging.
proof fn lemma_insert_by_start_len(s: Seq<AudioInterval>, x: AudioInterval)
    ensures
        insert_by_start(s, x).len() == s.len() + 1,
    decreases s.len(),
{
    if s.len() > 0 && s.last().start_frame > x.start_frame {
        lemma_insert_by_start_len(s.drop_last(), x);
    }
}

/// Inserting at the position found by scanning back from the end is the
/// stable insertion.
proof fn lemma_insert_at(s: Seq<AudioInterval>, x: AudioInterval, p: int)
    requires
        0 <= p <= s.len(),
        sorted_by_start(s),
        p == 0 || s[p - 1].start_frame <= x.start_frame,
        forall|j: int| p <= j < s.len() ==> s[j].start_frame > x.start_frame,
    ensures
        insert_by_start(s, x) == s.insert(p, x),
    decreases s.len(),
{
    if s.len() == 0 {
        assert(s.insert(p, x) =~= seq![x]);
    } else if s.last().start_frame <= x.start_frame {
        assert(p == s.len());
        assert(s.insert(p, x) =~= s.push(x));
    } else {
        let t = s.drop_last();
        assert(p < s.len());
        lemma_insert_at(t, x, p);
        assert(t.insert(p, x).push(s.last()) =~= s.insert(p, x));
    }
}

proof fn lemma_insert_sorted(s: Seq<AudioInterval>, x: AudioInterval, p: int)
    requires
        0 <= p <= s.len(),
        sorted_by_start(s),
        p == 0 || s[p - 1].start_frame <= x.start_frame,
        forall|j: int| p <= j < s.len() ==> s[j].start_frame > x.start_frame,
    ensures
        sorted_by_start(s.insert(p, x)),
        forall|k: int| 0 <= k < s.insert(p, x).len() && nonempty(x)
            && (forall|j: int| 0 <= j < s.len() ==> nonempty(#[trigger] s[j]))
            ==> nonempty(#[trigger] s.insert(p, x)[k]),
{
    s.insert_ensures(p, x);
    let r = s.insert(p, x);
    assert forall|a: int, b: int| 0 <= a < b < r.len() implies r[a].start_frame
        <= r[b].start_frame by {
        if a < p && b < p {
        } else if a < p && b == p {
        } else if a < p {
            assert(r[b] == s[b - 1]);
        } else if a == p {
            assert(r[b] == s[b - 1]);
        } else {
            assert(r[a] == s[a - 1]);
            assert(r[b] == s[b - 1]);
        }
    }
    assert forall|k: int| 0 <= k < r.len() && nonempty(x)
        && (forall|j: int| 0 <= j < s.len() ==> nonempty(#[trigger] s[j]))
        implies nonempty(#[trigger] r[k]) by {
        if k < p {
        } else if k == p {
        } else {
            assert(r[k] == s[k - 1]);
        }
    }
}

proof fn lemma_insert_by_start_props(s: Seq<AudioInterval>, x: AudioInterval)
    requires
        sorted_by_start(s),
    ensures
        sorted_by_start(insert_by_start(s, x)),
        nonempty(x) && (forall|j: int| 0 <= j < s.len() ==> nonempty(#[trigger] s[j])) ==> (
        forall|j: int|
            0 <= j < insert_by_start(s, x).len() ==> nonempty(#[trigger] insert_by_start(s, x)[j])),
{
    let p = choose_insert_position(s, x);
    lemma_insert_at(s, x, p);
    lemma_insert_sorted(s, x, p);
}

/// The index just after the last range that starts no later than `x`.
spec fn insert_position(s: Seq<AudioInterval>, x: AudioInterval) -> int
    decreases s.len(),
{
    if s.len() == 0 {
        0
    } else if s.last().start_frame <= x.start_frame {
        s.len() as int
    } else {
        insert_position(s.drop_last(), x)
    }
}

proof fn choose_insert_position(s: Seq<AudioInterval>, x: AudioInterval) -> (p: int)
    requires
        sorted_by_start(s),
    ensures
        0 <= p <= s.len(),
        p == 0 || s[p - 1].start_frame <= x.start_frame,
        forall|j: int| p <= j < s.len() ==> s[j].start_frame > x.start_frame,
    decreases s.len(),
{
    if s.len() == 0 {
        0
    } else if s.last().start_frame <= x.start_frame {
        s.len() as int
    } else {
        let p = choose_insert_position(s.drop_last(), x);
        assert forall|j: int| p <= j < s.len() implies s[j].start_frame > x.start_frame by {
            if j < s.len() - 1 {
                assert(s.drop_last()[j] == s[j]);
            }
        }
        p
    }
}

proof fn lemma_nonempty_by_start_props(s: Seq<AudioInterval>)
    ensures
        sorted_by_start(nonempty_by_start(s)),
        forall|j: int|
            0 <= j < nonempty_by_start(s).len() ==> nonempty(#[trigger] nonempty_by_start(s)[j]),
    decreases s.len(),
{
    if s.len() > 0 {
        lemma_nonempty_by_start_props(s.drop_last());
        if nonempty(s.last()) {
            lemma_insert_by_start_props(nonempty_by_start(s.drop_last()), s.last());
        }
    }
}

/// Merging a start-ordered sequence of nonempty ranges gives separated
/// ranges whose first start is the first input start.
proof fn lemma_merge_touching_props(s: Seq<AudioInterval>)
    requires
        sorted_by_start(s),
        forall|j: int| 0 <= j < s.len() ==> nonempty(#[trigger] s[j]),
    ensures
        separated(merge_touching(s)),
        merge_touching(s).len() <= s.len(),
        s.len() > 0 ==> merge_touching(s).len() > 0,
        s.len() > 0 ==> merge_touching(s)[0].start_frame == s[0].start_frame,
        s.len() > 0 ==> merge_touching(s).last().start_frame <= s.last().start_frame,
        forall|k: int|
            0 <= k < merge_touching(s).len() ==> (exists|j: int|
                0 <= j < s.len() && #[trigger] merge_touching(s)[k].end_frame == s[j].end_frame),
        forall|k: int, j: int|
            0 <= k < merge_touching(s).len() && 0 <= j < s.len() ==> (#[trigger] merge_touching(
                s,
            )[k]).start_frame >= s[0].start_frame && #[trigger] s[j].start_frame
                >= merge_touching(s)[0].start_frame,
    decreases s.len(),
{
    if s.len() > 0 {
        let t = s.drop_last();
        assert forall|a: int, b: int| 0 <= a < b < t.len() implies t[a].start_frame
            <= t[b].start_frame by {
            assert(s[a].start_frame <= s[b].start_frame);
        }
        assert forall|j: int| 0 <= j < t.len() implies nonempty(#[trigger] t[j]) by {
            assert(nonempty(s[j]));
        }
        lemma_merge_touching_props(t);
        let acc = merge_touching(t);
        let x = s.last();
        assert(nonempty(s[s.len() - 1]));
        let m = merge_touching(s);
        assert(m == merge_step(acc, x));
        if t.len() > 0 {
            assert(t[0] == s[0]);
            assert(acc.last().start_frame <= t.last().start_frame);
            assert(t.last().start_frame <= x.start_frame) by {
                assert(s[s.len() - 2].start_frame <= s[s.len() - 1].start_frame);
            }
        }
        assert forall|k: int| 0 <= k < m.len() implies (exists|j: int|
            0 <= j < s.len() && #[trigger] m[k].end_frame == s[j].end_frame) by {
            if k < acc.len() && (m[k] == acc[k]) {
                let j = choose|j: int| 0 <= j < t.len() && acc[k].end_frame == t[j].end_frame;
                assert(t[j] == s[j]);
            } else if m[k].end_frame == x.end_frame {
                assert(s[s.len() - 1] == x);
            } else {
                let j = choose|j: int| 0 <= j < t.len() && acc[k].end_frame == t[j].end_frame;
                assert(t[j] == s[j]);
            }
        }
        assert forall|k: int, j: int| 0 <= k < m.len() && 0 <= j < s.len() implies (
        #[trigger] m[k]).start_frame >= s[0].start_frame && #[trigger] s[j].start_frame
            >= m[0].start_frame by {
            assert(s[0].start_frame <= s[j].start_frame);
            if t.len() > 0 {
                assert(m[0].start_frame == s[0].start_frame);
                if k < acc.len() {
                    assert(acc[k].start_frame >= t[0].start_frame);
                }
            }
        }
    }
}


proof fn lemma_scale_down_monotone(a: int, b: int, rate: int)
    requires
        0 <= a <= b,
        0 <= rate,
    ensures
        scale_down(a, rate, 16000) <= scale_down(b, rate, 16000),
        0 <= scale_down(a, rate, 16000),
{
    assert(a * rate <= b * rate) by (nonlinear_arith)
        requires
            a <= b,
            0 <= rate,
    ;
    assert(0 <= a * rate) by (nonlinear_arith)
        requires
            0 <= a,
            0 <= rate,
    ;
    assert((a * rate) / 16000 <= (b * rate) / 16000) by (nonlinear_arith)
        requires
            a * rate <= b * rate,
    ;
}

/// Mapping an ordered sequence keeps the order; every mapped range is
/// nonempty and ends within the decoded length.
proof fn lemma_to_source_props(s: Seq<AudioInterval>, rate: int, total: int)
    requires
        sorted_by_start(s),
        0 <= rate,
        0 <= total <= u64::MAX,
    ensures
        sorted_by_start(to_source(s, rate, total)),
        forall|k: int|
            0 <= k < to_source(s, rate, total).len() ==> nonempty(
                #[trigger] to_source(s, rate, total)[k],
            ) && to_source(s, rate, total)[k].end_frame <= total,
        forall|k: int|
            0 <= k < to_source(s, rate, total).len() ==> exists|j: int|
                0 <= j < s.len() && (#[trigger] to_source(s, rate, total)[k]).start_frame
                    == min_int(scale_down(s[j].start_frame as int, rate, 16000), total),
    decreases s.len(),
{
    if s.len() > 0 {
        let t = s.drop_last();
        assert forall|a: int, b: int| 0 <= a < b < t.len() implies t[a].start_frame
            <= t[b].start_frame by {
            assert(s[a].start_frame <= s[b].start_frame);
        }
        lemma_to_source_props(t, rate, total);
        let ts = to_source(t, rate, total);
        let x = s.last();
        lemma_scale_down_monotone(x.start_frame as int, x.start_frame as int, rate);
        let m = interval(
            min_int(scale_down(x.start_frame as int, rate, 16000), total),
            min_int(scale_up(x.end_frame as int, rate, 16000), total),
        );
        assert(0 <= scale_up(x.end_frame as int, rate, 16000)) by (nonlinear_arith)
            requires
                0 <= x.end_frame,
                0 <= rate,
        ;
        let r = to_source(s, rate, total);
        assert forall|k: int| 0 <= k < ts.len() implies (#[trigger] ts[k]).start_frame
            <= m.start_frame by {
            let j = choose|j: int|
                0 <= j < t.len() && ts[k].start_frame == min_int(
                    scale_down(t[j].start_frame as int, rate, 16000),
                    total,
                );
            assert(s[j].start_frame <= s[s.len() - 1].start_frame);
            lemma_scale_down_monotone(t[j].start_frame as int, x.start_frame as int, rate);
        }
        assert forall|k: int| 0 <= k < r.len() implies exists|j: int|
            0 <= j < s.len() && (#[trigger] r[k]).start_frame == min_int(
                scale_down(s[j].start_frame as int, rate, 16000),
                total,
            ) by {
            if k < ts.len() {
                assert(r[k] == ts[k]);
                let j = choose|j: int|
                    0 <= j < t.len() && ts[k].start_frame == min_int(
                        scale_down(t[j].start_frame as int, rate, 16000),
                        total,
                    );
                assert(t[j] == s[j]);
            } else {
                assert(s[s.len() - 1] == x);
            }
        }
    }
}

proof fn lemma_pad_props(s: Seq<AudioInterval>, padding: int, after: int, total: int)
    requires
        sorted_by_start(s),
        forall|k: int| 0 <= k < s.len() ==> nonempty(#[trigger] s[k]) && s[k].end_frame <= total,
        0 <= after <= padding,
        0 <= total <= u64::MAX,
    ensures
        sorted_by_start(pad(s, padding, after, total)),
        forall|k: int|
            0 <= k < pad(s, padding, after, total).len() ==> nonempty(
                #[trigger] pad(s, padding, after, total)[k],
            ) && pad(s, padding, after, total)[k].end_frame <= total,
        pad(s, padding, after, total).len() == s.len(),
{
    let p = pad(s, padding, after, total);
    assert forall|a: int, b: int| 0 <= a < b < p.len() implies p[a].start_frame
        <= p[b].start_frame by {
        assert(s[a].start_frame <= s[b].start_frame);
    }
    assert forall|k: int| 0 <= k < p.len() implies nonempty(#[trigger] p[k]) && p[k].end_frame
        <= total by {
        assert(nonempty(s[k]));
    }
}

/// On every accepted input, the ranges that normalization returns are
/// nonempty, each ends strictly before the next one starts (so they are also
/// ordered), and none extends past the decoded length.
pub proof fn prepared_ranges_are_separated_and_bounded(
    intervals: Seq<AudioInterval>,
    rate: u32,
    total: u64,
    padding_ms: u32,
)
    requires
        prepare_accepts(intervals, rate as int, padding_ms as int),
    ensures
        separated(prepared(intervals, rate as int, total as int, padding_ms as int)),
        forall|k: int|
            0 <= k < prepared(intervals, rate as int, total as int, padding_ms as int).len()
                ==> (#[trigger] prepared(intervals, rate as int, total as int, padding_ms as int)[k]).end_frame
                <= total,
{
    lemma_nonempty_by_start_props(intervals);
    let sorted = nonempty_by_start(intervals);
    lemma_merge_touching_props(sorted);
    let merged = merged_detections(intervals);
    assert forall|a: int, b: int| 0 <= a < b < merged.len() implies merged[a].start_frame
        <= merged[b].start_frame by {
        lemma_separated_sorted(merged, a, b);
    }
    lemma_to_source_props(merged, rate as int, total as int);
    let mapped = to_source(merged, rate as int, total as int);
    let padding = padding_frames(padding_ms as int, rate as int);
    let after = padding_frames(padding_ms as int / 2, rate as int);
    assert(0 <= after <= padding) by (nonlinear_arith)
        requires
            after == ((padding_ms as int / 2) * rate) / 1000,
            padding == (padding_ms * rate) / 1000,
            0 <= padding_ms as int / 2 <= padding_ms,
            0 <= rate,
    ;
    lemma_pad_props(mapped, padding, after, total as int);
    let padded = pad(mapped, padding, after, total as int);
    lemma_merge_touching_props(padded);
    let out = merge_touching(padded);
    assert forall|k: int| 0 <= k < out.len() implies (#[trigger] out[k]).end_frame <= total by {
        let j = choose|j: int| 0 <= j < padded.len() && out[k].end_frame == padded[j].end_frame;
        assert(nonempty(padded[j]) && padded[j].end_frame <= total);
    }
}

proof fn lemma_separated_sorted(s: Seq<AudioInterval>, a: int, b: int)
    requires
        separated(s),
        0 <= a < b < s.len(),
    ensures
        s[a].start_frame < s[b].start_frame,
        s[a].end_frame < s[b].start_frame,
    decreases b - a,
{
    assert(nonempty(s[a]));
    if b == a + 1 {
        assert(s[a].end_frame < s[a + 1].start_frame);
    } else {
        lemma_separated_sorted(s, a, b - 1);
        assert(nonempty(s[b - 1]));
        assert(s[b - 1].end_frame < s[b - 1 + 1].start_frame);
    }
}

// ---------------------------------------------------------------------------
// Coverage: every detected frame is kept.

/// Some range of `s` holds `x` entirely.
pub open spec fn within(s: Seq<AudioInterval>, x: AudioInterval) -> bool {
    exists|k: int|
        0 <= k < s.len() && (#[trigger] s[k]).start_frame <= x.start_frame && x.end_frame
            <= s[k].end_frame
}

/// Frame `f` lies in one of the ranges.
pub open spec fn covers(s: Seq<AudioInterval>, f: int) -> bool {
    exists|k: int| 0 <= k < s.len() && (#[trigger] s[k]).start_frame <= f < s[k].end_frame
}

proof fn lemma_insert_keeps(s: Seq<AudioInterval>, y: AudioInterval, x: AudioInterval)
    requires
        sorted_by_start(s),
        within(s, x) || (y.start_frame <= x.start_frame && x.end_frame <= y.end_frame),
    ensures
        within(insert_by_start(s, y), x),
{
    let p = choose_insert_position(s, y);
    lemma_insert_at(s, y, p);
    s.insert_ensures(p, y);
    let r = s.insert(p, y);
    if within(s, x) {
        let k = choose|k: int|
            0 <= k < s.len() && (#[trigger] s[k]).start_frame <= x.start_frame && x.end_frame
                <= s[k].end_frame;
        if k < p {
            assert(r[k] == s[k]);
        } else {
            assert(r[k + 1] == s[k]);
        }
    } else {
        assert(r[p] == y);
    }
}

/// Every nonempty detection is held by the ordered sequence.
proof fn lemma_nonempty_by_start_keeps(s: Seq<AudioInterval>, j: int)
    requires
        0 <= j < s.len(),
        nonempty(s[j]),
    ensures
        within(nonempty_by_start(s), s[j]),
    decreases s.len(),
{
    lemma_nonempty_by_start_props(s.drop_last());
    let t = s.drop_last();
    if j < s.len() - 1 {
        assert(t[j] == s[j]);
        lemma_nonempty_by_start_keeps(t, j);
        if nonempty(s.last()) {
            lemma_insert_keeps(nonempty_by_start(t), s.last(), s[j]);
        }
    } else {
        lemma_insert_keeps(nonempty_by_start(t), s.last(), s[j]);
    }
}

/// Merging keeps every input range inside some merged range.
proof fn lemma_merge_keeps(s: Seq<AudioInterval>, j: int)
    requires
        sorted_by_start(s),
        forall|i: int| 0 <= i < s.len() ==> nonempty(#[trigger] s[i]),
        0 <= j < s.len(),
    ensures
        within(merge_touching(s), s[j]),
    decreases s.len(),
{
    let t = s.drop_last();
    assert forall|a: int, b: int| 0 <= a < b < t.len() implies t[a].start_frame
        <= t[b].start_frame by {
        assert(s[a].start_frame <= s[b].start_frame);
    }
    assert forall|i: int| 0 <= i < t.len() implies nonempty(#[trigger] t[i]) by {
        assert(nonempty(s[i]));
    }
    let acc = merge_touching(t);
    let x = s.last();
    let m = merge_touching(s);
    assert(m == merge_step(acc, x));
    if t.len() > 0 {
        lemma_merge_touching_props(t);
        assert(acc.last().start_frame <= t.last().start_frame);
        assert(t.last().start_frame <= x.start_frame) by {
            assert(s[s.len() - 2].start_frame <= s[s.len() - 1].start_frame);
        }
    }
    if j < s.len() - 1 {
        assert(t[j] == s[j]);
        lemma_merge_keeps(t, j);
        let k = choose|k: int|
            0 <= k < acc.len() && (#[trigger] acc[k]).start_frame <= s[j].start_frame
                && s[j].end_frame <= acc[k].end_frame;
        assert(m[k].start_frame == acc[k].start_frame && m[k].end_frame >= acc[k].end_frame);
    } else {
        if acc.len() > 0 && x.start_frame <= acc.last().end_frame {
            assert(m[acc.len() - 1].start_frame <= x.start_frame);
        } else {
            assert(m[acc.len() as int] == x);
        }
    }
}

/// A detector range mapped to source frames, as `to_source` maps it.
pub open spec fn mapped_range(x: AudioInterval, rate: int, total: int) -> AudioInterval {
    interval(
        min_int(scale_down(x.start_frame as int, rate, DETECTOR_RATE as int), total),
        min_int(scale_up(x.end_frame as int, rate, DETECTOR_RATE as int), total),
    )
}

proof fn lemma_scale_up_monotone(a: int, b: int, rate: int)
    requires
        0 <= a <= b,
        0 <= rate,
    ensures
        scale_up(a, rate, 16000) <= scale_up(b, rate, 16000),
{
    assert(a * rate <= b * rate) by (nonlinear_arith)
        requires
            a <= b,
            0 <= rate,
    ;
    assert((a * rate + 15999) / 16000 <= (b * rate + 15999) / 16000) by (nonlinear_arith)
        requires
            a * rate <= b * rate,
    ;
}

/// Every range that maps to a nonempty source range appears mapped.
proof fn lemma_to_source_keeps(s: Seq<AudioInterval>, rate: int, total: int, j: int)
    requires
        0 <= j < s.len(),
        nonempty(mapped_range(s[j], rate, total)),
    ensures
        exists|k: int|
            0 <= k < to_source(s, rate, total).len() && #[trigger] to_source(s, rate, total)[k]
                == mapped_range(s[j], rate, total),
    decreases s.len(),
{
    let t = s.drop_last();
    let ts = to_source(t, rate, total);
    if j == s.len() - 1 {
        assert(to_source(s, rate, total)[ts.len() as int] == mapped_range(s[j], rate, total));
    } else {
        assert(t[j] == s[j]);
        lemma_to_source_keeps(t, rate, total, j);
        let k = choose|k: int| 0 <= k < ts.len() && ts[k] == mapped_range(s[j], rate, total);
        assert(to_source(s, rate, total)[k] == ts[k]);
    }
}

/// Padding only widens ranges that end within the decoded length.
proof fn lemma_pad_keeps(s: Seq<AudioInterval>, padding: int, after: int, total: int, f: int)
    requires
        covers(s, f),
        forall|k: int| 0 <= k < s.len() ==> (#[trigger] s[k]).end_frame <= total,
        0 <= after <= padding,
        0 <= total <= u64::MAX,
    ensures
        covers(pad(s, padding, after, total), f),
{
    let k = choose|k: int| 0 <= k < s.len() && (#[trigger] s[k]).start_frame <= f < s[k].end_frame;
    let p = pad(s, padding, after, total);
    assert(s[k].end_frame <= total);
    assert(p[k].start_frame <= f < p[k].end_frame);
}

/// Normalization keeps every detected frame: each source frame that a
/// nonempty detection maps to (its start rounded down, its end rounded up,
/// below the decoded length) lies in a returned range.
#[verifier::spinoff_prover]
#[verifier::rlimit(40)]
pub proof fn detected_frames_are_kept(
    intervals: Seq<AudioInterval>,
    rate: u32,
    total: u64,
    padding_ms: u32,
    j: int,
    f: int,
)
    requires
        prepare_accepts(intervals, rate as int, padding_ms as int),
        0 <= j < intervals.len(),
        nonempty(intervals[j]),
        scale_down(intervals[j].start_frame as int, rate as int, 16000) <= f,
        f < min_int(scale_up(intervals[j].end_frame as int, rate as int, 16000), total as int),
    ensures
        covers(prepared(intervals, rate as int, total as int, padding_ms as int), f),
{
    let x = intervals[j];
    lemma_nonempty_by_start_props(intervals);
    let sorted = nonempty_by_start(intervals);
    lemma_nonempty_by_start_keeps(intervals, j);
    let k0 = choose|k: int|
        0 <= k < sorted.len() && (#[trigger] sorted[k]).start_frame <= x.start_frame
            && x.end_frame <= sorted[k].end_frame;
    lemma_merge_keeps(sorted, k0);
    let merged = merged_detections(intervals);
    let k1 = choose|k: int|
        0 <= k < merged.len() && (#[trigger] merged[k]).start_frame <= sorted[k0].start_frame
            && sorted[k0].end_frame <= merged[k].end_frame;
    let m = merged[k1];
    lemma_scale_down_monotone(m.start_frame as int, x.start_frame as int, rate as int);
    lemma_scale_up_monotone(x.end_frame as int, m.end_frame as int, rate as int);
    let r = mapped_range(m, rate as int, total as int);
    assert(r.start_frame <= f < r.end_frame);
    lemma_to_source_keeps(merged, rate as int, total as int, k1);
    let mapped = to_source(merged, rate as int, total as int);
    let k2 = choose|k: int| 0 <= k < mapped.len() && #[trigger] mapped[k] == r;
    assert(covers(mapped, f)) by {
        assert(mapped[k2].start_frame <= f < mapped[k2].end_frame);
    }
    lemma_merge_touching_props(sorted);
    assert forall|a: int, b: int| 0 <= a < b < merged.len() implies merged[a].start_frame
        <= merged[b].start_frame by {
        lemma_separated_sorted(merged, a, b);
    }
    lemma_to_source_props(merged, rate as int, total as int);
    let padding = padding_frames(padding_ms as int, rate as int);
    let after = padding_frames(padding_ms as int / 2, rate as int);
    assert(0 <= after <= padding) by (nonlinear_arith)
        requires
            after == ((padding_ms as int / 2) * rate) / 1000,
            padding == (padding_ms * rate) / 1000,
            0 <= padding_ms as int / 2 <= padding_ms,
            0 <= rate,
    ;
    lemma_pad_keeps(mapped, padding, after, total as int, f);
    lemma_pad_props(mapped, padding, after, total as int);
    lemma_merge_covers(pad(mapped, padding, after, total as int), f);
}

/// Every nonempty detection's end maps into the source without leaving `u64`.
pub open spec fn ends_fit(intervals: Seq<AudioInterval>, rate: int) -> bool {
    forall|j: int|
        0 <= j < intervals.len() && nonempty(#[trigger] intervals[j]) ==> scale_up(
            intervals[j].end_frame as int,
            rate,
            DETECTOR_RATE as int,
        ) <= u64::MAX
}

proof fn lemma_insert_from(s: Seq<AudioInterval>, y: AudioInterval, k: int)
    requires
        sorted_by_start(s),
        0 <= k < insert_by_start(s, y).len(),
    ensures
        insert_by_start(s, y)[k] == y || exists|i: int|
            0 <= i < s.len() && #[trigger] s[i] == insert_by_start(s, y)[k],
{
    let p = choose_insert_position(s, y);
    lemma_insert_at(s, y, p);
    s.insert_ensures(p, y);
    let r = s.insert(p, y);
    if k < p {
        assert(r[k] == s[k]);
    } else if k > p {
        assert(r[k] == s[k - 1]);
    }
}

/// The ordered sequence holds only detections.
proof fn lemma_nonempty_by_start_from(s: Seq<AudioInterval>, k: int)
    requires
        0 <= k < nonempty_by_start(s).len(),
    ensures
        exists|i: int| 0 <= i < s.len() && #[trigger] s[i] == nonempty_by_start(s)[k],
    decreases s.len(),
{
    let t = s.drop_last();
    lemma_nonempty_by_start_props(t);
    let nt = nonempty_by_start(t);
    if nonempty(s.last()) {
        lemma_insert_from(nt, s.last(), k);
        if insert_by_start(nt, s.last())[k] != s.last() {
            let i = choose|i: int| 0 <= i < nt.len() && nt[i] == insert_by_start(nt, s.last())[k];
            lemma_nonempty_by_start_from(t, i);
            let i2 = choose|i2: int| 0 <= i2 < t.len() && t[i2] == nt[i];
            assert(s[i2] == t[i2]);
        } else {
            assert(s[s.len() - 1] == s.last());
        }
    } else {
        lemma_nonempty_by_start_from(t, k);
        let i = choose|i: int| 0 <= i < t.len() && t[i] == nt[k];
        assert(s[i] == t[i]);
    }
}

proof fn lemma_down_below_up(a: int, b: int, rate: int)
    requires
        0 <= a <= b,
        0 <= rate,
    ensures
        scale_down(a, rate, 16000) <= scale_up(b, rate, 16000),
{
    lemma_scale_down_monotone(a, b, rate);
    assert((b * rate) / 16000 <= (b * rate + 15999) / 16000) by (nonlinear_arith)
        requires
            0 <= b * rate,
    ;
    assert(0 <= b * rate) by (nonlinear_arith)
        requires
            0 <= b,
            0 <= rate,
    ;
}

/// Normalization succeeds exactly when the padding is at most a second, the
/// rate is not zero, and every nonempty detection's end, rounded up to
/// source frames, fits in `u64`; merging does not change that.
#[verifier::spinoff_prover]
pub proof fn acceptance_is_per_detection(intervals: Seq<AudioInterval>, rate: u32, padding_ms: u32)
    ensures
        prepare_accepts(intervals, rate as int, padding_ms as int) <==> (padding_ms <= 1000 && rate
            != 0 && ends_fit(intervals, rate as int)),
{
    lemma_nonempty_by_start_props(intervals);
    let sorted = nonempty_by_start(intervals);
    lemma_merge_touching_props(sorted);
    let merged = merged_detections(intervals);
    if ends_fit(intervals, rate as int) {
        assert forall|k: int| 0 <= k < merged.len() implies {
            &&& scale_down(#[trigger] merged[k].start_frame as int, rate as int, 16000) <= u64::MAX
            &&& scale_up(merged[k].end_frame as int, rate as int, 16000) <= u64::MAX
        } by {
            let j = choose|j: int| 0 <= j < sorted.len() && merged[k].end_frame == sorted[j].end_frame;
            lemma_nonempty_by_start_from(intervals, j);
            let i = choose|i: int| 0 <= i < intervals.len() && intervals[i] == sorted[j];
            assert(nonempty(sorted[j]));
            assert(nonempty(intervals[i]));
            assert(nonempty(merged[k]));
            lemma_down_below_up(merged[k].start_frame as int, merged[k].end_frame as int, rate as int);
        }
    }
    if fits_source(merged, rate as int) {
        assert forall|j: int| 0 <= j < intervals.len() && nonempty(#[trigger] intervals[j])
            implies scale_up(intervals[j].end_frame as int, rate as int, 16000) <= u64::MAX by {
            lemma_nonempty_by_start_keeps(intervals, j);
            let k0 = choose|k: int|
                0 <= k < sorted.len() && (#[trigger] sorted[k]).start_frame
                    <= intervals[j].start_frame && intervals[j].end_frame <= sorted[k].end_frame;
            lemma_merge_keeps(sorted, k0);
            let k1 = choose|k: int|
                0 <= k < merged.len() && (#[trigger] merged[k]).start_frame
                    <= sorted[k0].start_frame && sorted[k0].end_frame <= merged[k].end_frame;
            lemma_scale_up_monotone(
                intervals[j].end_frame as int,
                merged[k1].end_frame as int,
                rate as int,
            );
        }
    }
}

// ---------------------------------------------------------------------------
// Executable normalization.
fn failure() -> (e: ConvertError)
    ensures
        e.is_failed(),
{
    ConvertError::Failed { message: "audio interval arithmetic overflow or invalid rate".to_string() }
}

fn mul_wide(value: u64, rate: u32) -> (r: u128)
    ensures
        r == value * rate,
        r <= u64::MAX * u32::MAX,
{
    proof {
        assert(value * rate <= u64::MAX * u32::MAX) by (nonlinear_arith)
            requires
                value <= u64::MAX,
                rate <= u32::MAX,
        ;
        assert(0 <= value * rate) by (nonlinear_arith)
            requires
                0 <= value,
                0 <= rate,
        ;
    }
    (value as u128) * (rate as u128)
}

/// `value * rate / divisor`, rounded down or up, when it fits in `u64`.
fn scale(value: u64, rate: u32, divisor: u32, ceil: bool) -> (r: Option<u64>)
    requires
        divisor > 0,
    ensures
        ({
            let exact = if ceil {
                scale_up(value as int, rate as int, divisor as int)
            } else {
                scale_down(value as int, rate as int, divisor as int)
            };
            match r {
                Some(v) => v == exact,
                None => exact > u64::MAX,
            }
        }),
{
    let n = mul_wide(value, rate);
    let d = divisor as u128;
    let q = if ceil {
        (n + (d - 1)) / d
    } else {
        n / d
    };
    if q <= u64::MAX as u128 {
        Some(q as u64)
    } else {
        None
    }
}

/// Inserts `x` into start-ordered `out` after every range starting no later.
fn insert_sorted(out: &mut Vec<AudioInterval>, x: AudioInterval)
    requires
        sorted_by_start(old(out)@),
    ensures
        final(out)@ == insert_by_start(old(out)@, x),
        sorted_by_start(final(out)@),
{
    let ghost s = out@;
    let mut p = out.len();
    while p > 0 && out[p - 1].start_frame > x.start_frame
        invariant
            out@ == s,
            sorted_by_start(s),
            0 <= p <= s.len(),
            forall|j: int| p <= j < s.len() ==> s[j].start_frame > x.start_frame,
        decreases p,
    {
        p = p - 1;
    }
    proof {
        lemma_insert_at(s, x, p as int);
        lemma_insert_sorted(s, x, p as int);
    }
    out.insert(p, x);
}

/// Appends `x` to `out`, extending the last range when `x` starts at or
/// before its end.
fn merge_into(out: &mut Vec<AudioInterval>, x: AudioInterval)
    ensures
        final(out)@ == merge_step(old(out)@, x),
{
    let n = out.len();
    if n > 0 && x.start_frame <= out[n - 1].end_frame {
        let last = out[n - 1];
        let end = if x.end_frame > last.end_frame {
            x.end_frame
        } else {
            last.end_frame
        };
        out.set(n - 1, AudioInterval { start_frame: last.start_frame, end_frame: end });
    } else {
        out.push(x);
    }
}

/// Normalizes detector ranges at 16 kHz and maps them to the source: empty
/// ranges are removed, the rest are ordered and merged when they overlap or
/// touch, mapped to `source_rate` (starts down, ends up), clamped to
/// `total_frames` and widened by `padding_ms`, with internal boundaries
/// sharing one padding. Ranges that then meet are merged again.
pub fn prepare_intervals(
    intervals: Vec<AudioInterval>,
    source_rate: u32,
    total_frames: u64,
    padding_ms: u32,
) -> (result: Result<Vec<AudioInterval>, ConvertError>)
    ensures
        match result {
            Ok(out) => prepare_accepts(intervals@, source_rate as int, padding_ms as int) && out@
                == prepared(intervals@, source_rate as int, total_frames as int, padding_ms as int),
            Err(e) => !prepare_accepts(intervals@, source_rate as int, padding_ms as int)
                && e.is_failed(),
        },
{
    if padding_ms > MAX_PADDING_MS || source_rate == 0 {
        return Err(failure());
    }
    // Order the nonempty detector ranges by start.
    let mut raw: Vec<AudioInterval> = Vec::new();
    let mut i: usize = 0;
    while i < intervals.len()
        invariant
            0 <= i <= intervals@.len(),
            raw@ == nonempty_by_start(intervals@.take(i as int)),
            sorted_by_start(raw@),
        decreases intervals@.len() - i,
    {
        let x = intervals[i];
        proof {
            assert(intervals@.take(i as int + 1).drop_last() =~= intervals@.take(i as int));
            lemma_nonempty_by_start_props(intervals@.take(i as int));
        }
        if x.start_frame < x.end_frame {
            insert_sorted(&mut raw, x);
        }
        i = i + 1;
    }
    proof {
        assert(intervals@.take(intervals@.len() as int) =~= intervals@);
    }
    // Merge overlapping or touching ranges.
    let mut merged: Vec<AudioInterval> = Vec::new();
    let mut i: usize = 0;
    while i < raw.len()
        invariant
            0 <= i <= raw@.len(),
            merged@ == merge_touching(raw@.take(i as int)),
        decreases raw@.len() - i,
    {
        proof {
            assert(raw@.take(i as int + 1).drop_last() =~= raw@.take(i as int));
        }
        merge_into(&mut merged, raw[i]);
        i = i + 1;
    }
    proof {
        assert(raw@.take(raw@.len() as int) =~= raw@);
    }
    let ghost merged_spec = merged@;
    assert(merged_spec == merged_detections(intervals@));
    // Map to the source, clamp and drop what became empty.
    let mut mapped: Vec<AudioInterval> = Vec::new();
    let mut i: usize = 0;
    while i < merged.len()
        invariant
            0 <= i <= merged@.len(),
            merged@ == merged_spec,
            merged_spec == merged_detections(intervals@),
            source_rate > 0,
            mapped@ == to_source(merged_spec.take(i as int), source_rate as int, total_frames as int),
            fits_source(merged_spec.take(i as int), source_rate as int),
        decreases merged@.len() - i,
    {
        let x = merged[i];
        proof {
            assert(merged_spec.take(i as int + 1).drop_last() =~= merged_spec.take(i as int));
        }
        let start = match scale(x.start_frame, source_rate, DETECTOR_RATE, false) {
            Some(v) => v,
            None => {
                proof {
                    assert(merged_spec[i as int] == x);
                }
                return Err(failure());
            },
        };
        let end = match scale(x.end_frame, source_rate, DETECTOR_RATE, true) {
            Some(v) => v,
            None => {
                proof {
                    assert(merged_spec[i as int] == x);
                }
                return Err(failure());
            },
        };
        let start = if start < total_frames {
            start
        } else {
            total_frames
        };
        let end = if end < total_frames {
            end
        } else {
            total_frames
        };
        if start < end {
            mapped.push(AudioInterval { start_frame: start, end_frame: end });
        }
        proof {
            let t = merged_spec.take(i as int + 1);
            assert forall|k: int| 0 <= k < t.len() implies {
                &&& scale_down(#[trigger] t[k].start_frame as int, source_rate as int, 16000)
                    <= u64::MAX
                &&& scale_up(t[k].end_frame as int, source_rate as int, 16000) <= u64::MAX
            } by {
                if k < i {
                    assert(merged_spec.take(i as int)[k] == t[k]);
                }
            }
        }
        i = i + 1;
    }
    proof {
        assert(merged_spec.take(merged_spec.len() as int) =~= merged_spec);
    }
    // Pad: the edges get the full padding, internal boundaries share one.
    let padding = match scale(padding_ms as u64, source_rate, 1000, false) {
        Some(v) => v,
        None => {
            proof {
                assert(padding_ms * source_rate <= 1000 * u32::MAX) by (nonlinear_arith)
                    requires
                        padding_ms <= 1000,
                        source_rate <= u32::MAX,
                ;
            }
            return Err(failure());
        },
    };
    let after = match scale((padding_ms / 2) as u64, source_rate, 1000, false) {
        Some(v) => v,
        None => {
            proof {
                assert((padding_ms / 2) * source_rate <= 1000 * u32::MAX) by (nonlinear_arith)
                    requires
                        padding_ms / 2 <= 1000,
                        source_rate <= u32::MAX,
                ;
            }
            return Err(failure());
        },
    };
    proof {
        assert(after <= padding) by (nonlinear_arith)
            requires
                after == ((padding_ms / 2) * source_rate) / 1000,
                padding == (padding_ms * source_rate) / 1000,
                padding_ms / 2 <= padding_ms,
                0 <= source_rate,
        ;
    }
    let before = padding - after;
    let count = mapped.len();
    let ghost padded = pad(mapped@, padding as int, after as int, total_frames as int);
    let mut out: Vec<AudioInterval> = Vec::new();
    let mut i: usize = 0;
    while i < count
        invariant
            0 <= i <= count,
            count == mapped@.len(),
            before == padding - after,
            padded == pad(mapped@, padding as int, after as int, total_frames as int),
            out@ == merge_touching(padded.take(i as int)),
        decreases count - i,
    {
        let x = mapped[i];
        let lead = if i == 0 {
            padding
        } else {
            before
        };
        let tail = if i + 1 == count {
            padding
        } else {
            after
        };
        let start = if x.start_frame > lead {
            x.start_frame - lead
        } else {
            0
        };
        let widened = (x.end_frame as u128) + (tail as u128);
        let end = if widened < total_frames as u128 {
            widened as u64
        } else {
            total_frames
        };
        let y = AudioInterval { start_frame: start, end_frame: end };
        proof {
            assert(padded[i as int] == y);
            assert(padded.take(i as int + 1).drop_last() =~= padded.take(i as int));
        }
        merge_into(&mut out, y);
        i = i + 1;
    }
    proof {
        assert(padded.take(count as int) =~= padded);
    }
    Ok(out)
}


// ---------------------------------------------------------------------------
// The order of the detections does not matter.

/// The ordered nonempty detections cover exactly the frames the detections
/// cover.
proof fn lemma_sorted_covers(s: Seq<AudioInterval>, f: int)
    ensures
        covers(nonempty_by_start(s), f) <==> covers(s, f),
{
    let sorted = nonempty_by_start(s);
    if covers(s, f) {
        let j = choose|j: int| 0 <= j < s.len() && (#[trigger] s[j]).start_frame <= f < s[j].end_frame;
        lemma_nonempty_by_start_keeps(s, j);
        let k = choose|k: int|
            0 <= k < sorted.len() && (#[trigger] sorted[k]).start_frame <= s[j].start_frame
                && s[j].end_frame <= sorted[k].end_frame;
        assert(sorted[k].start_frame <= f < sorted[k].end_frame);
    }
    if covers(sorted, f) {
        let k = choose|k: int|
            0 <= k < sorted.len() && (#[trigger] sorted[k]).start_frame <= f < sorted[k].end_frame;
        lemma_nonempty_by_start_from(s, k);
        let i = choose|i: int| 0 <= i < s.len() && #[trigger] s[i] == sorted[k];
        assert(s[i].start_frame <= f < s[i].end_frame);
    }
}

/// Merging an ordered sequence of nonempty ranges covers the same frames.
proof fn lemma_merge_covers(s: Seq<AudioInterval>, f: int)
    requires
        sorted_by_start(s),
        forall|i: int| 0 <= i < s.len() ==> nonempty(#[trigger] s[i]),
    ensures
        covers(merge_touching(s), f) <==> covers(s, f),
    decreases s.len(),
{
    let m = merge_touching(s);
    if covers(s, f) {
        let j = choose|j: int| 0 <= j < s.len() && (#[trigger] s[j]).start_frame <= f < s[j].end_frame;
        lemma_merge_keeps(s, j);
        let k = choose|k: int|
            0 <= k < m.len() && (#[trigger] m[k]).start_frame <= s[j].start_frame
                && s[j].end_frame <= m[k].end_frame;
        assert(m[k].start_frame <= f < m[k].end_frame);
    }
    if s.len() > 0 && covers(m, f) {
        let t = s.drop_last();
        assert forall|a: int, b: int| 0 <= a < b < t.len() implies t[a].start_frame
            <= t[b].start_frame by {
            assert(s[a].start_frame <= s[b].start_frame);
        }
        assert forall|i: int| 0 <= i < t.len() implies nonempty(#[trigger] t[i]) by {
            assert(nonempty(s[i]));
        }
        let acc = merge_touching(t);
        let x = s.last();
        assert(m == merge_step(acc, x));
        let k = choose|k: int| 0 <= k < m.len() && (#[trigger] m[k]).start_frame <= f < m[k].end_frame;
        if k < acc.len() && m[k] == acc[k] {
            assert(covers(acc, f));
            lemma_merge_covers(t, f);
            let j = choose|j: int| 0 <= j < t.len() && (#[trigger] t[j]).start_frame <= f < t[j].end_frame;
            assert(s[j] == t[j]);
        } else if m[k] == x {
            assert(s[s.len() - 1] == x);
        } else {
            let last = acc.last();
            assert(k == acc.len() - 1);
            if f < last.end_frame {
                assert(acc[k] == last);
                assert(covers(acc, f));
                lemma_merge_covers(t, f);
                let j = choose|j: int|
                    0 <= j < t.len() && (#[trigger] t[j]).start_frame <= f < t[j].end_frame;
                assert(s[j] == t[j]);
            } else {
                assert(x.start_frame <= f < x.end_frame);
                assert(s[s.len() - 1] == x);
            }
        }
    }
}

proof fn lemma_separated_prefix(s: Seq<AudioInterval>)
    requires
        separated(s),
        s.len() > 0,
    ensures
        separated(s.drop_last()),
{
    let t = s.drop_last();
    assert forall|k: int| 0 <= k < t.len() implies nonempty(#[trigger] t[k]) by {
        assert(t[k] == s[k]);
    }
    assert forall|k: int| 0 <= k < t.len() - 1 implies #[trigger] t[k].end_frame < t[k
        + 1].start_frame by {
        assert(t[k] == s[k] && t[k + 1] == s[k + 1]);
    }
}

/// Facts about the last range of a separated sequence: every covered frame
/// lies below its end, and the frames below its start are those the rest
/// covers.
proof fn lemma_separated_last(s: Seq<AudioInterval>, f: int)
    requires
        separated(s),
        s.len() > 0,
    ensures
        covers(s, f) ==> f < s.last().end_frame,
        s.last().start_frame <= f < s.last().end_frame ==> covers(s, f),
        covers(s.drop_last(), f) <==> (covers(s, f) && f < s.last().start_frame),
        s.len() > 1 && covers(s, f) && f < s.last().start_frame ==> f < s[s.len() - 2].end_frame,
{
    let n = s.len() - 1;
    let t = s.drop_last();
    assert(nonempty(s[n]));
    if s.last().start_frame <= f < s.last().end_frame {
        assert(s[n].start_frame <= f < s[n].end_frame);
    }
    if covers(s, f) {
        let k = choose|k: int| 0 <= k < s.len() && (#[trigger] s[k]).start_frame <= f < s[k].end_frame;
        if k < n {
            lemma_separated_sorted(s, k, n);
            assert(t[k] == s[k]);
            if k < n - 1 {
                lemma_separated_sorted(s, k, n - 1);
                assert(nonempty(s[n - 1]));
            }
        }
    }
    if covers(t, f) {
        let k = choose|k: int| 0 <= k < t.len() && (#[trigger] t[k]).start_frame <= f < t[k].end_frame;
        assert(t[k] == s[k]);
        lemma_separated_sorted(s, k, n);
        assert(s[k].start_frame <= f < s[k].end_frame);
    }
}

/// Separated ranges are determined by the frames they cover.
proof fn lemma_separated_unique(a: Seq<AudioInterval>, b: Seq<AudioInterval>)
    requires
        separated(a),
        separated(b),
        forall|f: int| covers(a, f) <==> covers(b, f),
    ensures
        a == b,
    decreases a.len() + b.len(),
{
    if a.len() == 0 && b.len() == 0 {
        assert(a =~= b);
    } else if a.len() == 0 {
        lemma_separated_last(b, b.last().start_frame as int);
        assert(nonempty(b[b.len() - 1]));
        assert(!covers(a, b.last().start_frame as int));
    } else if b.len() == 0 {
        lemma_separated_last(a, a.last().start_frame as int);
        assert(nonempty(a[a.len() - 1]));
        assert(!covers(b, a.last().start_frame as int));
    } else {
        let x = a.last();
        let y = b.last();
        assert(nonempty(a[a.len() - 1]) && nonempty(b[b.len() - 1]));
        lemma_separated_last(a, x.end_frame - 1);
        lemma_separated_last(b, x.end_frame - 1);
        lemma_separated_last(a, y.end_frame - 1);
        lemma_separated_last(b, y.end_frame - 1);
        assert(x.end_frame == y.end_frame);
        if x.start_frame < y.start_frame {
            let f = y.start_frame - 1;
            lemma_separated_last(a, f);
            lemma_separated_last(b, f);
            if b.len() > 1 {
                lemma_separated_sorted(b, b.len() - 2, b.len() - 1);
            } else {
                assert(covers(b.drop_last(), f));
                assert(false);
            }
        }
        if y.start_frame < x.start_frame {
            let f = x.start_frame - 1;
            lemma_separated_last(a, f);
            lemma_separated_last(b, f);
            if a.len() > 1 {
                lemma_separated_sorted(a, a.len() - 2, a.len() - 1);
            } else {
                assert(covers(a.drop_last(), f));
                assert(false);
            }
        }
        assert(x == y);
        lemma_separated_prefix(a);
        lemma_separated_prefix(b);
        assert forall|f: int| covers(a.drop_last(), f) <==> covers(b.drop_last(), f) by {
            lemma_separated_last(a, f);
            lemma_separated_last(b, f);
        }
        lemma_separated_unique(a.drop_last(), b.drop_last());
        assert(a =~= a.drop_last().push(x));
        assert(b =~= b.drop_last().push(y));
    }
}

/// The merged detections depend only on the frames the detections cover.
proof fn lemma_merged_by_cover(p: Seq<AudioInterval>, q: Seq<AudioInterval>)
    requires
        forall|f: int| covers(p, f) <==> covers(q, f),
    ensures
        merged_detections(p) == merged_detections(q),
{
    lemma_nonempty_by_start_props(p);
    lemma_nonempty_by_start_props(q);
    lemma_merge_touching_props(nonempty_by_start(p));
    lemma_merge_touching_props(nonempty_by_start(q));
    assert forall|f: int| covers(merged_detections(p), f) <==> covers(merged_detections(q), f) by {
        lemma_sorted_covers(p, f);
        lemma_sorted_covers(q, f);
        lemma_merge_covers(nonempty_by_start(p), f);
        lemma_merge_covers(nonempty_by_start(q), f);
    }
    lemma_separated_unique(merged_detections(p), merged_detections(q));
}

/// Normalization looks only at which ranges were detected: detections given
/// in another order, or with some repeated, are accepted or refused alike
/// and give the same source ranges.
pub proof fn detection_order_does_not_matter(
    p: Seq<AudioInterval>,
    q: Seq<AudioInterval>,
    rate: u32,
    total: u64,
    padding_ms: u32,
)
    requires
        forall|x: AudioInterval| p.contains(x) <==> q.contains(x),
    ensures
        prepare_accepts(p, rate as int, padding_ms as int) == prepare_accepts(
            q,
            rate as int,
            padding_ms as int,
        ),
        prepared(p, rate as int, total as int, padding_ms as int) == prepared(
            q,
            rate as int,
            total as int,
            padding_ms as int,
        ),
{
    assert forall|f: int| covers(p, f) <==> covers(q, f) by {
        if covers(p, f) {
            let k = choose|k: int| 0 <= k < p.len() && (#[trigger] p[k]).start_frame <= f < p[k].end_frame;
            assert(p.contains(p[k]));
            let j = choose|j: int| 0 <= j < q.len() && q[j] == p[k];
            assert(q[j].start_frame <= f < q[j].end_frame);
        }
        if covers(q, f) {
            let k = choose|k: int| 0 <= k < q.len() && (#[trigger] q[k]).start_frame <= f < q[k].end_frame;
            assert(q.contains(q[k]));
            let j = choose|j: int| 0 <= j < p.len() && p[j] == q[k];
            assert(p[j].start_frame <= f < p[j].end_frame);
        }
    }
    lemma_merged_by_cover(p, q);
}

/// In particular, any reordering of the detections gives the same result.
pub proof fn reordered_detections_give_the_same_ranges(
    p: Seq<AudioInterval>,
    q: Seq<AudioInterval>,
    rate: u32,
    total: u64,
    padding_ms: u32,
)
    requires
        p.to_multiset() == q.to_multiset(),
    ensures
        prepare_accepts(p, rate as int, padding_ms as int) == prepare_accepts(
            q,
            rate as int,
            padding_ms as int,
        ),
        prepared(p, rate as int, total as int, padding_ms as int) == prepared(
            q,
            rate as int,
            total as int,
            padding_ms as int,
        ),
{
    assert forall|x: AudioInterval| p.contains(x) <==> q.contains(x) by {
        p.to_multiset_ensures();
        q.to_multiset_ensures();
        assert(p.contains(x) <==> p.to_multiset().count(x) > 0);
        assert(q.contains(x) <==> q.to_multiset().count(x) > 0);
    }
    detection_order_does_not_matter(p, q, rate, total, padding_ms);
}

} // verus!
