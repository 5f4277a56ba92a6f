//! Cutting oversized speech regions into pieces an engine can take.
//!
//! A region longer than the duration ceiling, or holding more samples than
//! the sample ceiling, is cut into pieces of equal sample count (the last
//! one takes the remainder). Piece boundaries in time are placed by linear
//! interpolation over the sample index, so the pieces tile the region's
//! time range exactly.

use crate::segment::{chronological, segment_views, SpeechSegment, SpeechSegmentView};
use vstd::prelude::*;

verus! {

/// Longest region, in milliseconds, that is passed on uncut.
pub const MAX_SEGMENT_DURATION_MS: u64 = 25_000;

/// Largest sample count that is passed on uncut: 25 seconds at 16 kHz.
pub const MAX_SEGMENT_SAMPLES: usize = 25 * 16_000;

impl<S> SpeechSegmentView<S> {
    /// Over the duration ceiling or over the sample ceiling.
    pub open spec fn oversized(self) -> bool {
        self.duration_ms() > MAX_SEGMENT_DURATION_MS || self.samples.len() > MAX_SEGMENT_SAMPLES
    }

    /// How many pieces the region is cut into: one if it is under both
    /// ceilings, else the sample count over the sample ceiling, rounded up.
    pub open spec fn chunk_count(self) -> int {
        if self.oversized() {
            (self.samples.len() + MAX_SEGMENT_SAMPLES - 1) / (MAX_SEGMENT_SAMPLES as int)
        } else {
            1
        }
    }

    /// Sample count of every piece but the last.
    pub open spec fn samples_per_chunk(self) -> int {
        self.samples.len() as int / self.chunk_count()
    }

    /// Index of the first sample of piece `k`.
    pub open spec fn chunk_first(self, k: int) -> int {
        k * self.samples_per_chunk()
    }

    /// Index one past the last sample of piece `k`.
    pub open spec fn chunk_end(self, k: int) -> int {
        if k == self.chunk_count() - 1 {
            self.samples.len() as int
        } else {
            (k + 1) * self.samples_per_chunk()
        }
    }

    /// The time at which the sample with the given index begins, on the
    /// straight line from the region's start (index 0) to its end (index
    /// `samples.len()`), rounded towards the start.
    pub open spec fn time_at(self, index: int) -> int {
        let n = self.samples.len() as int;
        if n == 0 {
            self.start_ms
        } else if self.start_ms <= self.end_ms {
            self.start_ms + (index * (self.end_ms - self.start_ms)) / n
        } else {
            self.start_ms - (index * (self.start_ms - self.end_ms)) / n
        }
    }

    /// Piece `k` of the region.
    pub open spec fn chunk(self, k: int) -> SpeechSegmentView<S> {
        SpeechSegmentView {
            samples: self.samples.subrange(self.chunk_first(k), self.chunk_end(k)),
            start_ms: self.time_at(self.chunk_first(k)),
            end_ms: self.time_at(self.chunk_end(k)),
            confidence: self.confidence,
        }
    }

    /// What the region is replaced by: itself if it is under both ceilings,
    /// else its pieces in order.
    pub open spec fn chunks(self) -> Seq<SpeechSegmentView<S>> {
        if self.oversized() {
            Seq::new(self.chunk_count() as nat, |k: int| self.chunk(k))
        } else {
            seq![self]
        }
    }
}

/// The regions of `segments`, each replaced by its pieces, in order.
pub open spec fn split_all<S>(segments: Seq<SpeechSegmentView<S>>) -> Seq<SpeechSegmentView<S>>
    decreases segments.len(),
{
    if segments.len() == 0 {
        Seq::empty()
    } else {
        split_all(segments.drop_last()) + segments.last().chunks()
    }
}

/// Piece boundaries stay inside the sample buffer and never run backwards.
pub proof fn lemma_chunk_bounds<S>(seg: SpeechSegmentView<S>, k: int)
    requires
        0 <= k < seg.chunk_count(),
    ensures
        0 <= seg.chunk_first(k) <= seg.chunk_end(k) <= seg.samples.len(),
        k + 1 < seg.chunk_count() ==> seg.chunk_end(k) == seg.chunk_first(k + 1),
        seg.chunk_first(0) == 0,
        seg.chunk_end(seg.chunk_count() - 1) == seg.samples.len(),
{
    let n = seg.samples.len() as int;
    let c = seg.chunk_count();
    let per = seg.samples_per_chunk();
    assert(0 <= per && c * per <= n) by (nonlinear_arith)
        requires
            per == n / c,
            c > 0,
            n >= 0,
    ;
    assert(0 <= k * per && k * per <= (k + 1) * per && (k + 1) * per <= c * per)
        by (nonlinear_arith)
        requires
            0 <= k < c,
            0 <= per,
    ;
}

/// Interpolated times start at the region's start, end at its end, and
/// for a well-formed region never run backwards.
pub proof fn lemma_time_at<S>(seg: SpeechSegmentView<S>, i: int, j: int)
    requires
        0 <= i <= j <= seg.samples.len(),
    ensures
        seg.time_at(0) == seg.start_ms,
        seg.samples.len() > 0 ==> seg.time_at(seg.samples.len() as int) == seg.end_ms,
        seg.well_formed() ==> seg.start_ms <= seg.time_at(i) <= seg.time_at(j),
        seg.well_formed() && seg.samples.len() > 0 ==> seg.time_at(j) <= seg.end_ms,
        !seg.well_formed() && seg.start_ms >= seg.end_ms && seg.samples.len() > 0
            ==> seg.end_ms <= seg.time_at(j) <= seg.time_at(i) <= seg.start_ms,
{
    let n = seg.samples.len() as int;
    if n > 0 {
        let d = if seg.start_ms <= seg.end_ms {
            seg.end_ms - seg.start_ms
        } else {
            seg.start_ms - seg.end_ms
        };
        assert((0 * d) / n == 0 && (n * d) / n == d && 0 <= (i * d) / n <= (j * d) / n && (j * d)
            / n <= d) by (nonlinear_arith)
            requires
                0 <= i <= j <= n,
                n > 0,
                d >= 0,
        ;
    }
}

impl<S: Copy> SpeechSegment<S> {
    /// Whether the region is over one of the two ceilings.
    pub fn is_oversized(&self) -> (b: bool)
        ensures
            b == self@.oversized(),
    {
        (self.start_timestamp_ms <= self.end_timestamp_ms && self.end_timestamp_ms
            - self.start_timestamp_ms > MAX_SEGMENT_DURATION_MS) || self.samples.len()
            > MAX_SEGMENT_SAMPLES
    }

    /// The time at which sample `index` begins, by linear interpolation.
    pub fn time_at_sample(&self, index: usize) -> (t: u64)
        requires
            index <= self.samples.len(),
        ensures
            t == self@.time_at(index as int),
    {
        let n: usize = self.samples.len();
        if n == 0 {
            return self.start_timestamp_ms;
        }
        let forward: bool = self.start_timestamp_ms <= self.end_timestamp_ms;
        let span: u64 = if forward {
            self.end_timestamp_ms - self.start_timestamp_ms
        } else {
            self.start_timestamp_ms - self.end_timestamp_ms
        };
        assert(0 <= index * span <= u64::MAX * u64::MAX && (index * span) / (n as int) <= span)
            by (nonlinear_arith)
            requires
                0 <= index <= n,
                n > 0,
                0 <= span <= u64::MAX,
                n <= u64::MAX,
        ;
        let offset: u128 = (index as u128 * span as u128) / (n as u128);
        if forward {
            self.start_timestamp_ms + offset as u64
        } else {
            self.start_timestamp_ms - offset as u64
        }
    }

    /// Piece `k` of the region, with its own sample buffer.
    pub fn chunk_at(&self, k: usize, count: usize) -> (piece: SpeechSegment<S>)
        requires
            count == self@.chunk_count(),
            k < count,
        ensures
            piece@ == self@.chunk(k as int),
    {
        let n: usize = self.samples.len();
        let per: usize = n / count;
        proof {
            lemma_chunk_bounds(self@, k as int);
        }
        let first: usize = k * per;
        let end: usize = if k == count - 1 {
            n
        } else {
            (k + 1) * per
        };
        let samples = vstd::slice::slice_to_vec(
            vstd::slice::slice_subrange(self.samples.as_slice(), first, end),
        );
        SpeechSegment {
            samples,
            start_timestamp_ms: self.time_at_sample(first),
            end_timestamp_ms: self.time_at_sample(end),
            confidence: self.confidence,
        }
    }
}

/// Replaces one region by its pieces: the region itself if it is under
/// both ceilings, else `chunk_count` pieces of equal sample count whose
/// time ranges tile the region's.
pub fn split_segment<S: Copy>(segment: &SpeechSegment<S>) -> (pieces: Vec<SpeechSegment<S>>)
    ensures
        segment_views(pieces@) == segment@.chunks(),
{
    let mut pieces: Vec<SpeechSegment<S>> = Vec::new();
    if !segment.is_oversized() {
        pieces.push(segment.duplicate());
        assert(segment_views(pieces@) =~= segment@.chunks());
        return pieces;
    }
    let n: usize = segment.samples.len();
    let count: usize = n / MAX_SEGMENT_SAMPLES + if n % MAX_SEGMENT_SAMPLES == 0 {
        0
    } else {
        1
    };
    let mut k: usize = 0;
    while k < count
        invariant
            k <= count,
            count == segment@.chunk_count(),
            segment@.oversized(),
            pieces@.len() == k,
            forall|i: int| 0 <= i < k ==> (#[trigger] pieces@[i])@ == segment@.chunk(i),
        decreases count - k,
    {
        pieces.push(segment.chunk_at(k, count));
        k += 1;
    }
    assert(segment_views(pieces@) =~= segment@.chunks());
    pieces
}

/// Cuts every oversized region of `segments` into pieces and keeps the
/// others as they are, in the order they came in.
pub fn split_segments<S: Copy>(segments: &Vec<SpeechSegment<S>>) -> (out: Vec<SpeechSegment<S>>)
    ensures
        segment_views(out@) == split_all(segment_views(segments@)),
{
    let ghost all = segment_views(segments@);
    let mut out: Vec<SpeechSegment<S>> = Vec::new();
    let mut i: usize = 0;
    assert(all.take(0) =~= Seq::empty());
    while i < segments.len()
        invariant
            i <= segments.len(),
            all == segment_views(segments@),
            segment_views(out@) == split_all(all.take(i as int)),
        decreases segments.len() - i,
    {
        let ghost before = out@;
        let mut pieces = split_segment(&segments[i]);
        let ghost added = pieces@;
        out.append(&mut pieces);
        proof {
            assert(all.take(i + 1).drop_last() =~= all.take(i as int));
            assert(all.take(i + 1).last() == segments@[i as int]@);
            assert(segment_views(out@) =~= segment_views(before) + segment_views(added));
        }
        i += 1;
    }
    assert(all.take(segments.len() as int) =~= all);
    out
}

/// All samples of `pieces`, end to end.
pub open spec fn joined_samples<S>(pieces: Seq<SpeechSegmentView<S>>) -> Seq<S>
    decreases pieces.len(),
{
    if pieces.len() == 0 {
        Seq::empty()
    } else {
        joined_samples(pieces.drop_last()) + pieces.last().samples
    }
}

proof fn lemma_joined_prefix<S>(seg: SpeechSegmentView<S>, m: int)
    requires
        seg.oversized(),
        0 <= m <= seg.chunk_count(),
    ensures
        joined_samples(seg.chunks().take(m)) == seg.samples.subrange(
            0,
            if m == 0 {
                0
            } else {
                seg.chunk_end(m - 1)
            },
        ),
    decreases m,
{
    let pieces = seg.chunks();
    if m == 0 {
        assert(joined_samples(pieces.take(0)) =~= seg.samples.subrange(0, 0));
    } else {
        lemma_joined_prefix(seg, m - 1);
        lemma_chunk_bounds(seg, m - 1);
        if m > 1 {
            lemma_chunk_bounds(seg, m - 2);
        }
        assert(pieces.take(m).drop_last() =~= pieces.take(m - 1));
        assert(pieces.take(m).last() == seg.chunk(m - 1));
        assert(joined_samples(pieces.take(m)) =~= seg.samples.subrange(0, seg.chunk_end(m - 1)));
    }
}

/// The pieces of a region tile it. Their time ranges, taken in order,
/// start where the region starts, end where it ends, and each piece
/// starts exactly where the one before it ended; their samples, end to
/// end, are the region's samples; each carries the region's confidence.
/// A region under both ceilings comes back as its only piece. A
/// well-formed region has well-formed pieces.
///
/// A region with no samples that is over the duration ceiling has no
/// pieces at all, so it is left out.
pub proof fn lemma_chunks_tile<S>(seg: SpeechSegmentView<S>)
    requires
        seg.chunk_count() > 0,
    ensures
        seg.chunks().len() == seg.chunk_count(),
        !seg.oversized() ==> seg.chunks() == seq![seg],
        seg.chunks().first().start_ms == seg.start_ms,
        seg.chunks().last().end_ms == seg.end_ms,
        forall|k: int|
            0 <= k < seg.chunks().len() - 1 ==> (#[trigger] seg.chunks()[k]).end_ms
                == seg.chunks()[k + 1].start_ms,
        forall|k: int|
            0 <= k < seg.chunks().len() ==> (#[trigger] seg.chunks()[k]).confidence
                == seg.confidence,
        seg.well_formed() ==> forall|k: int|
            0 <= k < seg.chunks().len() ==> (#[trigger] seg.chunks()[k]).well_formed(),
        joined_samples(seg.chunks()) == seg.samples,
{
    let pieces = seg.chunks();
    let c = seg.chunk_count();
    if seg.oversized() {
        assert(seg.samples.len() > 0);
        lemma_chunk_bounds(seg, 0);
        lemma_chunk_bounds(seg, c - 1);
        lemma_time_at(seg, 0, 0);
        assert forall|k: int| 0 <= k < pieces.len() - 1 implies (#[trigger] pieces[k]).end_ms
            == pieces[k + 1].start_ms by {
            lemma_chunk_bounds(seg, k);
        }
        if seg.well_formed() {
            assert forall|k: int| 0 <= k < pieces.len() implies (#[trigger] pieces[k]).well_formed() by {
                lemma_chunk_bounds(seg, k);
                lemma_time_at(seg, seg.chunk_first(k), seg.chunk_end(k));
            }
        }
        lemma_joined_prefix(seg, c);
        assert(pieces.take(c) =~= pieces);
        assert(seg.samples.subrange(0, seg.samples.len() as int) =~= seg.samples);
    } else {
        assert(pieces.drop_last() =~= Seq::empty());
        assert(joined_samples(pieces.drop_last()) =~= Seq::empty());
        assert(joined_samples(pieces) =~= seg.samples);
    }
}

proof fn lemma_joined_concat<S>(a: Seq<SpeechSegmentView<S>>, b: Seq<SpeechSegmentView<S>>)
    ensures
        joined_samples(a + b) == joined_samples(a) + joined_samples(b),
    decreases b.len(),
{
    if b.len() == 0 {
        assert(a + b =~= a);
        assert(joined_samples(a + b) =~= joined_samples(a) + joined_samples(b));
    } else {
        lemma_joined_concat(a, b.drop_last());
        assert((a + b).drop_last() =~= a + b.drop_last());
        assert(joined_samples(a + b) =~= joined_samples(a) + joined_samples(b));
    }
}

/// Splitting loses no sample and adds none: the samples of the output,
/// end to end, are the samples of the input, end to end.
pub proof fn lemma_split_keeps_samples<S>(segments: Seq<SpeechSegmentView<S>>)
    ensures
        joined_samples(split_all(segments)) == joined_samples(segments),
    decreases segments.len(),
{
    if segments.len() > 0 {
        let seg = segments.last();
        lemma_split_keeps_samples(segments.drop_last());
        lemma_joined_concat(split_all(segments.drop_last()), seg.chunks());
        if seg.chunk_count() > 0 {
            lemma_chunks_tile(seg);
        } else {
            assert(seg.samples =~= Seq::empty());
            assert(joined_samples(seg.chunks()) =~= seg.samples);
        }
    }
}

proof fn lemma_chunks_ordered<S>(seg: SpeechSegmentView<S>)
    requires
        seg.well_formed(),
    ensures
        chronological(seg.chunks()),
        forall|k: int|
            0 <= k < seg.chunks().len() ==> seg.start_ms <= (#[trigger] seg.chunks()[k]).start_ms
                && seg.chunks()[k].end_ms <= seg.end_ms,
{
    let pieces = seg.chunks();
    if seg.oversized() {
        assert forall|k: int| 0 <= k < pieces.len() implies (#[trigger] pieces[k]).well_formed()
            && seg.start_ms <= pieces[k].start_ms && pieces[k].end_ms <= seg.end_ms by {
            lemma_chunk_bounds(seg, k);
            lemma_time_at(seg, seg.chunk_first(k), seg.chunk_end(k));
        }
        assert forall|i: int, j: int| 0 <= i < j < pieces.len() implies (#[trigger] pieces[i]).end_ms
            <= (#[trigger] pieces[j]).start_ms by {
            lemma_chunk_bounds(seg, i);
            lemma_chunk_bounds(seg, j);
            let per = seg.samples_per_chunk();
            assert((i + 1) * per <= j * per) by (nonlinear_arith)
                requires
                    i + 1 <= j,
                    0 <= per,
            ;
            lemma_time_at(seg, seg.chunk_end(i), seg.chunk_first(j));
        }
    }
}

proof fn lemma_split_within<S>(segments: Seq<SpeechSegmentView<S>>, hi: int)
    requires
        forall|i: int|
            0 <= i < segments.len() ==> (#[trigger] segments[i]).well_formed() && segments[i].end_ms
                <= hi,
    ensures
        forall|j: int|
            0 <= j < split_all(segments).len() ==> (#[trigger] split_all(segments)[j]).end_ms
                <= hi,
    decreases segments.len(),
{
    if segments.len() > 0 {
        let init = split_all(segments.drop_last());
        let pieces = segments.last().chunks();
        lemma_split_within(segments.drop_last(), hi);
        lemma_chunks_ordered(segments.last());
        assert forall|j: int| 0 <= j < split_all(segments).len() implies (#[trigger] split_all(
            segments,
        )[j]).end_ms <= hi by {
            if j < init.len() {
                assert(split_all(segments)[j] == init[j]);
            } else {
                assert(split_all(segments)[j] == pieces[j - init.len()]);
            }
        }
    }
}

/// Splitting keeps the order. If the regions come in chronological
/// order without overlap, so do the pieces that replace them.
pub proof fn lemma_split_keeps_order<S>(segments: Seq<SpeechSegmentView<S>>)
    requires
        chronological(segments),
    ensures
        chronological(split_all(segments)),
    decreases segments.len(),
{
    if segments.len() > 0 {
        let init = segments.drop_last();
        let seg = segments.last();
        let head = split_all(init);
        let pieces = seg.chunks();
        let all = split_all(segments);
        lemma_split_keeps_order(init);
        lemma_chunks_ordered(seg);
        lemma_split_within(init, seg.start_ms);
        assert forall|i: int| 0 <= i < all.len() implies (#[trigger] all[i]).well_formed() by {
            if i < head.len() {
                assert(all[i] == head[i]);
            } else {
                assert(all[i] == pieces[i - head.len()]);
            }
        }
        assert forall|i: int, j: int| 0 <= i < j < all.len() implies (#[trigger] all[i]).end_ms <= (
        #[trigger] all[j]).start_ms by {
            if j < head.len() {
                assert(all[i] == head[i] && all[j] == head[j]);
            } else if i < head.len() {
                assert(all[i] == head[i] && all[j] == pieces[j - head.len()]);
            } else {
                assert(all[i] == pieces[i - head.len()] && all[j] == pieces[j - head.len()]);
            }
        }
    }
}

} // verus!
