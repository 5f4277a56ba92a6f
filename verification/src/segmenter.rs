//! Building speech regions from frame-by-frame detection.
//!
//! Telling speech from silence in one frame is the detector's work and
//! happens outside this crate. Here its verdicts, one per frame, are
//! joined into regions: a region opens at a speech frame that follows a
//! long pause (or nothing but silence), and runs on to the last speech
//! frame before the next long pause. A pause is long if it lasts longer
//! than the redemption time; shorter pauses stay inside their region.

use crate::error::SegmentationError;
use crate::segment::{chronological, segment_views, SpeechSegment, SpeechSegmentView};
use vstd::prelude::*;

verus! {

/// Samples per millisecond of canonical audio (16 kHz).
pub const SAMPLES_PER_MS: usize = 16;

/// The pause, in milliseconds, that speech detection bridges when no
/// other value is asked for: a shorter pause does not end a region.
pub const DEFAULT_REDEMPTION_TIME_MS: u32 = 400;

/// The pause that speech detection is to bridge: the one asked for, or
/// the default.
pub fn redemption_time_ms(requested: Option<u32>) -> (ms: u32)
    ensures
        ms == match requested {
            Some(value) => value,
            None => DEFAULT_REDEMPTION_TIME_MS,
        },
{
    match requested {
        Some(value) => value,
        None => DEFAULT_REDEMPTION_TIME_MS,
    }
}

/// How many frames are scanned between two reports of progress.
pub const FRAMES_PER_POLL: usize = 100;

/// How far a scan is, in percent, when `done` of `total` frames have
/// been looked at, rounded down; a hundred when there is nothing to
/// scan or more was scanned than there is.
pub open spec fn scan_percent(done: int, total: int) -> int {
    if 0 < total && done <= total {
        (100 * done) / total
    } else {
        100
    }
}

/// Whether progress is to be reported before frame `done` is looked at:
/// before the first frame and before every hundredth after it.
pub open spec fn poll_due(done: int) -> bool {
    done % (FRAMES_PER_POLL as int) == 0
}

/// Says whether progress is to be reported before frame `done` of
/// `total` is looked at, and if so, how far the scan is in percent.
pub fn detection_poll(done: usize, total: usize) -> (due: Option<u32>)
    ensures
        due == if poll_due(done as int) {
            Some(scan_percent(done as int, total as int) as u32)
        } else {
            None
        },
        due matches Some(percent) ==> percent <= 100,
{
    if done % FRAMES_PER_POLL != 0 {
        return None;
    }
    if 0 < total && done <= total {
        assert(0 <= (100 * done) / (total as int) <= 100) by (nonlinear_arith)
            requires
                0 <= done <= total,
                0 < total,
        ;
        Some(((100 * done as u128) / total as u128) as u32)
    } else {
        Some(100)
    }
}

/// What the detector says of one frame.
#[derive(Clone, Copy, Debug, PartialEq, Eq, Structural)]
pub struct FrameVerdict {
    /// Whether the frame holds speech.
    pub speech: bool,
    /// How sure the detector is, in millionths.
    pub confidence: u32,
}

/// A run of frames that belong to one utterance, from `first` to `last`,
/// both included.
#[derive(Clone, Copy, Debug, PartialEq, Eq, Structural)]
pub struct Region {
    pub first: usize,
    pub last: usize,
    /// The average confidence of the speech frames of the run, rounded
    /// down.
    pub confidence: u32,
}

/// Whether frame `i` exists and holds speech.
pub open spec fn speech_at(frames: Seq<FrameVerdict>, i: int) -> bool {
    0 <= i < frames.len() && frames[i].speech
}

/// How many frames of silence lie directly before frame `i`.
pub open spec fn pause_before(frames: Seq<FrameVerdict>, i: int) -> int
    decreases i,
{
    if i <= 0 || i > frames.len() || frames[i - 1].speech {
        0
    } else {
        1 + pause_before(frames, i - 1)
    }
}

/// Whether a region opens at frame `i`: the frame holds speech, and
/// before it lies a pause of more than `max_pause` frames, or nothing
/// but silence.
pub open spec fn opens(frames: Seq<FrameVerdict>, max_pause: int, i: int) -> bool {
    speech_at(frames, i) && (pause_before(frames, i) > max_pause || pause_before(frames, i) == i)
}

/// How many of the frames from `from` up to but not including `to` hold
/// speech.
pub open spec fn speech_count(frames: Seq<FrameVerdict>, from: int, to: int) -> int
    decreases to - from,
{
    if to <= from {
        0
    } else {
        speech_count(frames, from, to - 1) + if speech_at(frames, to - 1) {
            1int
        } else {
            0int
        }
    }
}

/// The sum of the confidences of the speech frames from `from` up to but
/// not including `to`.
pub open spec fn speech_confidence(frames: Seq<FrameVerdict>, from: int, to: int) -> int
    decreases to - from,
{
    if to <= from {
        0
    } else {
        speech_confidence(frames, from, to - 1) + if speech_at(frames, to - 1) {
            frames[to - 1].confidence as int
        } else {
            0int
        }
    }
}

/// Whether `region` is one of the regions of `frames`: it opens at its
/// first frame, ends at a speech frame, no other region opens inside it,
/// and its confidence is the average over its speech frames.
pub open spec fn is_region(frames: Seq<FrameVerdict>, max_pause: int, region: Region) -> bool {
    &&& region.first <= region.last < frames.len()
    &&& opens(frames, max_pause, region.first as int)
    &&& frames[region.last as int].speech
    &&& forall|i: int| region.first < i <= region.last ==> !#[trigger] opens(frames, max_pause, i)
    &&& region.confidence == speech_confidence(frames, region.first as int, region.last + 1)
        / speech_count(frames, region.first as int, region.last + 1)
}

/// Whether `regions` are the regions of `frames`, in order: each is a
/// region, each lies before the next, and every speech frame lies in one
/// of them.
pub open spec fn is_segmentation(
    frames: Seq<FrameVerdict>,
    max_pause: int,
    regions: Seq<Region>,
) -> bool {
    &&& forall|r: int| 0 <= r < regions.len() ==> is_region(frames, max_pause, #[trigger] regions[r])
    &&& forall|r: int, q: int|
        0 <= r < q < regions.len() ==> (#[trigger] regions[r]).last < (#[trigger] regions[q]).first
    &&& forall|i: int| #[trigger]
        speech_at(frames, i) ==> exists|r: int|
            0 <= r < regions.len() && (#[trigger] regions[r]).first <= i <= regions[r].last
}

/// The longest pause, in frames, that stays inside a region: as many
/// whole frames as fit into the redemption time.
pub open spec fn max_pause_frames(redemption_ms: int, frame_len: int) -> int {
    (redemption_ms * SAMPLES_PER_MS) / frame_len
}

/// The sample at which frame `i` starts, in audio of `samples` samples
/// cut into frames of `frame_len`; the end of the audio for a frame
/// beyond it.
pub open spec fn frame_start(i: int, frame_len: int, samples: int) -> int {
    if i * frame_len <= samples {
        i * frame_len
    } else {
        samples
    }
}

/// How many frames of `frame_len` samples it takes to cover `samples`
/// samples, the last of them possibly shorter.
pub open spec fn frames_needed(samples: int, frame_len: int) -> int {
    (samples + frame_len - 1) / frame_len
}

/// The speech segment that `region` stands for: its samples, the times
/// at which its first frame starts and its last frame ends, in whole
/// milliseconds, and its confidence.
pub open spec fn segment_of<S>(pcm: Seq<S>, region: Region, frame_len: int) -> SpeechSegmentView<S> {
    let from = frame_start(region.first as int, frame_len, pcm.len() as int);
    let to = frame_start(region.last + 1, frame_len, pcm.len() as int);
    SpeechSegmentView {
        samples: pcm.subrange(from, to),
        start_ms: from / (SAMPLES_PER_MS as int),
        end_ms: to / (SAMPLES_PER_MS as int),
        confidence: region.confidence as int,
    }
}

/// The speech segments that `regions` stand for, in the same order.
pub open spec fn segments_of<S>(pcm: Seq<S>, regions: Seq<Region>, frame_len: int) -> Seq<
    SpeechSegmentView<S>,
> {
    Seq::new(regions.len(), |r: int| segment_of(pcm, regions[r], frame_len))
}

proof fn lemma_silence_adds_nothing(frames: Seq<FrameVerdict>, from: int, mid: int, to: int)
    requires
        from <= mid <= to,
        forall|j: int| mid <= j < to ==> !#[trigger] speech_at(frames, j),
    ensures
        speech_count(frames, from, to) == speech_count(frames, from, mid),
        speech_confidence(frames, from, to) == speech_confidence(frames, from, mid),
    decreases to - mid,
{
    if mid < to {
        assert(!speech_at(frames, to - 1));
        lemma_silence_adds_nothing(frames, from, mid, to - 1);
    }
}

proof fn lemma_speech_bounds(frames: Seq<FrameVerdict>, from: int, to: int)
    requires
        0 <= from <= to <= frames.len(),
    ensures
        0 <= speech_count(frames, from, to) <= to - from,
        0 <= speech_confidence(frames, from, to) <= speech_count(frames, from, to) * u32::MAX,
    decreases to - from,
{
    if from < to {
        lemma_speech_bounds(frames, from, to - 1);
        let c = speech_count(frames, from, to - 1);
        assert((c + 1) * u32::MAX == c * u32::MAX + u32::MAX) by (nonlinear_arith);
    }
}

/// Every region found so far is a region, and they come in order.
spec fn in_order(frames: Seq<FrameVerdict>, max_pause: int, regions: Seq<Region>) -> bool {
    &&& forall|r: int| 0 <= r < regions.len() ==> is_region(frames, max_pause, #[trigger] regions[r])
    &&& forall|r: int, q: int|
        0 <= r < q < regions.len() ==> (#[trigger] regions[r]).last < (#[trigger] regions[q]).first
}

/// Frame `j` lies in one of `regions`.
spec fn within(regions: Seq<Region>, j: int) -> bool {
    exists|r: int| 0 <= r < regions.len() && (#[trigger] regions[r]).first <= j <= regions[r].last
}

/// Every speech frame before `upto` lies in one of `regions` or in the
/// run from `first` to `last`.
spec fn covered(
    frames: Seq<FrameVerdict>,
    regions: Seq<Region>,
    upto: int,
    first: int,
    last: int,
) -> bool {
    forall|j: int|
        0 <= j < upto && #[trigger] speech_at(frames, j) ==> first <= j <= last || within(
            regions,
            j,
        )
}

proof fn lemma_close_region(
    frames: Seq<FrameVerdict>,
    max_pause: int,
    before: Seq<Region>,
    region: Region,
    upto: int,
)
    requires
        in_order(frames, max_pause, before),
        is_region(frames, max_pause, region),
        forall|r: int| 0 <= r < before.len() ==> (#[trigger] before[r]).last < region.first,
        covered(frames, before, upto, region.first as int, region.last as int),
    ensures
        in_order(frames, max_pause, before.push(region)),
        covered(frames, before.push(region), upto, 0, -1),
{
    let after = before.push(region);
    assert forall|r: int| 0 <= r < after.len() implies is_region(
        frames,
        max_pause,
        #[trigger] after[r],
    ) by {
        if r < before.len() {
            assert(after[r] == before[r]);
        }
    }
    assert forall|r: int, q: int| 0 <= r < q < after.len() implies (#[trigger] after[r]).last < (
    #[trigger] after[q]).first by {
        assert(after[r] == before[r]);
        if q < before.len() {
            assert(after[q] == before[q]);
        }
    }
    assert forall|j: int| 0 <= j < upto && #[trigger] speech_at(frames, j) implies within(
        after,
        j,
    ) by {
        if region.first <= j <= region.last {
            assert(after[before.len() as int] == region);
        } else {
            assert(within(before, j));
            let r = choose|r: int|
                0 <= r < before.len() && (#[trigger] before[r]).first <= j <= before[r].last;
            assert(after[r] == before[r]);
        }
    }
}

proof fn lemma_average_fits(sum: int, count: int)
    by (nonlinear_arith)
    requires
        count >= 1,
        0 <= sum <= count * u32::MAX,
    ensures
        0 <= sum / count <= u32::MAX,
{
}

/// What holds of the frames seen so far still holds when one more
/// frame is seen.
proof fn lemma_extend(
    before: Seq<FrameVerdict>,
    verdict: FrameVerdict,
    max_pause: int,
    regions: Seq<Region>,
)
    requires
        in_order(before, max_pause, regions),
    ensures
        in_order(before.push(verdict), max_pause, regions),
        forall|j: int|
            0 <= j <= before.len() ==> #[trigger] pause_before(before.push(verdict), j)
                == pause_before(before, j),
        forall|j: int|
            0 <= j < before.len() ==> #[trigger] speech_at(before.push(verdict), j) == speech_at(
                before,
                j,
            ),
        forall|j: int|
            0 <= j < before.len() ==> #[trigger] opens(before.push(verdict), max_pause, j)
                == opens(before, max_pause, j),
        forall|from: int, to: int|
            0 <= from <= to <= before.len() ==> #[trigger] speech_count(
                before.push(verdict),
                from,
                to,
            ) == speech_count(before, from, to),
        forall|from: int, to: int|
            0 <= from <= to <= before.len() ==> #[trigger] speech_confidence(
                before.push(verdict),
                from,
                to,
            ) == speech_confidence(before, from, to),
{
    let f = before.push(verdict);
    assert forall|j: int| 0 <= j <= before.len() implies #[trigger] pause_before(f, j)
        == pause_before(before, j) by {
        lemma_pause_extend(before, verdict, j);
    }
    assert forall|from: int, to: int| 0 <= from <= to <= before.len() implies #[trigger] speech_count(
        f,
        from,
        to,
    ) == speech_count(before, from, to) by {
        lemma_sums_extend(before, verdict, from, to);
    }
    assert forall|from: int, to: int|
        0 <= from <= to <= before.len() implies #[trigger] speech_confidence(f, from, to)
        == speech_confidence(before, from, to) by {
        lemma_sums_extend(before, verdict, from, to);
    }
    assert forall|r: int| 0 <= r < regions.len() implies is_region(f, max_pause, #[trigger] regions[r]) by {
        let g = regions[r];
        assert(is_region(before, max_pause, g));
        assert(opens(f, max_pause, g.first as int) == opens(before, max_pause, g.first as int));
        assert forall|i: int| g.first < i <= g.last implies !#[trigger] opens(f, max_pause, i) by {
            assert(opens(f, max_pause, i) == opens(before, max_pause, i));
        }
    }
}

proof fn lemma_pause_extend(before: Seq<FrameVerdict>, verdict: FrameVerdict, j: int)
    requires
        0 <= j <= before.len(),
    ensures
        pause_before(before.push(verdict), j) == pause_before(before, j),
    decreases j,
{
    if j > 0 && !before[j - 1].speech {
        lemma_pause_extend(before, verdict, j - 1);
    }
}

proof fn lemma_sums_extend(before: Seq<FrameVerdict>, verdict: FrameVerdict, from: int, to: int)
    requires
        0 <= from <= to <= before.len(),
    ensures
        speech_count(before.push(verdict), from, to) == speech_count(before, from, to),
        speech_confidence(before.push(verdict), from, to) == speech_confidence(before, from, to),
    decreases to - from,
{
    if from < to {
        lemma_sums_extend(before, verdict, from, to - 1);
    }
}

/// Regions in order number no more than the frames.
proof fn lemma_ordered_regions_fit(frames: Seq<FrameVerdict>, max_pause: int, regions: Seq<Region>)
    requires
        in_order(frames, max_pause, regions),
    ensures
        regions.len() <= frames.len(),
        regions.len() > 0 ==> regions.len() <= regions.last().last + 1,
    decreases regions.len(),
{
    if regions.len() > 0 {
        let init = regions.drop_last();
        assert forall|r: int| 0 <= r < init.len() implies is_region(frames, max_pause, #[trigger] init[r]) by {
            assert(init[r] == regions[r]);
        }
        assert forall|r: int, q: int| 0 <= r < q < init.len() implies (#[trigger] init[r]).last < (
        #[trigger] init[q]).first by {
            assert(init[r] == regions[r] && init[q] == regions[q]);
        }
        lemma_ordered_regions_fit(frames, max_pause, init);
        assert(is_region(frames, max_pause, regions[regions.len() - 1]));
        if init.len() > 0 {
            assert(init.last() == regions[regions.len() - 2]);
            assert(regions[regions.len() - 2].last < regions[regions.len() - 1].first);
        }
    }
}

/// A scan over the frames of a recording, in order, that keeps the
/// regions found so far.
pub struct RegionScan {
    /// Samples per frame.
    frame_len: usize,
    max_pause: u64,
    /// The regions that a long pause has ended.
    closed: Vec<Region>,
    /// Whether a region is under way.
    open: bool,
    first: usize,
    last: usize,
    /// Sum and number of the confidences of its speech frames.
    sum: u128,
    count: usize,
    /// How many frames of silence were seen last.
    pause: usize,
    next: usize,
    seen: Ghost<Seq<FrameVerdict>>,
}

impl RegionScan {
    /// The verdicts handed in so far.
    pub closed spec fn seen(&self) -> Seq<FrameVerdict> {
        self.seen@
    }

    /// The longest pause, in frames, that stays inside a region.
    pub closed spec fn max_pause(&self) -> int {
        self.max_pause as int
    }

    /// How many samples a frame holds.
    pub closed spec fn frame_len(&self) -> int {
        self.frame_len as int
    }

    /// The region under way, as it would be if the recording ended here.
    spec fn pending(&self) -> Region {
        Region {
            first: self.first,
            last: self.last,
            confidence: (self.sum as int / self.count as int) as u32,
        }
    }

    /// The regions of what was seen so far.
    pub closed spec fn regions(&self) -> Seq<Region> {
        if self.open {
            self.closed@.push(self.pending())
        } else {
            self.closed@
        }
    }

    /// What always holds of a scan.
    pub closed spec fn well_formed(&self) -> bool {
        let f = self.seen@;
        let limit = self.max_pause as int;
        &&& self.frame_len > 0
        &&& self.next == f.len()
        &&& self.pause == pause_before(f, self.next as int)
        &&& in_order(f, limit, self.closed@)
        &&& !self.open ==> self.closed@.len() == 0 && self.pause == self.next
        &&& !self.open ==> covered(f, self.closed@, self.next as int, 0, -1)
        &&& self.open ==> self.first <= self.last < self.next && self.pause == self.next
            - self.last - 1
        &&& self.open ==> opens(f, limit, self.first as int) && f[self.last as int].speech
        &&& self.open ==> forall|j: int|
            self.first < j <= self.last ==> !#[trigger] opens(f, limit, j)
        &&& self.open ==> forall|j: int| self.last < j < self.next ==> !#[trigger] speech_at(f, j)
        &&& self.open ==> forall|r: int|
            0 <= r < self.closed@.len() ==> (#[trigger] self.closed@[r]).last < self.first
        &&& self.open ==> self.sum == speech_confidence(f, self.first as int, self.last + 1)
        &&& self.open ==> self.count == speech_count(f, self.first as int, self.last + 1)
            && self.count >= 1
        &&& self.open ==> covered(
            f,
            self.closed@,
            self.next as int,
            self.first as int,
            self.last as int,
        )
    }

    /// At every moment the scan holds the regions of what it has seen.
    pub proof fn lemma_scan_holds_regions(&self)
        requires
            self.well_formed(),
        ensures
            is_segmentation(self.seen(), self.max_pause(), self.regions()),
    {
        let f = self.seen@;
        let limit = self.max_pause as int;
        if self.open {
            lemma_speech_bounds(f, self.first as int, self.last + 1);
            lemma_average_fits(self.sum as int, self.count as int);
            assert(is_region(f, limit, self.pending()));
            lemma_close_region(f, limit, self.closed@, self.pending(), f.len() as int);
        }
        assert forall|j: int| #[trigger] speech_at(f, j) implies exists|r: int|
            0 <= r < self.regions().len() && (#[trigger] self.regions()[r]).first <= j
                <= self.regions()[r].last by {
            assert(within(self.regions(), j));
        }
    }

    /// A scan that has seen nothing yet, over frames of `frame_len`
    /// samples, with the longest pause that stays inside a region given
    /// in frames.
    fn with_max_pause(frame_len: usize, max_pause: u64) -> (scan: RegionScan)
        requires
            frame_len > 0,
        ensures
            scan.well_formed(),
            scan.seen() == Seq::<FrameVerdict>::empty(),
            scan.max_pause() == max_pause,
            scan.frame_len() == frame_len,
            scan.regions() == Seq::<Region>::empty(),
    {
        RegionScan {
            frame_len,
            max_pause,
            closed: Vec::new(),
            open: false,
            first: 0,
            last: 0,
            sum: 0,
            count: 0,
            pause: 0,
            next: 0,
            seen: Ghost(Seq::empty()),
        }
    }

    /// A scan that has seen nothing yet, over frames of `frame_len`
    /// samples. A pause of no more than `redemption_ms` stays inside
    /// its region. Frames must hold at least one sample.
    pub fn new(redemption_ms: u32, frame_len: usize) -> (made: Result<RegionScan, SegmentationError>)
        ensures
            frame_len == 0 ==> made == Err::<RegionScan, SegmentationError>(
                SegmentationError::EmptyFrame,
            ),
            frame_len > 0 ==> (made matches Ok(scan) && scan.well_formed() && scan.seen()
                == Seq::<FrameVerdict>::empty() && scan.frame_len() == frame_len
                && scan.max_pause() == max_pause_frames(redemption_ms as int, frame_len as int)
                && scan.regions() == Seq::<Region>::empty()),
    {
        if frame_len == 0 {
            return Err(SegmentationError::EmptyFrame);
        }
        let per_ms: u64 = SAMPLES_PER_MS as u64;
        assert(redemption_ms * per_ms <= u64::MAX) by (nonlinear_arith)
            requires
                per_ms == 16,
                0 <= redemption_ms <= u32::MAX,
        ;
        let max_pause: u64 = (redemption_ms as u64 * per_ms) / frame_len as u64;
        Ok(RegionScan::with_max_pause(frame_len, max_pause))
    }

    /// Takes in the verdict on the next frame.
    pub fn push(&mut self, verdict: FrameVerdict)
        requires
            old(self).well_formed(),
            old(self).seen().len() < usize::MAX,
        ensures
            final(self).well_formed(),
            final(self).seen() == old(self).seen().push(verdict),
            final(self).max_pause() == old(self).max_pause(),
            final(self).frame_len() == old(self).frame_len(),
    {
        let ghost before = self.seen@;
        let ghost f = before.push(verdict);
        let ghost limit = self.max_pause as int;
        let i: usize = self.next;
        proof {
            lemma_extend(before, verdict, limit, self.closed@);
            assert(pause_before(f, i as int) == pause_before(before, i as int));
            assert(f[i as int] == verdict);
            if !self.open {
                assert(covered(f, self.closed@, i as int, 0, -1)) by {
                    assert forall|j: int| 0 <= j < i && #[trigger] speech_at(f, j) implies within(
                        self.closed@,
                        j,
                    ) by {
                        assert(speech_at(before, j));
                    }
                }
            } else {
                assert(covered(f, self.closed@, i as int, self.first as int, self.last as int))
                    by {
                    assert forall|j: int| 0 <= j < i && #[trigger] speech_at(f, j) implies self.first
                        <= j <= self.last || within(self.closed@, j) by {
                        assert(speech_at(before, j));
                    }
                }
                assert forall|j: int| self.last < j < i implies !#[trigger] speech_at(f, j) by {
                    assert(!speech_at(before, j));
                }
            }
        }
        self.seen = Ghost(f);
        if verdict.speech {
            let opening: bool = !self.open || self.pause as u64 > self.max_pause;
            assert(opening == opens(f, limit, i as int));
            if opening {
                if self.open {
                    proof {
                        lemma_speech_bounds(f, self.first as int, self.last + 1);
                        lemma_average_fits(self.sum as int, self.count as int);
                    }
                    let region = Region {
                        first: self.first,
                        last: self.last,
                        confidence: (self.sum / self.count as u128) as u32,
                    };
                    proof {
                        lemma_close_region(f, limit, self.closed@, region, i as int);
                    }
                    self.closed.push(region);
                }
                self.first = i;
                self.sum = verdict.confidence as u128;
                self.count = 1;
                proof {
                    assert(speech_count(f, i as int, i as int) == 0);
                    assert(speech_confidence(f, i as int, i as int) == 0);
                }
            } else {
                proof {
                    lemma_silence_adds_nothing(f, self.first as int, self.last + 1, i as int);
                    lemma_speech_bounds(f, self.first as int, i as int);
                    assert forall|j: int| self.first < j <= i implies !#[trigger] opens(
                        f,
                        limit,
                        j,
                    ) by {
                        if self.last < j < i {
                            assert(!speech_at(f, j));
                        }
                    }
                }
                self.sum = self.sum + verdict.confidence as u128;
                self.count = self.count + 1;
            }
            self.last = i;
            self.pause = 0;
            self.open = true;
        } else {
            self.pause = self.pause + 1;
        }
        self.next = i + 1;
    }

    /// How many verdicts the scan of a recording of `samples` samples
    /// takes: one for every frame, the last of which may be short.
    pub fn frames_expected(&self, samples: usize) -> (frames: usize)
        requires
            self.well_formed(),
        ensures
            frames == frames_needed(samples as int, self.frame_len()),
    {
        let frame_len: usize = self.frame_len;
        assert(samples % frame_len != 0 ==> samples / frame_len < samples) by (nonlinear_arith)
            requires
                frame_len > 0,
                samples >= 0,
        ;
        let frames: usize = samples / frame_len + if samples % frame_len == 0 {
            0
        } else {
            1
        };
        assert(frames == frames_needed(samples as int, frame_len as int)) by (nonlinear_arith)
            requires
                frame_len > 0,
                samples >= 0,
                frames == samples / frame_len + if samples % frame_len == 0 {
                    0int
                } else {
                    1int
                },
        ;
        frames
    }

    /// How many regions were found so far, the one under way included.
    pub fn found(&self) -> (count: usize)
        requires
            self.well_formed(),
        ensures
            count == self.regions().len(),
    {
        proof {
            lemma_ordered_regions_fit(self.seen@, self.max_pause as int, self.closed@);
        }
        if self.open {
            self.closed.len() + 1
        } else {
            self.closed.len()
        }
    }

    /// Ends the scan and hands out the regions of what was seen.
    pub fn finish(self) -> (regions: Vec<Region>)
        requires
            self.well_formed(),
        ensures
            regions@ == self.regions(),
            is_segmentation(self.seen(), self.max_pause(), regions@),
    {
        proof {
            self.lemma_scan_holds_regions();
        }
        let mut regions = self.closed;
        if self.open {
            proof {
                lemma_speech_bounds(self.seen@, self.first as int, self.last + 1);
                lemma_average_fits(self.sum as int, self.count as int);
            }
            regions.push(
                Region {
                    first: self.first,
                    last: self.last,
                    confidence: (self.sum / self.count as u128) as u32,
                },
            );
        }
        regions
    }
}

/// Joins the detector's verdicts into regions. A pause of up to
/// `max_pause` frames stays inside its region; a longer one ends it.
pub fn find_regions(frames: &Vec<FrameVerdict>, max_pause: u64) -> (regions: Vec<Region>)
    ensures
        is_segmentation(frames@, max_pause as int, regions@),
{
    let mut scan = RegionScan::with_max_pause(1, max_pause);
    let mut i: usize = 0;
    while i < frames.len()
        invariant
            i <= frames@.len(),
            scan.well_formed(),
            scan.max_pause() == max_pause,
            scan.seen() == frames@.take(i as int),
        decreases frames@.len() - i,
    {
        scan.push(frames[i]);
        assert(frames@.take(i + 1) =~= frames@.take(i as int).push(frames@[i as int]));
        i = i + 1;
    }
    assert(frames@.take(frames@.len() as int) =~= frames@);
    scan.finish()
}

proof fn lemma_frame_start(i: int, j: int, frame_len: int, samples: int)
    by (nonlinear_arith)
    requires
        0 <= i <= j,
        0 < frame_len,
        0 <= samples,
    ensures
        0 <= frame_start(i, frame_len, samples) <= frame_start(j, frame_len, samples) <= samples,
        (i * frame_len <= samples) == (i <= samples / frame_len),
{
}

/// The regions of a recording come in chronological order, none
/// overlapping another, and each ends no earlier than it starts.
pub proof fn lemma_regions_are_chronological<S>(
    pcm: Seq<S>,
    frames: Seq<FrameVerdict>,
    max_pause: int,
    regions: Seq<Region>,
    frame_len: int,
)
    requires
        0 < frame_len,
        is_segmentation(frames, max_pause, regions),
    ensures
        chronological(segments_of(pcm, regions, frame_len)),
{
    let n = pcm.len() as int;
    let segments = segments_of(pcm, regions, frame_len);
    assert forall|r: int| 0 <= r < segments.len() implies (#[trigger] segments[r]).well_formed() by {
        assert(is_region(frames, max_pause, regions[r]));
        lemma_frame_start(regions[r].first as int, regions[r].last + 1, frame_len, n);
    }
    assert forall|r: int, q: int| 0 <= r < q < segments.len() implies (#[trigger] segments[r]).end_ms
        <= (#[trigger] segments[q]).start_ms by {
        assert(regions[r].last < regions[q].first);
        lemma_frame_start(regions[r].last + 1, regions[q].first as int, frame_len, n);
    }
}

proof fn lemma_pause_stops_at_speech(frames: Seq<FrameVerdict>, j: int, i: int)
    requires
        speech_at(frames, j),
        j < i <= frames.len(),
    ensures
        pause_before(frames, i) <= i - j - 1,
    decreases i - j,
{
    if i - 1 > j && !frames[i - 1].speech {
        lemma_pause_stops_at_speech(frames, j, i - 1);
    }
}

/// Short pauses are bridged, long ones are not. Inside a region no
/// speech frame comes after a pause of more than `max_pause` frames;
/// every region but the first comes after such a pause.
pub proof fn lemma_redemption_bridges_short_pauses(
    frames: Seq<FrameVerdict>,
    max_pause: int,
    regions: Seq<Region>,
)
    requires
        is_segmentation(frames, max_pause, regions),
    ensures
        forall|r: int, i: int|
            0 <= r < regions.len() && (#[trigger] regions[r]).first < i <= regions[r].last
                && #[trigger] speech_at(frames, i) ==> pause_before(frames, i) <= max_pause,
        forall|r: int|
            0 < r < regions.len() ==> pause_before(frames, (#[trigger] regions[r]).first as int)
                > max_pause,
{
    assert forall|r: int, i: int|
        0 <= r < regions.len() && (#[trigger] regions[r]).first < i <= regions[r].last
            && #[trigger] speech_at(frames, i) implies pause_before(frames, i) <= max_pause by {
        assert(is_region(frames, max_pause, regions[r]));
        assert(!opens(frames, max_pause, i));
        lemma_pause_stops_at_speech(frames, regions[r].first as int, i);
    }
    assert forall|r: int| 0 < r < regions.len() implies pause_before(
        frames,
        (#[trigger] regions[r]).first as int,
    ) > max_pause by {
        assert(is_region(frames, max_pause, regions[r]));
        assert(is_region(frames, max_pause, regions[r - 1]));
        assert(regions[r - 1].last < regions[r].first);
        lemma_pause_stops_at_speech(
            frames,
            regions[r - 1].last as int,
            regions[r].first as int,
        );
    }
}

/// A recording has no regions exactly when none of its frames holds
/// speech.
pub proof fn lemma_silence_has_no_regions(
    frames: Seq<FrameVerdict>,
    max_pause: int,
    regions: Seq<Region>,
)
    requires
        is_segmentation(frames, max_pause, regions),
    ensures
        regions.len() == 0 <==> forall|i: int| !#[trigger] speech_at(frames, i),
{
    if regions.len() > 0 {
        assert(is_region(frames, max_pause, regions[0]));
        assert(speech_at(frames, regions[0].first as int));
    }
}

/// The sample at which frame `i` starts.
fn frame_start_at(i: usize, frame_len: usize, samples: usize) -> (at: usize)
    requires
        frame_len > 0,
    ensures
        at == frame_start(i as int, frame_len as int, samples as int),
{
    proof {
        lemma_frame_start(i as int, i as int, frame_len as int, samples as int);
    }
    if i <= samples / frame_len {
        i * frame_len
    } else {
        samples
    }
}

impl RegionScan {
    /// Ends the scan of the recording `pcm` and hands out its speech
    /// segments. There must be one verdict for every frame of the
    /// recording, the last of which may be short.
    ///
    /// The segments come in chronological order and do not overlap; a
    /// recording without speech has none.
    pub fn into_segments<S: Copy>(self, pcm: &Vec<S>) -> (result: Result<
        Vec<SpeechSegment<S>>,
        SegmentationError,
    >)
        requires
            self.well_formed(),
        ensures
            self.seen().len() != frames_needed(pcm@.len() as int, self.frame_len()) ==> result
                == Err::<Vec<SpeechSegment<S>>, SegmentationError>(
                SegmentationError::FrameCount {
                    expected: frames_needed(pcm@.len() as int, self.frame_len()) as usize,
                    found: self.seen().len() as usize,
                },
            ),
            self.seen().len() == frames_needed(pcm@.len() as int, self.frame_len()) ==> (
            result matches Ok(segments) && chronological(segment_views(segments@))
                && segment_views(segments@) == segments_of(
                pcm@,
                self.regions(),
                self.frame_len(),
            )),
    {
        let frame_len: usize = self.frame_len;
        let samples: usize = pcm.len();
        let count: usize = self.next;
        let expected: usize = self.frames_expected(samples);
        if count != expected {
            return Err(SegmentationError::FrameCount { expected, found: count });
        }
        let ghost frames = self.seen();
        let ghost limit = self.max_pause();
        let regions = self.finish();
        let mut segments: Vec<SpeechSegment<S>> = Vec::new();
        let mut r: usize = 0;
        while r < regions.len()
            invariant
                r <= regions@.len(),
                frame_len > 0,
                samples == pcm@.len(),
                is_segmentation(frames, limit, regions@),
                count == frames.len(),
                segments@.len() == r,
                forall|k: int|
                    0 <= k < r ==> (#[trigger] segments@[k])@ == segment_of(
                        pcm@,
                        regions@[k],
                        frame_len as int,
                    ),
            decreases regions@.len() - r,
        {
            let region = regions[r];
            assert(is_region(frames, limit, region));
            assert(region.last < count);
            proof {
                lemma_frame_start(
                    region.first as int,
                    region.last + 1,
                    frame_len as int,
                    samples as int,
                );
            }
            let from: usize = frame_start_at(region.first, frame_len, samples);
            let to: usize = frame_start_at(region.last + 1, frame_len, samples);
            segments.push(
                SpeechSegment {
                    samples: vstd::slice::slice_to_vec(
                        vstd::slice::slice_subrange(pcm.as_slice(), from, to),
                    ),
                    start_timestamp_ms: (from / SAMPLES_PER_MS) as u64,
                    end_timestamp_ms: (to / SAMPLES_PER_MS) as u64,
                    confidence: region.confidence,
                },
            );
            r = r + 1;
        }
        proof {
            assert(segment_views(segments@) =~= segments_of(pcm@, regions@, frame_len as int));
            lemma_regions_are_chronological(pcm@, frames, limit, regions@, frame_len as int);
        }
        Ok(segments)
    }
}

/// Cuts a recording into its speech regions.
///
/// `pcm` is the recording, `frames` the detector's verdict on each of
/// its frames of `frame_len` samples (the last frame may be shorter),
/// in order. A pause of no more than `redemption_ms` stays inside its
/// region. The segments come in chronological order and do not overlap;
/// a recording without speech has none.
pub fn segment_speech<S: Copy>(
    pcm: &Vec<S>,
    frames: &Vec<FrameVerdict>,
    frame_len: usize,
    redemption_ms: u32,
) -> (result: Result<Vec<SpeechSegment<S>>, SegmentationError>)
    ensures
        frame_len == 0 ==> result == Err::<Vec<SpeechSegment<S>>, SegmentationError>(
            SegmentationError::EmptyFrame,
        ),
        frame_len > 0 && frames@.len() != frames_needed(pcm@.len() as int, frame_len as int)
            ==> result == Err::<Vec<SpeechSegment<S>>, SegmentationError>(
            SegmentationError::FrameCount {
                expected: frames_needed(pcm@.len() as int, frame_len as int) as usize,
                found: frames@.len() as usize,
            },
        ),
        frame_len > 0 && frames@.len() == frames_needed(pcm@.len() as int, frame_len as int)
            ==> (result matches Ok(segments) && chronological(segment_views(segments@))
            && exists|regions: Seq<Region>|
            is_segmentation(
                frames@,
                max_pause_frames(redemption_ms as int, frame_len as int),
                regions,
            ) && segment_views(segments@) == #[trigger] segments_of(
                pcm@,
                regions,
                frame_len as int,
            )),
{
    let mut scan = match RegionScan::new(redemption_ms, frame_len) {
        Ok(scan) => scan,
        Err(error) => {
            return Err(error);
        },
    };
    let mut i: usize = 0;
    while i < frames.len()
        invariant
            i <= frames@.len(),
            scan.well_formed(),
            scan.frame_len() == frame_len,
            scan.max_pause() == max_pause_frames(redemption_ms as int, frame_len as int),
            scan.seen() == frames@.take(i as int),
        decreases frames@.len() - i,
    {
        scan.push(frames[i]);
        assert(frames@.take(i + 1) =~= frames@.take(i as int).push(frames@[i as int]));
        i = i + 1;
    }
    assert(frames@.take(frames@.len() as int) =~= frames@);
    proof {
        scan.lemma_scan_holds_regions();
    }
    scan.into_segments(pcm)
}

} // verus!
