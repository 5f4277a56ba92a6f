//! Speech regions: a run of samples with the time range it covers.

use vstd::prelude::*;

verus! {

/// A stretch of detected speech. Times are whole milliseconds from the
/// start of the recording; confidence is in millionths. The sample type is
/// left open: the pipeline moves samples around and never looks inside.
#[derive(Clone, Debug, PartialEq)]
pub struct SpeechSegment<S> {
    pub samples: Vec<S>,
    pub start_timestamp_ms: u64,
    pub end_timestamp_ms: u64,
    pub confidence: u32,
}

/// What a [`SpeechSegment`] is, mathematically.
pub struct SpeechSegmentView<S> {
    pub samples: Seq<S>,
    pub start_ms: int,
    pub end_ms: int,
    pub confidence: int,
}

impl<S> View for SpeechSegment<S> {
    type V = SpeechSegmentView<S>;

    open spec fn view(&self) -> SpeechSegmentView<S> {
        SpeechSegmentView {
            samples: self.samples@,
            start_ms: self.start_timestamp_ms as int,
            end_ms: self.end_timestamp_ms as int,
            confidence: self.confidence as int,
        }
    }
}

impl<S> SpeechSegmentView<S> {
    /// A region ends no earlier than it starts.
    pub open spec fn well_formed(self) -> bool {
        0 <= self.start_ms <= self.end_ms
    }

    /// Length of the region in milliseconds; negative if the region is
    /// not well formed.
    pub open spec fn duration_ms(self) -> int {
        self.end_ms - self.start_ms
    }
}

/// The views of a sequence of segments, in the same order.
pub open spec fn segment_views<S>(segments: Seq<SpeechSegment<S>>) -> Seq<SpeechSegmentView<S>> {
    Seq::new(segments.len(), |i: int| segments[i]@)
}

/// Every region is well formed, and each starts no earlier than the one
/// before it ends.
pub open spec fn chronological<S>(segments: Seq<SpeechSegmentView<S>>) -> bool {
    &&& forall|i: int| 0 <= i < segments.len() ==> (#[trigger] segments[i]).well_formed()
    &&& forall|i: int, j: int|
        0 <= i < j < segments.len() ==> (#[trigger] segments[i]).end_ms <= (
        #[trigger] segments[j]).start_ms
}

impl<S: Copy> SpeechSegment<S> {
    /// Whether the region ends no earlier than it starts.
    pub fn is_well_formed(&self) -> (b: bool)
        ensures
            b == self@.well_formed(),
    {
        self.start_timestamp_ms <= self.end_timestamp_ms
    }

    /// A copy of this region with its own sample buffer.
    pub fn duplicate(&self) -> (copy: SpeechSegment<S>)
        ensures
            copy@ == self@,
    {
        SpeechSegment {
            samples: vstd::slice::slice_to_vec(self.samples.as_slice()),
            start_timestamp_ms: self.start_timestamp_ms,
            end_timestamp_ms: self.end_timestamp_ms,
            confidence: self.confidence,
        }
    }
}

/// Whether the regions are what speech detection promises: each well
/// formed, in chronological order, none overlapping another. No region
/// at all is in order.
pub fn is_chronological<S>(segments: &Vec<SpeechSegment<S>>) -> (b: bool)
    ensures
        b == chronological(segment_views(segments@)),
{
    let ghost views = segment_views(segments@);
    let mut i: usize = 0;
    while i < segments.len()
        invariant
            i <= segments@.len(),
            views == segment_views(segments@),
            chronological(views.take(i as int)),
        decreases segments@.len() - i,
    {
        let current = &segments[i];
        let ordered: bool = current.start_timestamp_ms <= current.end_timestamp_ms && (i == 0
            || segments[i - 1].end_timestamp_ms <= current.start_timestamp_ms);
        if !ordered {
            proof {
                if views[i as int].well_formed() {
                    assert(!(views[i - 1].end_ms <= views[i as int].start_ms));
                }
            }
            return false;
        }
        proof {
            let before = views.take(i as int);
            let now = views.take(i + 1);
            assert forall|k: int| 0 <= k < now.len() implies (#[trigger] now[k]).well_formed() by {
                if k < i {
                    assert(now[k] == before[k]);
                }
            }
            assert forall|a: int, b: int| 0 <= a < b < now.len() implies (#[trigger] now[a]).end_ms
                <= (#[trigger] now[b]).start_ms by {
                if b < i {
                    assert(now[a] == before[a] && now[b] == before[b]);
                } else if a < i - 1 {
                    assert(before[a].end_ms <= before[i - 1].start_ms);
                    assert(before[i - 1].well_formed());
                }
            }
        }
        i += 1;
    }
    assert(views.take(segments@.len() as int) =~= views);
    true
}

} // verus!
