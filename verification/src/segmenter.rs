//! Cutting a stream of audio into segments of speech.
//!
//! A segmenter gets the audio of one source in frames, each with the
//! probability that somebody speaks in it. It keeps the last samples before
//! speech, starts a segment where speech starts, and ends it after enough
//! silence or at the greatest length.

use vstd::prelude::*;
use std::collections::VecDeque;

use crate::floats;
use crate::floats::F32Bits;
use crate::jobs;
use crate::jobs::SourceInfo;
use crate::jobs::Timestamp;
use crate::jobs::TranscribeJob;
use crate::json;
use crate::json::JsonValue;

verus! {

/// The number of samples in one frame.
pub const VAD_FRAME_SAMPLES: usize = 512;

/// When speech starts and when a segment ends. Lengths are in samples.
#[derive(Clone, Copy, Debug, PartialEq, Eq, Structural)]
pub struct SegmentSettings {
    pub vad_threshold: F32Bits,
    pub pre_roll_len: usize,
    pub max_segment_samples: usize,
    pub min_segment_samples: usize,
    pub silence_cut_samples: usize,
}

/// A finished segment: its samples, and the numbers in the stream where it starts
/// and where it ends, which tell its length to within a frame. With a pre-roll
/// the frame in which speech started stands in the samples twice, at the end of
/// the pre-roll and behind it.
#[derive(Debug)]
pub struct AudioSegment<T> {
    pub audio: Vec<T>,
    pub start_sample: u64,
    pub end_sample: u64,
}

/// The contents of an [`AudioSegment`].
#[verifier::ext_equal]
pub struct SegmentView<T> {
    pub audio: Seq<T>,
    pub start_sample: u64,
    pub end_sample: u64,
}

impl<T> View for AudioSegment<T> {
    type V = SegmentView<T>;

    open spec fn view(&self) -> SegmentView<T> {
        SegmentView {
            audio: self.audio@,
            start_sample: self.start_sample,
            end_sample: self.end_sample,
        }
    }
}

/// What a frame did.
#[derive(Debug)]
pub enum FrameOutcome<T> {
    /// Nobody speaks.
    Silent,
    /// Speech starts with this frame.
    Started,
    /// The segment goes on.
    Speaking,
    /// The segment has ended; it is too short and was dropped.
    Dropped,
    /// The segment has ended.
    Ended(AudioSegment<T>),
}

/// The contents of a [`FrameOutcome`].
#[verifier::ext_equal]
pub enum OutcomeView<T> {
    Silent,
    Started,
    Speaking,
    Dropped,
    Ended(SegmentView<T>),
}

impl<T> View for FrameOutcome<T> {
    type V = OutcomeView<T>;

    open spec fn view(&self) -> OutcomeView<T> {
        match self {
            FrameOutcome::Silent => OutcomeView::Silent,
            FrameOutcome::Started => OutcomeView::Started,
            FrameOutcome::Speaking => OutcomeView::Speaking,
            FrameOutcome::Dropped => OutcomeView::Dropped,
            FrameOutcome::Ended(segment) => OutcomeView::Ended(segment@),
        }
    }
}

/// The segmenter of one source of audio, with samples of type `T`.
#[derive(Debug)]
pub struct AudioSegmenter<T> {
    source: SourceInfo,
    context: Option<JsonValue>,
    pending_samples: Vec<T>,
    pre_roll: VecDeque<T>,
    current_segment: Vec<T>,
    current_start_sample: u64,
    total_samples_seen: u64,
    silence_samples_in_segment: usize,
    in_speech: bool,
}

/// The contents of an [`AudioSegmenter`].
#[verifier::ext_equal]
pub struct SegmenterView<T> {
    /// Where the audio comes from.
    pub source: jobs::SourceView,
    /// What goes along with each job.
    pub context: Option<json::JsonView>,
    /// The samples that do not fill a frame yet.
    pub pending: Seq<T>,
    /// The last samples before speech.
    pub pre_roll: Seq<T>,
    /// The samples of the segment.
    pub segment: Seq<T>,
    /// The number of the first sample of the segment.
    pub start: u64,
    /// The number of samples in all frames so far.
    pub seen: u64,
    /// The number of samples since somebody was last heard in the segment.
    pub silence: usize,
    /// Whether a segment is under way.
    pub in_speech: bool,
}

impl<T> View for AudioSegmenter<T> {
    type V = SegmenterView<T>;

    closed spec fn view(&self) -> SegmenterView<T> {
        SegmenterView {
            source: self.source@,
            context: jobs::context_view(self.context),
            pending: self.pending_samples@,
            pre_roll: self.pre_roll@,
            segment: self.current_segment@,
            start: self.current_start_sample,
            seen: self.total_samples_seen,
            silence: self.silence_samples_in_segment,
            in_speech: self.in_speech,
        }
    }
}

// ---------------------------------------------------------------------------
// What a frame does
// ---------------------------------------------------------------------------

/// The last `n` items, or all of them where there are no more.
pub open spec fn last_of<T>(s: Seq<T>, n: nat) -> Seq<T> {
    if s.len() <= n {
        s
    } else {
        s.skip(s.len() - n)
    }
}

/// The pre-roll after a frame outside of speech: the last `n` samples so far.
pub open spec fn rolled<T>(pre_roll: Seq<T>, frame: Seq<T>, n: nat) -> Seq<T> {
    if n == 0 {
        Seq::empty()
    } else if frame.len() == 0 {
        pre_roll
    } else {
        last_of(pre_roll + frame, n)
    }
}

/// `a - b`, or 0 where `b` is greater.
pub open spec fn minus_or_zero(a: u64, b: nat) -> u64 {
    if a >= b {
        (a - b) as u64
    } else {
        0
    }
}

/// Whether the sample counts have room for one more frame.
pub open spec fn has_room<T>(s: SegmenterView<T>) -> bool {
    s.seen + VAD_FRAME_SAMPLES <= u64::MAX && s.silence + VAD_FRAME_SAMPLES <= usize::MAX
}

/// The samples since somebody was last heard, after a frame of a segment.
pub open spec fn silence_after(silence: usize, voice: bool) -> usize {
    if voice {
        0
    } else {
        (silence + VAD_FRAME_SAMPLES) as usize
    }
}

/// Whether a segment with this many samples, this many of them since somebody
/// was last heard, has ended.
pub open spec fn has_ended(len: nat, silence: usize, settings: SegmentSettings) -> bool {
    len >= settings.max_segment_samples || (len >= settings.min_segment_samples && silence
        >= settings.silence_cut_samples)
}

/// What a frame does.
pub open spec fn frame_outcome<T>(
    s: SegmenterView<T>,
    frame: Seq<T>,
    voice: bool,
    settings: SegmentSettings,
) -> OutcomeView<T> {
    if !s.in_speech {
        if voice {
            OutcomeView::Started
        } else {
            OutcomeView::Silent
        }
    } else {
        let segment = s.segment + frame;
        if !has_ended(segment.len(), silence_after(s.silence, voice), settings) {
            OutcomeView::Speaking
        } else if segment.len() < settings.min_segment_samples {
            OutcomeView::Dropped
        } else {
            OutcomeView::Ended(
                SegmentView {
                    audio: segment,
                    start_sample: s.start,
                    end_sample: (s.seen + VAD_FRAME_SAMPLES) as u64,
                },
            )
        }
    }
}

/// The state with no segment under way, where the samples in frames and those
/// that do not fill a frame yet stay counted.
pub open spec fn between_segments<T>(s: SegmenterView<T>) -> SegmenterView<T> {
    SegmenterView {
        pre_roll: Seq::<T>::empty(),
        silence: 0,
        in_speech: false,
        ..s
    }
}

/// The state after a frame. Where the frame ended a segment, the segment has
/// been taken out, and the state waits to be told that it was queued.
pub open spec fn after_frame<T>(
    s: SegmenterView<T>,
    frame: Seq<T>,
    voice: bool,
    settings: SegmentSettings,
) -> SegmenterView<T> {
    let seen = (s.seen + VAD_FRAME_SAMPLES) as u64;
    if !s.in_speech {
        let pre_roll = rolled(s.pre_roll, frame, settings.pre_roll_len as nat);
        if voice {
            SegmenterView {
                pre_roll,
                segment: pre_roll + frame,
                start: minus_or_zero(s.seen, pre_roll.len()),
                seen,
                silence: 0,
                in_speech: true,
                ..s
            }
        } else {
            SegmenterView { pre_roll, seen, ..s }
        }
    } else {
        let silence = silence_after(s.silence, voice);
        match frame_outcome(s, frame, voice, settings) {
            OutcomeView::Speaking => SegmenterView {
                segment: s.segment + frame,
                seen,
                silence,
                ..s
            },
            OutcomeView::Dropped => between_segments(
                SegmenterView { segment: Seq::<T>::empty(), seen, ..s },
            ),
            _ => SegmenterView { segment: Seq::<T>::empty(), seen, silence, ..s },
        }
    }
}

/// A segmenter that has got no audio yet.
pub open spec fn fresh_segmenter<T>(
    source: jobs::SourceView,
    context: Option<json::JsonView>,
) -> SegmenterView<T> {
    SegmenterView {
        source,
        context,
        pending: Seq::<T>::empty(),
        pre_roll: Seq::<T>::empty(),
        segment: Seq::<T>::empty(),
        start: 0,
        seen: 0,
        silence: 0,
        in_speech: false,
    }
}

/// The last segment of a stream that has ended: the one under way, unless it
/// is too short.
pub open spec fn last_segment<T>(s: SegmenterView<T>, min_segment_samples: usize) -> Option<
    SegmentView<T>,
> {
    if s.in_speech && s.segment.len() > 0 && s.segment.len() >= min_segment_samples {
        Some(SegmentView { audio: s.segment, start_sample: s.start, end_sample: s.seen })
    } else {
        None
    }
}

/// The state at the end of a stream whose last segment has been taken out and
/// waits to be queued.
pub open spec fn without_segment<T>(s: SegmenterView<T>) -> SegmenterView<T> {
    SegmenterView { segment: Seq::<T>::empty(), ..s }
}

/// The state after the end of a stream.
pub open spec fn finished<T>(s: SegmenterView<T>) -> SegmenterView<T> {
    between_segments(
        SegmenterView { pending: Seq::<T>::empty(), segment: Seq::<T>::empty(), ..s },
    )
}

/// The job for a segment.
pub open spec fn job_of<T>(
    s: SegmenterView<T>,
    segment: SegmentView<T>,
    threshold: F32Bits,
    id: Seq<char>,
    received_at: Timestamp,
) -> jobs::JobView<T> {
    jobs::JobView {
        id,
        audio: segment.audio,
        start_sample: segment.start_sample,
        end_sample: segment.end_sample,
        received_at,
        source: s.source,
        context: s.context,
        vad: jobs::silero_vad_at(threshold),
    }
}

/// Appends a copy of the samples.
fn append_samples<T: Copy>(to: &mut Vec<T>, samples: &Vec<T>)
    ensures
        final(to)@ == old(to)@ + samples@,
{
    let ghost before = to@;
    for i in 0..samples.len()
        invariant
            to@ == before + samples@.take(i as int),
    {
        to.push(samples[i]);
        assert(samples@.take(i as int).push(samples@[i as int]) =~= samples@.take(i + 1));
        assert(to@ =~= before + samples@.take(i + 1));
    }
    assert(samples@.take(samples@.len() as int) =~= samples@);
}

impl<T: Copy> AudioSegmenter<T> {
    /// A segmenter for audio of the given source.
    pub fn new(source: SourceInfo, context: Option<JsonValue>) -> (r: Self)
        ensures
            r@ == fresh_segmenter::<T>(source@, jobs::context_view(context)),
    {
        AudioSegmenter {
            source,
            context,
            pending_samples: Vec::new(),
            pre_roll: VecDeque::new(),
            current_segment: Vec::new(),
            current_start_sample: 0,
            total_samples_seen: 0,
            silence_samples_in_segment: 0,
            in_speech: false,
        }
    }

    /// Names another source for the jobs from here on.
    pub fn set_source(&mut self, source: SourceInfo)
        ensures
            final(self)@ == (SegmenterView { source: source@, ..old(self)@ }),
    {
        self.source = source;
    }

    /// Whether the sample counts have room for one more frame.
    pub fn has_room(&self) -> (b: bool)
        ensures
            b == has_room(self@),
    {
        self.total_samples_seen <= u64::MAX - VAD_FRAME_SAMPLES as u64
            && self.silence_samples_in_segment <= usize::MAX - VAD_FRAME_SAMPLES
    }

    /// Whether a segment is under way.
    pub fn in_speech(&self) -> (b: bool)
        ensures
            b == self@.in_speech,
    {
        self.in_speech
    }

    /// Takes in samples, to be read back frame by frame.
    pub fn push_samples(&mut self, samples: &Vec<T>)
        ensures
            final(self)@ == (SegmenterView { pending: old(self)@.pending + samples@, ..old(self)@ }),
    {
        append_samples(&mut self.pending_samples, samples);
    }

    /// The next frame of the samples taken in, where they fill one.
    pub fn take_frame(&mut self) -> (r: Option<Vec<T>>)
        ensures
            match r {
                Some(frame) => {
                    &&& frame@.len() == VAD_FRAME_SAMPLES
                    &&& old(self)@.pending == frame@ + final(self)@.pending
                    &&& final(self)@ == (SegmenterView {
                        pending: final(self)@.pending,
                        ..old(self)@
                    })
                },
                None => {
                    &&& old(self)@.pending.len() < VAD_FRAME_SAMPLES
                    &&& final(self)@ == old(self)@
                },
            },
    {
        if self.pending_samples.len() < VAD_FRAME_SAMPLES {
            return None;
        }
        let ghost before = self.pending_samples@;
        let mut frame: Vec<T> = self.pending_samples.split_off(VAD_FRAME_SAMPLES);
        std::mem::swap(&mut frame, &mut self.pending_samples);
        assert(before =~= frame@ + self.pending_samples@);
        Some(frame)
    }

    /// Takes the samples of a frame into the pre-roll, which keeps the last
    /// `n` samples.
    fn roll(&mut self, frame: &Vec<T>, n: usize)
        ensures
            final(self)@ == (SegmenterView {
                pre_roll: rolled(old(self)@.pre_roll, frame@, n as nat),
                ..old(self)@
            }),
    {
        if n == 0 {
            self.pre_roll.clear();
            return;
        }
        let ghost first = *self;
        let ghost before = self.pre_roll@;
        for i in 0..frame.len()
            invariant
                n > 0,
                before == first.pre_roll@,
                self.pre_roll@ == rolled(before, frame@.take(i as int), n as nat),
                self@ == (SegmenterView { pre_roll: self.pre_roll@, ..first@ }),
        {
            let ghost so_far = self.pre_roll@;
            while self.pre_roll.len() >= n
                invariant
                    n > 0,
                    self.pre_roll@.len() <= so_far.len(),
                    self.pre_roll@ == last_of(so_far, self.pre_roll@.len()),
                    self.pre_roll@.len() == so_far.len() || self.pre_roll@.len() >= n - 1,
                    self@ == (SegmenterView { pre_roll: self.pre_roll@, ..first@ }),
                decreases self.pre_roll@.len(),
            {
                let _ = self.pre_roll.pop_front();
                assert(self.pre_roll@ =~= last_of(so_far, self.pre_roll@.len()));
            }
            self.pre_roll.push_back(frame[i]);
            proof {
                let taken = frame@.take(i as int);
                let more = frame@.take(i + 1);
                assert(more =~= taken.push(frame@[i as int]));
                assert(before + more =~= (before + taken).push(frame@[i as int]));
                if i == 0 {
                    assert(before + taken =~= before);
                    assert(so_far == before);
                }
                assert(self.pre_roll@ =~= last_of((before + taken).push(frame@[i as int]), n as nat));
            }
        }
        assert(frame@.take(frame@.len() as int) =~= frame@);
    }

    /// Takes in a frame, with the probability that somebody speaks in it. Where
    /// that ends a segment, the segment comes back, and `segment_queued` is to
    /// be called once it has been queued.
    pub fn push_frame(
        &mut self,
        frame: &Vec<T>,
        probability: F32Bits,
        settings: &SegmentSettings,
    ) -> (r: FrameOutcome<T>)
        requires
            has_room(old(self)@),
        ensures
            r@ == frame_outcome(
                old(self)@,
                frame@,
                floats::f32_at_least(probability, settings.vad_threshold),
                *settings,
            ),
            final(self)@ == after_frame(
                old(self)@,
                frame@,
                floats::f32_at_least(probability, settings.vad_threshold),
                *settings,
            ),
    {
        let frame_start_sample: u64 = self.total_samples_seen;
        self.total_samples_seen = self.total_samples_seen + VAD_FRAME_SAMPLES as u64;
        let is_voice = probability.at_least(settings.vad_threshold);

        if !self.in_speech {
            self.roll(frame, settings.pre_roll_len);
            if !is_voice {
                return FrameOutcome::Silent;
            }
            self.in_speech = true;
            self.silence_samples_in_segment = 0;
            let pre_len: u64 = self.pre_roll.len() as u64;
            self.current_start_sample = if frame_start_sample >= pre_len {
                frame_start_sample - pre_len
            } else {
                0
            };
            let mut segment: Vec<T> = Vec::new();
            for i in 0..self.pre_roll.len()
                invariant
                    segment@ == self.pre_roll@.take(i as int),
            {
                let sample: T = self.pre_roll[i];
                segment.push(sample);
                assert(self.pre_roll@.take(i + 1) =~= self.pre_roll@.take(i as int).push(sample));
            }
            assert(self.pre_roll@.take(self.pre_roll@.len() as int) =~= self.pre_roll@);
            append_samples(&mut segment, frame);
            self.current_segment = segment;
            return FrameOutcome::Started;
        }
        append_samples(&mut self.current_segment, frame);
        if is_voice {
            self.silence_samples_in_segment = 0;
        } else {
            self.silence_samples_in_segment = self.silence_samples_in_segment + VAD_FRAME_SAMPLES;
        }

        let len: usize = self.current_segment.len();
        let should_flush_for_max = len >= settings.max_segment_samples;
        let should_flush_for_silence = len >= settings.min_segment_samples
            && self.silence_samples_in_segment >= settings.silence_cut_samples;
        if !should_flush_for_max && !should_flush_for_silence {
            return FrameOutcome::Speaking;
        }
        if len < settings.min_segment_samples {
            self.current_segment = Vec::new();
            self.segment_queued();
            return FrameOutcome::Dropped;
        }
        let mut audio: Vec<T> = Vec::new();
        std::mem::swap(&mut audio, &mut self.current_segment);
        FrameOutcome::Ended(
            AudioSegment {
                audio,
                start_sample: self.current_start_sample,
                end_sample: self.total_samples_seen,
            },
        )
    }

    /// Goes back to waiting for speech, after a segment has been queued.
    pub fn segment_queued(&mut self)
        ensures
            final(self)@ == between_segments(old(self)@),
    {
        self.in_speech = false;
        self.silence_samples_in_segment = 0;
        self.pre_roll.clear();
    }

    /// Ends the stream. The segment under way comes back, unless it is too
    /// short, and `last_segment_queued` is to be called once it has been queued.
    pub fn finish(&mut self, min_segment_samples: usize) -> (r: Option<AudioSegment<T>>)
        ensures
            match r {
                Some(segment) => {
                    &&& last_segment(old(self)@, min_segment_samples) == Some(segment@)
                    &&& final(self)@ == without_segment(old(self)@)
                },
                None => {
                    &&& last_segment(old(self)@, min_segment_samples) is None
                    &&& final(self)@ == finished(old(self)@)
                },
            },
    {
        let len: usize = self.current_segment.len();
        if self.in_speech && len > 0 && len >= min_segment_samples {
            let mut audio: Vec<T> = Vec::new();
            std::mem::swap(&mut audio, &mut self.current_segment);
            Some(
                AudioSegment {
                    audio,
                    start_sample: self.current_start_sample,
                    end_sample: self.total_samples_seen,
                },
            )
        } else {
            self.last_segment_queued();
            None
        }
    }

    /// Forgets the rest of the stream, after its last segment has been queued.
    pub fn last_segment_queued(&mut self)
        ensures
            final(self)@ == finished(old(self)@),
    {
        self.current_segment = Vec::new();
        self.pending_samples = Vec::new();
        self.segment_queued();
    }

    /// The job for a segment of this source, with the given identifier and
    /// time.
    pub fn job_with(
        &self,
        segment: AudioSegment<T>,
        threshold: F32Bits,
        id: String,
        received_at: Timestamp,
    ) -> (r: TranscribeJob<T>)
        ensures
            r@ == job_of(self@, segment@, threshold, id@, received_at),
    {
        TranscribeJob {
            id,
            audio: segment.audio,
            start_sample: segment.start_sample,
            end_sample: segment.end_sample,
            received_at,
            source: self.source.clone(),
            context: jobs::clone_context(&self.context),
            vad: jobs::silero_vad(threshold),
        }
    }

    /// The job for a segment of this source, with a new identifier and the
    /// time now.
    pub fn job(&self, segment: AudioSegment<T>, threshold: F32Bits) -> (r: TranscribeJob<T>)
        ensures
            jobs::is_random_uuid(r@.id),
            jobs::is_clock_time(r@.received_at),
            r@ == job_of(self@, segment@, threshold, r@.id, r@.received_at),
    {
        self.job_with(segment, threshold, jobs::random_uuid(), jobs::utc_now())
    }
}

} // verus!
