//! What holds of the segments of a whole stream.

use vstd::prelude::*;

use crate::audio;
use crate::floats::F32Bits;
use crate::jobs;
use crate::jobs::Timestamp;
use crate::json;
use crate::segmenter;
use crate::segmenter::SegmentSettings;

verus! {

/// The state after a frame, where a segment that it ended has been queued.
pub open spec fn after_queued<T>(
    s: segmenter::SegmenterView<T>,
    frame: Seq<T>,
    voice: bool,
    settings: SegmentSettings,
) -> segmenter::SegmenterView<T> {
    let after = segmenter::after_frame(s, frame, voice, settings);
    if segmenter::frame_outcome(s, frame, voice, settings) is Ended {
        segmenter::between_segments(after)
    } else {
        after
    }
}

/// The segments that end in the given frames, each of them queued. With each
/// frame stands whether somebody speaks in it.
pub open spec fn stream_segments<T>(
    s: segmenter::SegmenterView<T>,
    frames: Seq<(Seq<T>, bool)>,
    settings: SegmentSettings,
) -> Seq<segmenter::SegmentView<T>>
    decreases frames.len(),
{
    if frames.len() == 0 {
        Seq::empty()
    } else {
        let (frame, voice) = frames[0];
        let rest = stream_segments(
            after_queued(s, frame, voice, settings),
            frames.drop_first(),
            settings,
        );
        match segmenter::frame_outcome(s, frame, voice, settings) {
            segmenter::OutcomeView::Ended(segment) => seq![segment] + rest,
            _ => rest,
        }
    }
}

/// The state after the given frames, where each segment that ended has been
/// queued.
pub open spec fn after_stream<T>(
    s: segmenter::SegmenterView<T>,
    frames: Seq<(Seq<T>, bool)>,
    settings: SegmentSettings,
) -> segmenter::SegmenterView<T>
    decreases frames.len(),
{
    if frames.len() == 0 {
        s
    } else {
        after_stream(
            after_queued(s, frames[0].0, frames[0].1, settings),
            frames.drop_first(),
            settings,
        )
    }
}

/// Whether each frame is full.
pub open spec fn all_full<T>(frames: Seq<(Seq<T>, bool)>) -> bool {
    forall|i: int|
        0 <= i < frames.len() ==> (#[trigger] frames[i]).0.len() == segmenter::VAD_FRAME_SAMPLES
}

/// Whether the sample counts have room for this many frames.
pub open spec fn fit<T>(s: segmenter::SegmenterView<T>, frames: nat) -> bool {
    &&& s.seen + segmenter::VAD_FRAME_SAMPLES * frames <= u64::MAX
    &&& s.silence + segmenter::VAD_FRAME_SAMPLES * frames <= usize::MAX
}

/// Whether a segment of this many samples can still go on under the settings.
pub open spec fn can_go_on(len: nat, settings: SegmentSettings) -> bool {
    len < settings.max_segment_samples || len <= settings.pre_roll_len
        + segmenter::VAD_FRAME_SAMPLES
}

/// Whether a finished segment is as the settings ask: long enough, not longer
/// than the greatest length by more than the last frame (or, where the pre-roll
/// is longer than that, than the pre-roll and two frames), and with numbers
/// that tell its length to within a frame.
pub open spec fn is_proper<T>(
    segment: segmenter::SegmentView<T>,
    settings: SegmentSettings,
) -> bool {
    let len = segment.audio.len();
    &&& segment.start_sample <= segment.end_sample
    &&& segment.end_sample - segment.start_sample <= len <= segment.end_sample
        - segment.start_sample + segmenter::VAD_FRAME_SAMPLES
    &&& len >= settings.min_segment_samples
    &&& len < settings.max_segment_samples + segmenter::VAD_FRAME_SAMPLES || len
        <= settings.pre_roll_len + 2 * segmenter::VAD_FRAME_SAMPLES
}

/// What holds between frames of a segmenter whose segments were all queued,
/// the last of them up to the sample `last_end`.
spec fn in_step<T>(
    s: segmenter::SegmenterView<T>,
    settings: SegmentSettings,
    last_end: int,
) -> bool {
    &&& 0 <= last_end <= s.seen
    &&& s.in_speech ==> {
        &&& s.start <= s.seen
        &&& s.seen - s.start <= s.segment.len() <= s.seen - s.start + segmenter::VAD_FRAME_SAMPLES
        &&& can_go_on(s.segment.len(), settings)
        &&& s.start + segmenter::VAD_FRAME_SAMPLES >= last_end
    }
    &&& !s.in_speech ==> {
        &&& s.pre_roll.len() <= settings.pre_roll_len
        &&& s.pre_roll.len() <= s.seen - last_end
    }
}

/// Where the last segment ended, after a frame.
spec fn end_after<T>(
    s: segmenter::SegmenterView<T>,
    frame: Seq<T>,
    voice: bool,
    settings: SegmentSettings,
    last_end: int,
) -> int {
    if segmenter::frame_outcome(s, frame, voice, settings) is Ended {
        s.seen + segmenter::VAD_FRAME_SAMPLES
    } else {
        last_end
    }
}

proof fn lemma_step<T>(
    s: segmenter::SegmenterView<T>,
    frame: Seq<T>,
    voice: bool,
    settings: SegmentSettings,
    last_end: int,
)
    requires
        in_step(s, settings, last_end),
        segmenter::has_room(s),
        frame.len() == segmenter::VAD_FRAME_SAMPLES,
    ensures
        in_step(
            after_queued(s, frame, voice, settings),
            settings,
            end_after(s, frame, voice, settings, last_end),
        ),
        segmenter::frame_outcome(s, frame, voice, settings) matches segmenter::OutcomeView::Ended(
            segment,
        ) ==> {
            &&& is_proper(segment, settings)
            &&& segment.end_sample == end_after(s, frame, voice, settings, last_end)
            &&& segment.start_sample + segmenter::VAD_FRAME_SAMPLES >= last_end
        },
{
    if !s.in_speech {
        let n = settings.pre_roll_len as nat;
        let pre_roll = segmenter::rolled(s.pre_roll, frame, n);
        assert((s.pre_roll + frame).len() == s.pre_roll.len() + frame.len());
        assert(pre_roll.len() <= n);
        assert(pre_roll.len() <= s.pre_roll.len() + frame.len());
    }
}

proof fn lemma_stream<T>(
    s: segmenter::SegmenterView<T>,
    frames: Seq<(Seq<T>, bool)>,
    settings: SegmentSettings,
    last_end: int,
)
    requires
        in_step(s, settings, last_end),
        fit(s, frames.len()),
        all_full(frames),
    ensures
        ({
            let segments = stream_segments(s, frames, settings);
            &&& forall|i: int|
                0 <= i < segments.len() ==> is_proper(#[trigger] segments[i], settings)
            &&& segments.len() > 0 ==> segments[0].start_sample + segmenter::VAD_FRAME_SAMPLES
                >= last_end
            &&& forall|i: int, j: int|
                0 <= i < segments.len() && j == i + 1 && j < segments.len() ==> (
                #[trigger] segments[j]).start_sample + segmenter::VAD_FRAME_SAMPLES >= (
                #[trigger] segments[i]).end_sample
        }),
    decreases frames.len(),
{
    if frames.len() > 0 {
        let (frame, voice) = frames[0];
        lemma_step(s, frame, voice, settings, last_end);
        let after = after_queued(s, frame, voice, settings);
        let end = end_after(s, frame, voice, settings, last_end);
        assert forall|i: int| 0 <= i < frames.drop_first().len() implies (
        #[trigger] frames.drop_first()[i]).0.len() == segmenter::VAD_FRAME_SAMPLES by {
            assert(frames.drop_first()[i] == frames[i + 1]);
        }
        assert(segmenter::VAD_FRAME_SAMPLES * frames.len() == segmenter::VAD_FRAME_SAMPLES
            * frames.drop_first().len() + segmenter::VAD_FRAME_SAMPLES) by (nonlinear_arith)
            requires
                frames.len() == frames.drop_first().len() + 1,
        ;
        lemma_stream(after, frames.drop_first(), settings, end);
        let rest = stream_segments(after, frames.drop_first(), settings);
        let segments = stream_segments(s, frames, settings);
        if segmenter::frame_outcome(s, frame, voice, settings) is Ended {
            assert(segments.len() == rest.len() + 1);
            assert forall|i: int| 0 <= i < segments.len() implies is_proper(
                #[trigger] segments[i],
                settings,
            ) by {
                if i > 0 {
                    assert(segments[i] == rest[i - 1]);
                }
            }
            assert forall|i: int, j: int|
                0 <= i < segments.len() && j == i + 1 && j < segments.len() implies (
            #[trigger] segments[j]).start_sample + segmenter::VAD_FRAME_SAMPLES >= (
            #[trigger] segments[i]).end_sample by {
                assert(segments[j] == rest[j - 1]);
                if i > 0 {
                    assert(segments[i] == rest[i - 1]);
                }
            }
        }
    }
}

/// Each segment of a stream is as the settings ask, and none starts more than
/// a frame before the end of the one before it.
pub proof fn segments_are_proper<T>(
    source: jobs::SourceView,
    context: Option<json::JsonView>,
    frames: Seq<(Seq<T>, bool)>,
    settings: SegmentSettings,
)
    requires
        fit(segmenter::fresh_segmenter::<T>(source, context), frames.len()),
        all_full(frames),
    ensures
        ({
            let segments = stream_segments(
                segmenter::fresh_segmenter(source, context),
                frames,
                settings,
            );
            &&& forall|i: int|
                0 <= i < segments.len() ==> is_proper(#[trigger] segments[i], settings)
            &&& forall|i: int, j: int|
                0 <= i < segments.len() && j == i + 1 && j < segments.len() ==> (
                #[trigger] segments[j]).start_sample + segmenter::VAD_FRAME_SAMPLES >= (
                #[trigger] segments[i]).end_sample
        }),
{
    lemma_stream(segmenter::fresh_segmenter::<T>(source, context), frames, settings, 0);
}

/// A stream in which nobody speaks has no segments, and leaves none under way.
pub proof fn silence_has_no_segments<T>(
    s: segmenter::SegmenterView<T>,
    frames: Seq<(Seq<T>, bool)>,
    settings: SegmentSettings,
)
    requires
        !s.in_speech,
        forall|i: int| 0 <= i < frames.len() ==> !(#[trigger] frames[i]).1,
    ensures
        stream_segments(s, frames, settings) == Seq::<segmenter::SegmentView<T>>::empty(),
        !after_stream(s, frames, settings).in_speech,
    decreases frames.len(),
{
    if frames.len() > 0 {
        assert forall|i: int| 0 <= i < frames.drop_first().len() implies !(
        #[trigger] frames.drop_first()[i]).1 by {
            assert(frames.drop_first()[i] == frames[i + 1]);
        }
        assert(!frames[0].1);
        silence_has_no_segments(
            after_queued(s, frames[0].0, frames[0].1, settings),
            frames.drop_first(),
            settings,
        );
    }
}

/// The segmenter counts every frame, whatever is in it.
pub proof fn frames_are_counted<T>(
    s: segmenter::SegmenterView<T>,
    frames: Seq<(Seq<T>, bool)>,
    settings: SegmentSettings,
)
    requires
        fit(s, frames.len()),
    ensures
        after_stream(s, frames, settings).seen == s.seen + segmenter::VAD_FRAME_SAMPLES
            * frames.len(),
    decreases frames.len(),
{
    if frames.len() > 0 {
        assert(segmenter::VAD_FRAME_SAMPLES * frames.len() == segmenter::VAD_FRAME_SAMPLES
            * frames.drop_first().len() + segmenter::VAD_FRAME_SAMPLES) by (nonlinear_arith)
            requires
                frames.len() == frames.drop_first().len() + 1,
        ;
        frames_are_counted(
            after_queued(s, frames[0].0, frames[0].1, settings),
            frames.drop_first(),
            settings,
        );
    }
}

/// The frames one after the other.
pub open spec fn joined_frames<T>(frames: Seq<(Seq<T>, bool)>) -> Seq<T>
    decreases frames.len(),
{
    if frames.len() == 0 {
        Seq::empty()
    } else {
        frames[0].0 + joined_frames(frames.drop_first())
    }
}

/// Whether the segment under way goes on through all of the frames.
pub open spec fn goes_on<T>(
    s: segmenter::SegmenterView<T>,
    frames: Seq<(Seq<T>, bool)>,
    settings: SegmentSettings,
) -> bool
    decreases frames.len(),
{
    frames.len() == 0 || {
        &&& segmenter::frame_outcome(s, frames[0].0, frames[0].1, settings) is Speaking
        &&& goes_on(
            after_queued(s, frames[0].0, frames[0].1, settings),
            frames.drop_first(),
            settings,
        )
    }
}

/// While a segment goes on it takes in every frame whole and in order, those
/// with silence too.
pub proof fn segment_takes_in_every_frame<T>(
    s: segmenter::SegmenterView<T>,
    frames: Seq<(Seq<T>, bool)>,
    settings: SegmentSettings,
)
    requires
        goes_on(s, frames, settings),
    ensures
        after_stream(s, frames, settings).segment == s.segment + joined_frames(frames),
        after_stream(s, frames, settings).start == s.start,
    decreases frames.len(),
{
    if frames.len() == 0 {
        assert(s.segment + joined_frames(frames) =~= s.segment);
    } else {
        let after = after_queued(s, frames[0].0, frames[0].1, settings);
        segment_takes_in_every_frame(after, frames.drop_first(), settings);
        assert(after.segment + joined_frames(frames.drop_first()) =~= s.segment + joined_frames(
            frames,
        ));
    }
}

/// Where the greatest length is not less than the least one, no segment that
/// ends is too short.
pub proof fn no_ended_segment_is_too_short<T>(
    s: segmenter::SegmenterView<T>,
    frame: Seq<T>,
    voice: bool,
    settings: SegmentSettings,
)
    requires
        settings.max_segment_samples >= settings.min_segment_samples,
    ensures
        !(segmenter::frame_outcome(s, frame, voice, settings) is Dropped),
{
}

// ---------------------------------------------------------------------------
// Samples that come in pieces
// ---------------------------------------------------------------------------

/// The state with samples taken in, before any frame of them is read back.
pub open spec fn with_samples<T>(
    s: segmenter::SegmenterView<T>,
    samples: Seq<T>,
) -> segmenter::SegmenterView<T> {
    segmenter::SegmenterView { pending: s.pending + samples, ..s }
}

/// The first frame of the samples taken in.
pub open spec fn next_frame<T>(s: segmenter::SegmenterView<T>) -> Seq<T> {
    s.pending.take(segmenter::VAD_FRAME_SAMPLES as int)
}

/// The state without the first frame of the samples taken in.
pub open spec fn without_frame<T>(
    s: segmenter::SegmenterView<T>,
) -> segmenter::SegmenterView<T> {
    segmenter::SegmenterView {
        pending: s.pending.skip(segmenter::VAD_FRAME_SAMPLES as int),
        ..s
    }
}

/// The number of full frames in this many samples.
pub open spec fn full_frames(samples: nat) -> nat {
    samples / segmenter::VAD_FRAME_SAMPLES as nat
}

/// The state after every full frame of the samples taken in was read back and
/// taken in as a frame, where each segment that ended has been queued. The
/// answers say of each of these frames whether somebody speaks in it.
pub open spec fn drained<T>(
    s: segmenter::SegmenterView<T>,
    answers: Seq<bool>,
    settings: SegmentSettings,
) -> segmenter::SegmenterView<T>
    decreases s.pending.len(),
{
    if s.pending.len() < segmenter::VAD_FRAME_SAMPLES {
        s
    } else {
        drained(
            after_queued(without_frame(s), next_frame(s), answers[0], settings),
            answers.drop_first(),
            settings,
        )
    }
}

/// The segments that end in the full frames of the samples taken in.
pub open spec fn drained_segments<T>(
    s: segmenter::SegmenterView<T>,
    answers: Seq<bool>,
    settings: SegmentSettings,
) -> Seq<segmenter::SegmentView<T>>
    decreases s.pending.len(),
{
    if s.pending.len() < segmenter::VAD_FRAME_SAMPLES {
        Seq::empty()
    } else {
        let rest = drained_segments(
            after_queued(without_frame(s), next_frame(s), answers[0], settings),
            answers.drop_first(),
            settings,
        );
        match segmenter::frame_outcome(without_frame(s), next_frame(s), answers[0], settings) {
            segmenter::OutcomeView::Ended(segment) => seq![segment] + rest,
            _ => rest,
        }
    }
}

proof fn lemma_full_frames(n: nat)
    requires
        n >= segmenter::VAD_FRAME_SAMPLES,
    ensures
        full_frames(n) == full_frames((n - segmenter::VAD_FRAME_SAMPLES) as nat) + 1,
{
}

/// Draining before and after more samples come in is draining once.
proof fn lemma_drained_twice<T>(
    s: segmenter::SegmenterView<T>,
    more: Seq<T>,
    answers: Seq<bool>,
    settings: SegmentSettings,
)
    requires
        answers.len() >= full_frames(s.pending.len()),
    ensures
        ({
            let k = full_frames(s.pending.len()) as int;
            let between = with_samples(drained(s, answers, settings), more);
            &&& drained(between, answers.skip(k), settings) == drained(
                with_samples(s, more),
                answers,
                settings,
            )
            &&& drained_segments(s, answers, settings) + drained_segments(
                between,
                answers.skip(k),
                settings,
            ) == drained_segments(with_samples(s, more), answers, settings)
        }),
    decreases s.pending.len(),
{
    let k = full_frames(s.pending.len()) as int;
    let whole = with_samples(s, more);
    if s.pending.len() < segmenter::VAD_FRAME_SAMPLES {
        assert(answers.skip(0) =~= answers);
        assert(drained_segments(s, answers, settings) + drained_segments(whole, answers, settings)
            =~= drained_segments(whole, answers, settings));
    } else {
        let voice = answers[0];
        let stepped = after_queued(without_frame(s), next_frame(s), voice, settings);
        lemma_full_frames(s.pending.len());
        lemma_drained_twice(stepped, more, answers.drop_first(), settings);
        assert(answers.drop_first().skip(k - 1) =~= answers.skip(k));
        assert(next_frame(whole) =~= next_frame(s));
        assert(without_frame(whole).pending =~= without_frame(s).pending + more);
        assert(after_queued(without_frame(whole), next_frame(whole), voice, settings)
            =~= with_samples(stepped, more));
        let between = with_samples(drained(s, answers, settings), more);
        let rest = drained_segments(stepped, answers.drop_first(), settings);
        let last = drained_segments(between, answers.skip(k), settings);
        match segmenter::frame_outcome(without_frame(s), next_frame(s), voice, settings) {
            segmenter::OutcomeView::Ended(segment) => {
                assert((seq![segment] + rest) + last =~= seq![segment] + (rest + last));
            },
            _ => {},
        }
    }
}

/// Samples that come in two parts give the segments, and leave the state, of
/// the same samples that come at once, where the frames get the same answers.
pub proof fn parts_do_not_matter<T>(
    s: segmenter::SegmenterView<T>,
    a: Seq<T>,
    b: Seq<T>,
    answers: Seq<bool>,
    settings: SegmentSettings,
)
    requires
        answers.len() >= full_frames(s.pending.len() + a.len()),
    ensures
        ({
            let k = full_frames(s.pending.len() + a.len()) as int;
            let first = drained(with_samples(s, a), answers, settings);
            &&& drained(with_samples(first, b), answers.skip(k), settings) == drained(
                with_samples(s, a + b),
                answers,
                settings,
            )
            &&& drained_segments(with_samples(s, a), answers, settings) + drained_segments(
                with_samples(first, b),
                answers.skip(k),
                settings,
            ) == drained_segments(with_samples(s, a + b), answers, settings)
        }),
{
    lemma_drained_twice(with_samples(s, a), b, answers, settings);
    assert(with_samples(with_samples(s, a), b) =~= with_samples(s, a + b));
}

/// After the full frames were read back, the samples that wait do not fill a
/// frame, and every sample of the frames has been counted.
pub proof fn full_frames_are_read_back<T>(
    s: segmenter::SegmenterView<T>,
    answers: Seq<bool>,
    settings: SegmentSettings,
)
    requires
        fit(s, full_frames(s.pending.len())),
    ensures
        drained(s, answers, settings).pending.len() < segmenter::VAD_FRAME_SAMPLES,
        drained(s, answers, settings).pending == s.pending.skip(
            segmenter::VAD_FRAME_SAMPLES * full_frames(s.pending.len()),
        ),
        drained(s, answers, settings).seen == s.seen + segmenter::VAD_FRAME_SAMPLES * full_frames(
            s.pending.len(),
        ),
    decreases s.pending.len(),
{
    if s.pending.len() < segmenter::VAD_FRAME_SAMPLES {
        assert(s.pending.skip(0) =~= s.pending);
    } else {
        let stepped = after_queued(without_frame(s), next_frame(s), answers[0], settings);
        lemma_full_frames(s.pending.len());
        full_frames_are_read_back(stepped, answers.drop_first(), settings);
        assert(stepped.pending.skip(
            segmenter::VAD_FRAME_SAMPLES * full_frames(stepped.pending.len()),
        ) =~= s.pending.skip(segmenter::VAD_FRAME_SAMPLES * full_frames(s.pending.len())));
    }
}

/// The full frames of the samples, each with its answer.
pub open spec fn frames_of<T>(samples: Seq<T>, answers: Seq<bool>) -> Seq<(Seq<T>, bool)> {
    Seq::new(
        full_frames(samples.len()),
        |i: int|
            (
                samples.subrange(
                    segmenter::VAD_FRAME_SAMPLES * i,
                    segmenter::VAD_FRAME_SAMPLES * i + segmenter::VAD_FRAME_SAMPLES,
                ),
                answers[i],
            ),
    )
}

/// What waits does not bear on what a frame does.
proof fn lemma_pending_is_kept<T>(
    s: segmenter::SegmenterView<T>,
    pending: Seq<T>,
    frames: Seq<(Seq<T>, bool)>,
    settings: SegmentSettings,
)
    ensures
        after_stream(segmenter::SegmenterView { pending, ..s }, frames, settings) == (
        segmenter::SegmenterView { pending, ..after_stream(s, frames, settings) }),
        stream_segments(segmenter::SegmenterView { pending, ..s }, frames, settings)
            == stream_segments(s, frames, settings),
    decreases frames.len(),
{
    if frames.len() > 0 {
        let (frame, voice) = frames[0];
        let after = after_queued(s, frame, voice, settings);
        assert(after_queued(segmenter::SegmenterView { pending, ..s }, frame, voice, settings)
            =~= (segmenter::SegmenterView { pending, ..after }));
        lemma_pending_is_kept(after, pending, frames.drop_first(), settings);
    }
}

/// Samples that come in are cut into consecutive full frames, and what they
/// give is what these frames give one after the other.
pub proof fn samples_are_cut_into_frames<T>(
    s: segmenter::SegmenterView<T>,
    answers: Seq<bool>,
    settings: SegmentSettings,
)
    requires
        answers.len() >= full_frames(s.pending.len()),
    ensures
        ({
            let frames = frames_of(s.pending, answers);
            let left = drained(s, answers, settings).pending;
            &&& all_full(frames)
            &&& joined_frames(frames) + left == s.pending
            &&& drained(s, answers, settings) == (segmenter::SegmenterView {
                pending: left,
                ..after_stream(s, frames, settings)
            })
            &&& drained_segments(s, answers, settings) == stream_segments(s, frames, settings)
        }),
    decreases s.pending.len(),
{
    let frames = frames_of(s.pending, answers);
    let left = drained(s, answers, settings).pending;
    if s.pending.len() < segmenter::VAD_FRAME_SAMPLES {
        assert(joined_frames(frames) + left =~= s.pending);
    } else {
        let voice = answers[0];
        let rest = without_frame(s);
        let stepped = after_queued(rest, next_frame(s), voice, settings);
        lemma_full_frames(s.pending.len());
        samples_are_cut_into_frames(stepped, answers.drop_first(), settings);
        let later = frames_of(stepped.pending, answers.drop_first());
        assert(frames[0].0 =~= next_frame(s));
        assert forall|i: int| 0 <= i < later.len() implies #[trigger] frames.drop_first()[i]
            == later[i] by {
            assert(frames.drop_first()[i].0 =~= later[i].0);
        }
        assert(frames.drop_first() =~= later);
        assert forall|i: int| 0 <= i < frames.len() implies (#[trigger] frames[i]).0.len()
            == segmenter::VAD_FRAME_SAMPLES by {}
        assert(joined_frames(frames) + left =~= next_frame(s) + (joined_frames(later) + left));
        assert(next_frame(s) + rest.pending =~= s.pending);
        let direct = after_queued(s, next_frame(s), voice, settings);
        assert(stepped =~= (segmenter::SegmenterView { pending: rest.pending, ..direct }));
        lemma_pending_is_kept(direct, rest.pending, later, settings);
    }
}

/// The state of a segmenter after the pieces of a stream of raw PCM, where the
/// bytes `held` wait before them and every full frame is read back after each
/// piece.
pub open spec fn after_pieces(
    s: segmenter::SegmenterView<i16>,
    held: Seq<u8>,
    pieces: Seq<Seq<u8>>,
    answers: Seq<bool>,
    settings: SegmentSettings,
) -> segmenter::SegmenterView<i16>
    decreases pieces.len(),
{
    if pieces.len() == 0 {
        s
    } else {
        let got = with_samples(s, audio::pcm_samples(held + pieces[0]));
        after_pieces(
            drained(got, answers, settings),
            audio::unpaired(held + pieces[0]),
            pieces.drop_first(),
            answers.skip(full_frames(got.pending.len()) as int),
            settings,
        )
    }
}

/// The segments that end in the pieces of a stream of raw PCM.
pub open spec fn segments_of_pieces(
    s: segmenter::SegmenterView<i16>,
    held: Seq<u8>,
    pieces: Seq<Seq<u8>>,
    answers: Seq<bool>,
    settings: SegmentSettings,
) -> Seq<segmenter::SegmentView<i16>>
    decreases pieces.len(),
{
    if pieces.len() == 0 {
        Seq::empty()
    } else {
        let got = with_samples(s, audio::pcm_samples(held + pieces[0]));
        drained_segments(got, answers, settings) + segments_of_pieces(
            drained(got, answers, settings),
            audio::unpaired(held + pieces[0]),
            pieces.drop_first(),
            answers.skip(full_frames(got.pending.len()) as int),
            settings,
        )
    }
}

/// However the bytes of a stream come in, the segments and the state are those
/// of all its samples at once.
pub proof fn stream_is_segmented_whole(
    s: segmenter::SegmenterView<i16>,
    held: Seq<u8>,
    pieces: Seq<Seq<u8>>,
    answers: Seq<bool>,
    settings: SegmentSettings,
)
    requires
        held.len() <= 1,
        s.pending.len() < segmenter::VAD_FRAME_SAMPLES,
        answers.len() >= full_frames(
            s.pending.len() + audio::pcm_samples(held + audio::joined_pieces(pieces)).len(),
        ),
    ensures
        ({
            let whole = with_samples(s, audio::pcm_samples(held + audio::joined_pieces(pieces)));
            &&& after_pieces(s, held, pieces, answers, settings) == drained(
                whole,
                answers,
                settings,
            )
            &&& segments_of_pieces(s, held, pieces, answers, settings) == drained_segments(
                whole,
                answers,
                settings,
            )
        }),
    decreases pieces.len(),
{
    if pieces.len() == 0 {
        assert(s.pending + audio::pcm_samples(held + audio::joined_pieces(pieces)) =~= s.pending);
    } else {
        let rest = pieces.drop_first();
        let a = audio::pcm_samples(held + pieces[0]);
        let waiting = audio::unpaired(held + pieces[0]);
        let b = audio::pcm_samples(waiting + audio::joined_pieces(rest));
        let got = with_samples(s, a);
        let k = full_frames(got.pending.len());
        let first = drained(got, answers, settings);
        audio::cuts_do_not_matter(held, pieces[0], audio::joined_pieces(rest));
        assert(held + audio::joined_pieces(pieces) =~= held + (pieces[0] + audio::joined_pieces(
            rest,
        )));
        lemma_left_over(got, answers, settings);
        assert(k <= full_frames(s.pending.len() + (a + b).len()));
        parts_do_not_matter(s, a, b, answers, settings);
        stream_is_segmented_whole(first, waiting, rest, answers.skip(k as int), settings);
    }
}

/// The number of samples that wait after the full frames were read back.
proof fn lemma_left_over<T>(
    s: segmenter::SegmenterView<T>,
    answers: Seq<bool>,
    settings: SegmentSettings,
)
    ensures
        drained(s, answers, settings).pending.len() == s.pending.len()
            - segmenter::VAD_FRAME_SAMPLES * full_frames(s.pending.len()),
        drained(s, answers, settings).pending.len() < segmenter::VAD_FRAME_SAMPLES,
    decreases s.pending.len(),
{
    if s.pending.len() >= segmenter::VAD_FRAME_SAMPLES {
        lemma_full_frames(s.pending.len());
        lemma_left_over(
            after_queued(without_frame(s), next_frame(s), answers[0], settings),
            answers.drop_first(),
            settings,
        );
    }
}

// ---------------------------------------------------------------------------
// Where segments start and end
// ---------------------------------------------------------------------------

/// The number of frames without voice at the end of the frames.
pub open spec fn quiet_tail<T>(frames: Seq<(Seq<T>, bool)>) -> nat
    decreases frames.len(),
{
    if frames.len() == 0 || frames.last().1 {
        0
    } else {
        1 + quiet_tail(frames.drop_last())
    }
}

proof fn lemma_quiet_tail<T>(frames: Seq<(Seq<T>, bool)>)
    ensures
        quiet_tail(frames) <= frames.len(),
        forall|i: int|
            frames.len() - quiet_tail(frames) <= i < frames.len() ==> !(#[trigger] frames[i]).1,
        quiet_tail(frames) < frames.len() ==> frames[frames.len() - quiet_tail(frames) - 1].1,
    decreases frames.len(),
{
    if frames.len() > 0 && !frames.last().1 {
        let before = frames.drop_last();
        lemma_quiet_tail(before);
        assert forall|i: int|
            frames.len() - quiet_tail(frames) <= i < frames.len() implies !(
        #[trigger] frames[i]).1 by {
            if i < before.len() {
                assert(before[i] == frames[i]);
            }
        }
    }
}

proof fn lemma_stream_in_parts<T>(
    s: segmenter::SegmenterView<T>,
    a: Seq<(Seq<T>, bool)>,
    b: Seq<(Seq<T>, bool)>,
    settings: SegmentSettings,
)
    ensures
        after_stream(s, a + b, settings) == after_stream(
            after_stream(s, a, settings),
            b,
            settings,
        ),
    decreases a.len(),
{
    if a.len() == 0 {
        assert(a + b =~= b);
    } else {
        assert((a + b).drop_first() =~= a.drop_first() + b);
        lemma_stream_in_parts(
            after_queued(s, a[0].0, a[0].1, settings),
            a.drop_first(),
            b,
            settings,
        );
    }
}

proof fn lemma_stream_last<T>(
    s: segmenter::SegmenterView<T>,
    frames: Seq<(Seq<T>, bool)>,
    settings: SegmentSettings,
)
    requires
        frames.len() > 0,
    ensures
        after_stream(s, frames, settings) == after_queued(
            after_stream(s, frames.drop_last(), settings),
            frames.last().0,
            frames.last().1,
            settings,
        ),
{
    let last = seq![frames.last()];
    assert(frames.drop_last() + last =~= frames);
    lemma_stream_in_parts(s, frames.drop_last(), last, settings);
    reveal_with_fuel(after_stream, 2);
    assert(last.drop_first() =~= Seq::empty());
}

/// In a segment the silence is counted from the last frame with voice: it is
/// the number of samples in the frames after that one.
pub proof fn silence_is_counted_since_the_last_voice<T>(
    s: segmenter::SegmenterView<T>,
    frames: Seq<(Seq<T>, bool)>,
    settings: SegmentSettings,
)
    requires
        !s.in_speech,
        fit(s, frames.len()),
    ensures
        after_stream(s, frames, settings).in_speech ==> after_stream(s, frames, settings).silence
            == 512 * quiet_tail(frames),
    decreases frames.len(),
{
    if frames.len() > 0 {
        let before = frames.drop_last();
        silence_is_counted_since_the_last_voice(s, before, settings);
        lemma_stream_last(s, frames, settings);
        lemma_quiet_tail(before);
        assert(512 * quiet_tail(before) + 512 <= 512 * frames.len());
    }
}

/// In a segment a frame ends it exactly where it then has the greatest length,
/// or has the least length and the frames since the last voice hold as much
/// silence as ends a segment. What ends is dropped only where it has the
/// greatest length and not the least one; else it comes back whole, with the
/// number of samples up to its end.
pub proof fn frame_ends_a_segment<T>(
    s: segmenter::SegmenterView<T>,
    frames: Seq<(Seq<T>, bool)>,
    frame: Seq<T>,
    voice: bool,
    settings: SegmentSettings,
)
    requires
        !s.in_speech,
        fit(s, frames.len() + 1),
        after_stream(s, frames, settings).in_speech,
    ensures
        ({
            let before = after_stream(s, frames, settings);
            let outcome = segmenter::frame_outcome(before, frame, voice, settings);
            let len = before.segment.len() + frame.len();
            let silence = 512 * quiet_tail(frames.push((frame, voice)));
            let ends = len >= settings.max_segment_samples || (len >= settings.min_segment_samples
                && silence >= settings.silence_cut_samples);
            &&& !ends ==> outcome is Speaking
            &&& ends && len < settings.min_segment_samples ==> outcome is Dropped
            &&& ends && len >= settings.min_segment_samples ==> outcome
                == segmenter::OutcomeView::Ended(
                segmenter::SegmentView {
                    audio: before.segment + frame,
                    start_sample: before.start,
                    end_sample: (s.seen + 512 * (frames.len() + 1)) as u64,
                },
            )
        }),
{
    let all = frames.push((frame, voice));
    assert(all.drop_last() =~= frames);
    silence_is_counted_since_the_last_voice(s, frames, settings);
    frames_are_counted(s, frames, settings);
    lemma_quiet_tail(frames);
    assert(512 * quiet_tail(frames) + 512 <= 512 * (frames.len() + 1));
}

/// A segment below the greatest length ends only in a pause: all frames that
/// make up the silence that ends a segment are without voice, with no gap
/// between them.
pub proof fn pause_ends_a_segment<T>(
    s: segmenter::SegmenterView<T>,
    frames: Seq<(Seq<T>, bool)>,
    frame: Seq<T>,
    voice: bool,
    settings: SegmentSettings,
)
    requires
        !s.in_speech,
        fit(s, frames.len() + 1),
        after_stream(s, frames, settings).in_speech,
        after_stream(s, frames, settings).segment.len() + frame.len()
            < settings.max_segment_samples,
        !(segmenter::frame_outcome(
            after_stream(s, frames, settings),
            frame,
            voice,
            settings,
        ) is Speaking),
    ensures
        ({
            let all = frames.push((frame, voice));
            &&& after_stream(s, frames, settings).segment.len() + frame.len()
                >= settings.min_segment_samples
            &&& 512 * all.len() > settings.silence_cut_samples
            &&& forall|i: int|
                0 <= i < all.len() && 512 * (all.len() - 1 - i) < settings.silence_cut_samples
                    ==> !(#[trigger] all[i]).1
        }),
{
    let all = frames.push((frame, voice));
    frame_ends_a_segment(s, frames, frame, voice, settings);
    lemma_quiet_tail(all);
    lemma_segment_has_voice(s, frames, settings);
    assert(quiet_tail(all) < all.len()) by {
        let k = choose|k: int| 0 <= k < frames.len() && (#[trigger] frames[k]).1;
        assert(all[k].1);
    }
    assert(512 * quiet_tail(all) < 512 * all.len());
    assert forall|i: int|
        0 <= i < all.len() && 512 * (all.len() - 1 - i)
            < settings.silence_cut_samples implies !(#[trigger] all[i]).1 by {
        if i < all.len() - quiet_tail(all) {
            assert(512 * (all.len() - 1 - i) >= 512 * quiet_tail(all));
        }
    }
}

proof fn lemma_segment_has_voice<T>(
    s: segmenter::SegmenterView<T>,
    frames: Seq<(Seq<T>, bool)>,
    settings: SegmentSettings,
)
    requires
        !s.in_speech,
        after_stream(s, frames, settings).in_speech,
    ensures
        exists|k: int| 0 <= k < frames.len() && (#[trigger] frames[k]).1,
    decreases frames.len(),
{
    if frames.len() > 0 {
        if forall|k: int| 0 <= k < frames.len() ==> !(#[trigger] frames[k]).1 {
            silence_has_no_segments(s, frames, settings);
        }
    }
}

/// Outside of a segment a frame with voice starts one and a frame without does
/// not; neither ends any.
pub proof fn voice_starts_a_segment<T>(
    s: segmenter::SegmenterView<T>,
    frame: Seq<T>,
    voice: bool,
    settings: SegmentSettings,
)
    requires
        !s.in_speech,
    ensures
        voice ==> segmenter::frame_outcome(s, frame, voice, settings) is Started,
        !voice ==> segmenter::frame_outcome(s, frame, voice, settings) is Silent,
        segmenter::after_frame(s, frame, voice, settings).in_speech == voice,
        segmenter::after_frame(s, frame, voice, settings).silence == 0 || !voice,
{
}

/// The last `n` of the samples, or all of them where there are no
/// more.
spec fn tail_of<T>(samples: Seq<T>, n: int) -> Seq<T> {
    samples.skip(if samples.len() > n {
        samples.len() - n
    } else {
        0
    })
}

proof fn lemma_pre_roll<T>(
    s: segmenter::SegmenterView<T>,
    quiet: Seq<(Seq<T>, bool)>,
    settings: SegmentSettings,
)
    requires
        !s.in_speech,
        s.pre_roll.len() == 0,
        forall|i: int| 0 <= i < quiet.len() ==> !(#[trigger] quiet[i]).1,
    ensures
        !after_stream(s, quiet, settings).in_speech,
        after_stream(s, quiet, settings).pre_roll == tail_of(
            joined_frames(quiet),
            settings.pre_roll_len as int,
        ),
    decreases quiet.len(),
{
    let n = settings.pre_roll_len as int;
    if quiet.len() == 0 {
        assert(s.pre_roll =~= tail_of(joined_frames(quiet), n));
    } else {
        let before = quiet.drop_last();
        assert forall|i: int| 0 <= i < before.len() implies !(#[trigger] before[i]).1 by {
            assert(before[i] == quiet[i]);
        }
        lemma_pre_roll(s, before, settings);
        lemma_stream_last(s, quiet, settings);
        lemma_joined_last(quiet);
        assert(!quiet[quiet.len() - 1].1);
        lemma_rolled(joined_frames(before), quiet.last().0, n);
    }
}

proof fn lemma_rolled<T>(before: Seq<T>, frame: Seq<T>, n: int)
    requires
        n >= 0,
    ensures
        segmenter::rolled(tail_of(before, n), frame, n as nat) == tail_of(before + frame, n),
{
    let rolled = segmenter::rolled(tail_of(before, n), frame, n as nat);
    let whole = before + frame;
    if n > 0 && frame.len() > 0 {
        let joined = tail_of(before, n) + frame;
        assert(joined =~= whole.skip(whole.len() - joined.len()));
    }
    assert(rolled =~= tail_of(whole, n));
}

proof fn lemma_joined_last<T>(frames: Seq<(Seq<T>, bool)>)
    requires
        frames.len() > 0,
    ensures
        joined_frames(frames) == joined_frames(frames.drop_last()) + frames.last().0,
    decreases frames.len(),
{
    if frames.len() == 1 {
        assert(frames.drop_first() =~= Seq::empty());
        assert(frames.drop_last() =~= Seq::empty());
        assert(joined_frames(frames) =~= joined_frames(frames.drop_last()) + frames.last().0);
    } else {
        let rest = frames.drop_first();
        lemma_joined_last(rest);
        assert(rest.drop_last() =~= frames.drop_last().drop_first());
        assert(joined_frames(frames) =~= joined_frames(frames.drop_last()) + frames.last().0);
    }
}

/// A segment that starts after frames without voice begins with the last
/// samples up to the end of its first frame, as many as the pre-roll has, and
/// goes on with its first frame and with every frame after that, in order. Its
/// number is that of the first frame less the length of the pre-roll.
pub proof fn segment_holds_pre_roll_and_speech<T>(
    s: segmenter::SegmenterView<T>,
    quiet: Seq<(Seq<T>, bool)>,
    first: Seq<T>,
    rest: Seq<(Seq<T>, bool)>,
    settings: SegmentSettings,
)
    requires
        !s.in_speech,
        s.pre_roll.len() == 0,
        fit(s, quiet.len()),
        forall|i: int| 0 <= i < quiet.len() ==> !(#[trigger] quiet[i]).1,
        goes_on(
            after_stream(s, quiet.push((first, true)), settings),
            rest,
            settings,
        ),
    ensures
        ({
            let heard = joined_frames(quiet) + first;
            let kept: int = if heard.len() > settings.pre_roll_len {
                settings.pre_roll_len as int
            } else {
                heard.len() as int
            };
            let at = s.seen + 512 * quiet.len();
            let t = after_stream(s, quiet.push((first, true)) + rest, settings);
            &&& t.in_speech
            &&& t.segment == heard.skip(heard.len() - kept) + first + joined_frames(rest)
            &&& t.start == (if at >= kept {
                at - kept
            } else {
                0
            })
        }),
{
    let n = settings.pre_roll_len as int;
    let started = quiet.push((first, true));
    lemma_pre_roll(s, quiet, settings);
    frames_are_counted(s, quiet, settings);
    assert(started.drop_last() =~= quiet);
    lemma_stream_last(s, started, settings);
    lemma_rolled(joined_frames(quiet), first, n);
    lemma_stream_in_parts(s, started, rest, settings);
    segment_takes_in_every_frame(after_stream(s, started, settings), rest, settings);
    lemma_goes_on_in_speech(after_stream(s, started, settings), rest, settings);
}

proof fn lemma_goes_on_in_speech<T>(
    s: segmenter::SegmenterView<T>,
    frames: Seq<(Seq<T>, bool)>,
    settings: SegmentSettings,
)
    requires
        s.in_speech,
        goes_on(s, frames, settings),
    ensures
        after_stream(s, frames, settings).in_speech,
    decreases frames.len(),
{
    if frames.len() > 0 {
        lemma_goes_on_in_speech(
            after_queued(s, frames[0].0, frames[0].1, settings),
            frames.drop_first(),
            settings,
        );
    }
}

/// After a segment has ended and was queued, or was dropped, the segmenter waits
/// for speech as at the start: without a segment, a pre-roll or silence.
pub proof fn next_segment_starts_anew<T>(
    s: segmenter::SegmenterView<T>,
    frame: Seq<T>,
    voice: bool,
    settings: SegmentSettings,
)
    requires
        segmenter::has_room(s),
        segmenter::frame_outcome(s, frame, voice, settings) is Ended || segmenter::frame_outcome(
            s,
            frame,
            voice,
            settings,
        ) is Dropped,
    ensures
        ({
            let t = after_queued(s, frame, voice, settings);
            &&& !t.in_speech
            &&& t.segment.len() == 0
            &&& t.pre_roll.len() == 0
            &&& t.silence == 0
            &&& t.seen == s.seen + 512
        }),
{
}

/// A frame changes neither the source, nor the context, nor the samples that
/// wait.
pub proof fn frames_change_only_the_segment<T>(
    s: segmenter::SegmenterView<T>,
    frame: Seq<T>,
    voice: bool,
    settings: SegmentSettings,
)
    ensures
        ({
            let t = segmenter::after_frame(s, frame, voice, settings);
            &&& t.source == s.source
            &&& t.context == s.context
            &&& t.pending == s.pending
        }),
{
}

/// The end of a stream gives back the segment under way where it has samples and
/// is long enough, whole and with its numbers, and nothing else; after that
/// nothing waits.
pub proof fn end_of_stream_gives_the_last_segment<T>(
    s: segmenter::SegmenterView<T>,
    min_segment_samples: usize,
)
    ensures
        segmenter::last_segment(s, min_segment_samples) is Some <==> s.in_speech
            && s.segment.len() > 0 && s.segment.len() >= min_segment_samples,
        segmenter::last_segment(s, min_segment_samples) matches Some(segment) ==> {
            &&& segment.audio == s.segment
            &&& segment.start_sample == s.start
            &&& segment.end_sample == s.seen
        },
        ({
            let t = segmenter::finished(s);
            &&& !t.in_speech
            &&& t.segment.len() == 0
            &&& t.pre_roll.len() == 0
            &&& t.pending.len() == 0
            &&& t.silence == 0
            &&& t.seen == s.seen
            &&& t.source == s.source
            &&& t.context == s.context
        }),
        ({
            let t = segmenter::without_segment(s);
            &&& t.segment.len() == 0
            &&& t.in_speech == s.in_speech
            &&& t.pre_roll == s.pre_roll
            &&& t.pending == s.pending
            &&& t.silence == s.silence
            &&& t.seen == s.seen
        }),
{
}

/// A new segmenter has heard nothing.
pub proof fn new_segmenter_has_heard_nothing<T>(
    source: jobs::SourceView,
    context: Option<json::JsonView>,
)
    ensures
        ({
            let s = segmenter::fresh_segmenter::<T>(source, context);
            &&& s.source == source
            &&& s.context == context
            &&& !s.in_speech
            &&& s.segment.len() == 0
            &&& s.pre_roll.len() == 0
            &&& s.pending.len() == 0
            &&& s.silence == 0
            &&& s.seen == 0
        }),
{
}

/// The job for a segment has its audio and its numbers, the source and the
/// context of the segmenter, and says that the Silero detector cut it at the
/// threshold.
pub proof fn job_carries_the_segment<T>(
    s: segmenter::SegmenterView<T>,
    segment: segmenter::SegmentView<T>,
    threshold: F32Bits,
    id: Seq<char>,
    received_at: Timestamp,
)
    ensures
        ({
            let job = segmenter::job_of(s, segment, threshold, id, received_at);
            &&& job.audio == segment.audio
            &&& job.start_sample == segment.start_sample
            &&& job.end_sample == segment.end_sample
            &&& job.source == s.source
            &&& job.context == s.context
            &&& job.id == id
            &&& job.received_at == received_at
            &&& job.vad.enabled
            &&& job.vad.engine == "silero"@
            &&& job.vad.threshold == Some(threshold)
        }),
{
}

} // verus!
