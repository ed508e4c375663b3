use audio2mqtt::audio::PcmStream;
use audio2mqtt::floats::F32Bits;
use audio2mqtt::jobs::{stream_source, Timestamp};
use audio2mqtt::segmenter::{
    AudioSegment, AudioSegmenter, FrameOutcome, SegmentSettings, VAD_FRAME_SAMPLES,
};

fn f32b(x: f32) -> F32Bits {
    F32Bits { bits: x.to_bits() }
}

fn settings() -> SegmentSettings {
    SegmentSettings {
        vad_threshold: f32b(0.5),
        pre_roll_len: 700,
        max_segment_samples: 4096,
        min_segment_samples: 1500,
        silence_cut_samples: 1024,
    }
}

fn frame(first: i32) -> Vec<i32> {
    (0..VAD_FRAME_SAMPLES as i32).map(|i| first + i).collect()
}

fn segmenter() -> AudioSegmenter<i32> {
    AudioSegmenter::new(stream_source(Some("peer:1")), None)
}

fn ended(outcome: FrameOutcome<i32>) -> AudioSegment<i32> {
    match outcome {
        FrameOutcome::Ended(segment) => segment,
        other => panic!("{other:?}"),
    }
}

#[test]
fn samples_come_back_in_frames() {
    let mut s = segmenter();
    assert!(s.take_frame().is_none());
    s.push_samples(&(0..500).collect());
    assert!(s.take_frame().is_none());
    s.push_samples(&(500..1100).collect());
    assert_eq!(s.take_frame().unwrap(), (0..512).collect::<Vec<i32>>());
    assert_eq!(s.take_frame().unwrap(), (512..1024).collect::<Vec<i32>>());
    assert!(s.take_frame().is_none());
    s.push_samples(&(1100..1536).collect());
    assert_eq!(s.take_frame().unwrap(), (1024..1536).collect::<Vec<i32>>());
}

#[test]
fn silence_gives_nothing() {
    let mut s = segmenter();
    for i in 0..10 {
        let outcome = s.push_frame(&frame(i * 512), f32b(0.49), &settings());
        assert!(matches!(outcome, FrameOutcome::Silent));
        assert!(!s.in_speech());
    }
    assert!(s.finish(0).is_none());
}

#[test]
fn the_threshold_itself_is_speech() {
    let mut s = segmenter();
    assert!(matches!(
        s.push_frame(&frame(0), f32b(0.5), &settings()),
        FrameOutcome::Started
    ));
    let mut s = segmenter();
    assert!(matches!(
        s.push_frame(&frame(0), f32b(f32::NAN), &settings()),
        FrameOutcome::Silent
    ));
}

#[test]
fn a_segment_starts_with_the_pre_roll_and_ends_after_silence() {
    let mut s = segmenter();
    for i in 0..3 {
        s.push_frame(&frame(i * 512), f32b(0.0), &settings());
    }
    assert!(matches!(
        s.push_frame(&frame(3 * 512), f32b(0.9), &settings()),
        FrameOutcome::Started
    ));
    assert!(s.in_speech());
    assert!(matches!(
        s.push_frame(&frame(4 * 512), f32b(0.1), &settings()),
        FrameOutcome::Speaking
    ));
    let segment = ended(s.push_frame(&frame(5 * 512), f32b(0.1), &settings()));
    let mut expected: Vec<i32> = (4 * 512 - 700..4 * 512).collect();
    expected.extend(3 * 512..6 * 512);
    assert_eq!(segment.audio, expected);
    assert_eq!(segment.start_sample, 3 * 512 - 700);
    assert_eq!(segment.end_sample, 6 * 512);
    assert_eq!(segment.audio.len() as u64, segment.end_sample - segment.start_sample);
    s.segment_queued();
    assert!(!s.in_speech());
}

#[test]
fn speech_at_the_start_counts_from_zero() {
    let mut s = segmenter();
    s.push_frame(&frame(0), f32b(1.0), &settings());
    s.push_frame(&frame(512), f32b(0.0), &settings());
    let segment = ended(s.push_frame(&frame(1024), f32b(0.0), &settings()));
    assert_eq!(segment.start_sample, 0);
    assert_eq!(segment.end_sample, 1536);
    assert_eq!(segment.audio.len(), 2048);
}

#[test]
fn a_segment_ends_at_the_greatest_length() {
    let mut s = segmenter();
    s.push_frame(&frame(0), f32b(1.0), &settings());
    for i in 1..6 {
        assert!(matches!(
            s.push_frame(&frame(i * 512), f32b(1.0), &settings()),
            FrameOutcome::Speaking
        ));
    }
    let segment = ended(s.push_frame(&frame(6 * 512), f32b(1.0), &settings()));
    assert_eq!(segment.audio.len(), 4096);
    s.segment_queued();
    assert!(matches!(
        s.push_frame(&frame(7 * 512), f32b(1.0), &settings()),
        FrameOutcome::Started
    ));
    let next = s.finish(1).unwrap();
    assert_eq!(next.start_sample, 6 * 512 + 512 - 512);
    assert!(next.start_sample + 512 >= segment.end_sample);
}

#[test]
fn speech_resets_the_silence() {
    let mut s = segmenter();
    s.push_frame(&frame(0), f32b(1.0), &settings());
    for (i, p) in [0.0f32, 1.0, 0.0].iter().enumerate() {
        let outcome = s.push_frame(&frame(512 * (i as i32 + 1)), f32b(*p), &settings());
        assert!(matches!(outcome, FrameOutcome::Speaking));
    }
    assert!(matches!(
        s.push_frame(&frame(4 * 512), f32b(0.0), &settings()),
        FrameOutcome::Ended(_)
    ));
}

#[test]
fn too_short_segments_are_dropped() {
    let mut short = settings();
    short.pre_roll_len = 0;
    short.max_segment_samples = 1000;
    short.min_segment_samples = 2000;
    let mut s = segmenter();
    assert!(matches!(s.push_frame(&frame(0), f32b(1.0), &short), FrameOutcome::Started));
    assert!(matches!(s.push_frame(&frame(512), f32b(1.0), &short), FrameOutcome::Dropped));
    assert!(!s.in_speech());
    assert!(s.finish(1).is_none());
}

#[test]
fn no_pre_roll_starts_at_the_frame() {
    let mut none = settings();
    none.pre_roll_len = 0;
    let mut s = segmenter();
    s.push_frame(&frame(0), f32b(0.0), &none);
    s.push_frame(&frame(512), f32b(1.0), &none);
    let segment = s.finish(512).unwrap();
    assert_eq!(segment.start_sample, 512);
    assert_eq!(segment.end_sample, 1024);
    assert_eq!(segment.audio, frame(512));
}

#[test]
fn the_end_of_the_stream_flushes_or_drops() {
    let mut s = segmenter();
    s.push_frame(&frame(0), f32b(1.0), &settings());
    assert!(s.finish(1025).is_none());
    assert!(!s.in_speech());

    let mut s = segmenter();
    s.push_samples(&vec![1, 2, 3]);
    s.push_frame(&frame(0), f32b(1.0), &settings());
    let segment = s.finish(1024).unwrap();
    assert_eq!(segment.audio.len(), 1024);
    assert!(s.in_speech());
    s.last_segment_queued();
    assert!(!s.in_speech());
    s.push_samples(&(0..512).collect());
    assert_eq!(s.take_frame().unwrap()[0], 0);
}

#[test]
fn a_last_segment_that_was_not_queued_leaves_the_rest_as_it_was() {
    let mut s = segmenter();
    s.push_samples(&vec![1, 2, 3]);
    s.push_frame(&frame(0), f32b(1.0), &settings());
    assert!(s.finish(1024).is_some());
    assert!(s.in_speech());
    s.push_samples(&(0..509).collect());
    assert_eq!(s.take_frame().unwrap()[..4], [1, 2, 3, 0]);
    assert!(s.finish(0).is_none());
    assert!(!s.in_speech());
}

#[test]
fn a_segment_that_was_not_queued_is_lost() {
    let mut s = segmenter();
    s.push_frame(&frame(0), f32b(1.0), &settings());
    s.push_frame(&frame(512), f32b(0.0), &settings());
    let _ = ended(s.push_frame(&frame(1024), f32b(0.0), &settings()));
    assert!(s.in_speech());
    let outcome = s.push_frame(&frame(1536), f32b(0.0), &settings());
    assert!(matches!(outcome, FrameOutcome::Speaking));
    let rest = s.finish(1).unwrap();
    assert_eq!(rest.audio, frame(1536));
    assert_eq!(rest.start_sample, 0);
}

#[test]
fn jobs_carry_source_and_threshold() {
    let mut s = segmenter();
    s.set_source(stream_source(None));
    s.push_frame(&frame(0), f32b(1.0), &settings());
    let segment = s.finish(1).unwrap();
    let at = Timestamp { seconds: 5, nanos: 6 };
    let job = s.job_with(segment, f32b(0.5), "id".to_string(), at);
    assert_eq!(job.id, "id");
    assert_eq!(job.received_at, at);
    assert_eq!(job.source.source_type, "stream");
    assert_eq!(job.source.src, "unknown");
    assert!(job.context.is_none());
    assert!(job.vad.enabled);
    assert_eq!(job.vad.engine, "silero");
    assert_eq!(job.vad.threshold, Some(f32b(0.5)));
    assert_eq!(job.audio.len(), 1024);
    assert_eq!((job.start_sample, job.end_sample), (0, 512));
}

#[test]
fn jobs_get_new_identifiers_and_the_time() {
    let s = segmenter();
    let segment = || AudioSegment { audio: vec![1], start_sample: 0, end_sample: 1 };
    let a = s.job(segment(), f32b(0.5));
    let b = s.job(segment(), f32b(0.5));
    assert_ne!(a.id, b.id);
    let id = uuid::Uuid::parse_str(&a.id).unwrap();
    assert_eq!(id.get_version_num(), 4);
    assert_eq!(id.to_string(), a.id);
    assert!(a.received_at.seconds > 1_600_000_000);
    assert!(a.received_at.nanos < 1_000_000_000);
    assert!(b.received_at.seconds >= a.received_at.seconds);
}

#[test]
fn a_new_segmenter_has_room() {
    assert!(segmenter().has_room());
}

/// The segments of samples that come in parts of the given size, where whoever
/// speaks is heard in the frames 2 to 5 and 9 to 11.
fn segments_in_parts(samples: &[i16], size: usize) -> Vec<(Vec<i16>, u64, u64)> {
    let mut s: AudioSegmenter<i16> = AudioSegmenter::new(stream_source(None), None);
    let mut out: Vec<(Vec<i16>, u64, u64)> = Vec::new();
    let mut number: usize = 0;
    for part in samples.chunks(size) {
        s.push_samples(&part.to_vec());
        while let Some(frame) = s.take_frame() {
            let voice = (2..6).contains(&number) || (9..12).contains(&number);
            number += 1;
            let probability = f32b(if voice { 0.9 } else { 0.1 });
            if let FrameOutcome::Ended(segment) = s.push_frame(&frame, probability, &settings()) {
                out.push((segment.audio, segment.start_sample, segment.end_sample));
                s.segment_queued();
            }
        }
    }
    if let Some(segment) = s.finish(settings().min_segment_samples) {
        out.push((segment.audio, segment.start_sample, segment.end_sample));
    }
    out
}

#[test]
fn parts_give_the_segments_of_the_whole() {
    let samples: Vec<i16> = (0..13 * 512 + 100).map(|i| i as i16).collect();
    let whole = segments_in_parts(&samples, samples.len());
    assert_eq!(whole.len(), 2);
    for size in [1, 100, 511, 512, 513, 3000] {
        assert_eq!(segments_in_parts(&samples, size), whole, "{size}");
    }
}

#[test]
fn a_stream_in_odd_pieces_gives_the_segments_of_the_whole() {
    let samples: Vec<i16> = (0..13 * 512).map(|i| (i * 5) as i16).collect();
    let bytes: Vec<u8> = samples.iter().flat_map(|s| s.to_le_bytes()).collect();
    let whole = segments_in_parts(&samples, samples.len());
    for size in [1, 3, 1023, 8191] {
        let mut pcm = PcmStream::new();
        let read: Vec<i16> = bytes.chunks(size).flat_map(|piece| pcm.push(piece)).collect();
        assert_eq!(read, samples, "{size}");
        assert_eq!(segments_in_parts(&read, size), whole, "{size}");
    }
}
