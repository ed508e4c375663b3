use audio2mqtt::floats::F32Bits;
use audio2mqtt::jobs::stream_source;
use audio2mqtt::segmenter::{FrameOutcome, SegmentSettings};
use audio2mqtt::speakers::SpeakerSegmenters;

#[test]
fn each_speaker_has_a_segmenter() {
    let settings = SegmentSettings {
        vad_threshold: F32Bits { bits: 0.5f32.to_bits() },
        pre_roll_len: 0,
        max_segment_samples: 10_000,
        min_segment_samples: 512,
        silence_cut_samples: 512,
    };
    let loud = F32Bits { bits: 1.0f32.to_bits() };
    let mut speakers: SpeakerSegmenters<i16> = SpeakerSegmenters::new();
    assert!(!speakers.knows(1));

    let mut one = speakers.take(1, stream_source(Some("one")));
    one.push_samples(&vec![1; 512]);
    let frame = one.take_frame().unwrap();
    assert!(matches!(one.push_frame(&frame, loud, &settings), FrameOutcome::Started));
    speakers.put_back(1, one);

    let two = speakers.take(2, stream_source(Some("two")));
    assert!(!two.in_speech());
    speakers.put_back(2, two);
    assert!(speakers.knows(1) && speakers.knows(2));

    let one = speakers.take(1, stream_source(Some("moved")));
    assert!(one.in_speech());
    assert!(!speakers.knows(1));
    speakers.put_back(1, one);

    let mut one = speakers.end(1).unwrap();
    let segment = one.finish(512).unwrap();
    assert_eq!(segment.audio, vec![1; 512]);
    assert_eq!(one.job(segment, loud).source.src, "moved");
    assert!(!speakers.knows(1));
    assert!(speakers.end(1).is_none());
    assert!(!speakers.end(2).unwrap().in_speech());
}
