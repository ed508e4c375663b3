use audio2mqtt::config::RuntimeConfig;
use audio2mqtt::floats::{F32Bits, F64Bits};
use audio2mqtt::jobs::{no_vad, stream_source, Timestamp, TranscribeJob};
use audio2mqtt::json::JsonValue;
use audio2mqtt::models::ModelProfile;
use audio2mqtt::settings::EnvConfig;
use audio2mqtt::transcriber::{
    job_settings, transcript_event, whisper_switches, JobStep, LoadedModel, RawSegment,
};

fn profile(id: &str, path: &str) -> ModelProfile {
    ModelProfile {
        id: id.to_string(),
        name: format!("Model {id}"),
        path: path.to_string(),
        url: String::new(),
        description: String::new(),
        recommended_vram_gb: None,
    }
}

#[test]
fn a_model_is_loaded_once() {
    let mut loaded = LoadedModel::new();
    let p = profile("a", "/a.bin");
    assert!(loaded.must_reload(&p));
    assert!(matches!(loaded.step(&p, true), JobStep::Load));
    match loaded.step(&p, false) {
        JobStep::Refuse(message) => assert_eq!(
            message,
            "active model file is missing: /a.bin. Download it from web admin before using it"
        ),
        other => panic!("{other:?}"),
    }
    loaded.loaded(&p);
    assert!(!loaded.must_reload(&p));
    assert!(matches!(loaded.step(&p, false), JobStep::Transcribe));
}

#[test]
fn another_model_is_loaded_first() {
    let mut loaded = LoadedModel::new();
    loaded.loaded(&profile("a", "/a.bin"));
    assert!(matches!(loaded.step(&profile("a", "/b.bin"), true), JobStep::Load));
    assert!(matches!(loaded.step(&profile("b", "/a.bin"), true), JobStep::Load));
    assert!(matches!(loaded.step(&profile("b", "/b.bin"), false), JobStep::Refuse(_)));
    assert!(matches!(loaded.step(&profile("a", "/a.bin"), true), JobStep::Transcribe));
}

#[test]
fn a_failed_load_leaves_no_model() {
    let mut loaded = LoadedModel::new();
    let p = profile("a", "/a.bin");
    loaded.loaded(&p);
    let message = loaded.load_failed(&profile("b", "/b.bin"), "bad file");
    assert_eq!(message, "failed to load whisper model /b.bin: bad file");
    assert!(matches!(loaded.step(&p, true), JobStep::Load));
}

#[test]
fn job_settings_are_the_current_ones() {
    let env = EnvConfig {
        model_path: "/m".to_string(),
        model_url: String::new(),
        default_model_id: "m".to_string(),
        language: "fi".to_string(),
        n_threads: 1,
        beam_size: 1,
        vad_threshold: F32Bits { bits: 0 },
        min_segment_seconds: F64Bits { bits: 0 },
        max_segment_seconds: F64Bits { bits: 0 },
        silence_cut_seconds: F64Bits { bits: 0 },
        pre_roll_seconds: F64Bits { bits: 0 },
    };
    let mut cfg = RuntimeConfig::default();
    cfg.transcription.language = " sv ".to_string();
    cfg.models.active_model_id = "medium".to_string();
    let (p, t) = job_settings(&cfg, &env);
    assert_eq!(p.path, "/models/ggml-medium.bin");
    assert_eq!(t.language, "sv");
}

#[test]
fn the_recogniser_prints_nothing() {
    let s = whisper_switches();
    assert!(s.no_context);
    assert!(!s.translate && !s.print_progress && !s.print_realtime);
    assert!(!s.print_timestamps && !s.print_special);
}

fn raw(text: &str, start: i64, end: i64) -> RawSegment {
    RawSegment { text: text.to_string(), start_timestamp: start, end_timestamp: end }
}

fn job() -> TranscribeJob<i16> {
    TranscribeJob {
        id: "job-1".to_string(),
        audio: vec![1, 2, 3],
        start_sample: 160,
        end_sample: 320,
        received_at: Timestamp { seconds: 9, nanos: 8 },
        source: stream_source(Some("192.168.1.42:53421")),
        context: Some(JsonValue::Bool(true)),
        vad: no_vad(),
    }
}

#[test]
fn transcripts_join_what_was_said() {
    let segments = vec![raw(" Hello ", 0, 100), raw("  ", 100, 150), raw("world.\n", 150, 200)];
    let event = transcript_event(job(), &profile("a", "/a.bin"), "fi", &segments);
    assert_eq!(event.event_type, "transcript");
    assert_eq!(event.schema_version, "1.0");
    assert_eq!(event.id, "job-1");
    assert_eq!(event.ts, Timestamp { seconds: 9, nanos: 8 });
    assert_eq!(event.source.src, "192.168.1.42:53421");
    assert!(matches!(event.context, Some(JsonValue::Bool(true))));
    assert_eq!(event.model.id, "a");
    assert_eq!(event.model.name, "Model a");
    assert_eq!(event.model.path, "/a.bin");
    assert_eq!((event.audio.start_sample, event.audio.end_sample), (160, 320));
    assert_eq!(event.vad.engine, "none");
    assert_eq!(event.result.language, "fi");
    assert_eq!(event.result.text, "Hello world.");
    assert_eq!(event.result.segments.len(), 2);
    assert_eq!(event.result.segments[1].text, "world.");
    assert_eq!(event.result.segments[1].start_timestamp, 150);
    assert_eq!(event.result.segments[1].end_timestamp, 200);
}

#[test]
fn nothing_said_is_an_empty_transcript() {
    let event = transcript_event(job(), &profile("a", "/a.bin"), "fi", &vec![raw(" ", 0, 1)]);
    assert_eq!(event.result.text, "");
    assert!(event.result.segments.is_empty());
}
