use audio2mqtt::floats::{F32Bits, F64Bits};
use audio2mqtt::settings::{
    default_beam_size, default_language, default_log_level, default_n_threads,
    default_teamspeak_nickname, default_teamspeak_reconnect_seconds,
    default_teamspeak_server_address, default_true, env_or, log_filter_from_level,
    normalize_optional_secret, EnvConfig, EnvVar, LoggingConfig, MqttConfig, TeamSpeakConfig,
    TranscriptionConfig,
};

fn f32b(x: f32) -> F32Bits {
    F32Bits { bits: x.to_bits() }
}

fn f64b(x: f64) -> F64Bits {
    F64Bits { bits: x.to_bits() }
}

fn value32(x: F32Bits) -> f32 {
    f32::from_bits(x.bits)
}

fn value64(x: F64Bits) -> f64 {
    f64::from_bits(x.bits)
}

fn env() -> EnvConfig {
    EnvConfig {
        model_path: "/models/m.bin".to_string(),
        model_url: "https://example.com/m.bin".to_string(),
        default_model_id: "m".to_string(),
        language: " en ".to_string(),
        n_threads: 0,
        beam_size: 5,
        vad_threshold: f32b(1.5),
        min_segment_seconds: f64b(0.01),
        max_segment_seconds: f64b(20.0),
        silence_cut_seconds: f64b(0.5),
        pre_roll_seconds: f64b(-1.0),
    }
}

#[test]
fn defaults_are_as_documented() {
    assert_eq!(default_teamspeak_server_address(), "localhost:9987");
    assert_eq!(default_teamspeak_nickname(), "audio2mqtt");
    assert_eq!(default_teamspeak_reconnect_seconds(), 10);
    assert_eq!(default_log_level(), "info");
    assert_eq!(default_language(), "fi");
    assert_eq!(default_n_threads(), 8);
    assert_eq!(default_beam_size(), 3);
    assert!(default_true());
    let logging = LoggingConfig::default();
    assert_eq!(logging.level, "info");
    assert!(!logging.vad_debug);
    let mqtt = MqttConfig::default();
    assert!(!mqtt.enabled);
    assert_eq!(mqtt.host, "host.docker.internal");
    assert_eq!(mqtt.port, 1883);
    assert_eq!(mqtt.topic, "audio2mqtt/transcripts");
    assert_eq!(mqtt.client_id, "audio2mqtt");
    assert_eq!(mqtt.qos, 1);
    assert!(mqtt.username.is_none() && mqtt.password.is_none());
    let teamspeak = TeamSpeakConfig::default();
    assert!(!teamspeak.enabled);
    assert_eq!(teamspeak.server_address, "localhost:9987");
    assert_eq!(teamspeak.nickname, "audio2mqtt");
    assert_eq!(teamspeak.identity, "");
    assert_eq!(teamspeak.channel_id, None);
    assert_eq!(teamspeak.channel_path, "");
    assert_eq!(teamspeak.reconnect_seconds, 10);
}

#[test]
fn log_levels_become_filters() {
    for (level, filter) in [
        ("error", "error,audio2mqtt=error"),
        ("warn", "warn,audio2mqtt=warn"),
        ("warning", "warn,audio2mqtt=warn"),
        (" DEBUG ", "debug,audio2mqtt=debug"),
        ("Trace", "trace,audio2mqtt=trace"),
        ("info", "info,audio2mqtt=info"),
        ("", "info,audio2mqtt=info"),
        ("loud", "info,audio2mqtt=info"),
    ] {
        assert_eq!(log_filter_from_level(level), filter);
    }
}

#[test]
fn environment_has_defaults() {
    for (var, name, value) in [
        (EnvVar::AsrBind, "ASR_BIND", "0.0.0.0:15000"),
        (EnvVar::AdminBind, "ADMIN_BIND", "0.0.0.0:8080"),
        (EnvVar::ModelPath, "MODEL_PATH", "/models/ggml-large-v3.bin"),
        (
            EnvVar::ModelUrl,
            "MODEL_URL",
            "https://huggingface.co/ggerganov/whisper.cpp/resolve/main/ggml-large-v3.bin",
        ),
        (EnvVar::DefaultModelId, "DEFAULT_MODEL_ID", "large-v3"),
        (EnvVar::Language, "LANGUAGE", "fi"),
        (EnvVar::NThreads, "N_THREADS", "8"),
        (EnvVar::BeamSize, "BEAM_SIZE", "3"),
        (EnvVar::VadThreshold, "VAD_THRESHOLD", "0.55"),
        (EnvVar::MinSegmentSeconds, "MIN_SEGMENT_SECONDS", "1.0"),
        (EnvVar::MaxSegmentSeconds, "MAX_SEGMENT_SECONDS", "30.0"),
        (EnvVar::SilenceCutSeconds, "SILENCE_CUT_SECONDS", "1.2"),
        (EnvVar::PreRollSeconds, "PRE_ROLL_SECONDS", "0.4"),
        (EnvVar::ConfigPath, "CONFIG_PATH", "/config/config.json"),
        (EnvVar::OutputJsonl, "OUTPUT_JSONL", "/output/transcripts.jsonl"),
        (EnvVar::WebhookTimeoutMs, "WEBHOOK_TIMEOUT_MS", "3000"),
        (EnvVar::LogLevel, "AUDIO2MQTT_LOG_LEVEL", "info"),
    ] {
        assert_eq!(var.name(), name);
        assert_eq!(var.default_value(), value);
        assert_eq!(env_or(var, None), value);
        assert_eq!(env_or(var, Some(String::new())), "");
        assert_eq!(env_or(var, Some("x".to_string())), "x");
    }
}

#[test]
fn transcription_settings_come_into_range() {
    let t = TranscriptionConfig::from_env(&env());
    assert_eq!(t.language, "en");
    assert_eq!(t.n_threads, 1);
    assert_eq!(t.beam_size, 5);
    assert_eq!(value32(t.vad_threshold), 1.0);
    assert_eq!(value64(t.min_segment_seconds), 0.1);
    assert_eq!(value64(t.max_segment_seconds), 20.0);
    assert_eq!(value64(t.silence_cut_seconds), 0.5);
    assert_eq!(value64(t.pre_roll_seconds), 0.0);
}

#[test]
fn odd_transcription_settings_fall_back() {
    let t = TranscriptionConfig {
        language: "  ".to_string(),
        n_threads: -4,
        beam_size: 0,
        vad_threshold: f32b(f32::NAN),
        min_segment_seconds: f64b(f64::INFINITY),
        max_segment_seconds: f64b(0.5),
        silence_cut_seconds: f64b(f64::NAN),
        pre_roll_seconds: f64b(f64::NEG_INFINITY),
    }
    .normalized();
    assert_eq!(t.language, "fi");
    assert_eq!(t.n_threads, 1);
    assert_eq!(t.beam_size, 1);
    assert_eq!(value32(t.vad_threshold), 0.55);
    assert_eq!(value64(t.min_segment_seconds), 1.0);
    assert_eq!(value64(t.max_segment_seconds), 1.0);
    assert_eq!(value64(t.silence_cut_seconds), 1.2);
    assert_eq!(value64(t.pre_roll_seconds), 0.4);
}

#[test]
fn normalized_transcription_stays_the_same() {
    let once = TranscriptionConfig::from_env(&env()).normalized();
    let twice = once.normalized();
    assert_eq!(format!("{once:?}"), format!("{twice:?}"));
}

#[test]
fn defaults_of_transcription_are_proper() {
    let t = TranscriptionConfig::default();
    assert_eq!(format!("{:?}", t.normalized()), format!("{t:?}"));
    assert_eq!(value32(t.vad_threshold), 0.55);
    assert_eq!(value64(t.max_segment_seconds), 30.0);
}

#[test]
fn blank_secrets_are_none() {
    assert_eq!(normalize_optional_secret(None), None);
    assert_eq!(normalize_optional_secret(Some("")), None);
    assert_eq!(normalize_optional_secret(Some(" \t ")), None);
    assert_eq!(normalize_optional_secret(Some(" s 1 ")), Some("s 1".to_string()));
}

fn odd_teamspeak() -> TeamSpeakConfig {
    TeamSpeakConfig {
        enabled: true,
        server_address: "  ".to_string(),
        server_password: Some("  ".to_string()),
        nickname: " bot ".to_string(),
        identity: String::new(),
        channel_id: Some(7),
        channel_path: " /Lobby/Sub/ ".to_string(),
        channel_password: Some(" pw ".to_string()),
        reconnect_seconds: 0,
    }
}

#[test]
fn teamspeak_settings_come_into_form() {
    let t = odd_teamspeak().normalized_with("fresh");
    assert!(t.enabled);
    assert_eq!(t.server_address, "localhost:9987");
    assert_eq!(t.server_password, None);
    assert_eq!(t.nickname, "bot");
    assert_eq!(t.identity, "fresh");
    assert_eq!(t.channel_id, Some(7));
    assert_eq!(t.channel_path, "Lobby/Sub");
    assert_eq!(t.channel_password, Some("pw".to_string()));
    assert_eq!(t.reconnect_seconds, 1);
    let mut long = odd_teamspeak();
    long.reconnect_seconds = 1000;
    assert_eq!(long.normalized_with("fresh").reconnect_seconds, 300);
}

#[test]
fn a_set_identity_is_kept() {
    let mut t = odd_teamspeak();
    t.identity = " mine ".to_string();
    assert_eq!(t.normalized_with("fresh").identity, "mine");
    assert_eq!(t.normalized().identity, "mine");
    assert_eq!(t.fresh_identity(), "");
}

#[test]
fn a_new_identity_is_made_where_none_is_set() {
    let a = odd_teamspeak().normalized();
    let b = odd_teamspeak().normalized();
    assert!(a.identity.starts_with("{\"counter\":"));
    assert_ne!(a.identity, b.identity);
    assert!(a.same(&a.normalized()));
    assert!(!a.same(&b));
}

#[test]
fn space_inside_of_slashes_goes_in_a_second_round() {
    let mut t = odd_teamspeak();
    t.channel_path = "/ a/".to_string();
    let once = t.normalized_with("fresh");
    assert_eq!(once.channel_path, " a");
    assert_eq!(once.normalized_with("fresh").channel_path, "a");
}
