use audio2mqtt::config::{
    active_model_profile, complete_runtime_config, load_or_create_runtime_config,
    normalize_runtime_config, normalize_runtime_config_with, stored_sections, ConfigSections,
    RuntimeConfig,
};
use audio2mqtt::floats::{F32Bits, F64Bits};
use audio2mqtt::models::{ModelConfig, ModelProfile};
use audio2mqtt::settings::{EnvConfig, TeamSpeakConfig};

fn f64b(x: f64) -> F64Bits {
    F64Bits { bits: x.to_bits() }
}

fn env() -> EnvConfig {
    EnvConfig {
        model_path: "/models/env.bin".to_string(),
        model_url: "https://example.com/env.bin".to_string(),
        default_model_id: "env-model".to_string(),
        language: "en".to_string(),
        n_threads: 4,
        beam_size: 2,
        vad_threshold: F32Bits { bits: 0.5f32.to_bits() },
        min_segment_seconds: f64b(1.0),
        max_segment_seconds: f64b(20.0),
        silence_cut_seconds: f64b(1.0),
        pre_roll_seconds: f64b(0.25),
    }
}

fn profile(id: &str) -> ModelProfile {
    ModelProfile {
        id: id.to_string(),
        name: id.to_string(),
        path: format!("/models/{id}.bin"),
        url: String::new(),
        description: String::new(),
        recommended_vram_gb: None,
    }
}

fn ids(cfg: &RuntimeConfig) -> Vec<&str> {
    cfg.models.profiles.iter().map(|p| p.id.as_str()).collect()
}

const ALL: ConfigSections = ConfigSections { models: true, transcription: true, teamspeak: true };
const NONE: ConfigSections =
    ConfigSections { models: false, transcription: false, teamspeak: false };

#[test]
fn a_new_configuration_comes_from_the_environment() {
    let (cfg, changed) = complete_runtime_config(None, &env(), "fresh");
    assert!(changed);
    assert_eq!(cfg.models.active_model_id, "env-model");
    assert_eq!(
        ids(&cfg),
        vec!["env-model", "large-v3", "large-v3-turbo", "medium", "finnish-nlp-large-v3"]
    );
    assert_eq!(cfg.transcription.language, "en");
    assert_eq!(cfg.transcription.n_threads, 4);
    assert_eq!(cfg.teamspeak.identity, "fresh");
    assert_eq!(cfg.logging.level, "info");
    assert_eq!(cfg.mqtt.port, 1883);
    assert!(cfg.webhooks.is_empty());
}

#[test]
fn missing_sections_are_filled() {
    let mut stored = RuntimeConfig::default();
    stored.mqtt.host = "broker".to_string();
    stored.logging.level = "debug".to_string();
    stored.teamspeak.nickname = "ignored".to_string();
    let (cfg, changed) = complete_runtime_config(Some((stored, NONE)), &env(), "fresh");
    assert!(changed);
    assert_eq!(cfg.mqtt.host, "broker");
    assert_eq!(cfg.logging.level, "debug");
    assert_eq!(cfg.models.active_model_id, "env-model");
    assert_eq!(cfg.transcription.language, "en");
    assert_eq!(cfg.teamspeak.nickname, "audio2mqtt");
    assert_eq!(cfg.teamspeak.identity, "fresh");
}

#[test]
fn a_complete_configuration_is_not_stored_again() {
    let (cfg, _) = load_or_create_runtime_config(None, &env());
    let identity = cfg.teamspeak.identity.clone();
    let before = format!("{cfg:?}");
    let (again, changed) = load_or_create_runtime_config(Some((cfg, ALL)), &env());
    assert!(!changed);
    assert_eq!(again.teamspeak.identity, identity);
    assert_eq!(format!("{again:?}"), before);
}

#[test]
fn missing_models_are_repaired() {
    let (mut cfg, _) = complete_runtime_config(None, &env(), "fresh");
    cfg.models = ModelConfig { active_model_id: "gone".to_string(), profiles: vec![profile("a")] };
    let (cfg, changed) = complete_runtime_config(Some((cfg, ALL)), &env(), "x");
    assert!(changed);
    assert_eq!(ids(&cfg), vec!["a", "finnish-nlp-large-v3"]);
    assert_eq!(cfg.models.active_model_id, "a");

    let (mut cfg, _) = complete_runtime_config(None, &env(), "fresh");
    cfg.models = ModelConfig { active_model_id: "gone".to_string(), profiles: vec![] };
    let (cfg, changed) = complete_runtime_config(Some((cfg, ALL)), &env(), "x");
    assert!(changed);
    assert_eq!(cfg.models.active_model_id, "env-model");
    assert_eq!(cfg.models.profiles.len(), 5);
}

#[test]
fn only_the_transcription_settings_are_repaired_in_silence() {
    let (mut cfg, _) = complete_runtime_config(None, &env(), "fresh");
    cfg.transcription.n_threads = 0;
    let (cfg, changed) = complete_runtime_config(Some((cfg, ALL)), &env(), "x");
    assert!(!changed);
    assert_eq!(cfg.transcription.n_threads, 1);

    let (mut cfg, _) = complete_runtime_config(None, &env(), "fresh");
    cfg.teamspeak.nickname = " bot ".to_string();
    let (cfg, changed) = complete_runtime_config(Some((cfg, ALL)), &env(), "x");
    assert!(changed);
    assert_eq!(cfg.teamspeak.nickname, "bot");
}

#[test]
fn normalizing_keeps_what_is_proper() {
    let mut cfg = RuntimeConfig::default();
    cfg.models = ModelConfig { active_model_id: " ".to_string(), profiles: vec![] };
    cfg.teamspeak = TeamSpeakConfig::default();
    normalize_runtime_config_with(&mut cfg, &env(), "fresh");
    assert_eq!(cfg.models.active_model_id, "env-model");
    assert_eq!(cfg.teamspeak.identity, "fresh");
    let once = format!("{cfg:?}");
    normalize_runtime_config_with(&mut cfg, &env(), "other");
    assert_eq!(format!("{cfg:?}"), once);
    normalize_runtime_config(&mut cfg, &env());
    assert_eq!(format!("{cfg:?}"), once);
}

#[test]
fn the_active_profile_is_found_or_replaced() {
    let mut cfg = RuntimeConfig::default();
    cfg.models = ModelConfig {
        active_model_id: "b".to_string(),
        profiles: vec![profile("a"), profile("b")],
    };
    assert_eq!(active_model_profile(&cfg, &env()).id, "b");
    cfg.models.active_model_id = "c".to_string();
    assert_eq!(active_model_profile(&cfg, &env()).id, "a");
    cfg.models.profiles.clear();
    let p = active_model_profile(&cfg, &env());
    assert_eq!(p.id, "env-model");
    assert_eq!(p.name, "env-model");
    assert_eq!(p.path, "/models/env.bin");
    assert_eq!(p.url, "https://example.com/env.bin");
    assert_eq!(p.description, "Fallback model from environment");
}

#[test]
fn sections_are_seen_in_the_stored_text() {
    assert_eq!(stored_sections("{}"), Some(NONE));
    assert_eq!(
        stored_sections("{\"models\": null, \"teamspeak\": {\"transcription\": 1}}"),
        Some(ConfigSections { models: true, transcription: false, teamspeak: true })
    );
    assert_eq!(
        stored_sections("{\"transcription\": {}, \"models\": {}, \"teamspeak\": {}, \"x\": 1}"),
        Some(ALL)
    );
    assert_eq!(stored_sections("[\"models\"]"), Some(NONE));
    assert_eq!(stored_sections("{\"models\""), None);
    assert_eq!(stored_sections(""), None);
}

#[test]
fn defaults_name_the_large_model() {
    let cfg = RuntimeConfig::default();
    assert_eq!(cfg.models.active_model_id, "large-v3");
    assert_eq!(
        ids(&cfg),
        vec!["large-v3", "large-v3-turbo", "medium", "finnish-nlp-large-v3"]
    );
    let from_env = RuntimeConfig::from_env(&env());
    assert_eq!(from_env.models.active_model_id, "env-model");
    assert_eq!(from_env.teamspeak.identity, "");
}
