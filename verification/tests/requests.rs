use audio2mqtt::channels::TeamSpeakChannelInfo;
use audio2mqtt::config::{active_model_profile, normalize_runtime_config_with, RuntimeConfig};
use audio2mqtt::floats::{F32Bits, F64Bits};
use audio2mqtt::huggingface::HuggingFaceSibling;
use audio2mqtt::models::ModelProfile;
use audio2mqtt::requests::{
    activate_model, activation_step, add_huggingface_model, add_huggingface_model_with,
    current_transcription_settings, download_step, requested_profile, set_teamspeak_enabled_with,
    teamspeak_connect, teamspeak_disconnect, teamspeak_select_channel,
    teamspeak_select_channel_with, ActivationStep, DownloadStep, HuggingFaceModelRequest,
};
use audio2mqtt::settings::EnvConfig;

fn env() -> EnvConfig {
    EnvConfig {
        model_path: "/m".to_string(),
        model_url: String::new(),
        default_model_id: "large-v3".to_string(),
        language: "fi".to_string(),
        n_threads: 1,
        beam_size: 1,
        vad_threshold: F32Bits { bits: 0 },
        min_segment_seconds: F64Bits { bits: 0 },
        max_segment_seconds: F64Bits { bits: 0 },
        silence_cut_seconds: F64Bits { bits: 0 },
        pre_roll_seconds: F64Bits { bits: 0 },
    }
}

fn config() -> RuntimeConfig {
    let mut cfg = RuntimeConfig::default();
    normalize_runtime_config_with(&mut cfg, &env(), "fresh");
    cfg
}

fn channel(id: u64, path: &str) -> TeamSpeakChannelInfo {
    TeamSpeakChannelInfo { id, parent_id: None, name: path.to_string(), path: path.to_string() }
}

#[test]
fn the_receiver_is_switched_on_and_off() {
    let mut cfg = config();
    let before = format!("{cfg:?}");
    teamspeak_connect(&mut cfg, &env());
    assert!(cfg.teamspeak.enabled);
    assert_eq!(cfg.teamspeak.identity, "fresh");
    teamspeak_disconnect(&mut cfg, &env());
    assert_eq!(format!("{cfg:?}"), before);

    let mut cfg = RuntimeConfig::default();
    set_teamspeak_enabled_with(&mut cfg, true, &env(), "made");
    assert_eq!(cfg.teamspeak.identity, "made");
    let mut cfg = RuntimeConfig::default();
    teamspeak_connect(&mut cfg, &env());
    assert!(cfg.teamspeak.identity.starts_with('{'));
}

#[test]
fn a_known_channel_is_selected() {
    let known = vec![channel(1, "A"), channel(2, "B/C")];
    let mut cfg = config();
    let chosen = teamspeak_select_channel(&mut cfg, &known, 2, &env()).unwrap();
    assert_eq!(chosen.path, "B/C");
    assert_eq!(cfg.teamspeak.channel_id, Some(2));
    assert_eq!(cfg.teamspeak.channel_path, "B/C");

    let before = format!("{cfg:?}");
    let error = teamspeak_select_channel_with(&mut cfg, &known, 30, &env(), "x").unwrap_err();
    assert_eq!(error, "unknown TeamSpeak channel id 30");
    assert_eq!(format!("{cfg:?}"), before);
}

fn profile(url: &str) -> ModelProfile {
    ModelProfile {
        id: "a".to_string(),
        name: "A".to_string(),
        path: "/models/a.bin".to_string(),
        url: url.to_string(),
        description: String::new(),
        recommended_vram_gb: Some(4),
    }
}

#[test]
fn model_files_are_fetched_when_missing() {
    assert!(matches!(download_step(&profile(""), true), DownloadStep::Present));
    match download_step(&profile(" "), false) {
        DownloadStep::Refuse(message) => assert_eq!(message, "model URL is empty for a"),
        other => panic!("{other:?}"),
    }
    match download_step(&profile("https://x"), false) {
        DownloadStep::Fetch(path) => assert_eq!(path, "/models/a.bin.tmp-download"),
        other => panic!("{other:?}"),
    }
}

#[test]
fn models_are_made_active() {
    let mut cfg = config();
    assert_eq!(
        requested_profile(&cfg, "nope").unwrap_err(),
        "unknown model id: nope"
    );
    let p = requested_profile(&cfg, "medium").unwrap();
    activate_model(&mut cfg, &p);
    assert_eq!(active_model_profile(&cfg, &env()).id, "medium");
    assert_eq!(activation_step(true, false), ActivationStep::Activate);
    assert_eq!(activation_step(true, true), ActivationStep::Activate);
    assert_eq!(activation_step(false, true), ActivationStep::Download);
    assert_eq!(activation_step(false, false), ActivationStep::Refuse);
}

fn request(set_active: bool) -> HuggingFaceModelRequest {
    HuggingFaceModelRequest {
        repo_id: "o/m".to_string(),
        filename: None,
        id: None,
        name: None,
        set_active,
    }
}

fn siblings(names: &[&str]) -> Vec<HuggingFaceSibling> {
    names.iter().map(|n| HuggingFaceSibling { rfilename: n.to_string() }).collect()
}

#[test]
fn models_of_repos_are_added_or_replaced() {
    let mut cfg = config();
    let files = siblings(&["ggml-small.bin", "ggml-large.bin", "x.txt"]);
    let added = add_huggingface_model(&mut cfg, &request(false), &files, &env()).unwrap();
    assert_eq!(added.filename, "ggml-large.bin");
    assert_eq!(added.profile.id, "hf-o-m-ggml-large");
    assert!(!added.replaced);
    assert_eq!(cfg.models.profiles.len(), 5);
    assert_eq!(cfg.models.active_model_id, "large-v3");

    let mut again = request(true);
    again.name = Some("New name".to_string());
    let added = add_huggingface_model_with(&mut cfg, &again, &files, &env(), "x").unwrap();
    assert!(added.replaced);
    assert_eq!(cfg.models.profiles.len(), 5);
    assert_eq!(cfg.models.profiles[4].name, "New name");
    assert_eq!(cfg.models.active_model_id, "hf-o-m-ggml-large");
    assert_eq!(active_model_profile(&cfg, &env()).name, "New name");
}

#[test]
fn repos_without_the_file_add_nothing() {
    let mut cfg = config();
    let before = format!("{cfg:?}");
    let error = add_huggingface_model(&mut cfg, &request(true), &siblings(&["x"]), &env());
    assert_eq!(
        error.unwrap_err().message(),
        "no .bin model file was found in the Hugging Face repo"
    );
    assert_eq!(format!("{cfg:?}"), before);
}

#[test]
fn current_settings_are_proper() {
    let mut cfg = config();
    cfg.transcription.beam_size = 0;
    cfg.logging.vad_debug = true;
    let (t, debug) = current_transcription_settings(&cfg);
    assert_eq!(t.beam_size, 1);
    assert!(debug);
}
