//! The configuration as a whole: what a stored one is completed to, and how it
//! is brought into its proper form.

use vstd::prelude::*;

use crate::models;
use crate::models::{ModelConfig, ModelProfile};
use crate::settings;
use crate::settings::{
    EnvConfig,
    LoggingConfig,
    MqttConfig,
    TeamSpeakConfig,
    TranscriptionConfig,
    WebhookConfig,
};
use crate::text;

verus! {

/// The configuration.
#[derive(Debug)]
pub struct RuntimeConfig {
    pub mqtt: MqttConfig,
    pub webhooks: Vec<WebhookConfig>,
    pub models: ModelConfig,
    pub logging: LoggingConfig,
    pub transcription: TranscriptionConfig,
    pub teamspeak: TeamSpeakConfig,
}

/// The contents of a [`RuntimeConfig`].
#[verifier::ext_equal]
pub struct ConfigView {
    pub mqtt: settings::MqttView,
    pub webhooks: Seq<settings::WebhookView>,
    pub models: models::ModelsView,
    pub logging: settings::LoggingView,
    pub transcription: settings::TranscriptionView,
    pub teamspeak: settings::TeamSpeakView,
}

impl View for RuntimeConfig {
    type V = ConfigView;

    open spec fn view(&self) -> ConfigView {
        ConfigView {
            mqtt: self.mqtt@,
            webhooks: settings::webhook_views(self.webhooks@),
            models: self.models@,
            logging: self.logging@,
            transcription: self.transcription@,
            teamspeak: self.teamspeak@,
        }
    }
}

impl Clone for RuntimeConfig {
    fn clone(&self) -> (r: Self)
        ensures
            r@ == self@,
    {
        RuntimeConfig {
            mqtt: self.mqtt.clone(),
            webhooks: settings::clone_webhooks(&self.webhooks),
            models: self.models.clone(),
            logging: self.logging.clone(),
            transcription: self.transcription.clone(),
            teamspeak: self.teamspeak.clone(),
        }
    }
}

// ---------------------------------------------------------------------------
// New configurations
// ---------------------------------------------------------------------------

/// The models of a new configuration: the default model is the one in use.
pub open spec fn new_models(id: Seq<char>, path: Seq<char>, url: Seq<char>) -> models::ModelsView {
    models::ModelsView { active_model_id: id, profiles: models::default_profiles(id, path, url) }
}

/// The models that the environment sets.
pub open spec fn env_models(env: settings::EnvView) -> models::ModelsView {
    new_models(env.default_model_id, env.model_path, env.model_url)
}

/// The models of a configuration without an environment.
pub open spec fn default_models() -> models::ModelsView {
    new_models(
        "large-v3"@,
        "/models/ggml-large-v3.bin"@,
        "https://huggingface.co/ggerganov/whisper.cpp/resolve/main/ggml-large-v3.bin"@,
    )
}

impl Default for ModelConfig {
    fn default() -> (r: Self)
        ensures
            r@ == default_models(),
    {
        ModelConfig {
            active_model_id: "large-v3".to_owned(),
            profiles: models::default_model_profiles(
                "large-v3",
                "/models/ggml-large-v3.bin",
                "https://huggingface.co/ggerganov/whisper.cpp/resolve/main/ggml-large-v3.bin",
            ),
        }
    }
}

fn models_from_env(env: &EnvConfig) -> (r: ModelConfig)
    ensures
        r@ == env_models(env@),
{
    ModelConfig {
        active_model_id: env.default_model_id.clone(),
        profiles: models::default_model_profiles(
            env.default_model_id.as_str(),
            env.model_path.as_str(),
            env.model_url.as_str(),
        ),
    }
}

/// A configuration without an environment.
pub open spec fn default_config() -> ConfigView {
    ConfigView {
        mqtt: settings::default_mqtt(),
        webhooks: Seq::empty(),
        models: default_models(),
        logging: settings::default_logging(),
        transcription: settings::default_transcription(),
        teamspeak: settings::default_teamspeak(),
    }
}

/// A new configuration with what the environment sets.
pub open spec fn env_config(env: settings::EnvView) -> ConfigView {
    ConfigView {
        mqtt: settings::default_mqtt(),
        webhooks: Seq::empty(),
        models: env_models(env),
        logging: settings::default_logging(),
        transcription: settings::transcription_normalized(env.transcription),
        teamspeak: settings::default_teamspeak(),
    }
}

impl Default for RuntimeConfig {
    fn default() -> (r: Self)
        ensures
            r@ == default_config(),
    {
        let webhooks: Vec<WebhookConfig> = Vec::new();
        assert(settings::webhook_views(webhooks@) =~= Seq::empty());
        RuntimeConfig {
            mqtt: MqttConfig::default(),
            webhooks,
            models: ModelConfig::default(),
            logging: LoggingConfig::default(),
            transcription: TranscriptionConfig::default(),
            teamspeak: TeamSpeakConfig::default(),
        }
    }
}

impl RuntimeConfig {
    /// A new configuration with what the environment sets.
    pub fn from_env(env: &EnvConfig) -> (r: Self)
        ensures
            r@ == env_config(env@),
    {
        let webhooks: Vec<WebhookConfig> = Vec::new();
        assert(settings::webhook_views(webhooks@) =~= Seq::empty());
        RuntimeConfig {
            mqtt: MqttConfig::default(),
            webhooks,
            models: models_from_env(env),
            logging: LoggingConfig::default(),
            transcription: TranscriptionConfig::from_env(env),
            teamspeak: TeamSpeakConfig::default(),
        }
    }
}

// ---------------------------------------------------------------------------
// The active model
// ---------------------------------------------------------------------------

/// Whether the active model is missing: none is named, or no profile has
/// that name.
pub open spec fn active_is_missing(m: models::ModelsView) -> bool {
    text::trim(m.active_model_id).len() == 0 || !models::has_profile(
        m.profiles,
        m.active_model_id,
    )
}

/// The models with the first profile as the active one where the active one
/// is missing; `otherwise` where there is no profile.
pub open spec fn with_active(m: models::ModelsView, otherwise: Seq<char>) -> models::ModelsView {
    if active_is_missing(m) {
        models::ModelsView {
            active_model_id: if m.profiles.len() > 0 {
                m.profiles[0].id
            } else {
                otherwise
            },
            profiles: m.profiles,
        }
    } else {
        m
    }
}

/// Makes the first profile the active one where the active one is missing;
/// the result says whether it was.
fn repair_active_model(m: &mut ModelConfig, otherwise: &str) -> (changed: bool)
    ensures
        final(m)@ == with_active(old(m)@, otherwise@),
        changed == active_is_missing(old(m)@),
{
    if text::is_blank(m.active_model_id.as_str()) || models::position_of_profile(
        &m.profiles,
        m.active_model_id.as_str(),
    ).is_none() {
        if m.profiles.len() > 0 {
            m.active_model_id = m.profiles[0].id.clone();
        } else {
            m.active_model_id = otherwise.to_owned();
        }
        true
    } else {
        false
    }
}

/// The profile in use: that of the active model, else the first one, else
/// one made from the environment.
pub open spec fn active_profile(
    m: models::ModelsView,
    env: settings::EnvView,
) -> models::ProfileView {
    match models::find_profile(m.profiles, m.active_model_id) {
        Some(p) => p,
        None => if m.profiles.len() > 0 {
            m.profiles[0]
        } else {
            models::ProfileView {
                id: env.default_model_id,
                name: env.default_model_id,
                path: env.model_path,
                url: env.model_url,
                description: "Fallback model from environment"@,
                recommended_vram_gb: None,
            }
        },
    }
}

/// The profile in use.
pub fn active_model_profile(cfg: &RuntimeConfig, env: &EnvConfig) -> (r: ModelProfile)
    ensures
        r@ == active_profile(cfg@.models, env@),
{
    match models::find_profile_by_id(&cfg.models.profiles, cfg.models.active_model_id.as_str()) {
        Some(p) => p,
        None => if cfg.models.profiles.len() > 0 {
            cfg.models.profiles[0].clone()
        } else {
            ModelProfile {
                id: env.default_model_id.clone(),
                name: env.default_model_id.clone(),
                path: env.model_path.clone(),
                url: env.model_url.clone(),
                description: "Fallback model from environment".to_owned(),
                recommended_vram_gb: None,
            }
        },
    }
}

// ---------------------------------------------------------------------------
// The proper form
// ---------------------------------------------------------------------------

/// The models in their proper form: there are profiles, the Finnish one
/// among them, and the active one is one of them.
pub open spec fn models_normalized(
    m: models::ModelsView,
    env: settings::EnvView,
) -> models::ModelsView {
    let profiles = if m.profiles.len() == 0 {
        models::default_profiles(env.default_model_id, env.model_path, env.model_url)
    } else {
        m.profiles
    };
    with_active(
        models::ModelsView {
            active_model_id: m.active_model_id,
            profiles: models::with_finnish(profiles),
        },
        env.default_model_id,
    )
}

/// The configuration in its proper form; `fresh` is the TeamSpeak identity
/// where none is set.
pub open spec fn config_normalized(
    cfg: ConfigView,
    env: settings::EnvView,
    fresh: Seq<char>,
) -> ConfigView {
    ConfigView {
        mqtt: cfg.mqtt,
        webhooks: cfg.webhooks,
        models: models_normalized(cfg.models, env),
        logging: cfg.logging,
        transcription: settings::transcription_normalized(cfg.transcription),
        teamspeak: settings::teamspeak_normalized(cfg.teamspeak, fresh),
    }
}

/// Brings the configuration into its proper form, with `fresh` as the
/// TeamSpeak identity where none is set.
pub fn normalize_runtime_config_with(cfg: &mut RuntimeConfig, env: &EnvConfig, fresh: &str)
    ensures
        final(cfg)@ == config_normalized(old(cfg)@, env@, fresh@),
{
    cfg.transcription = cfg.transcription.normalized();
    cfg.teamspeak = cfg.teamspeak.normalized_with(fresh);
    if cfg.models.profiles.len() == 0 {
        cfg.models.profiles = models::default_model_profiles(
            env.default_model_id.as_str(),
            env.model_path.as_str(),
            env.model_url.as_str(),
        );
    }
    let _ = models::ensure_finnish_nlp_profile(&mut cfg.models.profiles);
    let _ = repair_active_model(&mut cfg.models, env.default_model_id.as_str());
}

/// Brings the configuration into its proper form, with a new TeamSpeak
/// identity where none is set.
pub fn normalize_runtime_config(cfg: &mut RuntimeConfig, env: &EnvConfig)
    ensures
        final(cfg)@ == config_normalized(old(cfg)@, env@, final(cfg)@.teamspeak.identity),
        settings::is_identity_for(old(cfg)@.teamspeak, final(cfg)@.teamspeak.identity),
{
    let fresh = cfg.teamspeak.fresh_identity();
    normalize_runtime_config_with(cfg, env, fresh.as_str());
}

// ---------------------------------------------------------------------------
// Stored configurations
// ---------------------------------------------------------------------------

/// Which sections a stored configuration has.
#[derive(Clone, Copy, Debug, PartialEq, Eq, Structural)]
pub struct ConfigSections {
    pub models: bool,
    pub transcription: bool,
    pub teamspeak: bool,
}

/// Which sections a JSON object with the given keys has.
pub open spec fn sections_among(keys: Seq<Seq<char>>) -> ConfigSections {
    ConfigSections {
        models: keys.contains("models"@),
        transcription: keys.contains("transcription"@),
        teamspeak: keys.contains("teamspeak"@),
    }
}

fn has_key(keys: &Vec<String>, key: &str) -> (b: bool)
    ensures
        b == text::views(keys@).contains(key@),
{
    let ghost views = text::views(keys@);
    for i in 0..keys.len()
        invariant
            views == text::views(keys@),
            forall|j: int| 0 <= j < i ==> (#[trigger] views[j]) != key@,
    {
        if text::str_eq(keys[i].as_str(), key) {
            assert(views[i as int] == key@);
            return true;
        }
        assert(views[i as int] == keys@[i as int]@);
    }
    false
}

/// Which sections a JSON object with the given keys has.
pub fn sections_of_keys(keys: &Vec<String>) -> (r: ConfigSections)
    ensures
        r == sections_among(text::views(keys@)),
{
    ConfigSections {
        models: has_key(keys, "models"),
        transcription: has_key(keys, "transcription"),
        teamspeak: has_key(keys, "teamspeak"),
    }
}

/// The keys of the JSON object that `serde_json::from_str` reads from a text;
/// no keys where it reads another value, and nothing where it reads none.
pub uninterp spec fn json_keys(text: Seq<char>) -> Option<Seq<Seq<char>>>;

/// `serde_json::from_str` for a `serde_json::Value`: reads a JSON value and
/// hands out the keys of an object. What it reads depends on the text alone
/// and is only named.
#[verifier::external_body]
fn read_json_keys(text: &str) -> (r: Result<Vec<String>, serde_json::Error>)
    ensures
        json_keys(text@) == (match r {
            Ok(keys) => Some(text::views(keys@)),
            Err(_) => None,
        }),
{
    let value = serde_json::from_str::<serde_json::Value>(text)?;
    Ok(match value {
        serde_json::Value::Object(map) => map.keys().cloned().collect(),
        _ => Vec::new(),
    })
}

/// Which sections the stored text of a configuration has; nothing where it is
/// no JSON.
pub fn stored_sections(raw: &str) -> (r: Option<ConfigSections>)
    ensures
        r == (match json_keys(raw@) {
            Some(keys) => Some(sections_among(keys)),
            None => None,
        }),
{
    match read_json_keys(raw) {
        Ok(keys) => Some(sections_of_keys(&keys)),
        Err(_) => None,
    }
}

/// A stored configuration with its missing sections filled from the
/// environment and the defaults.
pub open spec fn filled(
    cfg: ConfigView,
    sections: ConfigSections,
    env: settings::EnvView,
) -> ConfigView {
    ConfigView {
        mqtt: cfg.mqtt,
        webhooks: cfg.webhooks,
        models: if sections.models {
            cfg.models
        } else {
            env_models(env)
        },
        logging: cfg.logging,
        transcription: if sections.transcription {
            cfg.transcription
        } else {
            settings::transcription_normalized(env.transcription)
        },
        teamspeak: if sections.teamspeak {
            cfg.teamspeak
        } else {
            settings::default_teamspeak()
        },
    }
}

/// What a start begins with: the stored configuration with its missing
/// sections filled, or a new one.
pub open spec fn start_config(
    stored: Option<(ConfigView, ConfigSections)>,
    env: settings::EnvView,
) -> ConfigView {
    match stored {
        Some((cfg, sections)) => filled(cfg, sections, env),
        None => env_config(env),
    }
}

/// The models that a start begins with: those of the environment where the
/// configuration has no profile.
pub open spec fn start_models(m: models::ModelsView, env: settings::EnvView) -> models::ModelsView {
    if m.profiles.len() == 0 {
        env_models(env)
    } else {
        m
    }
}

/// The configuration that a start ends with; `fresh` is the TeamSpeak
/// identity where none is set.
pub open spec fn loaded_config(
    stored: Option<(ConfigView, ConfigSections)>,
    env: settings::EnvView,
    fresh: Seq<char>,
) -> ConfigView {
    let cfg = start_config(stored, env);
    let m = start_models(cfg.models, env);
    ConfigView {
        mqtt: cfg.mqtt,
        webhooks: cfg.webhooks,
        models: with_active(
            models::ModelsView {
                active_model_id: m.active_model_id,
                profiles: models::with_finnish(m.profiles),
            },
            env.default_model_id,
        ),
        logging: cfg.logging,
        transcription: settings::transcription_normalized(cfg.transcription),
        teamspeak: settings::teamspeak_normalized(cfg.teamspeak, fresh),
    }
}

/// Whether the configuration that a start ends with is to be stored: it is
/// new, or its sections, models or TeamSpeak settings were completed.
pub open spec fn must_store(
    stored: Option<(ConfigView, ConfigSections)>,
    env: settings::EnvView,
    fresh: Seq<char>,
) -> bool {
    let cfg = start_config(stored, env);
    let m = start_models(cfg.models, env);
    ||| stored is None
    ||| !(stored->Some_0.1.models && stored->Some_0.1.transcription
        && stored->Some_0.1.teamspeak)
    ||| cfg.models.profiles.len() == 0
    ||| settings::teamspeak_normalized(cfg.teamspeak, fresh) != cfg.teamspeak
    ||| !models::has_profile(m.profiles, models::finnish_profile().id)
    ||| active_is_missing(
        models::ModelsView {
            active_model_id: m.active_model_id,
            profiles: models::with_finnish(m.profiles),
        },
    )
}

/// The contents of a stored configuration and its sections.
pub open spec fn stored_view(stored: Option<(RuntimeConfig, ConfigSections)>) -> Option<
    (ConfigView, ConfigSections),
> {
    match stored {
        Some((cfg, sections)) => Some((cfg@, sections)),
        None => None,
    }
}

fn fill_sections(cfg: RuntimeConfig, sections: ConfigSections, env: &EnvConfig) -> (r:
    RuntimeConfig)
    ensures
        r@ == filled(cfg@, sections, env@),
{
    let mut cfg = cfg;
    if !sections.models {
        cfg.models = models_from_env(env);
    }
    if !sections.transcription {
        cfg.transcription = TranscriptionConfig::from_env(env);
    }
    if !sections.teamspeak {
        cfg.teamspeak = TeamSpeakConfig::default();
    }
    cfg
}

/// The configuration that a start begins with, before the TeamSpeak identity
/// is known.
fn begin_start(stored: Option<(RuntimeConfig, ConfigSections)>, env: &EnvConfig) -> (r: (
    RuntimeConfig,
    bool,
))
    ensures
        r.0@ == start_config(stored_view(stored), env@),
        r.1 == (stored is None || !(stored->Some_0.1.models && stored->Some_0.1.transcription
            && stored->Some_0.1.teamspeak)),
{
    match stored {
        Some((cfg, sections)) => {
            let changed = !(sections.models && sections.transcription && sections.teamspeak);
            (fill_sections(cfg, sections, env), changed)
        },
        None => (RuntimeConfig::from_env(env), true),
    }
}

fn finish_start(begun: (RuntimeConfig, bool), env: &EnvConfig, fresh: &str) -> (r: (
    RuntimeConfig,
    bool,
))
    ensures
        forall|stored: Option<(ConfigView, ConfigSections)>|
            #![trigger start_config(stored, env@)]
            begun.0@ == start_config(stored, env@) && begun.1 == (stored is None || !(
            stored->Some_0.1.models && stored->Some_0.1.transcription
                && stored->Some_0.1.teamspeak)) ==> r.0@ == loaded_config(stored, env@, fresh@)
                && r.1 == must_store(stored, env@, fresh@),
{
    let (mut cfg, mut changed) = begun;
    if cfg.models.profiles.len() == 0 {
        cfg.models = models_from_env(env);
        changed = true;
    }
    cfg.transcription = cfg.transcription.normalized();
    let normalized_teamspeak = cfg.teamspeak.normalized_with(fresh);
    if !cfg.teamspeak.same(&normalized_teamspeak) {
        changed = true;
        cfg.teamspeak = normalized_teamspeak;
    }
    let added = models::ensure_finnish_nlp_profile(&mut cfg.models.profiles);
    let repaired = repair_active_model(&mut cfg.models, env.default_model_id.as_str());
    (cfg, changed || added || repaired)
}

/// Completes a stored configuration, or makes a new one where none is
/// stored, with `fresh` as the TeamSpeak identity where none is set; the
/// second result says whether the configuration is to be stored.
pub fn complete_runtime_config(
    stored: Option<(RuntimeConfig, ConfigSections)>,
    env: &EnvConfig,
    fresh: &str,
) -> (r: (RuntimeConfig, bool))
    ensures
        r.0@ == loaded_config(stored_view(stored), env@, fresh@),
        r.1 == must_store(stored_view(stored), env@, fresh@),
{
    let ghost view = stored_view(stored);
    let begun = begin_start(stored, env);
    assert(begun.0@ == start_config(view, env@));
    finish_start(begun, env, fresh)
}

/// Completes a stored configuration, or makes a new one where none is
/// stored, with a new TeamSpeak identity where none is set; the second
/// result says whether the configuration is to be stored.
pub fn load_or_create_runtime_config(
    stored: Option<(RuntimeConfig, ConfigSections)>,
    env: &EnvConfig,
) -> (r: (RuntimeConfig, bool))
    ensures
        r.0@ == loaded_config(stored_view(stored), env@, r.0@.teamspeak.identity),
        r.1 == must_store(stored_view(stored), env@, r.0@.teamspeak.identity),
        settings::is_identity_for(
            start_config(stored_view(stored), env@).teamspeak,
            r.0@.teamspeak.identity,
        ),
{
    let ghost view = stored_view(stored);
    let begun = begin_start(stored, env);
    let fresh = begun.0.teamspeak.fresh_identity();
    assert(begun.0@ == start_config(view, env@));
    finish_start(begun, env, fresh.as_str())
}

} // verus!
