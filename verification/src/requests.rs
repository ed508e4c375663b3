//! What requests of the web interface do to the configuration.

use vstd::prelude::*;

use crate::channels;
use crate::channels::TeamSpeakChannelInfo;
use crate::config;
use crate::config::RuntimeConfig;
use crate::huggingface;
use crate::huggingface::HuggingFaceSibling;
use crate::huggingface::SelectError;
use crate::models;
use crate::models::ModelProfile;
use crate::settings;
use crate::settings::EnvConfig;
use crate::settings::TranscriptionConfig;
use crate::text;

verus! {

/// The settings for cutting audio into segments, and whether each frame is
/// logged.
pub fn current_transcription_settings(cfg: &RuntimeConfig) -> (r: (TranscriptionConfig, bool))
    ensures
        r.0@ == settings::transcription_normalized(cfg@.transcription),
        r.1 == cfg@.logging.vad_debug,
{
    (cfg.transcription.normalized(), cfg.logging.vad_debug)
}

// ---------------------------------------------------------------------------
// TeamSpeak
// ---------------------------------------------------------------------------

/// The configuration with the receiver enabled or not.
pub open spec fn with_receiver(cfg: config::ConfigView, enabled: bool) -> config::ConfigView {
    config::ConfigView {
        teamspeak: settings::TeamSpeakView { enabled, ..cfg.teamspeak },
        ..cfg
    }
}

/// Enables or disables the receiver, with `fresh` as the identity where none is
/// set.
pub fn set_teamspeak_enabled_with(
    cfg: &mut RuntimeConfig,
    enabled: bool,
    env: &EnvConfig,
    fresh: &str,
)
    ensures
        final(cfg)@ == config::config_normalized(with_receiver(old(cfg)@, enabled), env@, fresh@),
{
    cfg.teamspeak.enabled = enabled;
    config::normalize_runtime_config_with(cfg, env, fresh);
}

/// Enables the receiver, with a new identity where none is set.
pub fn teamspeak_connect(cfg: &mut RuntimeConfig, env: &EnvConfig)
    ensures
        final(cfg)@ == config::config_normalized(
            with_receiver(old(cfg)@, true),
            env@,
            final(cfg)@.teamspeak.identity,
        ),
        settings::is_identity_for(old(cfg)@.teamspeak, final(cfg)@.teamspeak.identity),
{
    let fresh = cfg.teamspeak.fresh_identity();
    set_teamspeak_enabled_with(cfg, true, env, fresh.as_str());
}

/// Disables the receiver, with a new identity where none is set.
pub fn teamspeak_disconnect(cfg: &mut RuntimeConfig, env: &EnvConfig)
    ensures
        final(cfg)@ == config::config_normalized(
            with_receiver(old(cfg)@, false),
            env@,
            final(cfg)@.teamspeak.identity,
        ),
        settings::is_identity_for(old(cfg)@.teamspeak, final(cfg)@.teamspeak.identity),
{
    let fresh = cfg.teamspeak.fresh_identity();
    set_teamspeak_enabled_with(cfg, false, env, fresh.as_str());
}

/// The first channel with the given identifier.
pub open spec fn first_channel(list: Seq<channels::ChannelView>, id: u64) -> Option<
    channels::ChannelView,
>
    decreases list.len(),
{
    if list.len() == 0 {
        None
    } else if list[0].id == id {
        Some(list[0])
    } else {
        first_channel(list.drop_first(), id)
    }
}

/// The first channel with the given identifier.
pub fn find_first_channel(list: &Vec<TeamSpeakChannelInfo>, id: u64) -> (r: Option<
    TeamSpeakChannelInfo,
>)
    ensures
        first_channel(channels::channel_views(list@), id) == (match r {
            Some(c) => Some(c@),
            None => None,
        }),
{
    let ghost views = channels::channel_views(list@);
    let len: usize = list.len();
    let mut at: usize = 0;
    assert(views.skip(0) =~= views);
    while at < len
        invariant
            len == list@.len(),
            at <= len,
            views == channels::channel_views(list@),
            first_channel(views, id) == first_channel(views.skip(at as int), id),
        decreases len - at,
    {
        assert(views.skip(at as int)[0] == list@[at as int]@);
        assert(views.skip(at as int).drop_first() =~= views.skip(at + 1));
        if list[at].id == id {
            return Some(list[at].clone());
        }
        at = at + 1;
    }
    None
}

/// The configuration with a channel for the receiver.
pub open spec fn with_channel(
    cfg: config::ConfigView,
    channel: channels::ChannelView,
) -> config::ConfigView {
    config::ConfigView {
        teamspeak: settings::TeamSpeakView {
            channel_id: Some(channel.id),
            channel_path: channel.path,
            ..cfg.teamspeak
        },
        ..cfg
    }
}

/// Puts the known channel with the given identifier into the configuration, with
/// `fresh` as the identity where none is set. What comes back is the channel, or
/// the message that there is none.
pub fn teamspeak_select_channel_with(
    cfg: &mut RuntimeConfig,
    known: &Vec<TeamSpeakChannelInfo>,
    channel_id: u64,
    env: &EnvConfig,
    fresh: &str,
) -> (r: Result<TeamSpeakChannelInfo, String>)
    ensures
        match r {
            Ok(channel) => {
                &&& first_channel(channels::channel_views(known@), channel_id) == Some(channel@)
                &&& final(cfg)@ == config::config_normalized(
                    with_channel(old(cfg)@, channel@),
                    env@,
                    fresh@,
                )
            },
            Err(message) => {
                &&& first_channel(channels::channel_views(known@), channel_id) is None
                &&& message@ == "unknown TeamSpeak channel id "@ + text::decimal(channel_id as nat)
                &&& final(cfg)@ == old(cfg)@
            },
        },
{
    match find_first_channel(known, channel_id) {
        Some(channel) => {
            cfg.teamspeak.channel_id = Some(channel.id);
            cfg.teamspeak.channel_path = channel.path.clone();
            config::normalize_runtime_config_with(cfg, env, fresh);
            Ok(channel)
        },
        None => Err(
            text::concat2(
                "unknown TeamSpeak channel id ",
                text::decimal_string(channel_id).as_str(),
            ),
        ),
    }
}

/// Puts the known channel with the given identifier into the configuration, with
/// a new identity where none is set. What comes back is the channel, or the
/// message that there is none.
pub fn teamspeak_select_channel(
    cfg: &mut RuntimeConfig,
    known: &Vec<TeamSpeakChannelInfo>,
    channel_id: u64,
    env: &EnvConfig,
) -> (r: Result<TeamSpeakChannelInfo, String>)
    ensures
        match r {
            Ok(channel) => {
                &&& first_channel(channels::channel_views(known@), channel_id) == Some(channel@)
                &&& final(cfg)@ == config::config_normalized(
                    with_channel(old(cfg)@, channel@),
                    env@,
                    final(cfg)@.teamspeak.identity,
                )
                &&& settings::is_identity_for(
                    old(cfg)@.teamspeak,
                    final(cfg)@.teamspeak.identity,
                )
            },
            Err(message) => {
                &&& first_channel(channels::channel_views(known@), channel_id) is None
                &&& message@ == "unknown TeamSpeak channel id "@ + text::decimal(channel_id as nat)
                &&& final(cfg)@ == old(cfg)@
            },
        },
{
    let fresh = cfg.teamspeak.fresh_identity();
    teamspeak_select_channel_with(cfg, known, channel_id, env, fresh.as_str())
}

// ---------------------------------------------------------------------------
// Model files
// ---------------------------------------------------------------------------

/// How to get the file of a model.
#[derive(Debug)]
pub enum DownloadStep {
    /// It is there.
    Present,
    /// It cannot be had; the message says why.
    Refuse(String),
    /// Fetch it from the address of the profile into this file first.
    Fetch(String),
}

/// The contents of a [`DownloadStep`].
#[verifier::ext_equal]
pub enum DownloadView {
    Present,
    Refuse(Seq<char>),
    Fetch(Seq<char>),
}

impl View for DownloadStep {
    type V = DownloadView;

    open spec fn view(&self) -> DownloadView {
        match self {
            DownloadStep::Present => DownloadView::Present,
            DownloadStep::Refuse(message) => DownloadView::Refuse(message@),
            DownloadStep::Fetch(path) => DownloadView::Fetch(path@),
        }
    }
}

/// How to get the file of a model, which is there or not.
pub open spec fn download_of(p: models::ProfileView, exists: bool) -> DownloadView {
    if exists {
        DownloadView::Present
    } else if text::trim(p.url).len() == 0 {
        DownloadView::Refuse("model URL is empty for "@ + p.id)
    } else {
        DownloadView::Fetch(p.path + ".tmp-download"@)
    }
}

/// How to get the file of a model, which is there or not.
pub fn download_step(p: &ModelProfile, exists: bool) -> (r: DownloadStep)
    ensures
        r@ == download_of(p@, exists),
{
    if exists {
        return DownloadStep::Present;
    }
    if text::is_blank(p.url.as_str()) {
        return DownloadStep::Refuse(text::concat2("model URL is empty for ", p.id.as_str()));
    }
    DownloadStep::Fetch(text::concat2(p.path.as_str(), ".tmp-download"))
}

/// The profile of the model with the given identifier, or the message that
/// there is none.
pub fn requested_profile(cfg: &RuntimeConfig, id: &str) -> (r: Result<ModelProfile, String>)
    ensures
        match r {
            Ok(p) => models::find_profile(cfg@.models.profiles, id@) == Some(p@),
            Err(message) => {
                &&& models::find_profile(cfg@.models.profiles, id@) is None
                &&& message@ == "unknown model id: "@ + id@
            },
        },
{
    match models::find_profile_by_id(&cfg.models.profiles, id) {
        Some(p) => Ok(p),
        None => Err(text::concat2("unknown model id: ", id)),
    }
}

/// What to do before a model is made active.
#[derive(Clone, Copy, Debug, PartialEq, Eq, Structural)]
pub enum ActivationStep {
    /// Nothing.
    Activate,
    /// Get its file.
    Download,
    /// Refuse: its file is missing.
    Refuse,
}

/// What to do before a model is made active, whose file is there or not and may
/// be got or not.
pub fn activation_step(exists: bool, download_if_missing: bool) -> (r: ActivationStep)
    ensures
        r == ActivationStep::Activate <==> exists,
        r == ActivationStep::Download <==> !exists && download_if_missing,
        r == ActivationStep::Refuse <==> !exists && !download_if_missing,
{
    if exists {
        ActivationStep::Activate
    } else if download_if_missing {
        ActivationStep::Download
    } else {
        ActivationStep::Refuse
    }
}

/// The configuration with another active model.
pub open spec fn with_active_model(cfg: config::ConfigView, id: Seq<char>) -> config::ConfigView {
    config::ConfigView {
        models: models::ModelsView { active_model_id: id, ..cfg.models },
        ..cfg
    }
}

/// Makes the model of a profile active.
pub fn activate_model(cfg: &mut RuntimeConfig, p: &ModelProfile)
    ensures
        final(cfg)@ == with_active_model(old(cfg)@, p@.id),
{
    cfg.models.active_model_id = p.id.clone();
}

// ---------------------------------------------------------------------------
// New models
// ---------------------------------------------------------------------------

/// The profiles with one more, in the place of the first with the same
/// identifier if there is one.
pub open spec fn with_profile(
    profiles: Seq<models::ProfileView>,
    p: models::ProfileView,
) -> Seq<models::ProfileView> {
    if models::has_profile(profiles, p.id) {
        profiles.update(models::profile_position(profiles, p.id), p)
    } else {
        profiles.push(p)
    }
}

/// The configuration with one more model, active if so wanted.
pub open spec fn with_model(
    cfg: config::ConfigView,
    p: models::ProfileView,
    set_active: bool,
) -> config::ConfigView {
    config::ConfigView {
        models: models::ModelsView {
            active_model_id: if set_active {
                p.id
            } else {
                cfg.models.active_model_id
            },
            profiles: with_profile(cfg.models.profiles, p),
        },
        ..cfg
    }
}

/// Adds a profile, with `fresh` as the TeamSpeak identity where none is set.
/// What comes back is whether it took the place of another.
pub fn add_profile_with(
    cfg: &mut RuntimeConfig,
    p: &ModelProfile,
    set_active: bool,
    env: &EnvConfig,
    fresh: &str,
) -> (replaced: bool)
    ensures
        replaced == models::has_profile(old(cfg)@.models.profiles, p@.id),
        final(cfg)@ == config::config_normalized(
            with_model(old(cfg)@, p@, set_active),
            env@,
            fresh@,
        ),
{
    let ghost before = cfg@;
    let replaced = match models::position_of_profile(&cfg.models.profiles, p.id.as_str()) {
        Some(i) => {
            cfg.models.profiles.set(i, p.clone());
            true
        },
        None => {
            cfg.models.profiles.push(p.clone());
            false
        },
    };
    assert(models::profile_views(cfg.models.profiles@) =~= with_profile(
        before.models.profiles,
        p@,
    ));
    if set_active {
        cfg.models.active_model_id = p.id.clone();
    }
    assert(cfg@ =~= with_model(before, p@, set_active));
    config::normalize_runtime_config_with(cfg, env, fresh);
    replaced
}

/// A model of a Hugging Face repository that has been added.
#[derive(Debug)]
pub struct AddedModel {
    pub filename: String,
    pub profile: ModelProfile,
    pub replaced: bool,
}

/// Which model of a repository is wanted, and how it is to be called.
#[derive(Debug)]
pub struct HuggingFaceModelRequest {
    pub repo_id: String,
    pub filename: Option<String>,
    pub id: Option<String>,
    pub name: Option<String>,
    pub set_active: bool,
}

/// Adds the wanted model of a repository with the given files, with `fresh` as
/// the TeamSpeak identity where none is set.
pub fn add_huggingface_model_with(
    cfg: &mut RuntimeConfig,
    req: &HuggingFaceModelRequest,
    siblings: &Vec<HuggingFaceSibling>,
    env: &EnvConfig,
    fresh: &str,
) -> (r: Result<AddedModel, SelectError>)
    ensures
        huggingface::selects(
            huggingface::file_names(siblings@),
            text::opt_view(req.filename),
            match r {
                Ok(added) => Ok(added.filename@),
                Err(e) => Err(e@),
            },
        ),
        match r {
            Ok(added) => {
                &&& added.profile@ == huggingface::hf_profile(
                    req.repo_id@,
                    added.filename@,
                    text::opt_view(req.id),
                    text::opt_view(req.name),
                )
                &&& added.replaced == models::has_profile(
                    old(cfg)@.models.profiles,
                    added.profile@.id,
                )
                &&& final(cfg)@ == config::config_normalized(
                    with_model(old(cfg)@, added.profile@, req.set_active),
                    env@,
                    fresh@,
                )
            },
            Err(_) => final(cfg)@ == old(cfg)@,
        },
{
    match huggingface::select_huggingface_model_file(siblings, text::as_opt_str(&req.filename)) {
        Ok(filename) => {
            let profile = huggingface::huggingface_model_profile(
                req.repo_id.as_str(),
                filename.as_str(),
                text::as_opt_str(&req.id),
                text::as_opt_str(&req.name),
            );
            let replaced = add_profile_with(cfg, &profile, req.set_active, env, fresh);
            Ok(AddedModel { filename, profile, replaced })
        },
        Err(e) => Err(e),
    }
}

/// Adds the wanted model of a repository with the given files, with a new
/// TeamSpeak identity where none is set.
pub fn add_huggingface_model(
    cfg: &mut RuntimeConfig,
    req: &HuggingFaceModelRequest,
    siblings: &Vec<HuggingFaceSibling>,
    env: &EnvConfig,
) -> (r: Result<AddedModel, SelectError>)
    ensures
        huggingface::selects(
            huggingface::file_names(siblings@),
            text::opt_view(req.filename),
            match r {
                Ok(added) => Ok(added.filename@),
                Err(e) => Err(e@),
            },
        ),
        match r {
            Ok(added) => {
                &&& added.profile@ == huggingface::hf_profile(
                    req.repo_id@,
                    added.filename@,
                    text::opt_view(req.id),
                    text::opt_view(req.name),
                )
                &&& added.replaced == models::has_profile(
                    old(cfg)@.models.profiles,
                    added.profile@.id,
                )
                &&& final(cfg)@ == config::config_normalized(
                    with_model(old(cfg)@, added.profile@, req.set_active),
                    env@,
                    final(cfg)@.teamspeak.identity,
                )
                &&& settings::is_identity_for(
                    old(cfg)@.teamspeak,
                    final(cfg)@.teamspeak.identity,
                )
            },
            Err(_) => final(cfg)@ == old(cfg)@,
        },
{
    let fresh = cfg.teamspeak.fresh_identity();
    add_huggingface_model_with(cfg, req, siblings, env, fresh.as_str())
}

} // verus!
