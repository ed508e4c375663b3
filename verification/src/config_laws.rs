//! What holds of configurations: of their proper form, of what is loaded again
//! after it was stored, and of what requests change.

use vstd::prelude::*;

use crate::channels;
use crate::config;
use crate::config::ConfigSections;
use crate::floats;
use crate::floats::F64Bits;
use crate::huggingface;
use crate::identity;
use crate::models;
use crate::requests;
use crate::session;
use crate::settings;
use crate::teamspeak;
use crate::text;
use crate::transcriber;

verus! {

// ---------------------------------------------------------------------------
// Transcription settings
// ---------------------------------------------------------------------------

proof fn lemma_trimmed_or_twice(s: Seq<char>, otherwise: Seq<char>)
    requires
        text::trim(otherwise) == otherwise,
    ensures
        settings::trimmed_or(settings::trimmed_or(s, otherwise), otherwise)
            == settings::trimmed_or(s, otherwise),
{
    text::trimming_twice_is_trimming(s, text::Cut::Space);
}

proof fn lemma_greater_twice(a: F64Bits, b: F64Bits, fallback: F64Bits)
    requires
        floats::f64_is_finite(b),
        floats::f64_is_finite(fallback),
    ensures
        ({
            let g = floats::f64_greater(floats::f64_finite_or(a, fallback), b);
            &&& floats::f64_is_finite(g)
            &&& floats::f64_key(g) >= floats::f64_key(b)
            &&& floats::f64_greater(floats::f64_finite_or(g, fallback), b) == g
        }),
{
}

proof fn lemma_constants_are_finite()
    ensures
        floats::f64_is_finite(floats::f64_bits(settings::DEFAULT_MIN_SEGMENT_SECONDS)),
        floats::f64_is_finite(floats::f64_bits(settings::DEFAULT_MAX_SEGMENT_SECONDS)),
        floats::f64_is_finite(floats::f64_bits(settings::DEFAULT_SILENCE_CUT_SECONDS)),
        floats::f64_is_finite(floats::f64_bits(settings::DEFAULT_PRE_ROLL_SECONDS)),
        floats::f64_is_finite(floats::f64_bits(settings::LEAST_MIN_SEGMENT_SECONDS)),
        floats::f64_is_finite(floats::f64_bits(settings::LEAST_SILENCE_CUT_SECONDS)),
        floats::f64_is_finite(floats::f64_bits(settings::LEAST_PRE_ROLL_SECONDS)),
        floats::f32_is_finite(floats::f32_bits(settings::DEFAULT_VAD_THRESHOLD)),
        floats::f32_is_finite(floats::f32_bits(settings::F32_ZERO)),
        floats::f32_is_finite(floats::f32_bits(settings::F32_ONE)),
{
}

proof fn lemma_fi_is_trimmed()
    ensures
        text::trim("fi"@) == "fi"@,
        "fi"@.len() == 2,
{
    reveal_strlit("fi");
    text::lemma_trim_keeps("fi"@, text::Cut::Space);
}

/// The transcription settings in their proper form: a language is set, the
/// counts are at least one, all numbers are finite, the threshold is between 0
/// and 1, and the lengths are at least their least ones and in order.
pub proof fn normalized_transcription_is_in_range(t: settings::TranscriptionView)
    ensures
        ({
            let n = settings::transcription_normalized(t);
            &&& text::trim(n.language).len() > 0
            &&& n.n_threads >= 1
            &&& n.beam_size >= 1
            &&& floats::f32_at_least(n.vad_threshold, floats::f32_bits(settings::F32_ZERO))
            &&& floats::f32_at_least(floats::f32_bits(settings::F32_ONE), n.vad_threshold)
            &&& floats::f64_is_finite(n.min_segment_seconds)
            &&& floats::f64_is_finite(n.max_segment_seconds)
            &&& floats::f64_is_finite(n.silence_cut_seconds)
            &&& floats::f64_is_finite(n.pre_roll_seconds)
            &&& floats::f64_key(n.min_segment_seconds) >= floats::f64_key(
                floats::f64_bits(settings::LEAST_MIN_SEGMENT_SECONDS),
            )
            &&& floats::f64_key(n.max_segment_seconds) >= floats::f64_key(n.min_segment_seconds)
            &&& floats::f64_key(n.silence_cut_seconds) >= floats::f64_key(
                floats::f64_bits(settings::LEAST_SILENCE_CUT_SECONDS),
            )
            &&& floats::f64_key(n.pre_roll_seconds) >= floats::f64_key(
                floats::f64_bits(settings::LEAST_PRE_ROLL_SECONDS),
            )
        }),
{
    let n = settings::transcription_normalized(t);
    lemma_constants_are_finite();
    lemma_fi_is_trimmed();
    text::trimming_twice_is_trimming(t.language, text::Cut::Space);
    let min_default = floats::f64_bits(settings::DEFAULT_MIN_SEGMENT_SECONDS);
    let max_default = floats::f64_bits(settings::DEFAULT_MAX_SEGMENT_SECONDS);
    let cut_default = floats::f64_bits(settings::DEFAULT_SILENCE_CUT_SECONDS);
    let roll_default = floats::f64_bits(settings::DEFAULT_PRE_ROLL_SECONDS);
    lemma_greater_twice(
        t.min_segment_seconds,
        floats::f64_bits(settings::LEAST_MIN_SEGMENT_SECONDS),
        min_default,
    );
    lemma_greater_twice(t.max_segment_seconds, n.min_segment_seconds, max_default);
    lemma_greater_twice(
        t.silence_cut_seconds,
        floats::f64_bits(settings::LEAST_SILENCE_CUT_SECONDS),
        cut_default,
    );
    lemma_greater_twice(
        t.pre_roll_seconds,
        floats::f64_bits(settings::LEAST_PRE_ROLL_SECONDS),
        roll_default,
    );
}

/// Transcription settings in their proper form stay as they are.
pub proof fn normalized_transcription_is_kept(t: settings::TranscriptionView)
    ensures
        settings::transcription_normalized(settings::transcription_normalized(t))
            == settings::transcription_normalized(t),
{
    let n = settings::transcription_normalized(t);
    lemma_constants_are_finite();
    lemma_fi_is_trimmed();
    lemma_trimmed_or_twice(t.language, "fi"@);
    lemma_greater_twice(
        t.min_segment_seconds,
        floats::f64_bits(settings::LEAST_MIN_SEGMENT_SECONDS),
        floats::f64_bits(settings::DEFAULT_MIN_SEGMENT_SECONDS),
    );
    lemma_greater_twice(
        t.max_segment_seconds,
        n.min_segment_seconds,
        floats::f64_bits(settings::DEFAULT_MAX_SEGMENT_SECONDS),
    );
    lemma_greater_twice(
        t.silence_cut_seconds,
        floats::f64_bits(settings::LEAST_SILENCE_CUT_SECONDS),
        floats::f64_bits(settings::DEFAULT_SILENCE_CUT_SECONDS),
    );
    lemma_greater_twice(
        t.pre_roll_seconds,
        floats::f64_bits(settings::LEAST_PRE_ROLL_SECONDS),
        floats::f64_bits(settings::DEFAULT_PRE_ROLL_SECONDS),
    );
}

// ---------------------------------------------------------------------------
// TeamSpeak settings
// ---------------------------------------------------------------------------

/// Whether the channel path, without outer white space and then without outer
/// slashes, has no outer white space left. It has some left where white space
/// stands just inside of the slashes, as in `/ a/`.
pub open spec fn path_trims_at_once(t: settings::TeamSpeakView) -> bool {
    let path = text::trim_slashes(text::trim(t.channel_path));
    text::trim(path) == path
}

proof fn lemma_defaults_are_trimmed()
    ensures
        text::trim("localhost:9987"@) == "localhost:9987"@,
        text::trim("audio2mqtt"@) == "audio2mqtt"@,
        "localhost:9987"@.len() > 0,
        "audio2mqtt"@.len() > 0,
{
    reveal_strlit("localhost:9987");
    reveal_strlit("audio2mqtt");
    text::lemma_trim_keeps("localhost:9987"@, text::Cut::Space);
    text::lemma_trim_keeps("audio2mqtt"@, text::Cut::Space);
}

proof fn lemma_secret_twice(value: Option<Seq<char>>)
    ensures
        settings::secret_of(settings::secret_of(value)) == settings::secret_of(value),
{
    if let Some(s) = value {
        text::trimming_twice_is_trimming(s, text::Cut::Space);
    }
}

/// TeamSpeak settings in their proper form name a server, a nickname and an
/// identity, and wait one second to five minutes before connecting again.
pub proof fn normalized_teamspeak_is_complete(t: settings::TeamSpeakView, fresh: Seq<char>)
    requires
        settings::is_identity_for(t, fresh),
    ensures
        ({
            let n = settings::teamspeak_normalized(t, fresh);
            &&& text::trim(n.server_address).len() > 0
            &&& text::trim(n.nickname).len() > 0
            &&& text::trim(n.identity).len() > 0
            &&& 1 <= n.reconnect_seconds <= 300
            &&& n.enabled == t.enabled
            &&& n.channel_id == t.channel_id
        }),
{
    lemma_defaults_are_trimmed();
    text::trimming_twice_is_trimming(t.server_address, text::Cut::Space);
    text::trimming_twice_is_trimming(t.nickname, text::Cut::Space);
    text::trimming_twice_is_trimming(t.identity, text::Cut::Space);
    if text::trim(t.identity).len() == 0 {
        identity::new_identity_text_is_trimmed(fresh);
    }
}

/// TeamSpeak settings in their proper form stay as they are; in particular they
/// keep their identity.
pub proof fn normalized_teamspeak_is_kept(
    t: settings::TeamSpeakView,
    fresh: Seq<char>,
    later: Seq<char>,
)
    requires
        settings::is_identity_for(t, fresh),
        path_trims_at_once(t),
    ensures
        settings::teamspeak_normalized(settings::teamspeak_normalized(t, fresh), later)
            == settings::teamspeak_normalized(t, fresh),
{
    lemma_defaults_are_trimmed();
    lemma_trimmed_or_twice(t.server_address, "localhost:9987"@);
    lemma_trimmed_or_twice(t.nickname, "audio2mqtt"@);
    text::trimming_twice_is_trimming(t.identity, text::Cut::Space);
    if text::trim(t.identity).len() == 0 {
        identity::new_identity_text_is_trimmed(fresh);
    }
    text::trimming_twice_is_trimming(text::trim(t.channel_path), text::Cut::Only('/'));
    lemma_secret_twice(t.server_password);
    lemma_secret_twice(t.channel_password);
    assert(settings::teamspeak_normalized(settings::teamspeak_normalized(t, fresh), later)
        =~= settings::teamspeak_normalized(t, fresh));
}

// ---------------------------------------------------------------------------
// Models
// ---------------------------------------------------------------------------

proof fn lemma_finnish_is_there(profiles: Seq<models::ProfileView>)
    ensures
        models::has_profile(models::with_finnish(profiles), models::finnish_profile().id),
        models::with_finnish(profiles).len() > 0,
{
    if !models::has_profile(profiles, models::finnish_profile().id) {
        let all = models::with_finnish(profiles);
        assert(all[all.len() - 1].id == models::finnish_profile().id);
    }
}

proof fn lemma_active_is_there(m: models::ModelsView, otherwise: Seq<char>)
    requires
        m.profiles.len() > 0,
    ensures
        models::has_profile(
            config::with_active(m, otherwise).profiles,
            config::with_active(m, otherwise).active_model_id,
        ),
{
    if config::active_is_missing(m) {
        assert(m.profiles[0].id == config::with_active(m, otherwise).active_model_id);
    }
}

/// Models in their proper form have the Finnish profile among their profiles,
/// and the active model is one of them.
pub proof fn normalized_models_are_complete(m: models::ModelsView, env: settings::EnvView)
    ensures
        ({
            let n = config::models_normalized(m, env);
            &&& n.profiles.len() > 0
            &&& models::has_profile(n.profiles, models::finnish_profile().id)
            &&& models::has_profile(n.profiles, n.active_model_id)
            &&& config::active_profile(n, env).id == n.active_model_id
        }),
{
    let profiles = if m.profiles.len() == 0 {
        models::default_profiles(env.default_model_id, env.model_path, env.model_url)
    } else {
        m.profiles
    };
    let all = models::ModelsView {
        active_model_id: m.active_model_id,
        profiles: models::with_finnish(profiles),
    };
    lemma_finnish_is_there(profiles);
    lemma_active_is_there(all, env.default_model_id);
    let n = config::models_normalized(m, env);
    models::lemma_profile_position(n.profiles, n.active_model_id);
}

/// Models in their proper form stay as they are.
pub proof fn normalized_models_are_kept(m: models::ModelsView, env: settings::EnvView)
    ensures
        config::models_normalized(config::models_normalized(m, env), env)
            == config::models_normalized(m, env),
{
    normalized_models_are_complete(m, env);
}

// ---------------------------------------------------------------------------
// Configurations
// ---------------------------------------------------------------------------

/// A configuration in its proper form stays as it is.
pub proof fn normalized_config_is_kept(
    cfg: config::ConfigView,
    env: settings::EnvView,
    fresh: Seq<char>,
    later: Seq<char>,
)
    requires
        settings::is_identity_for(cfg.teamspeak, fresh),
        path_trims_at_once(cfg.teamspeak),
    ensures
        config::config_normalized(config::config_normalized(cfg, env, fresh), env, later)
            == config::config_normalized(cfg, env, fresh),
{
    normalized_transcription_is_kept(cfg.transcription);
    normalized_teamspeak_is_kept(cfg.teamspeak, fresh, later);
    normalized_models_are_kept(cfg.models, env);
}

/// A configuration that a start ends with is in its proper form.
pub proof fn loaded_config_is_normalized(
    stored: Option<(config::ConfigView, ConfigSections)>,
    env: settings::EnvView,
    fresh: Seq<char>,
    later: Seq<char>,
)
    requires
        settings::is_identity_for(config::start_config(stored, env).teamspeak, fresh),
        path_trims_at_once(config::start_config(stored, env).teamspeak),
    ensures
        ({
            let loaded = config::loaded_config(stored, env, fresh);
            config::config_normalized(loaded, env, later) == loaded
        }),
{
    let start = config::start_config(stored, env);
    let loaded = config::loaded_config(stored, env, fresh);
    normalized_transcription_is_kept(start.transcription);
    normalized_teamspeak_is_kept(start.teamspeak, fresh, later);
    let m = config::start_models(start.models, env);
    lemma_finnish_is_there(m.profiles);
    assert(config::models_normalized(loaded.models, env) == loaded.models);
}

/// All sections.
pub open spec fn all_sections() -> ConfigSections {
    ConfigSections { models: true, transcription: true, teamspeak: true }
}

/// A configuration that was loaded, stored and is loaded again is the same, with
/// the same TeamSpeak identity; and it is not stored another time, unless the
/// active model has no name.
pub proof fn stored_config_is_loaded_again(
    stored: Option<(config::ConfigView, ConfigSections)>,
    env: settings::EnvView,
    fresh: Seq<char>,
    later: Seq<char>,
)
    requires
        settings::is_identity_for(config::start_config(stored, env).teamspeak, fresh),
        path_trims_at_once(config::start_config(stored, env).teamspeak),
    ensures
        ({
            let loaded = config::loaded_config(stored, env, fresh);
            let again = Some((loaded, all_sections()));
            &&& config::loaded_config(again, env, later) == loaded
            &&& config::must_store(again, env, later) <==> text::trim(
                loaded.models.active_model_id,
            ).len() == 0
        }),
{
    let start = config::start_config(stored, env);
    let loaded = config::loaded_config(stored, env, fresh);
    let again = Some((loaded, all_sections()));
    normalized_transcription_is_kept(start.transcription);
    normalized_teamspeak_is_kept(start.teamspeak, fresh, later);
    let m = config::start_models(start.models, env);
    lemma_finnish_is_there(m.profiles);
    lemma_active_is_there(
        models::ModelsView {
            active_model_id: m.active_model_id,
            profiles: models::with_finnish(m.profiles),
        },
        env.default_model_id,
    );
    assert(config::start_config(again, env) =~= loaded);
    assert(config::loaded_config(again, env, later) =~= loaded);
}

/// Whatever is stored, or where nothing is, the configuration that a start ends
/// with has profiles, the Finnish one and the active one among them.
pub proof fn loaded_models_are_complete(
    stored: Option<(config::ConfigView, ConfigSections)>,
    env: settings::EnvView,
    fresh: Seq<char>,
)
    ensures
        ({
            let loaded = config::loaded_config(stored, env, fresh);
            &&& loaded.models.profiles.len() > 0
            &&& models::has_profile(loaded.models.profiles, models::finnish_profile().id)
            &&& models::has_profile(loaded.models.profiles, loaded.models.active_model_id)
        }),
{
    let m = config::start_models(config::start_config(stored, env).models, env);
    lemma_finnish_is_there(m.profiles);
    lemma_active_is_there(
        models::ModelsView {
            active_model_id: m.active_model_id,
            profiles: models::with_finnish(m.profiles),
        },
        env.default_model_id,
    );
}

// ---------------------------------------------------------------------------
// Requests
// ---------------------------------------------------------------------------

/// A model that was made active is the one that the next job uses: it is loaded
/// first, unless it is loaded.
pub proof fn activated_model_is_used(
    cfg: config::ConfigView,
    p: models::ProfileView,
    env: settings::EnvView,
    loaded: transcriber::LoadedView,
)
    requires
        models::find_profile(cfg.models.profiles, p.id) == Some(p),
    ensures
        ({
            let after = requests::with_active_model(cfg, p.id);
            &&& config::active_profile(after.models, env) == p
            &&& loaded != transcriber::loaded_from(p) ==> transcriber::step_for(
                loaded,
                config::active_profile(after.models, env),
                true,
            ) is Load
        }),
{
}

proof fn lemma_first_is_position(profiles: Seq<models::ProfileView>, id: Seq<char>, i: int)
    requires
        models::is_first_with_id(profiles, id, i),
    ensures
        models::profile_position(profiles, id) == i,
        models::find_profile(profiles, id) == Some(profiles[i]),
{
    assert(profiles[i].id == id);
    models::lemma_profile_position(profiles, id);
    let k = models::profile_position(profiles, id);
    if k < i {
        assert(profiles[k].id != id);
    }
    if i < k {
        assert(profiles[i].id != id);
    }
}

proof fn lemma_added_is_found(profiles: Seq<models::ProfileView>, p: models::ProfileView)
    ensures
        models::find_profile(requests::with_profile(profiles, p), p.id) == Some(p),
        models::find_profile(
            models::with_finnish(requests::with_profile(profiles, p)),
            p.id,
        ) == Some(p),
{
    models::lemma_profile_position(profiles, p.id);
    let with = requests::with_profile(profiles, p);
    let i = if models::has_profile(profiles, p.id) {
        models::profile_position(profiles, p.id)
    } else {
        profiles.len() as int
    };
    assert forall|j: int| 0 <= j < i implies (#[trigger] with[j]).id != p.id by {
        assert(with[j] == profiles[j]);
    }
    assert(models::is_first_with_id(with, p.id, i));
    lemma_first_is_position(with, p.id, i);
    let all = models::with_finnish(with);
    assert forall|j: int| 0 <= j < i implies (#[trigger] all[j]).id != p.id by {
        assert(all[j] == with[j]);
    }
    assert(models::is_first_with_id(all, p.id, i));
    lemma_first_is_position(all, p.id, i);
}

/// A model that was added is found under its identifier, and is the active one
/// where that was wanted and its identifier is not blank.
pub proof fn added_model_is_found(
    cfg: config::ConfigView,
    p: models::ProfileView,
    set_active: bool,
    env: settings::EnvView,
    fresh: Seq<char>,
)
    ensures
        ({
            let after = config::config_normalized(
                requests::with_model(cfg, p, set_active),
                env,
                fresh,
            );
            &&& models::find_profile(after.models.profiles, p.id) == Some(p)
            &&& set_active && text::trim(p.id).len() > 0 ==> config::active_profile(
                after.models,
                env,
            ) == p
        }),
{
    lemma_added_is_found(cfg.models.profiles, p);
}

proof fn lemma_hf_id_is_not_blank(
    repo_id: Seq<char>,
    filename: Seq<char>,
    requested_id: Option<Seq<char>>,
    requested_name: Option<Seq<char>>,
)
    ensures
        text::trim(
            huggingface::hf_profile(repo_id, filename, requested_id, requested_name).id,
        ).len() > 0,
{
    let id = huggingface::hf_profile(repo_id, filename, requested_id, requested_name).id;
    reveal_strlit("hf-");
    if let Some(s) = requested_id {
        text::trimming_twice_is_trimming(s, text::Cut::Space);
    }
    let made = "hf-"@ + huggingface::identifier_of(repo_id) + "-"@ + huggingface::identifier_of(
        huggingface::without_bin(huggingface::base_name(filename)),
    );
    assert(made[0] == 'h');
    text::lemma_keeps_first(made, text::Cut::Space);
}

/// A model of a repository that was added to be active is the active one.
pub proof fn added_repo_model_is_active(
    cfg: config::ConfigView,
    repo_id: Seq<char>,
    filename: Seq<char>,
    requested_id: Option<Seq<char>>,
    requested_name: Option<Seq<char>>,
    env: settings::EnvView,
    fresh: Seq<char>,
)
    ensures
        ({
            let p = huggingface::hf_profile(repo_id, filename, requested_id, requested_name);
            let after = config::config_normalized(requests::with_model(cfg, p, true), env, fresh);
            config::active_profile(after.models, env) == p
        }),
{
    let p = huggingface::hf_profile(repo_id, filename, requested_id, requested_name);
    lemma_hf_id_is_not_blank(repo_id, filename, requested_id, requested_name);
    added_model_is_found(cfg, p, true, env, fresh);
}

/// Adding a model leaves every other profile where it is.
pub proof fn other_profiles_are_kept(
    profiles: Seq<models::ProfileView>,
    p: models::ProfileView,
    i: int,
)
    requires
        0 <= i < profiles.len(),
        profiles[i].id != p.id,
    ensures
        requests::with_profile(profiles, p)[i] == profiles[i],
        requests::with_profile(profiles, p).len() >= profiles.len(),
{
    models::lemma_profile_position(profiles, p.id);
}

/// Requests for the receiver leave the rest of a configuration in its proper
/// form as it is.
pub proof fn receiver_requests_change_nothing_else(
    cfg: config::ConfigView,
    env: settings::EnvView,
    fresh: Seq<char>,
    enabled: bool,
)
    requires
        config::config_normalized(cfg, env, fresh) == cfg,
    ensures
        config::config_normalized(requests::with_receiver(cfg, enabled), env, fresh)
            == requests::with_receiver(cfg, enabled),
{
    let after = requests::with_receiver(cfg, enabled);
    assert(config::config_normalized(after, env, fresh).teamspeak =~= after.teamspeak);
}

/// A channel that was selected is stored by its identifier and its path, and is
/// the first that the receiver tries; after it comes the path, if it has one.
pub proof fn selected_channel_is_tried_first(
    cfg: config::ConfigView,
    channel: channels::ChannelView,
    env: settings::EnvView,
    fresh: Seq<char>,
)
    ensures
        ({
            let t = config::config_normalized(
                requests::with_channel(cfg, channel),
                env,
                fresh,
            ).teamspeak;
            let path = text::trim_slashes(text::trim(channel.path));
            &&& t.channel_id == Some(channel.id)
            &&& t.channel_path == path
            &&& teamspeak::connect_attempts(t)[0] == Some(teamspeak::ConnectView::Id(channel.id))
            &&& text::trim(path).len() > 0 ==> teamspeak::connect_attempts(t)[1] == Some(
                teamspeak::ConnectView::Path(path),
            )
            &&& teamspeak::connect_attempts(t).last() is None
        }),
{
}

/// While the selected channel is among the channels of the server, by its
/// identifier or by its path, it is not shown as missing.
pub proof fn selected_channel_is_found(
    cfg: config::ConfigView,
    channel: channels::ChannelView,
    env: settings::EnvView,
    fresh: Seq<char>,
    list: Seq<channels::ChannelView>,
)
    requires
        teamspeak::channel_with(list, channel.id) is Some || exists|i: int|
            0 <= i < list.len() && (#[trigger] list[i]).path == text::trim_slashes(
                text::trim(channel.path),
            ) && text::trim(list[i].path).len() > 0,
    ensures
        !session::selected_missing(
            config::config_normalized(requests::with_channel(cfg, channel), env, fresh).teamspeak,
            list,
        ),
{
}

} // verus!
