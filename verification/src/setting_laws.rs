//! What settings, models and configurations keep of what was set, and what a
//! start, a request or a command makes of it.

use vstd::prelude::*;

use crate::channels;
use crate::config;
use crate::config::ConfigSections;
use crate::delivery;
use crate::floats;
use crate::models;
use crate::requests;
use crate::settings;
use crate::text;
use crate::text_laws;

verus! {

// ---------------------------------------------------------------------------
// Transcription settings
// ---------------------------------------------------------------------------

/// A length of time as it is set: a number that is not finite is replaced, and
/// what is not above the least one is that. Both are patterns of numbers that are
/// not negative.
pub open spec fn length_of(bits: u64, least: u64, replacement: u64) -> u64 {
    let value = if bits % 0x8000_0000_0000_0000 < 0x7ff0_0000_0000_0000 {
        bits
    } else {
        replacement
    };
    if value < 0x8000_0000_0000_0000 && value > least {
        value
    } else {
        least
    }
}

proof fn lemma_length(bits: u64, least: u64, replacement: u64)
    requires
        least < 0x8000_0000_0000_0000,
        replacement < 0x8000_0000_0000_0000,
    ensures
        floats::f64_greater(
            floats::f64_finite_or(floats::f64_bits(bits), floats::f64_bits(replacement)),
            floats::f64_bits(least),
        ).bits == length_of(bits, least, replacement),
{
    floats::finite_doubles_are_kept(floats::f64_bits(bits), floats::f64_bits(replacement));
}

/// Settings that are in their ranges are kept, each by itself. Counts below one
/// are one; a threshold below 0 is 0, one above 1 is 1, and one that is no number
/// is the default of 0.55; lengths of time below their least ones are those, and
/// the greatest length of a segment is not less than the least one.
pub proof fn set_transcription_is_kept(t: settings::TranscriptionView)
    ensures
        ({
            let n = settings::transcription_normalized(t);
            let threshold = t.vad_threshold.bits;
            let min = length_of(
                t.min_segment_seconds.bits,
                0x3fb9_9999_9999_999a,
                0x3ff0_0000_0000_0000,
            );
            &&& n.n_threads == (if t.n_threads >= 1 {
                t.n_threads
            } else {
                1
            })
            &&& n.beam_size == (if t.beam_size >= 1 {
                t.beam_size
            } else {
                1
            })
            &&& threshold <= 0x3f80_0000 ==> n.vad_threshold.bits == threshold
            &&& 0x3f80_0000 < threshold < 0x7f80_0000 ==> n.vad_threshold.bits == 0x3f80_0000
            &&& 0x8000_0000 < threshold < 0xff80_0000 ==> n.vad_threshold.bits == 0
            &&& threshold % 0x8000_0000 >= 0x7f80_0000 ==> n.vad_threshold.bits == 0x3f0c_cccd
            &&& n.min_segment_seconds.bits == min
            &&& n.max_segment_seconds.bits == length_of(
                t.max_segment_seconds.bits,
                min,
                0x403e_0000_0000_0000,
            )
            &&& n.silence_cut_seconds.bits == length_of(
                t.silence_cut_seconds.bits,
                0x3fa9_9999_9999_999a,
                0x3ff3_3333_3333_3333,
            )
            &&& n.pre_roll_seconds.bits == length_of(
                t.pre_roll_seconds.bits,
                0,
                0x3fd9_9999_9999_999a,
            )
        }),
{
    let default = floats::f32_bits(settings::DEFAULT_VAD_THRESHOLD);
    floats::finite_numbers_are_kept(t.vad_threshold, default);
    lemma_length(t.min_segment_seconds.bits, 0x3fb9_9999_9999_999a, 0x3ff0_0000_0000_0000);
    let min = length_of(
        t.min_segment_seconds.bits,
        0x3fb9_9999_9999_999a,
        0x3ff0_0000_0000_0000,
    );
    lemma_length(t.max_segment_seconds.bits, min, 0x403e_0000_0000_0000);
    lemma_length(t.silence_cut_seconds.bits, 0x3fa9_9999_9999_999a, 0x3ff3_3333_3333_3333);
    lemma_length(t.pre_roll_seconds.bits, 0, 0x3fd9_9999_9999_999a);
    assert(floats::f64_bits(t.min_segment_seconds.bits) == t.min_segment_seconds);
    assert(floats::f64_bits(t.max_segment_seconds.bits) == t.max_segment_seconds);
    assert(floats::f64_bits(t.silence_cut_seconds.bits) == t.silence_cut_seconds);
    assert(floats::f64_bits(t.pre_roll_seconds.bits) == t.pre_roll_seconds);
}

/// The language is the set one without outer white space, and Finnish where
/// none is set.
pub proof fn set_language_is_kept(
    t: settings::TranscriptionView,
    left: Seq<char>,
    language: Seq<char>,
    right: Seq<char>,
)
    requires
        t.language == left + language + right,
        text_laws::all_white(left),
        text_laws::all_white(right),
        language.len() > 0 ==> !text::is_white_space(language[0]) && !text::is_white_space(
            language.last(),
        ),
    ensures
        language.len() > 0 ==> settings::transcription_normalized(t).language == language,
        language.len() == 0 ==> settings::transcription_normalized(t).language == "fi"@,
{
    text_laws::trimming_takes_outer_white_space(left, language, right);
}

/// The log level is the one that is named, in any case and with white space
/// around it; a warning may be named in full, and what is none of the levels is
/// `info`.
pub proof fn named_log_level_is_used(
    level: Seq<char>,
    left: Seq<char>,
    name: Seq<char>,
    right: Seq<char>,
)
    requires
        level == left + name + right,
        text_laws::all_white(left),
        text_laws::all_white(right),
        name.len() > 0 ==> !text::is_white_space(name[0]) && !text::is_white_space(name.last()),
    ensures
        ({
            let small = text::lowercase(name);
            &&& small == "error"@ ==> settings::level_of(level) == "error"@
            &&& small == "warn"@ ==> settings::level_of(level) == "warn"@
            &&& small == "warning"@ ==> settings::level_of(level) == "warn"@
            &&& small == "info"@ ==> settings::level_of(level) == "info"@
            &&& small == "debug"@ ==> settings::level_of(level) == "debug"@
            &&& small == "trace"@ ==> settings::level_of(level) == "trace"@
            &&& small != "error"@ && small != "warn"@ && small != "warning"@ && small != "debug"@
                && small != "trace"@ ==> settings::level_of(level) == "info"@
        }),
{
    text_laws::trimming_takes_outer_white_space(left, name, right);
    reveal_strlit("error");
    reveal_strlit("warn");
    reveal_strlit("warning");
    reveal_strlit("info");
    reveal_strlit("debug");
    reveal_strlit("trace");
    assert("error"@.len() == 5 && "warn"@.len() == 4 && "warning"@.len() == 7);
    assert("info"@.len() == 4 && "debug"@.len() == 5 && "trace"@.len() == 5);
    assert("error"@[0] == 'e' && "debug"@[0] == 'd' && "trace"@[0] == 't');
    assert("info"@[0] == 'i' && "warn"@[0] == 'w');
}

// ---------------------------------------------------------------------------
// TeamSpeak settings
// ---------------------------------------------------------------------------


/// TeamSpeak settings keep whether the receiver is enabled, the identifier of the
/// channel, and the seconds before it connects again, which are at least one and
/// at most three hundred.
pub proof fn set_receiver_is_kept(t: settings::TeamSpeakView, fresh: Seq<char>)
    ensures
        ({
            let n = settings::teamspeak_normalized(t, fresh);
            &&& n.enabled == t.enabled
            &&& n.channel_id == t.channel_id
            &&& 1 <= t.reconnect_seconds <= 300 ==> n.reconnect_seconds == t.reconnect_seconds
            &&& t.reconnect_seconds == 0 ==> n.reconnect_seconds == 1
            &&& t.reconnect_seconds > 300 ==> n.reconnect_seconds == 300
        }),
{
}

/// The server, the nickname, the identity and the passwords are the set ones
/// without outer white space; where they are blank there is the default server,
/// the default nickname, the new identity and no password.
pub proof fn set_texts_of_the_receiver_are_kept(
    t: settings::TeamSpeakView,
    fresh: Seq<char>,
    left: Seq<char>,
    set: Seq<char>,
    right: Seq<char>,
)
    requires
        text_laws::all_white(left),
        text_laws::all_white(right),
        set.len() > 0 ==> !text::is_white_space(set[0]) && !text::is_white_space(set.last()),
    ensures
        ({
            let n = settings::teamspeak_normalized(t, fresh);
            let typed = left + set + right;
            &&& t.server_address == typed ==> n.server_address == (if set.len() > 0 {
                set
            } else {
                "localhost:9987"@
            })
            &&& t.nickname == typed ==> n.nickname == (if set.len() > 0 {
                set
            } else {
                "audio2mqtt"@
            })
            &&& t.identity == typed ==> n.identity == (if set.len() > 0 {
                set
            } else {
                fresh
            })
            &&& t.server_password == Some(typed) ==> n.server_password == (if set.len() > 0 {
                Some(set)
            } else {
                None
            })
            &&& t.channel_password == Some(typed) ==> n.channel_password == (if set.len() > 0 {
                Some(set)
            } else {
                None
            })
            &&& t.server_password is None ==> n.server_password is None
            &&& t.channel_password is None ==> n.channel_password is None
        }),
{
    text_laws::trimming_takes_outer_white_space(left, set, right);
}

/// The channel path is the set one without the white space and then without the
/// slashes around it.
pub proof fn set_channel_path_is_kept(
    t: settings::TeamSpeakView,
    fresh: Seq<char>,
    left: Seq<char>,
    before: Seq<char>,
    path: Seq<char>,
    after: Seq<char>,
    right: Seq<char>,
)
    requires
        t.channel_path == left + (before + path + after) + right,
        text_laws::all_white(left),
        text_laws::all_white(right),
        text_laws::all_of(before, '/'),
        text_laws::all_of(after, '/'),
        path.len() > 0,
        path[0] != '/' && path.last() != '/',
        !text::is_white_space(path[0]) && !text::is_white_space(path.last()),
    ensures
        settings::teamspeak_normalized(t, fresh).channel_path == path,
{
    let middle = before + path + after;
    assert(middle.len() > 0);
    assert(!text::is_white_space(middle[0])) by {
        if before.len() > 0 {
            assert(middle[0] == before[0]);
        } else {
            assert(middle[0] == path[0]);
        }
    }
    assert(!text::is_white_space(middle.last())) by {
        if after.len() > 0 {
            assert(middle.last() == after[after.len() - 1]);
        } else {
            assert(middle.last() == path.last());
        }
    }
    text_laws::trimming_takes_outer_white_space(left, middle, right);
    text_laws::trimming_takes_outer_slashes(before, path, after);
}

// ---------------------------------------------------------------------------
// Models
// ---------------------------------------------------------------------------

/// The profile with an identifier is the first one that has it; where none has
/// it there is none.
pub proof fn profile_is_the_first_with_the_identifier(
    profiles: Seq<models::ProfileView>,
    id: Seq<char>,
    i: int,
)
    requires
        0 <= i <= profiles.len(),
        forall|j: int| 0 <= j < i ==> (#[trigger] profiles[j]).id != id,
        i < profiles.len() ==> profiles[i].id == id,
    ensures
        i < profiles.len() ==> models::find_profile(profiles, id) == Some(profiles[i]),
        i < profiles.len() ==> models::has_profile(profiles, id),
        i == profiles.len() ==> models::find_profile(profiles, id) is None,
        i == profiles.len() ==> !models::has_profile(profiles, id),
{
    models::lemma_profile_position(profiles, id);
    let k = models::profile_position(profiles, id);
    if i < profiles.len() {
        assert(models::has_profile(profiles, id));
        if k < i {
            assert(profiles[k].id != id);
        }
        if i < k {
            assert(profiles[i].id != id);
        }
    }
}

/// The profile in use is the first one with the name of the active model, else
/// the first of all, else one that the environment names.
pub proof fn active_profile_is_in_use(
    m: models::ModelsView,
    env: settings::EnvView,
    i: int,
)
    requires
        0 <= i <= m.profiles.len(),
        forall|j: int| 0 <= j < i ==> (#[trigger] m.profiles[j]).id != m.active_model_id,
        i < m.profiles.len() ==> m.profiles[i].id == m.active_model_id,
    ensures
        ({
            let p = config::active_profile(m, env);
            &&& i < m.profiles.len() ==> p == m.profiles[i]
            &&& i == m.profiles.len() && i > 0 ==> p == m.profiles[0]
            &&& m.profiles.len() == 0 ==> p.id == env.default_model_id && p.path == env.model_path
                && p.url == env.model_url && p.name == env.default_model_id
        }),
{
    profile_is_the_first_with_the_identifier(m.profiles, m.active_model_id, i);
}

/// Models in their proper form keep every profile in its place, and the active
/// model where there is a profile of its name that is not blank. Nothing but the
/// Finnish profile is added, and that at the end.
pub proof fn set_models_are_kept(m: models::ModelsView, env: settings::EnvView)
    requires
        m.profiles.len() > 0,
    ensures
        ({
            let n = config::models_normalized(m, env);
            &&& n.profiles == (if exists|i: int|
                0 <= i < m.profiles.len() && (#[trigger] m.profiles[i]).id
                    == models::finnish_profile().id {
                m.profiles
            } else {
                m.profiles.push(models::finnish_profile())
            })
            &&& forall|i: int|
                0 <= i < m.profiles.len() && (#[trigger] m.profiles[i]).id == m.active_model_id
                    && !text_laws::all_white(m.active_model_id) ==> n.active_model_id
                    == m.active_model_id
            &&& text_laws::all_white(m.active_model_id) ==> n.active_model_id == m.profiles[0].id
        }),
{
    text_laws::blank_is_white_space_alone(m.active_model_id);
    let n = config::models_normalized(m, env);
    assert forall|i: int|
        0 <= i < m.profiles.len() && (#[trigger] m.profiles[i]).id == m.active_model_id
            && !text_laws::all_white(m.active_model_id) implies n.active_model_id
        == m.active_model_id by {
        let all = models::with_finnish(m.profiles);
        assert(all[i] == m.profiles[i]);
        assert(models::has_profile(all, m.active_model_id));
    }
}

/// A new configuration has a profile of the model that the environment names;
/// where that is none of the built-in ones, it is found at the path and the
/// address that the environment names, before all others.
pub proof fn environment_names_the_first_model(
    id: Seq<char>,
    path: Seq<char>,
    url: Seq<char>,
)
    ensures
        ({
            let profiles = models::default_profiles(id, path, url);
            &&& models::has_profile(profiles, id)
            &&& profiles.len() >= 4
            &&& !models::has_profile(models::builtin_profiles(), id) ==> {
                &&& profiles[0].id == id
                &&& profiles[0].path == path
                &&& profiles[0].url == url
                &&& models::find_profile(profiles, id) == Some(profiles[0])
                &&& text::ends_with(profiles[0].name, id)
                &&& profiles[0].recommended_vram_gb is None
            }
            &&& models::has_profile(models::builtin_profiles(), id) ==> profiles
                == models::builtin_profiles()
            &&& profiles.skip(profiles.len() - 4) == models::builtin_profiles()
        }),
{
    let profiles = models::default_profiles(id, path, url);
    assert(profiles.skip(profiles.len() - 4) =~= models::builtin_profiles());
    if !models::has_profile(models::builtin_profiles(), id) {
        assert(profiles[0].id == id);
        profile_is_the_first_with_the_identifier(profiles, id, 0);
        let name = profiles[0].name;
        assert(name.subrange(name.len() - id.len(), name.len() as int) =~= id);
    }
}

/// Adding a profile puts it in the place of the first with its identifier, or at
/// the end where there is none; every other stays in its place.
pub proof fn added_profile_takes_its_place(
    profiles: Seq<models::ProfileView>,
    p: models::ProfileView,
    i: int,
)
    requires
        0 <= i <= profiles.len(),
        forall|j: int| 0 <= j < i ==> (#[trigger] profiles[j]).id != p.id,
        i < profiles.len() ==> profiles[i].id == p.id,
    ensures
        i < profiles.len() ==> requests::with_profile(profiles, p) == profiles.take(i) + seq![p]
            + profiles.skip(i + 1),
        i == profiles.len() ==> requests::with_profile(profiles, p) == profiles + seq![p],
{
    profile_is_the_first_with_the_identifier(profiles, p.id, i);
    models::lemma_profile_position(profiles, p.id);
    if i < profiles.len() {
        let k = models::profile_position(profiles, p.id);
        if k < i {
            assert(profiles[k].id != p.id);
        }
        if i < k {
            assert(profiles[i].id != p.id);
        }
        assert(requests::with_profile(profiles, p) =~= profiles.take(i) + seq![p] + profiles.skip(
            i + 1,
        ));
    } else {
        assert(requests::with_profile(profiles, p) =~= profiles + seq![p]);
    }
}

/// A model file that is there is not fetched; one that is not is fetched beside
/// its path, unless it has no address.
pub proof fn missing_file_is_fetched(p: models::ProfileView, exists: bool)
    ensures
        exists ==> requests::download_of(p, exists) is Present,
        !exists && text_laws::all_white(p.url) ==> requests::download_of(p, exists)
            == requests::DownloadView::Refuse("model URL is empty for "@ + p.id),
        !exists && !text_laws::all_white(p.url) ==> requests::download_of(p, exists)
            == requests::DownloadView::Fetch(p.path + ".tmp-download"@),
{
    text_laws::blank_is_white_space_alone(p.url);
}

// ---------------------------------------------------------------------------
// Configurations
// ---------------------------------------------------------------------------

/// Bringing a configuration into its proper form leaves the settings for MQTT,
/// the webhooks and the log as they are, and each other section is brought into
/// its own proper form.
pub proof fn proper_form_keeps_the_delivery(
    cfg: config::ConfigView,
    env: settings::EnvView,
    fresh: Seq<char>,
)
    ensures
        ({
            let n = config::config_normalized(cfg, env, fresh);
            &&& n.mqtt == cfg.mqtt
            &&& n.webhooks == cfg.webhooks
            &&& n.logging == cfg.logging
            &&& n.transcription == settings::transcription_normalized(cfg.transcription)
            &&& n.teamspeak == settings::teamspeak_normalized(cfg.teamspeak, fresh)
            &&& n.models == config::models_normalized(cfg.models, env)
            &&& delivery::requests_to(n.webhooks) == delivery::requests_to(cfg.webhooks)
        }),
{
}

/// A start takes over what is stored: the settings for MQTT, the webhooks and
/// the log as they are, and each other section in its proper form. A section that
/// is not stored comes from the environment, and the receiver's from the
/// defaults.
pub proof fn start_takes_over_what_is_stored(
    cfg: config::ConfigView,
    sections: ConfigSections,
    env: settings::EnvView,
    fresh: Seq<char>,
)
    ensures
        ({
            let loaded = config::loaded_config(Some((cfg, sections)), env, fresh);
            &&& loaded.mqtt == cfg.mqtt
            &&& loaded.webhooks == cfg.webhooks
            &&& loaded.logging == cfg.logging
            &&& sections.transcription ==> loaded.transcription
                == settings::transcription_normalized(cfg.transcription)
            &&& sections.teamspeak ==> loaded.teamspeak == settings::teamspeak_normalized(
                cfg.teamspeak,
                fresh,
            )
            &&& !sections.teamspeak ==> !loaded.teamspeak.enabled && loaded.teamspeak.channel_id
                is None
            &&& sections.models && cfg.models.profiles.len() > 0 ==> loaded.models
                == config::models_normalized(cfg.models, env)
            &&& !sections.models ==> {
                &&& loaded.models.profiles.len() >= 4
                &&& !text_laws::all_white(env.default_model_id) ==> loaded.models.active_model_id
                    == env.default_model_id
            }
        }),
{
    environment_names_the_first_model(env.default_model_id, env.model_path, env.model_url);
    text_laws::blank_is_white_space_alone(env.default_model_id);
    if !sections.models {
        let profiles = models::default_profiles(
            env.default_model_id,
            env.model_path,
            env.model_url,
        );
        let i = choose|i: int|
            0 <= i < profiles.len() && (#[trigger] profiles[i]).id == env.default_model_id;
        assert(models::with_finnish(profiles)[i] == profiles[i]);
    }
}

/// A first start takes the models and the transcription settings from the
/// environment; transcripts are not published, posted or received from a
/// TeamSpeak server before that is set.
pub proof fn first_start_takes_over_the_environment(env: settings::EnvView, fresh: Seq<char>)
    ensures
        ({
            let loaded = config::loaded_config(None, env, fresh);
            &&& !loaded.mqtt.enabled
            &&& loaded.webhooks.len() == 0
            &&& !loaded.teamspeak.enabled
            &&& loaded.transcription == settings::transcription_normalized(
                settings::transcription_normalized(env.transcription),
            )
            &&& !text_laws::all_white(env.default_model_id) ==> loaded.models.active_model_id
                == env.default_model_id
            &&& config::must_store(None, env, fresh)
        }),
{
    environment_names_the_first_model(env.default_model_id, env.model_path, env.model_url);
    text_laws::blank_is_white_space_alone(env.default_model_id);
    let profiles = models::default_profiles(env.default_model_id, env.model_path, env.model_url);
    let i = choose|i: int|
        0 <= i < profiles.len() && (#[trigger] profiles[i]).id == env.default_model_id;
    assert(models::with_finnish(profiles)[i] == profiles[i]);
}

/// Where a start does not store the configuration, it has changed nothing but the
/// form of the transcription settings.
pub proof fn what_is_not_stored_is_not_changed(
    stored: Option<(config::ConfigView, ConfigSections)>,
    env: settings::EnvView,
    fresh: Seq<char>,
)
    requires
        !config::must_store(stored, env, fresh),
    ensures
        stored matches Some((cfg, sections)) ==> {
            let loaded = config::loaded_config(stored, env, fresh);
            &&& loaded.mqtt == cfg.mqtt
            &&& loaded.webhooks == cfg.webhooks
            &&& loaded.logging == cfg.logging
            &&& loaded.models == cfg.models
            &&& loaded.teamspeak == cfg.teamspeak
        },
        stored is Some,
{
}

/// Where a start changes the models or the receiver's settings, it stores the
/// configuration.
pub proof fn what_is_changed_is_stored(
    cfg: config::ConfigView,
    sections: ConfigSections,
    env: settings::EnvView,
    fresh: Seq<char>,
)
    requires
        ({
            let loaded = config::loaded_config(Some((cfg, sections)), env, fresh);
            ||| loaded.models != cfg.models
            ||| loaded.teamspeak != cfg.teamspeak
            ||| !sections.models
            ||| !sections.transcription
            ||| !sections.teamspeak
        }),
    ensures
        config::must_store(Some((cfg, sections)), env, fresh),
{
}

/// A stored configuration has the sections whose keys it has.
pub proof fn sections_are_those_with_keys(keys: Seq<Seq<char>>)
    ensures
        config::sections_among(keys).models == keys.contains("models"@),
        config::sections_among(keys).transcription == keys.contains("transcription"@),
        config::sections_among(keys).teamspeak == keys.contains("teamspeak"@),
{
}

// ---------------------------------------------------------------------------
// Requests
// ---------------------------------------------------------------------------

/// Enabling or disabling the receiver sets that and keeps everything else;
/// choosing a channel sets its identifier and its path and keeps everything else;
/// making a model active sets that and keeps everything else; adding a model
/// changes the models alone, and the active one only where that is wanted.
pub proof fn requests_change_what_they_name(
    cfg: config::ConfigView,
    enabled: bool,
    channel: channels::ChannelView,
    id: Seq<char>,
    p: models::ProfileView,
    set_active: bool,
)
    ensures
        ({
            let n = requests::with_receiver(cfg, enabled);
            &&& n.teamspeak.enabled == enabled
            &&& n.teamspeak.server_address == cfg.teamspeak.server_address
            &&& n.teamspeak.server_password == cfg.teamspeak.server_password
            &&& n.teamspeak.nickname == cfg.teamspeak.nickname
            &&& n.teamspeak.identity == cfg.teamspeak.identity
            &&& n.teamspeak.channel_id == cfg.teamspeak.channel_id
            &&& n.teamspeak.channel_path == cfg.teamspeak.channel_path
            &&& n.teamspeak.channel_password == cfg.teamspeak.channel_password
            &&& n.teamspeak.reconnect_seconds == cfg.teamspeak.reconnect_seconds
            &&& same_but_for_the_receiver(n, cfg)
            &&& n.models == cfg.models
        }),
        ({
            let n = requests::with_channel(cfg, channel);
            &&& n.teamspeak.channel_id == Some(channel.id)
            &&& n.teamspeak.channel_path == channel.path
            &&& n.teamspeak.enabled == cfg.teamspeak.enabled
            &&& n.teamspeak.server_address == cfg.teamspeak.server_address
            &&& n.teamspeak.server_password == cfg.teamspeak.server_password
            &&& n.teamspeak.nickname == cfg.teamspeak.nickname
            &&& n.teamspeak.identity == cfg.teamspeak.identity
            &&& n.teamspeak.channel_password == cfg.teamspeak.channel_password
            &&& n.teamspeak.reconnect_seconds == cfg.teamspeak.reconnect_seconds
            &&& same_but_for_the_receiver(n, cfg)
            &&& n.models == cfg.models
        }),
        ({
            let n = requests::with_active_model(cfg, id);
            &&& n.models.active_model_id == id
            &&& n.models.profiles == cfg.models.profiles
            &&& n.teamspeak == cfg.teamspeak
            &&& same_but_for_the_receiver(n, cfg)
        }),
        ({
            let n = requests::with_model(cfg, p, set_active);
            &&& n.models.active_model_id == (if set_active {
                p.id
            } else {
                cfg.models.active_model_id
            })
            &&& n.teamspeak == cfg.teamspeak
            &&& same_but_for_the_receiver(n, cfg)
        }),
{
}

/// Whether two configurations have the same settings for delivery, the log and
/// transcription.
pub open spec fn same_but_for_the_receiver(a: config::ConfigView, b: config::ConfigView) -> bool {
    &&& a.mqtt == b.mqtt
    &&& a.webhooks == b.webhooks
    &&& a.logging == b.logging
    &&& a.transcription == b.transcription
}

/// The channel that is chosen is the first known one with the identifier.
pub proof fn chosen_channel_is_the_known_one(
    list: Seq<channels::ChannelView>,
    id: u64,
    i: int,
)
    requires
        0 <= i <= list.len(),
        forall|j: int| 0 <= j < i ==> (#[trigger] list[j]).id != id,
        i < list.len() ==> list[i].id == id,
    ensures
        i < list.len() ==> requests::first_channel(list, id) == Some(list[i]),
        i == list.len() ==> requests::first_channel(list, id) is None,
    decreases list.len(),
{
    if i > 0 {
        assert(list[0].id != id);
        let rest = list.drop_first();
        assert forall|j: int| 0 <= j < i - 1 implies (#[trigger] rest[j]).id != id by {
            assert(rest[j] == list[j + 1]);
        }
        chosen_channel_is_the_known_one(rest, id, i - 1);
    }
}

} // verus!
