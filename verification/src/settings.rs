//! The settings: what each part of the configuration holds, its defaults
//! and how it is brought into its proper form.

use vstd::prelude::*;

use crate::floats;
use crate::floats::{F32Bits, F64Bits};
use crate::identity;
use crate::text;

verus! {

// ---------------------------------------------------------------------------
// Logging
// ---------------------------------------------------------------------------

/// How much is logged.
#[derive(Debug)]
pub struct LoggingConfig {
    pub level: String,
    pub vad_debug: bool,
}

/// The contents of a [`LoggingConfig`].
#[verifier::ext_equal]
pub struct LoggingView {
    pub level: Seq<char>,
    pub vad_debug: bool,
}

impl View for LoggingConfig {
    type V = LoggingView;

    open spec fn view(&self) -> LoggingView {
        LoggingView { level: self.level@, vad_debug: self.vad_debug }
    }
}

impl Clone for LoggingConfig {
    fn clone(&self) -> (r: Self)
        ensures
            r@ == self@,
    {
        LoggingConfig { level: self.level.clone(), vad_debug: self.vad_debug }
    }
}

/// The log level where none is set.
pub fn default_log_level() -> (r: String)
    ensures
        r@ == "info"@,
{
    "info".to_owned()
}

/// The logging settings of a new configuration.
pub open spec fn default_logging() -> LoggingView {
    LoggingView { level: "info"@, vad_debug: false }
}

impl Default for LoggingConfig {
    fn default() -> (r: Self)
        ensures
            r@ == default_logging(),
    {
        LoggingConfig { level: default_log_level(), vad_debug: false }
    }
}

/// The log level that a text names, in any case and with outer white space;
/// `info` where it names none.
pub open spec fn level_of(level: Seq<char>) -> Seq<char> {
    let l = text::lowercase(text::trim(level));
    if l == "error"@ {
        "error"@
    } else if l == "warn"@ || l == "warning"@ {
        "warn"@
    } else if l == "debug"@ {
        "debug"@
    } else if l == "trace"@ {
        "trace"@
    } else {
        "info"@
    }
}

/// The log filter for a level: it holds for everything, and for the program.
pub fn log_filter_from_level(level: &str) -> (r: String)
    ensures
        r@ == level_of(level@) + ",audio2mqtt="@ + level_of(level@),
{
    let l = text::lowercase_str(text::trim_str(level));
    let normalized = if text::str_eq(l.as_str(), "error") {
        "error"
    } else if text::str_eq(l.as_str(), "warn") || text::str_eq(l.as_str(), "warning") {
        "warn"
    } else if text::str_eq(l.as_str(), "debug") {
        "debug"
    } else if text::str_eq(l.as_str(), "trace") {
        "trace"
    } else {
        "info"
    };
    text::concat3(normalized, ",audio2mqtt=", normalized)
}

// ---------------------------------------------------------------------------
// The environment
// ---------------------------------------------------------------------------

/// What the environment sets for the models and the transcription.
#[derive(Debug)]
pub struct EnvConfig {
    pub model_path: String,
    pub model_url: String,
    pub default_model_id: String,
    pub language: String,
    pub n_threads: i32,
    pub beam_size: i32,
    pub vad_threshold: F32Bits,
    pub min_segment_seconds: F64Bits,
    pub max_segment_seconds: F64Bits,
    pub silence_cut_seconds: F64Bits,
    pub pre_roll_seconds: F64Bits,
}

/// The contents of an [`EnvConfig`].
#[verifier::ext_equal]
pub struct EnvView {
    pub model_path: Seq<char>,
    pub model_url: Seq<char>,
    pub default_model_id: Seq<char>,
    pub transcription: TranscriptionView,
}

impl View for EnvConfig {
    type V = EnvView;

    open spec fn view(&self) -> EnvView {
        EnvView {
            model_path: self.model_path@,
            model_url: self.model_url@,
            default_model_id: self.default_model_id@,
            transcription: TranscriptionView {
                language: self.language@,
                n_threads: self.n_threads,
                beam_size: self.beam_size,
                vad_threshold: self.vad_threshold,
                min_segment_seconds: self.min_segment_seconds,
                max_segment_seconds: self.max_segment_seconds,
                silence_cut_seconds: self.silence_cut_seconds,
                pre_roll_seconds: self.pre_roll_seconds,
            },
        }
    }
}

/// A variable of the environment that the program reads.
#[derive(Clone, Copy, Debug, PartialEq, Eq, Structural)]
pub enum EnvVar {
    AsrBind,
    AdminBind,
    ModelPath,
    ModelUrl,
    DefaultModelId,
    Language,
    NThreads,
    BeamSize,
    VadThreshold,
    MinSegmentSeconds,
    MaxSegmentSeconds,
    SilenceCutSeconds,
    PreRollSeconds,
    ConfigPath,
    OutputJsonl,
    WebhookTimeoutMs,
    LogLevel,
}

/// The name of a variable.
pub open spec fn env_name(var: EnvVar) -> Seq<char> {
    match var {
        EnvVar::AsrBind => "ASR_BIND"@,
        EnvVar::AdminBind => "ADMIN_BIND"@,
        EnvVar::ModelPath => "MODEL_PATH"@,
        EnvVar::ModelUrl => "MODEL_URL"@,
        EnvVar::DefaultModelId => "DEFAULT_MODEL_ID"@,
        EnvVar::Language => "LANGUAGE"@,
        EnvVar::NThreads => "N_THREADS"@,
        EnvVar::BeamSize => "BEAM_SIZE"@,
        EnvVar::VadThreshold => "VAD_THRESHOLD"@,
        EnvVar::MinSegmentSeconds => "MIN_SEGMENT_SECONDS"@,
        EnvVar::MaxSegmentSeconds => "MAX_SEGMENT_SECONDS"@,
        EnvVar::SilenceCutSeconds => "SILENCE_CUT_SECONDS"@,
        EnvVar::PreRollSeconds => "PRE_ROLL_SECONDS"@,
        EnvVar::ConfigPath => "CONFIG_PATH"@,
        EnvVar::OutputJsonl => "OUTPUT_JSONL"@,
        EnvVar::WebhookTimeoutMs => "WEBHOOK_TIMEOUT_MS"@,
        EnvVar::LogLevel => "AUDIO2MQTT_LOG_LEVEL"@,
    }
}

/// The value of a variable that is not set.
pub open spec fn env_default(var: EnvVar) -> Seq<char> {
    match var {
        EnvVar::AsrBind => "0.0.0.0:15000"@,
        EnvVar::AdminBind => "0.0.0.0:8080"@,
        EnvVar::ModelPath => "/models/ggml-large-v3.bin"@,
        EnvVar::ModelUrl =>
            "https://huggingface.co/ggerganov/whisper.cpp/resolve/main/ggml-large-v3.bin"@,
        EnvVar::DefaultModelId => "large-v3"@,
        EnvVar::Language => "fi"@,
        EnvVar::NThreads => "8"@,
        EnvVar::BeamSize => "3"@,
        EnvVar::VadThreshold => "0.55"@,
        EnvVar::MinSegmentSeconds => "1.0"@,
        EnvVar::MaxSegmentSeconds => "30.0"@,
        EnvVar::SilenceCutSeconds => "1.2"@,
        EnvVar::PreRollSeconds => "0.4"@,
        EnvVar::ConfigPath => "/config/config.json"@,
        EnvVar::OutputJsonl => "/output/transcripts.jsonl"@,
        EnvVar::WebhookTimeoutMs => "3000"@,
        EnvVar::LogLevel => "info"@,
    }
}

impl EnvVar {
    /// The name of the variable.
    pub fn name(self) -> (r: String)
        ensures
            r@ == env_name(self),
    {
        let name = match self {
            EnvVar::AsrBind => "ASR_BIND",
            EnvVar::AdminBind => "ADMIN_BIND",
            EnvVar::ModelPath => "MODEL_PATH",
            EnvVar::ModelUrl => "MODEL_URL",
            EnvVar::DefaultModelId => "DEFAULT_MODEL_ID",
            EnvVar::Language => "LANGUAGE",
            EnvVar::NThreads => "N_THREADS",
            EnvVar::BeamSize => "BEAM_SIZE",
            EnvVar::VadThreshold => "VAD_THRESHOLD",
            EnvVar::MinSegmentSeconds => "MIN_SEGMENT_SECONDS",
            EnvVar::MaxSegmentSeconds => "MAX_SEGMENT_SECONDS",
            EnvVar::SilenceCutSeconds => "SILENCE_CUT_SECONDS",
            EnvVar::PreRollSeconds => "PRE_ROLL_SECONDS",
            EnvVar::ConfigPath => "CONFIG_PATH",
            EnvVar::OutputJsonl => "OUTPUT_JSONL",
            EnvVar::WebhookTimeoutMs => "WEBHOOK_TIMEOUT_MS",
            EnvVar::LogLevel => "AUDIO2MQTT_LOG_LEVEL",
        };
        name.to_owned()
    }

    /// The value of the variable where it is not set.
    pub fn default_value(self) -> (r: String)
        ensures
            r@ == env_default(self),
    {
        let value = match self {
            EnvVar::AsrBind => "0.0.0.0:15000",
            EnvVar::AdminBind => "0.0.0.0:8080",
            EnvVar::ModelPath => "/models/ggml-large-v3.bin",
            EnvVar::ModelUrl =>
                "https://huggingface.co/ggerganov/whisper.cpp/resolve/main/ggml-large-v3.bin",
            EnvVar::DefaultModelId => "large-v3",
            EnvVar::Language => "fi",
            EnvVar::NThreads => "8",
            EnvVar::BeamSize => "3",
            EnvVar::VadThreshold => "0.55",
            EnvVar::MinSegmentSeconds => "1.0",
            EnvVar::MaxSegmentSeconds => "30.0",
            EnvVar::SilenceCutSeconds => "1.2",
            EnvVar::PreRollSeconds => "0.4",
            EnvVar::ConfigPath => "/config/config.json",
            EnvVar::OutputJsonl => "/output/transcripts.jsonl",
            EnvVar::WebhookTimeoutMs => "3000",
            EnvVar::LogLevel => "info",
        };
        value.to_owned()
    }
}

/// What a variable stands for, given the value that the environment has for
/// it: that value, else the default.
pub fn env_or(var: EnvVar, value: Option<String>) -> (r: String)
    ensures
        r@ == (match value {
            Some(v) => v@,
            None => env_default(var),
        }),
{
    match value {
        Some(v) => v,
        None => var.default_value(),
    }
}

// ---------------------------------------------------------------------------
// Transcription
// ---------------------------------------------------------------------------

/// How speech is found and transcribed.
#[derive(Debug)]
pub struct TranscriptionConfig {
    pub language: String,
    pub n_threads: i32,
    pub beam_size: i32,
    pub vad_threshold: F32Bits,
    pub min_segment_seconds: F64Bits,
    pub max_segment_seconds: F64Bits,
    pub silence_cut_seconds: F64Bits,
    pub pre_roll_seconds: F64Bits,
}

/// The contents of a [`TranscriptionConfig`].
#[verifier::ext_equal]
pub struct TranscriptionView {
    pub language: Seq<char>,
    pub n_threads: i32,
    pub beam_size: i32,
    pub vad_threshold: F32Bits,
    pub min_segment_seconds: F64Bits,
    pub max_segment_seconds: F64Bits,
    pub silence_cut_seconds: F64Bits,
    pub pre_roll_seconds: F64Bits,
}

impl View for TranscriptionConfig {
    type V = TranscriptionView;

    open spec fn view(&self) -> TranscriptionView {
        TranscriptionView {
            language: self.language@,
            n_threads: self.n_threads,
            beam_size: self.beam_size,
            vad_threshold: self.vad_threshold,
            min_segment_seconds: self.min_segment_seconds,
            max_segment_seconds: self.max_segment_seconds,
            silence_cut_seconds: self.silence_cut_seconds,
            pre_roll_seconds: self.pre_roll_seconds,
        }
    }
}

impl Clone for TranscriptionConfig {
    fn clone(&self) -> (r: Self)
        ensures
            r@ == self@,
    {
        TranscriptionConfig {
            language: self.language.clone(),
            n_threads: self.n_threads,
            beam_size: self.beam_size,
            vad_threshold: self.vad_threshold,
            min_segment_seconds: self.min_segment_seconds,
            max_segment_seconds: self.max_segment_seconds,
            silence_cut_seconds: self.silence_cut_seconds,
            pre_roll_seconds: self.pre_roll_seconds,
        }
    }
}

/// The bit pattern of 0.
pub const F32_ZERO: u32 = 0;

/// The bit pattern of 1.
pub const F32_ONE: u32 = 0x3f80_0000;

/// The bit pattern of 0.55.
pub const DEFAULT_VAD_THRESHOLD: u32 = 0x3f0c_cccd;

/// The bit pattern of 1.
pub const DEFAULT_MIN_SEGMENT_SECONDS: u64 = 0x3ff0_0000_0000_0000;

/// The bit pattern of 30.
pub const DEFAULT_MAX_SEGMENT_SECONDS: u64 = 0x403e_0000_0000_0000;

/// The bit pattern of 1.2.
pub const DEFAULT_SILENCE_CUT_SECONDS: u64 = 0x3ff3_3333_3333_3333;

/// The bit pattern of 0.4.
pub const DEFAULT_PRE_ROLL_SECONDS: u64 = 0x3fd9_9999_9999_999a;

/// The bit pattern of 0.1.
pub const LEAST_MIN_SEGMENT_SECONDS: u64 = 0x3fb9_9999_9999_999a;

/// The bit pattern of 0.05.
pub const LEAST_SILENCE_CUT_SECONDS: u64 = 0x3fa9_9999_9999_999a;

/// The bit pattern of 0.
pub const LEAST_PRE_ROLL_SECONDS: u64 = 0;

/// The language where none is set.
pub fn default_language() -> (r: String)
    ensures
        r@ == "fi"@,
{
    "fi".to_owned()
}

/// The number of threads where none is set.
pub fn default_n_threads() -> (r: i32)
    ensures
        r == 8,
{
    8
}

/// The beam size where none is set.
pub fn default_beam_size() -> (r: i32)
    ensures
        r == 3,
{
    3
}

/// The speech threshold where none is set.
pub fn default_vad_threshold() -> (r: F32Bits)
    ensures
        r == floats::f32_bits(DEFAULT_VAD_THRESHOLD),
{
    F32Bits { bits: DEFAULT_VAD_THRESHOLD }
}

/// The least length of a segment where none is set.
pub fn default_min_segment_seconds() -> (r: F64Bits)
    ensures
        r == floats::f64_bits(DEFAULT_MIN_SEGMENT_SECONDS),
{
    F64Bits { bits: DEFAULT_MIN_SEGMENT_SECONDS }
}

/// The greatest length of a segment where none is set.
pub fn default_max_segment_seconds() -> (r: F64Bits)
    ensures
        r == floats::f64_bits(DEFAULT_MAX_SEGMENT_SECONDS),
{
    F64Bits { bits: DEFAULT_MAX_SEGMENT_SECONDS }
}

/// The silence that ends a segment where none is set.
pub fn default_silence_cut_seconds() -> (r: F64Bits)
    ensures
        r == floats::f64_bits(DEFAULT_SILENCE_CUT_SECONDS),
{
    F64Bits { bits: DEFAULT_SILENCE_CUT_SECONDS }
}

/// The audio kept from before speech where nothing is set.
pub fn default_pre_roll_seconds() -> (r: F64Bits)
    ensures
        r == floats::f64_bits(DEFAULT_PRE_ROLL_SECONDS),
{
    F64Bits { bits: DEFAULT_PRE_ROLL_SECONDS }
}

/// The transcription settings of a new configuration.
pub open spec fn default_transcription() -> TranscriptionView {
    TranscriptionView {
        language: "fi"@,
        n_threads: 8,
        beam_size: 3,
        vad_threshold: floats::f32_bits(DEFAULT_VAD_THRESHOLD),
        min_segment_seconds: floats::f64_bits(DEFAULT_MIN_SEGMENT_SECONDS),
        max_segment_seconds: floats::f64_bits(DEFAULT_MAX_SEGMENT_SECONDS),
        silence_cut_seconds: floats::f64_bits(DEFAULT_SILENCE_CUT_SECONDS),
        pre_roll_seconds: floats::f64_bits(DEFAULT_PRE_ROLL_SECONDS),
    }
}

impl Default for TranscriptionConfig {
    fn default() -> (r: Self)
        ensures
            r@ == default_transcription(),
    {
        TranscriptionConfig {
            language: default_language(),
            n_threads: default_n_threads(),
            beam_size: default_beam_size(),
            vad_threshold: default_vad_threshold(),
            min_segment_seconds: default_min_segment_seconds(),
            max_segment_seconds: default_max_segment_seconds(),
            silence_cut_seconds: default_silence_cut_seconds(),
            pre_roll_seconds: default_pre_roll_seconds(),
        }
    }
}

/// `s` without outer white space, or `otherwise` where that is nothing.
pub open spec fn trimmed_or(s: Seq<char>, otherwise: Seq<char>) -> Seq<char> {
    if text::trim(s).len() == 0 {
        otherwise
    } else {
        text::trim(s)
    }
}

/// `s` without outer white space, or `otherwise` where that is nothing.
pub fn trim_or(s: &str, otherwise: &str) -> (r: String)
    ensures
        r@ == trimmed_or(s@, otherwise@),
{
    let t = text::trim_str(s);
    if t.is_empty() {
        otherwise.to_owned()
    } else {
        t.to_owned()
    }
}

/// `a` where it is at least 1, else 1.
pub open spec fn at_least_one(a: i32) -> i32 {
    if a < 1 {
        1
    } else {
        a
    }
}

/// The transcription settings in their proper form: a language is set, counts
/// are positive, numbers are finite and in their ranges, and the greatest
/// segment length is not less than the least one.
pub open spec fn transcription_normalized(t: TranscriptionView) -> TranscriptionView {
    let min = floats::f64_greater(
        floats::f64_finite_or(t.min_segment_seconds, floats::f64_bits(DEFAULT_MIN_SEGMENT_SECONDS)),
        floats::f64_bits(LEAST_MIN_SEGMENT_SECONDS),
    );
    TranscriptionView {
        language: trimmed_or(t.language, "fi"@),
        n_threads: at_least_one(t.n_threads),
        beam_size: at_least_one(t.beam_size),
        vad_threshold: floats::f32_clamped(
            floats::f32_finite_or(t.vad_threshold, floats::f32_bits(DEFAULT_VAD_THRESHOLD)),
            floats::f32_bits(F32_ZERO),
            floats::f32_bits(F32_ONE),
        ),
        min_segment_seconds: min,
        max_segment_seconds: floats::f64_greater(
            floats::f64_finite_or(t.max_segment_seconds, floats::f64_bits(DEFAULT_MAX_SEGMENT_SECONDS)),
            min,
        ),
        silence_cut_seconds: floats::f64_greater(
            floats::f64_finite_or(t.silence_cut_seconds, floats::f64_bits(DEFAULT_SILENCE_CUT_SECONDS)),
            floats::f64_bits(LEAST_SILENCE_CUT_SECONDS),
        ),
        pre_roll_seconds: floats::f64_greater(
            floats::f64_finite_or(t.pre_roll_seconds, floats::f64_bits(DEFAULT_PRE_ROLL_SECONDS)),
            floats::f64_bits(LEAST_PRE_ROLL_SECONDS),
        ),
    }
}

fn max_one(a: i32) -> (r: i32)
    ensures
        r == at_least_one(a),
{
    if a < 1 {
        1
    } else {
        a
    }
}

impl TranscriptionConfig {
    /// The settings that the environment gives, in their proper form.
    pub fn from_env(env: &EnvConfig) -> (r: Self)
        ensures
            r@ == transcription_normalized(env@.transcription),
    {
        let settings = TranscriptionConfig {
            language: env.language.clone(),
            n_threads: env.n_threads,
            beam_size: env.beam_size,
            vad_threshold: env.vad_threshold,
            min_segment_seconds: env.min_segment_seconds,
            max_segment_seconds: env.max_segment_seconds,
            silence_cut_seconds: env.silence_cut_seconds,
            pre_roll_seconds: env.pre_roll_seconds,
        };
        settings.normalized()
    }

    /// The settings in their proper form.
    pub fn normalized(&self) -> (r: Self)
        ensures
            r@ == transcription_normalized(self@),
    {
        let min_segment_seconds = floats::max_f64(
            floats::finite_f64_or(self.min_segment_seconds, default_min_segment_seconds()),
            F64Bits { bits: LEAST_MIN_SEGMENT_SECONDS },
        );
        TranscriptionConfig {
            language: trim_or(self.language.as_str(), "fi"),
            n_threads: max_one(self.n_threads),
            beam_size: max_one(self.beam_size),
            vad_threshold: floats::clamp_f32(
                floats::finite_f32_or(self.vad_threshold, default_vad_threshold()),
                F32Bits { bits: F32_ZERO },
                F32Bits { bits: F32_ONE },
            ),
            min_segment_seconds,
            max_segment_seconds: floats::max_f64(
                floats::finite_f64_or(self.max_segment_seconds, default_max_segment_seconds()),
                min_segment_seconds,
            ),
            silence_cut_seconds: floats::max_f64(
                floats::finite_f64_or(self.silence_cut_seconds, default_silence_cut_seconds()),
                F64Bits { bits: LEAST_SILENCE_CUT_SECONDS },
            ),
            pre_roll_seconds: floats::max_f64(
                floats::finite_f64_or(self.pre_roll_seconds, default_pre_roll_seconds()),
                F64Bits { bits: LEAST_PRE_ROLL_SECONDS },
            ),
        }
    }
}

// ---------------------------------------------------------------------------
// TeamSpeak
// ---------------------------------------------------------------------------

/// How the TeamSpeak receiver connects.
#[derive(Debug)]
pub struct TeamSpeakConfig {
    pub enabled: bool,
    pub server_address: String,
    pub server_password: Option<String>,
    pub nickname: String,
    pub identity: String,
    pub channel_id: Option<u64>,
    pub channel_path: String,
    pub channel_password: Option<String>,
    pub reconnect_seconds: u64,
}

/// The contents of a [`TeamSpeakConfig`].
#[verifier::ext_equal]
pub struct TeamSpeakView {
    pub enabled: bool,
    pub server_address: Seq<char>,
    pub server_password: Option<Seq<char>>,
    pub nickname: Seq<char>,
    pub identity: Seq<char>,
    pub channel_id: Option<u64>,
    pub channel_path: Seq<char>,
    pub channel_password: Option<Seq<char>>,
    pub reconnect_seconds: u64,
}

impl View for TeamSpeakConfig {
    type V = TeamSpeakView;

    open spec fn view(&self) -> TeamSpeakView {
        TeamSpeakView {
            enabled: self.enabled,
            server_address: self.server_address@,
            server_password: text::opt_view(self.server_password),
            nickname: self.nickname@,
            identity: self.identity@,
            channel_id: self.channel_id,
            channel_path: self.channel_path@,
            channel_password: text::opt_view(self.channel_password),
            reconnect_seconds: self.reconnect_seconds,
        }
    }
}

impl Clone for TeamSpeakConfig {
    fn clone(&self) -> (r: Self)
        ensures
            r@ == self@,
    {
        TeamSpeakConfig {
            enabled: self.enabled,
            server_address: self.server_address.clone(),
            server_password: text::clone_opt(&self.server_password),
            nickname: self.nickname.clone(),
            identity: self.identity.clone(),
            channel_id: self.channel_id,
            channel_path: self.channel_path.clone(),
            channel_password: text::clone_opt(&self.channel_password),
            reconnect_seconds: self.reconnect_seconds,
        }
    }
}

/// The server where none is set.
pub fn default_teamspeak_server_address() -> (r: String)
    ensures
        r@ == "localhost:9987"@,
{
    "localhost:9987".to_owned()
}

/// The nickname where none is set.
pub fn default_teamspeak_nickname() -> (r: String)
    ensures
        r@ == "audio2mqtt"@,
{
    "audio2mqtt".to_owned()
}

/// The seconds between two attempts to connect where they are not set.
pub fn default_teamspeak_reconnect_seconds() -> (r: u64)
    ensures
        r == 10,
{
    10
}

/// The TeamSpeak settings of a new configuration.
pub open spec fn default_teamspeak() -> TeamSpeakView {
    TeamSpeakView {
        enabled: false,
        server_address: "localhost:9987"@,
        server_password: None,
        nickname: "audio2mqtt"@,
        identity: Seq::empty(),
        channel_id: None,
        channel_path: Seq::empty(),
        channel_password: None,
        reconnect_seconds: 10,
    }
}

impl Default for TeamSpeakConfig {
    fn default() -> (r: Self)
        ensures
            r@ == default_teamspeak(),
    {
        TeamSpeakConfig {
            enabled: false,
            server_address: default_teamspeak_server_address(),
            server_password: None,
            nickname: default_teamspeak_nickname(),
            identity: String::new(),
            channel_id: None,
            channel_path: String::new(),
            channel_password: None,
            reconnect_seconds: default_teamspeak_reconnect_seconds(),
        }
    }
}

/// A secret without outer white space; a blank one is none.
pub open spec fn secret_of(value: Option<Seq<char>>) -> Option<Seq<char>> {
    match value {
        Some(s) => if text::trim(s).len() == 0 {
            None
        } else {
            Some(text::trim(s))
        },
        None => None,
    }
}

/// A secret without outer white space; a blank one is none.
pub fn normalize_optional_secret(value: Option<&str>) -> (r: Option<String>)
    ensures
        text::opt_view(r) == secret_of(text::opt_str_view(value)),
{
    match value {
        Some(s) => {
            let t = text::trim_str(s);
            if t.is_empty() {
                None
            } else {
                Some(t.to_owned())
            }
        },
        None => None,
    }
}

/// `n` moved into the range of seconds between two attempts to connect.
pub open spec fn reconnect_clamped(n: u64) -> u64 {
    if n < 1 {
        1
    } else if n > 300 {
        300
    } else {
        n
    }
}

/// The TeamSpeak settings in their proper form; `fresh` is the identity where
/// none is set.
pub open spec fn teamspeak_normalized(t: TeamSpeakView, fresh: Seq<char>) -> TeamSpeakView {
    TeamSpeakView {
        enabled: t.enabled,
        server_address: trimmed_or(t.server_address, "localhost:9987"@),
        server_password: secret_of(t.server_password),
        nickname: trimmed_or(t.nickname, "audio2mqtt"@),
        identity: trimmed_or(t.identity, fresh),
        channel_id: t.channel_id,
        channel_path: text::trim_slashes(text::trim(t.channel_path)),
        channel_password: secret_of(t.channel_password),
        reconnect_seconds: reconnect_clamped(t.reconnect_seconds),
    }
}

/// Whether `fresh` serves as the identity for the settings `t`: they have
/// one, or it is a new one.
pub open spec fn is_identity_for(t: TeamSpeakView, fresh: Seq<char>) -> bool {
    text::trim(t.identity).len() == 0 ==> identity::is_new_identity_text(fresh)
}

impl TeamSpeakConfig {
    /// The settings in their proper form, with `fresh` as the identity where
    /// none is set.
    pub fn normalized_with(&self, fresh: &str) -> (r: Self)
        ensures
            r@ == teamspeak_normalized(self@, fresh@),
    {
        TeamSpeakConfig {
            enabled: self.enabled,
            server_address: trim_or(self.server_address.as_str(), "localhost:9987"),
            server_password: normalize_optional_secret(text::as_opt_str(&self.server_password)),
            nickname: trim_or(self.nickname.as_str(), "audio2mqtt"),
            identity: trim_or(self.identity.as_str(), fresh),
            channel_id: self.channel_id,
            channel_path: text::trim_slashes_str(text::trim_str(self.channel_path.as_str())).to_owned(),
            channel_password: normalize_optional_secret(text::as_opt_str(&self.channel_password)),
            reconnect_seconds: if self.reconnect_seconds < 1 {
                1
            } else if self.reconnect_seconds > 300 {
                300
            } else {
                self.reconnect_seconds
            },
        }
    }

    /// An identity for the settings: a new one where none is set.
    pub fn fresh_identity(&self) -> (r: String)
        ensures
            is_identity_for(self@, r@),
    {
        if text::is_blank(self.identity.as_str()) {
            identity::create_teamspeak_identity_string()
        } else {
            String::new()
        }
    }

    /// The settings in their proper form, with a new identity where none is
    /// set.
    pub fn normalized(&self) -> (r: Self)
        ensures
            r@ == teamspeak_normalized(self@, r@.identity),
            is_identity_for(self@, r@.identity),
    {
        let fresh = self.fresh_identity();
        self.normalized_with(fresh.as_str())
    }

    /// Whether two settings are the same.
    pub fn same(&self, other: &TeamSpeakConfig) -> (b: bool)
        ensures
            b == (self@ == other@),
    {
        self.enabled == other.enabled && self.server_address == other.server_address
            && text::opt_eq(&self.server_password, &other.server_password) && self.nickname
            == other.nickname && self.identity == other.identity && self.channel_id
            == other.channel_id && self.channel_path == other.channel_path && text::opt_eq(
            &self.channel_password,
            &other.channel_password,
        ) && self.reconnect_seconds == other.reconnect_seconds
    }
}

// ---------------------------------------------------------------------------
// MQTT and webhooks
// ---------------------------------------------------------------------------

/// How transcripts are published over MQTT.
#[derive(Debug)]
pub struct MqttConfig {
    pub enabled: bool,
    pub host: String,
    pub port: u16,
    pub username: Option<String>,
    pub password: Option<String>,
    pub client_id: String,
    pub topic: String,
    pub qos: u8,
}

/// The contents of an [`MqttConfig`].
#[verifier::ext_equal]
pub struct MqttView {
    pub enabled: bool,
    pub host: Seq<char>,
    pub port: u16,
    pub username: Option<Seq<char>>,
    pub password: Option<Seq<char>>,
    pub client_id: Seq<char>,
    pub topic: Seq<char>,
    pub qos: u8,
}

impl View for MqttConfig {
    type V = MqttView;

    open spec fn view(&self) -> MqttView {
        MqttView {
            enabled: self.enabled,
            host: self.host@,
            port: self.port,
            username: text::opt_view(self.username),
            password: text::opt_view(self.password),
            client_id: self.client_id@,
            topic: self.topic@,
            qos: self.qos,
        }
    }
}

impl Clone for MqttConfig {
    fn clone(&self) -> (r: Self)
        ensures
            r@ == self@,
    {
        MqttConfig {
            enabled: self.enabled,
            host: self.host.clone(),
            port: self.port,
            username: text::clone_opt(&self.username),
            password: text::clone_opt(&self.password),
            client_id: self.client_id.clone(),
            topic: self.topic.clone(),
            qos: self.qos,
        }
    }
}

/// The MQTT settings of a new configuration.
pub open spec fn default_mqtt() -> MqttView {
    MqttView {
        enabled: false,
        host: "host.docker.internal"@,
        port: 1883,
        username: None,
        password: None,
        client_id: "audio2mqtt"@,
        topic: "audio2mqtt/transcripts"@,
        qos: 1,
    }
}

impl Default for MqttConfig {
    fn default() -> (r: Self)
        ensures
            r@ == default_mqtt(),
    {
        MqttConfig {
            enabled: false,
            host: "host.docker.internal".to_owned(),
            port: 1883,
            username: None,
            password: None,
            client_id: "audio2mqtt".to_owned(),
            topic: "audio2mqtt/transcripts".to_owned(),
            qos: 1,
        }
    }
}

/// An address to which transcripts are posted.
#[derive(Debug)]
pub struct WebhookConfig {
    pub name: String,
    pub enabled: bool,
    pub url: String,
    pub bearer_token: Option<String>,
}

/// The contents of a [`WebhookConfig`].
#[verifier::ext_equal]
pub struct WebhookView {
    pub name: Seq<char>,
    pub enabled: bool,
    pub url: Seq<char>,
    pub bearer_token: Option<Seq<char>>,
}

impl View for WebhookConfig {
    type V = WebhookView;

    open spec fn view(&self) -> WebhookView {
        WebhookView {
            name: self.name@,
            enabled: self.enabled,
            url: self.url@,
            bearer_token: text::opt_view(self.bearer_token),
        }
    }
}

impl Clone for WebhookConfig {
    fn clone(&self) -> (r: Self)
        ensures
            r@ == self@,
    {
        WebhookConfig {
            name: self.name.clone(),
            enabled: self.enabled,
            url: self.url.clone(),
            bearer_token: text::clone_opt(&self.bearer_token),
        }
    }
}

/// The contents of a list of webhooks.
pub open spec fn webhook_views(hooks: Seq<WebhookConfig>) -> Seq<WebhookView> {
    hooks.map_values(|h: WebhookConfig| h@)
}

/// A copy of a list of webhooks.
pub fn clone_webhooks(hooks: &Vec<WebhookConfig>) -> (r: Vec<WebhookConfig>)
    ensures
        webhook_views(r@) == webhook_views(hooks@),
{
    let mut out: Vec<WebhookConfig> = Vec::new();
    for i in 0..hooks.len()
        invariant
            out@.len() == i,
            forall|j: int| 0 <= j < i ==> #[trigger] out@[j]@ == hooks@[j]@,
    {
        out.push(hooks[i].clone());
    }
    assert(webhook_views(out@) =~= webhook_views(hooks@));
    out
}

/// The value of a switch in a request that leaves it out.
pub fn default_true() -> (r: bool)
    ensures
        r,
{
    true
}

} // verus!
