//! Transcription on request: the audio of a REST request, its job, and the
//! answer.

use vstd::prelude::*;

use crate::audio;
use crate::audio::MixedSample;
use crate::encoding;
use crate::jobs;
use crate::jobs::Timestamp;
use crate::jobs::TranscribeJob;
use crate::jobs::SAMPLE_RATE;
use crate::json;
use crate::json::JsonValue;
use crate::replies;
use crate::text;
use crate::wav;
use crate::wav::WavError;

verus! {

// ---------------------------------------------------------------------------
// Requests
// ---------------------------------------------------------------------------

/// The audio of a request.
#[derive(Debug)]
pub struct RestAudioRequest {
    pub format: String,
    pub encoding: String,
    pub data: String,
    pub sample_rate: Option<usize>,
    pub channels: Option<usize>,
}

/// The contents of a [`RestAudioRequest`].
#[verifier::ext_equal]
pub struct RequestView {
    pub format: Seq<char>,
    pub encoding: Seq<char>,
    pub data: Seq<char>,
    pub sample_rate: Option<usize>,
    pub channels: Option<usize>,
}

impl View for RestAudioRequest {
    type V = RequestView;

    open spec fn view(&self) -> RequestView {
        RequestView {
            format: self.format@,
            encoding: self.encoding@,
            data: self.data@,
            sample_rate: self.sample_rate,
            channels: self.channels,
        }
    }
}

/// Audio taken from a request, mixed to one channel, and what the request said
/// of it.
#[derive(Debug)]
pub struct DecodedAudio {
    pub samples: Vec<MixedSample>,
    pub sample_rate: usize,
    pub channels: usize,
    pub format: String,
    pub encoding: String,
}

/// The contents of a [`DecodedAudio`].
#[verifier::ext_equal]
pub struct DecodedView {
    pub samples: Seq<MixedSample>,
    pub sample_rate: usize,
    pub channels: usize,
    pub format: Seq<char>,
    pub encoding: Seq<char>,
}

impl View for DecodedAudio {
    type V = DecodedView;

    open spec fn view(&self) -> DecodedView {
        DecodedView {
            samples: self.samples@,
            sample_rate: self.sample_rate,
            channels: self.channels,
            format: self.format@,
            encoding: self.encoding@,
        }
    }
}

/// Why the audio of a request is not taken.
#[derive(Debug)]
pub enum RestAudioError {
    /// The encoding is not Base64.
    Encoding(String),
    /// The data is no Base64 text.
    Data,
    /// Raw PCM has another sample rate.
    SampleRate(usize),
    /// Raw PCM has more or fewer channels than one.
    Channels(usize),
    /// Raw PCM ends in half a sample.
    OddLength,
    /// The WAV file is not taken.
    Wav(WavError),
    /// The format is neither WAV nor raw PCM.
    Format(String),
}

/// The contents of a [`RestAudioError`].
#[verifier::ext_equal]
pub enum AudioErrorView {
    Encoding(Seq<char>),
    Data,
    SampleRate(usize),
    Channels(usize),
    OddLength,
    Wav(WavError),
    Format(Seq<char>),
}

impl View for RestAudioError {
    type V = AudioErrorView;

    open spec fn view(&self) -> AudioErrorView {
        match self {
            RestAudioError::Encoding(s) => AudioErrorView::Encoding(s@),
            RestAudioError::Data => AudioErrorView::Data,
            RestAudioError::SampleRate(n) => AudioErrorView::SampleRate(*n),
            RestAudioError::Channels(n) => AudioErrorView::Channels(*n),
            RestAudioError::OddLength => AudioErrorView::OddLength,
            RestAudioError::Wav(e) => AudioErrorView::Wav(*e),
            RestAudioError::Format(s) => AudioErrorView::Format(s@),
        }
    }
}

/// The message of an error.
pub open spec fn audio_error_text(error: AudioErrorView) -> Seq<char> {
    match error {
        AudioErrorView::Encoding(s) => "unsupported audio.encoding '"@ + s
            + "'; expected 'base64'"@,
        AudioErrorView::Data => "decoding base64 audio.data"@,
        AudioErrorView::SampleRate(n) => "unsupported sample_rate "@ + text::decimal(n as nat)
            + "; expected 16000"@,
        AudioErrorView::Channels(n) => "unsupported channels "@ + text::decimal(n as nat)
            + "; expected 1"@,
        AudioErrorView::OddLength => "pcm_s16le byte length must be divisible by 2"@,
        AudioErrorView::Wav(e) => wav::wav_error_text(e),
        AudioErrorView::Format(s) => "unsupported audio.format '"@ + s
            + "'; expected 'wav' or 'pcm_s16le'"@,
    }
}

impl RestAudioError {
    /// The message of the error.
    pub fn message(&self) -> (r: String)
        ensures
            r@ == audio_error_text(self@),
    {
        match self {
            RestAudioError::Encoding(s) => text::concat3(
                "unsupported audio.encoding '",
                s.as_str(),
                "'; expected 'base64'",
            ),
            RestAudioError::Data => "decoding base64 audio.data".to_owned(),
            RestAudioError::SampleRate(n) => text::concat3(
                "unsupported sample_rate ",
                text::decimal_string(*n as u64).as_str(),
                "; expected 16000",
            ),
            RestAudioError::Channels(n) => text::concat3(
                "unsupported channels ",
                text::decimal_string(*n as u64).as_str(),
                "; expected 1",
            ),
            RestAudioError::OddLength => "pcm_s16le byte length must be divisible by 2".to_owned(),
            RestAudioError::Wav(e) => e.message(),
            RestAudioError::Format(s) => text::concat3(
                "unsupported audio.format '",
                s.as_str(),
                "'; expected 'wav' or 'pcm_s16le'",
            ),
        }
    }
}

// ---------------------------------------------------------------------------
// Decoding
// ---------------------------------------------------------------------------

/// A number, or another where there is none.
pub open spec fn number_or(n: Option<usize>, otherwise: usize) -> usize {
    match n {
        Some(m) => m,
        None => otherwise,
    }
}

/// What the bytes of raw PCM decode to.
pub open spec fn decoded_pcm(
    bytes: Seq<u8>,
    sample_rate: Option<usize>,
    channels: Option<usize>,
    encoding: Seq<char>,
) -> Result<DecodedView, AudioErrorView> {
    let rate = number_or(sample_rate, SAMPLE_RATE);
    let count = number_or(channels, 1);
    if rate != SAMPLE_RATE {
        Err(AudioErrorView::SampleRate(rate))
    } else if count != 1 {
        Err(AudioErrorView::Channels(count))
    } else if bytes.len() % 2 != 0 {
        Err(AudioErrorView::OddLength)
    } else {
        Ok(
            DecodedView {
                samples: audio::unmixed(audio::pcm_samples(bytes)),
                sample_rate: SAMPLE_RATE,
                channels: 1,
                format: "pcm_s16le"@,
                encoding,
            },
        )
    }
}

/// What the bytes of a file decode to, given what the file reads as.
pub open spec fn decoded_file(
    read: Result<(Seq<MixedSample>, u16), WavError>,
    encoding: Seq<char>,
) -> Result<DecodedView, AudioErrorView> {
    match read {
        Ok((samples, channels)) => Ok(
            DecodedView {
                samples,
                sample_rate: SAMPLE_RATE,
                channels: channels as usize,
                format: "wav"@,
                encoding,
            },
        ),
        Err(e) => Err(AudioErrorView::Wav(e)),
    }
}

/// Whether the name is one of raw PCM.
pub open spec fn names_pcm(format: Seq<char>) -> bool {
    format == "pcm_s16le"@ || format == "s16le"@
}

/// What the audio of a request decodes to.
pub open spec fn decoded_request(req: RequestView) -> Result<DecodedView, AudioErrorView> {
    let format = text::lowercase(text::trim(req.format));
    let encoding = text::lowercase(text::trim(req.encoding));
    if encoding != "base64"@ {
        Err(AudioErrorView::Encoding(req.encoding))
    } else {
        match encoding::base64_bytes(text::trim(req.data)) {
            None => Err(AudioErrorView::Data),
            Some(bytes) => if names_pcm(format) {
                decoded_pcm(bytes, req.sample_rate, req.channels, encoding)
            } else if format == "wav"@ {
                decoded_file(wav::decoded_wav(bytes), encoding)
            } else {
                Err(AudioErrorView::Format(format))
            },
        }
    }
}

/// The contents of a decoding result.
pub open spec fn decoding_view(r: Result<DecodedAudio, RestAudioError>) -> Result<
    DecodedView,
    AudioErrorView,
> {
    match r {
        Ok(audio) => Ok(audio@),
        Err(e) => Err(e@),
    }
}

/// Decodes raw PCM.
pub fn decode_pcm(
    bytes: &Vec<u8>,
    sample_rate: Option<usize>,
    channels: Option<usize>,
    encoding: String,
) -> (r: Result<DecodedAudio, RestAudioError>)
    ensures
        decoding_view(r) == decoded_pcm(bytes@, sample_rate, channels, encoding@),
{
    let rate: usize = match sample_rate {
        Some(n) => n,
        None => SAMPLE_RATE,
    };
    let count: usize = match channels {
        Some(n) => n,
        None => 1,
    };
    if rate != SAMPLE_RATE {
        return Err(RestAudioError::SampleRate(rate));
    }
    if count != 1 {
        return Err(RestAudioError::Channels(count));
    }
    if bytes.len() % 2 != 0 {
        return Err(RestAudioError::OddLength);
    }
    let samples = audio::mono(&audio::pcm_s16le_samples(bytes.as_slice()));
    Ok(
        DecodedAudio {
            samples,
            sample_rate: rate,
            channels: count,
            format: "pcm_s16le".to_owned(),
            encoding,
        },
    )
}

/// Whether the encoding of a request is Base64.
pub open spec fn is_base64_request(req: RequestView) -> bool {
    text::lowercase(text::trim(req.encoding)) == "base64"@
}

/// Whether a request holds the plain WAV file of the samples, at 16 kHz.
pub open spec fn holds_wav(req: RequestView, channels: int, samples: Seq<i16>) -> bool {
    &&& is_base64_request(req)
    &&& text::lowercase(text::trim(req.format)) == "wav"@
    &&& wav::fits_wav(channels, SAMPLE_RATE as int, samples)
    &&& text::trim(req.data) == encoding::base64_text(
        wav::wav_file(channels, SAMPLE_RATE as int, samples),
    )
}

/// The audio of the plain WAV file of the samples: mixed to one channel.
pub open spec fn wav_audio(channels: int, samples: Seq<i16>) -> DecodedView {
    DecodedView {
        samples: audio::downmixed(samples, channels as nat),
        sample_rate: SAMPLE_RATE,
        channels: channels as usize,
        format: "wav"@,
        encoding: "base64"@,
    }
}

/// Decodes the audio of a request. In particular the plain WAV file of 16-bit
/// samples at 16 kHz is taken, whatever the number of channels.
pub fn decode_rest_audio(req: &RestAudioRequest) -> (r: Result<DecodedAudio, RestAudioError>)
    ensures
        decoding_view(r) == decoded_request(req@),
        forall|channels: int, samples: Seq<i16>|
            holds_wav(req@, channels, samples) ==> decoding_view(r) == Ok::<_, AudioErrorView>(
                wav_audio(channels, samples),
            ),
{
    let format = text::lowercase_str(text::trim_str(req.format.as_str()));
    let encoding = text::lowercase_str(text::trim_str(req.encoding.as_str()));
    if !text::str_eq(encoding.as_str(), "base64") {
        return Err(RestAudioError::Encoding(req.encoding.clone()));
    }
    let bytes = match encoding::decode_base64(text::trim_str(req.data.as_str())) {
        Ok(bytes) => bytes,
        Err(_) => {
            proof {
                assert forall|channels: int, samples: Seq<i16>|
                    !holds_wav(req@, channels, samples) by {
                    encoding::base64_decodes_back(
                        wav::wav_file(channels, SAMPLE_RATE as int, samples),
                    );
                }
            }
            return Err(RestAudioError::Data);
        },
    };
    proof {
        encoding::base64_decodes_back(bytes@);
    }
    proof {
        reveal_strlit("pcm_s16le");
        reveal_strlit("s16le");
        reveal_strlit("wav");
        assert("wav"@.len() == 3 && "pcm_s16le"@.len() == 9 && "s16le"@.len() == 5);
        assert forall|channels: int, samples: Seq<i16>| holds_wav(req@, channels, samples) implies
            bytes@ == wav::wav_file(channels, SAMPLE_RATE as int, samples) by {
            encoding::base64_decodes_back(wav::wav_file(channels, SAMPLE_RATE as int, samples));
        }
    }
    if text::str_eq(format.as_str(), "pcm_s16le") || text::str_eq(format.as_str(), "s16le") {
        return decode_pcm(&bytes, req.sample_rate, req.channels, encoding);
    }
    if text::str_eq(format.as_str(), "wav") {
        return match wav::decode_wav_bytes(&bytes) {
            Ok((samples, channels)) => Ok(
                DecodedAudio {
                    samples,
                    sample_rate: SAMPLE_RATE,
                    channels: channels as usize,
                    format: "wav".to_owned(),
                    encoding,
                },
            ),
            Err(e) => Err(RestAudioError::Wav(e)),
        };
    }
    Err(RestAudioError::Format(format))
}

/// Whether a request holds the raw PCM of the samples, at 16 kHz and of one
/// channel.
pub open spec fn holds_pcm(req: RequestView, samples: Seq<i16>) -> bool {
    &&& is_base64_request(req)
    &&& names_pcm(text::lowercase(text::trim(req.format)))
    &&& number_or(req.sample_rate, SAMPLE_RATE) == SAMPLE_RATE
    &&& number_or(req.channels, 1) == 1
    &&& text::trim(req.data) == encoding::base64_text(audio::pcm_bytes(samples))
}

/// The raw PCM of samples, sent in a request, is read back as the samples.
pub proof fn pcm_request_reads_back(req: RequestView, samples: Seq<i16>)
    requires
        holds_pcm(req, samples),
    ensures
        decoded_request(req) == Ok::<_, AudioErrorView>(
            DecodedView {
                samples: audio::unmixed(samples),
                sample_rate: SAMPLE_RATE,
                channels: 1,
                format: "pcm_s16le"@,
                encoding: "base64"@,
            },
        ),
{
    encoding::base64_decodes_back(audio::pcm_bytes(samples));
    audio::pcm_reads_back(samples);
}

/// Whatever the request, the audio that is taken is at 16 kHz, came in Base64,
/// and is named WAV or raw PCM.
pub proof fn taken_audio_is_16_khz(req: RequestView, audio: DecodedView)
    requires
        decoded_request(req) == Ok::<_, AudioErrorView>(audio),
    ensures
        audio.sample_rate == 16_000,
        audio.encoding == "base64"@,
        audio.format == "wav"@ || (audio.format == "pcm_s16le"@ && audio.channels == 1),
        audio.channels >= 1,
{
}

// ---------------------------------------------------------------------------
// The job
// ---------------------------------------------------------------------------

/// The job for the audio of a request from the given address.
pub open spec fn rest_job_of(
    audio: DecodedView,
    src: Seq<char>,
    context: Option<json::JsonView>,
    id: Seq<char>,
    received_at: Timestamp,
) -> jobs::JobView<MixedSample> {
    jobs::JobView {
        id,
        audio: audio.samples,
        start_sample: 0,
        end_sample: audio.samples.len() as u64,
        received_at,
        source: jobs::rest_source_of(
            src,
            audio.format,
            audio.encoding,
            audio.sample_rate as nat,
            audio.channels as nat,
        ),
        context,
        vad: jobs::without_vad(),
    }
}

/// The job for the audio of a request, with the given identifier and time.
pub fn rest_job_with(
    audio: DecodedAudio,
    src: &str,
    context: Option<JsonValue>,
    id: String,
    received_at: Timestamp,
) -> (r: TranscribeJob<MixedSample>)
    ensures
        r@ == rest_job_of(audio@, src@, jobs::context_view(context), id@, received_at),
{
    let source = jobs::rest_source(
        src,
        audio.format.as_str(),
        audio.encoding.as_str(),
        audio.sample_rate,
        audio.channels,
    );
    let end_sample: u64 = audio.samples.len() as u64;
    TranscribeJob {
        id,
        audio: audio.samples,
        start_sample: 0,
        end_sample,
        received_at,
        source,
        context,
        vad: jobs::no_vad(),
    }
}

/// The job for the audio of a request, with a new identifier and the time now.
pub fn rest_job(audio: DecodedAudio, src: &str, context: Option<JsonValue>) -> (r: TranscribeJob<
    MixedSample,
>)
    ensures
        jobs::is_random_uuid(r@.id),
        jobs::is_clock_time(r@.received_at),
        r@ == rest_job_of(audio@, src@, jobs::context_view(context), r@.id, r@.received_at),
{
    rest_job_with(audio, src, context, jobs::random_uuid(), jobs::utc_now())
}

// ---------------------------------------------------------------------------
// Answers
// ---------------------------------------------------------------------------

/// Why a request got no transcript.
#[derive(Debug)]
pub enum RestFailure {
    /// The audio is not taken.
    BadAudio(RestAudioError),
    /// The job could not be queued.
    QueueUnavailable(String),
    /// The transcriber answered with an error.
    Failed(String),
    /// The transcriber went away without an answer.
    ResponseClosed(String),
    /// The transcriber did not answer in time.
    TimedOut,
}

/// The message of a failure.
pub open spec fn failure_text(failure: RestFailure) -> Seq<char> {
    match failure {
        RestFailure::BadAudio(e) => audio_error_text(e@),
        RestFailure::QueueUnavailable(e) => "transcriber queue unavailable: "@ + e@,
        RestFailure::Failed(e) => e@,
        RestFailure::ResponseClosed(e) => "transcriber response channel closed: "@ + e@,
        RestFailure::TimedOut => "transcription timed out"@,
    }
}

/// The HTTP status of a failure.
pub open spec fn failure_status(failure: RestFailure) -> u16 {
    match failure {
        RestFailure::BadAudio(_) => 400,
        RestFailure::QueueUnavailable(_) => 503,
        RestFailure::Failed(_) => 500,
        RestFailure::ResponseClosed(_) => 500,
        RestFailure::TimedOut => 504,
    }
}

/// The job for a request, or why there is none.
pub fn rest_transcribe_job(
    req: &RestAudioRequest,
    context: Option<JsonValue>,
    src: &str,
) -> (r: Result<TranscribeJob<MixedSample>, RestFailure>)
    ensures
        match r {
            Ok(job) => {
                &&& decoded_request(req@) is Ok
                &&& jobs::is_random_uuid(job@.id)
                &&& jobs::is_clock_time(job@.received_at)
                &&& job@ == rest_job_of(
                    decoded_request(req@)->Ok_0,
                    src@,
                    jobs::context_view(context),
                    job@.id,
                    job@.received_at,
                )
            },
            Err(failure) => {
                &&& failure is BadAudio
                &&& decoded_request(req@) == Err::<DecodedView, _>(failure->BadAudio_0@)
            },
        },
{
    match decode_rest_audio(req) {
        Ok(audio) => Ok(rest_job(audio, src, context)),
        Err(e) => Err(RestFailure::BadAudio(e)),
    }
}

impl RestFailure {
    /// The HTTP status and the body of the answer.
    pub fn answer(&self) -> (r: (u16, JsonValue))
        ensures
            r.0 == failure_status(*self),
            r.1@ == replies::failure_of(failure_text(*self)),
    {
        match self {
            RestFailure::BadAudio(e) => (400, replies::failure(e.message().as_str())),
            RestFailure::QueueUnavailable(e) => (
                503,
                replies::failure(
                    text::concat2("transcriber queue unavailable: ", e.as_str()).as_str(),
                ),
            ),
            RestFailure::Failed(e) => (500, replies::failure(e.as_str())),
            RestFailure::ResponseClosed(e) => (
                500,
                replies::failure(
                    text::concat2("transcriber response channel closed: ", e.as_str()).as_str(),
                ),
            ),
            RestFailure::TimedOut => (504, replies::failure("transcription timed out")),
        }
    }
}

/// How many seconds a request waits for its transcript.
pub const TRANSCRIPTION_TIMEOUT_SECONDS: u64 = 300;

} // verus!
