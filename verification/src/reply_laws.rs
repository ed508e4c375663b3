//! What holds of the audio that a REST request carries, and of the answers to
//! requests.

use vstd::prelude::*;

use crate::audio;
use crate::channels;
use crate::encoding;
use crate::jobs;
use crate::jobs::Timestamp;
use crate::json;
use crate::models;
use crate::replies;
use crate::rest;
use crate::speaker_laws;
use crate::text;
use crate::wav;

verus! {

// ---------------------------------------------------------------------------
// The audio of a request
// ---------------------------------------------------------------------------

/// Audio is taken in Base64 only, whatever the case of the name; what is no
/// Base64 text is refused.
pub proof fn audio_is_taken_in_base64(req: rest::RequestView)
    ensures
        text::lowercase(text::trim(req.encoding)) != "base64"@ ==> rest::decoded_request(req)
            == Err::<rest::DecodedView, _>(rest::AudioErrorView::Encoding(req.encoding)),
        text::lowercase(text::trim(req.encoding)) == "base64"@ && (forall|bytes: Seq<u8>|
            #[trigger] encoding::base64_text(bytes) != text::trim(req.data)) ==> rest::decoded_request(
            req,
        ) == Err::<rest::DecodedView, _>(rest::AudioErrorView::Data),
{
}

/// Raw PCM is taken at 16 kHz, of one channel and in whole samples, where the
/// request says nothing else; each two bytes are one sample. Anything else is
/// refused with what is wrong with it.
pub proof fn raw_audio_is_taken_as_it_is(req: rest::RequestView, bytes: Seq<u8>)
    requires
        text::lowercase(text::trim(req.encoding)) == "base64"@,
        text::lowercase(text::trim(req.format)) == "pcm_s16le"@ || text::lowercase(
            text::trim(req.format),
        ) == "s16le"@,
        text::trim(req.data) == encoding::base64_text(bytes),
    ensures
        ({
            let r = rest::decoded_request(req);
            let rate_is_right = req.sample_rate is None || req.sample_rate == Some(16_000usize);
            let count_is_right = req.channels is None || req.channels == Some(1usize);
            &&& !rate_is_right ==> r == Err::<rest::DecodedView, _>(
                rest::AudioErrorView::SampleRate(req.sample_rate->Some_0),
            )
            &&& rate_is_right && !count_is_right ==> r == Err::<rest::DecodedView, _>(
                rest::AudioErrorView::Channels(req.channels->Some_0),
            )
            &&& rate_is_right && count_is_right && bytes.len() % 2 == 1 ==> r == Err::<
                rest::DecodedView,
                _,
            >(rest::AudioErrorView::OddLength)
            &&& rate_is_right && count_is_right && bytes.len() % 2 == 0 ==> {
                &&& r matches Ok(decoded)
                &&& decoded.samples.len() == bytes.len() / 2
                &&& decoded.sample_rate == 16_000
                &&& decoded.channels == 1
                &&& forall|i: int|
                    0 <= i < decoded.samples.len() ==> {
                        let value = bytes[2 * i] + 256 * bytes[2 * i + 1];
                        &&& (#[trigger] decoded.samples[i]).count == 1
                        &&& decoded.samples[i].sum == (if value < 32768 {
                            value
                        } else {
                            value - 65536
                        })
                    }
            }
        }),
{
    encoding::base64_decodes_back(bytes);
    let raw = audio::pcm_samples(bytes);
    audio::one_channel_is_left_as_it_is(raw);
    if bytes.len() % 2 == 0 {
        assert forall|i: int| 0 <= i < raw.len() implies {
            let value = bytes[2 * i] + 256 * bytes[2 * i + 1];
            #[trigger] raw[i] == (if value < 32768 {
                value
            } else {
                value - 65536
            })
        } by {
            audio::two_bytes_are_a_sample(bytes, i);
        }
        let samples = audio::unmixed(raw);
        assert forall|i: int| 0 <= i < samples.len() implies {
            let value = bytes[2 * i] + 256 * bytes[2 * i + 1];
            &&& (#[trigger] samples[i]).count == 1
            &&& samples[i].sum == (if value < 32768 {
                value
            } else {
                value - 65536
            })
        } by {
            assert(samples[i].sum == raw[i]);
        }
    }
}

/// Audio of another format is refused with the name of the format.
pub proof fn other_formats_are_refused(req: rest::RequestView, bytes: Seq<u8>)
    requires
        text::lowercase(text::trim(req.encoding)) == "base64"@,
        text::trim(req.data) == encoding::base64_text(bytes),
        text::lowercase(text::trim(req.format)) != "wav"@,
        text::lowercase(text::trim(req.format)) != "pcm_s16le"@,
        text::lowercase(text::trim(req.format)) != "s16le"@,
    ensures
        rest::decoded_request(req) == Err::<rest::DecodedView, _>(
            rest::AudioErrorView::Format(text::lowercase(text::trim(req.format))),
        ),
{
    encoding::base64_decodes_back(bytes);
}

/// A WAV file is taken by what its header says: at 16 kHz, of at least one
/// channel, in whole numbers of 16 bits. Anything else is refused with what is
/// wrong with it.
pub proof fn wav_header_decides(h: wav::WavHeader)
    ensures
        ({
            let rate_is_right = h.sample_rate == 16_000;
            let pcm16 = h.sample_format == wav::SampleFormat::Int && h.bits_per_sample == 16;
            &&& rate_is_right && h.channels >= 1 && pcm16 ==> wav::header_error(h) is None
            &&& !rate_is_right ==> wav::header_error(h) == Some(
                wav::WavError::SampleRate(h.sample_rate),
            )
            &&& rate_is_right && h.channels == 0 ==> wav::header_error(h) == Some(
                wav::WavError::NoChannels,
            )
            &&& rate_is_right && h.channels >= 1 && !pcm16 ==> wav::header_error(h) == Some(
                wav::WavError::Encoding(h.sample_format, h.bits_per_sample),
            )
        }),
{
}

/// A WAV file that is taken gives, for each full group of its channels, one
/// sample: the sum of all of them with their number.
pub proof fn wav_channels_are_mixed(h: wav::WavHeader, raw: Seq<i16>, i: int)
    requires
        h.sample_rate == 16_000,
        h.channels >= 1,
        h.sample_format == wav::SampleFormat::Int,
        h.bits_per_sample == 16,
        0 <= i,
        h.channels * i + h.channels <= raw.len(),
    ensures
        wav::decoded_from(Some(h), Some(raw)) matches Ok((samples, channels)) && {
            &&& channels == h.channels
            &&& i < samples.len()
            &&& samples[i].sum == audio::total(raw, h.channels * i, h.channels as nat)
            &&& samples[i].count == h.channels
        },
{
    audio::mixed_sample_is_the_sum_of_all_channels(raw, h.channels as nat, i);
}

/// A file whose header or samples cannot be read is refused.
pub proof fn unreadable_files_are_refused(h: wav::WavHeader, samples: Option<Seq<i16>>)
    ensures
        wav::decoded_from(None, samples) == Err::<(Seq<audio::MixedSample>, u16), _>(
            wav::WavError::Unreadable,
        ),
        wav::header_error(h) is None ==> wav::decoded_from(Some(h), None) == Err::<
            (Seq<audio::MixedSample>, u16),
            _,
        >(wav::WavError::UnreadableSamples),
        wav::header_error(h) matches Some(e) ==> wav::decoded_from(Some(h), samples) == Err::<
            (Seq<audio::MixedSample>, u16),
            _,
        >(e),
{
}

/// The job for a request has all of its audio, from the first sample on, names
/// the request as its source, and says that no detector cut it.
pub proof fn request_job_has_all_of_its_audio(
    audio: rest::DecodedView,
    src: Seq<char>,
    context: Option<json::JsonView>,
    id: Seq<char>,
    received_at: Timestamp,
)
    requires
        audio.samples.len() <= u64::MAX,
    ensures
        ({
            let job = rest::rest_job_of(audio, src, context, id, received_at);
            &&& job.audio == audio.samples
            &&& job.start_sample == 0
            &&& job.end_sample == audio.samples.len()
            &&& job.id == id
            &&& job.received_at == received_at
            &&& job.context == context
            &&& job.source == jobs::rest_source_of(
                src,
                audio.format,
                audio.encoding,
                audio.sample_rate as nat,
                audio.channels as nat,
            )
            &&& !job.vad.enabled
            &&& job.vad.engine == "none"@
            &&& job.vad.threshold is None
        }),
{
}

/// A request that gets no transcript is answered with whose fault that is: audio
/// that is not taken is a bad request, a queue that is full is unavailable, what
/// the transcriber reports is an error of the server, and a transcript that does
/// not come in time has timed out.
pub proof fn failures_are_answered_with_their_status(failure: rest::RestFailure)
    ensures
        failure is BadAudio ==> rest::failure_status(failure) == 400,
        failure is QueueUnavailable ==> rest::failure_status(failure) == 503,
        failure is Failed ==> rest::failure_status(failure) == 500,
        failure is ResponseClosed ==> rest::failure_status(failure) == 500,
        failure is TimedOut ==> rest::failure_status(failure) == 504,
        failure matches rest::RestFailure::Failed(e) ==> rest::failure_text(failure) == e@,
        failure matches rest::RestFailure::QueueUnavailable(e) ==> rest::failure_text(failure)
            == "transcriber queue unavailable: "@ + e@,
        failure matches rest::RestFailure::ResponseClosed(e) ==> rest::failure_text(failure)
            == "transcriber response channel closed: "@ + e@,
        failure is TimedOut ==> rest::failure_text(failure) == "transcription timed out"@,
        failure matches rest::RestFailure::BadAudio(e) ==> rest::failure_text(failure)
            == rest::audio_error_text(e@),
{
}

// ---------------------------------------------------------------------------
// Replies
// ---------------------------------------------------------------------------

/// A reply that all went well says so, and one that did not says so and why.
pub proof fn replies_say_how_it_went(error: Seq<char>, name: Seq<char>)
    ensures
        json::member(replies::success_view(), "ok"@) == Some(json::JsonView::Bool(true)),
        json::member(replies::failure_of(error), "ok"@) == Some(json::JsonView::Bool(false)),
        json::member(replies::failure_of(error), "error"@) == Some(json::JsonView::Text(error)),
        json::member(replies::failure_about("id"@, name, error), "ok"@) == Some(
            json::JsonView::Bool(false),
        ),
        json::member(replies::failure_about("id"@, name, error), "id"@) == Some(
            json::JsonView::Text(name),
        ),
        json::member(replies::failure_about("id"@, name, error), "error"@) == Some(
            json::JsonView::Text(error),
        ),
        json::member(replies::failure_about("repo_id"@, name, error), "repo_id"@) == Some(
            json::JsonView::Text(name),
        ),
        json::member(replies::failure_about("repo_id"@, name, error), "error"@) == Some(
            json::JsonView::Text(error),
        ),
{
    reveal_strlit("ok");
    reveal_strlit("error");
    reveal_strlit("id");
    reveal_strlit("repo_id");
    assert("ok"@.len() == 2 && "error"@.len() == 5 && "id"@.len() == 2 && "repo_id"@.len() == 7);
    assert("ok"@[0] == 'o' && "id"@[0] == 'i');
    speaker_laws::member_is_the_first_with_the_key(replies::success_view()->Object_0, "ok"@, 0);
    let m = replies::failure_of(error)->Object_0;
    speaker_laws::member_is_the_first_with_the_key(m, "ok"@, 0);
    speaker_laws::member_is_the_first_with_the_key(m, "error"@, 1);
    let m = replies::failure_about("id"@, name, error)->Object_0;
    speaker_laws::member_is_the_first_with_the_key(m, "ok"@, 0);
    speaker_laws::member_is_the_first_with_the_key(m, "id"@, 1);
    speaker_laws::member_is_the_first_with_the_key(m, "error"@, 2);
    let m = replies::failure_about("repo_id"@, name, error)->Object_0;
    speaker_laws::member_is_the_first_with_the_key(m, "repo_id"@, 1);
    speaker_laws::member_is_the_first_with_the_key(m, "error"@, 2);
}

/// The reply to a command says whether the configuration was saved and whether
/// the command was sent, and is good only where both were.
pub proof fn command_reply_needs_both(save_error: Option<Seq<char>>, sent: bool)
    ensures
        ({
            let r = replies::command_reply_of(save_error, sent);
            &&& json::member(r, "ok"@) == Some(json::JsonView::Bool(save_error is None && sent))
            &&& json::member(r, "saved"@) == Some(json::JsonView::Bool(save_error is None))
            &&& json::member(r, "command_sent"@) == Some(json::JsonView::Bool(sent))
            &&& json::member(r, "error"@) == Some(
                match save_error {
                    Some(e) => json::JsonView::Text(e),
                    None => json::JsonView::Null,
                },
            )
        }),
        json::member(replies::reconnect_reply_of(sent), "ok"@) == Some(
            json::JsonView::Bool(sent),
        ),
        json::member(replies::reconnect_reply_of(sent), "command_sent"@) == Some(
            json::JsonView::Bool(sent),
        ),
{
    reveal_strlit("ok");
    reveal_strlit("saved");
    reveal_strlit("command_sent");
    reveal_strlit("error");
    assert("ok"@.len() == 2 && "saved"@.len() == 5 && "command_sent"@.len() == 12
        && "error"@.len() == 5);
    assert("saved"@[0] == 's' && "error"@[0] == 'e');
    let m = replies::command_reply_of(save_error, sent)->Object_0;
    speaker_laws::member_is_the_first_with_the_key(m, "ok"@, 0);
    speaker_laws::member_is_the_first_with_the_key(m, "saved"@, 1);
    speaker_laws::member_is_the_first_with_the_key(m, "command_sent"@, 2);
    speaker_laws::member_is_the_first_with_the_key(m, "error"@, 3);
    let m = replies::reconnect_reply_of(sent)->Object_0;
    speaker_laws::member_is_the_first_with_the_key(m, "ok"@, 0);
    speaker_laws::member_is_the_first_with_the_key(m, "command_sent"@, 1);
}

/// The reply to a new configuration is good where it was saved, and then says
/// whether the log level was changed.
pub proof fn config_reply_says_whether_it_was_saved(
    error: Seq<char>,
    log_error: Option<Seq<char>>,
)
    ensures
        ({
            let r = replies::config_reply_of(None, log_error);
            &&& json::member(r, "ok"@) == Some(json::JsonView::Bool(true))
            &&& json::member(r, "log_reload"@) == Some(json::JsonView::Bool(log_error is None))
        }),
        ({
            let r = replies::config_reply_of(Some(error), log_error);
            &&& json::member(r, "ok"@) == Some(json::JsonView::Bool(false))
            &&& json::member(r, "error"@) == Some(json::JsonView::Text(error))
            &&& json::member(r, "log_reload_error"@) == Some(
                match log_error {
                    Some(e) => json::JsonView::Text(e),
                    None => json::JsonView::Null,
                },
            )
        }),
{
    reveal_strlit("ok");
    reveal_strlit("error");
    reveal_strlit("log_reload");
    reveal_strlit("log_reload_error");
    assert("ok"@.len() == 2 && "error"@.len() == 5 && "log_reload"@.len() == 10
        && "log_reload_error"@.len() == 16);
    let m = replies::config_reply_of(None, log_error)->Object_0;
    speaker_laws::member_is_the_first_with_the_key(m, "ok"@, 0);
    speaker_laws::member_is_the_first_with_the_key(m, "log_reload"@, 1);
    let m = replies::config_reply_of(Some(error), log_error)->Object_0;
    speaker_laws::member_is_the_first_with_the_key(m, "ok"@, 0);
    speaker_laws::member_is_the_first_with_the_key(m, "error"@, 1);
    speaker_laws::member_is_the_first_with_the_key(m, "log_reload_error"@, 2);
}

/// The reply to the choice of a channel names the channel with its path, and is
/// good only where it was saved and the command sent.
pub proof fn channel_reply_names_the_channel(
    c: channels::ChannelView,
    save_error: Option<Seq<char>>,
    sent: bool,
)
    ensures
        ({
            let r = replies::channel_reply_of(c, save_error, sent);
            let channel = replies::channel_json_of(c);
            &&& json::member(r, "ok"@) == Some(json::JsonView::Bool(save_error is None && sent))
            &&& json::member(r, "channel"@) == Some(channel)
            &&& json::member(r, "saved"@) == Some(json::JsonView::Bool(save_error is None))
            &&& json::member(r, "command_sent"@) == Some(json::JsonView::Bool(sent))
            &&& json::member(channel, "id"@) == Some(
                json::JsonView::Number(json::JsonNumber::Natural(c.id)),
            )
            &&& json::member(channel, "parent_id"@) == Some(
                match c.parent_id {
                    Some(id) => json::JsonView::Number(json::JsonNumber::Natural(id)),
                    None => json::JsonView::Null,
                },
            )
            &&& json::member(channel, "name"@) == Some(json::JsonView::Text(c.name))
            &&& json::member(channel, "path"@) == Some(json::JsonView::Text(c.path))
        }),
{
    reveal_strlit("ok");
    reveal_strlit("channel");
    reveal_strlit("saved");
    reveal_strlit("command_sent");
    reveal_strlit("id");
    reveal_strlit("parent_id");
    reveal_strlit("name");
    reveal_strlit("path");
    assert("ok"@.len() == 2 && "channel"@.len() == 7 && "saved"@.len() == 5);
    assert("command_sent"@.len() == 12 && "id"@.len() == 2 && "parent_id"@.len() == 9);
    assert("name"@.len() == 4 && "path"@.len() == 4);
    assert("name"@[0] == 'n' && "path"@[0] == 'p');
    let m = replies::channel_reply_of(c, save_error, sent)->Object_0;
    speaker_laws::member_is_the_first_with_the_key(m, "ok"@, 0);
    speaker_laws::member_is_the_first_with_the_key(m, "channel"@, 1);
    speaker_laws::member_is_the_first_with_the_key(m, "saved"@, 2);
    speaker_laws::member_is_the_first_with_the_key(m, "command_sent"@, 3);
    let m = replies::channel_json_of(c)->Object_0;
    speaker_laws::member_is_the_first_with_the_key(m, "id"@, 0);
    speaker_laws::member_is_the_first_with_the_key(m, "parent_id"@, 1);
    speaker_laws::member_is_the_first_with_the_key(m, "name"@, 2);
    speaker_laws::member_is_the_first_with_the_key(m, "path"@, 3);
}

/// The list of models has one row for each profile, in order, which describes it
/// and says whether its file is there and whether it is the active one.
pub proof fn model_list_describes_each_profile(
    m: models::ModelsView,
    exists: Seq<bool>,
    i: int,
)
    requires
        0 <= i < m.profiles.len(),
    ensures
        ({
            let r = replies::models_reply_of(m, exists);
            let p = m.profiles[i];
            &&& json::member(r, "active_model_id"@) == Some(
                json::JsonView::Text(m.active_model_id),
            )
            &&& json::member(r, "profiles"@) matches Some(json::JsonView::Array(rows)) && {
                &&& rows.len() == m.profiles.len()
                &&& json::member(rows[i], "id"@) == Some(json::JsonView::Text(p.id))
                &&& json::member(rows[i], "name"@) == Some(json::JsonView::Text(p.name))
                &&& json::member(rows[i], "path"@) == Some(json::JsonView::Text(p.path))
                &&& json::member(rows[i], "url"@) == Some(json::JsonView::Text(p.url))
                &&& json::member(rows[i], "description"@) == Some(
                    json::JsonView::Text(p.description),
                )
                &&& json::member(rows[i], "recommended_vram_gb"@) == Some(
                    match p.recommended_vram_gb {
                        Some(n) => json::JsonView::Number(json::JsonNumber::Natural(n as u64)),
                        None => json::JsonView::Null,
                    },
                )
                &&& json::member(rows[i], "exists"@) == Some(json::JsonView::Bool(exists[i]))
                &&& json::member(rows[i], "active"@) == Some(
                    json::JsonView::Bool(p.id == m.active_model_id),
                )
            }
        }),
{
    reveal_strlit("active_model_id");
    reveal_strlit("profiles");
    assert("active_model_id"@.len() == 15 && "profiles"@.len() == 8);
    let r = replies::models_reply_of(m, exists)->Object_0;
    speaker_laws::member_is_the_first_with_the_key(r, "active_model_id"@, 0);
    speaker_laws::member_is_the_first_with_the_key(r, "profiles"@, 1);
    let p = m.profiles[i];
    lemma_row(p, exists[i], p.id == m.active_model_id);
}

proof fn lemma_row(p: models::ProfileView, exists: bool, active: bool)
    ensures
        ({
            let row = replies::model_row_of(p, exists, active);
            &&& json::member(row, "id"@) == Some(json::JsonView::Text(p.id))
            &&& json::member(row, "name"@) == Some(json::JsonView::Text(p.name))
            &&& json::member(row, "path"@) == Some(json::JsonView::Text(p.path))
            &&& json::member(row, "url"@) == Some(json::JsonView::Text(p.url))
            &&& json::member(row, "description"@) == Some(json::JsonView::Text(p.description))
            &&& json::member(row, "recommended_vram_gb"@) == Some(
                match p.recommended_vram_gb {
                    Some(n) => json::JsonView::Number(json::JsonNumber::Natural(n as u64)),
                    None => json::JsonView::Null,
                },
            )
            &&& json::member(row, "exists"@) == Some(json::JsonView::Bool(exists))
            &&& json::member(row, "active"@) == Some(json::JsonView::Bool(active))
        }),
{
    reveal_strlit("id");
    reveal_strlit("name");
    reveal_strlit("path");
    reveal_strlit("url");
    reveal_strlit("description");
    reveal_strlit("recommended_vram_gb");
    reveal_strlit("exists");
    reveal_strlit("active");
    assert("id"@.len() == 2 && "name"@.len() == 4 && "path"@.len() == 4 && "url"@.len() == 3);
    assert("description"@.len() == 11 && "recommended_vram_gb"@.len() == 19);
    assert("exists"@.len() == 6 && "active"@.len() == 6);
    assert("name"@[0] == 'n' && "path"@[0] == 'p' && "exists"@[0] == 'e' && "active"@[0] == 'a');
    let m = replies::model_row_of(p, exists, active)->Object_0;
    speaker_laws::member_is_the_first_with_the_key(m, "id"@, 0);
    speaker_laws::member_is_the_first_with_the_key(m, "name"@, 1);
    speaker_laws::member_is_the_first_with_the_key(m, "path"@, 2);
    speaker_laws::member_is_the_first_with_the_key(m, "url"@, 3);
    speaker_laws::member_is_the_first_with_the_key(m, "description"@, 4);
    speaker_laws::member_is_the_first_with_the_key(m, "recommended_vram_gb"@, 5);
    speaker_laws::member_is_the_first_with_the_key(m, "exists"@, 6);
    speaker_laws::member_is_the_first_with_the_key(m, "active"@, 7);
}

/// The replies about one model name it: where its file is, that it is active, or
/// what was added, from where, and which model is then the active one.
pub proof fn model_replies_name_the_model(
    repo_id: Seq<char>,
    filename: Seq<char>,
    p: models::ProfileView,
    replaced: bool,
    active_model_id: Seq<char>,
)
    ensures
        ({
            let r = replies::downloaded_of(p);
            &&& json::member(r, "ok"@) == Some(json::JsonView::Bool(true))
            &&& json::member(r, "id"@) == Some(json::JsonView::Text(p.id))
            &&& json::member(r, "path"@) == Some(json::JsonView::Text(p.path))
        }),
        ({
            let r = replies::activated_of(p);
            &&& json::member(r, "ok"@) == Some(json::JsonView::Bool(true))
            &&& json::member(r, "active_model_id"@) == Some(json::JsonView::Text(p.id))
            &&& json::member(r, "active_model_path"@) == Some(json::JsonView::Text(p.path))
        }),
        ({
            let r = replies::model_added_of(repo_id, filename, p, replaced, active_model_id);
            &&& json::member(r, "ok"@) == Some(json::JsonView::Bool(true))
            &&& json::member(r, "repo_id"@) == Some(json::JsonView::Text(repo_id))
            &&& json::member(r, "filename"@) == Some(json::JsonView::Text(filename))
            &&& json::member(r, "replaced"@) == Some(json::JsonView::Bool(replaced))
            &&& json::member(r, "active_model_id"@) == Some(
                json::JsonView::Text(active_model_id),
            )
            &&& json::member(r, "profile"@) matches Some(profile) && json::member(
                profile,
                "id"@,
            ) == Some(json::JsonView::Text(p.id))
        }),
{
    reveal_strlit("ok");
    reveal_strlit("id");
    reveal_strlit("path");
    reveal_strlit("active_model_id");
    reveal_strlit("active_model_path");
    reveal_strlit("repo_id");
    reveal_strlit("filename");
    reveal_strlit("replaced");
    reveal_strlit("profile");
    assert("ok"@.len() == 2 && "id"@.len() == 2 && "path"@.len() == 4);
    assert("active_model_id"@.len() == 15 && "active_model_path"@.len() == 17);
    assert("repo_id"@.len() == 7 && "filename"@.len() == 8 && "replaced"@.len() == 8);
    assert("profile"@.len() == 7);
    assert("ok"@[0] == 'o' && "id"@[0] == 'i' && "filename"@[0] == 'f' && "replaced"@[0] == 'r');
    assert("repo_id"@[0] == 'r' && "profile"@[0] == 'p');
    let m = replies::downloaded_of(p)->Object_0;
    speaker_laws::member_is_the_first_with_the_key(m, "ok"@, 0);
    speaker_laws::member_is_the_first_with_the_key(m, "id"@, 1);
    speaker_laws::member_is_the_first_with_the_key(m, "path"@, 2);
    let m = replies::activated_of(p)->Object_0;
    speaker_laws::member_is_the_first_with_the_key(m, "ok"@, 0);
    speaker_laws::member_is_the_first_with_the_key(m, "active_model_id"@, 1);
    speaker_laws::member_is_the_first_with_the_key(m, "active_model_path"@, 2);
    let m = replies::model_added_of(repo_id, filename, p, replaced, active_model_id)->Object_0;
    speaker_laws::member_is_the_first_with_the_key(m, "ok"@, 0);
    speaker_laws::member_is_the_first_with_the_key(m, "repo_id"@, 1);
    speaker_laws::member_is_the_first_with_the_key(m, "filename"@, 2);
    speaker_laws::member_is_the_first_with_the_key(m, "profile"@, 3);
    speaker_laws::member_is_the_first_with_the_key(m, "replaced"@, 4);
    speaker_laws::member_is_the_first_with_the_key(m, "active_model_id"@, 5);
    speaker_laws::member_is_the_first_with_the_key(replies::profile_members(p), "id"@, 0);
}

/// A text that is made of three holds the one in the middle.
proof fn lemma_middle_is_held(before: Seq<char>, middle: Seq<char>, after: Seq<char>)
    ensures
        text::contains_text(before + middle + after, middle),
{
    let s = before + middle + after;
    let n = before.len() as int;
    assert(s.subrange(n, n + middle.len()) =~= middle);
    assert(text::occurs_at(s, middle, n));
}

/// What a client is told about refused audio holds what was refused: the name of
/// the encoding or the format, or the number, in digits, of the rate, of the
/// channels or of the bits. What is told about a file is what the reader of files
/// tells.
pub proof fn refusals_tell_what_was_refused(
    name: Seq<char>,
    n: usize,
    rate: u32,
    format: wav::SampleFormat,
    bits: u16,
    error: wav::WavError,
)
    ensures
        text::contains_text(rest::audio_error_text(rest::AudioErrorView::Encoding(name)), name),
        text::contains_text(rest::audio_error_text(rest::AudioErrorView::Format(name)), name),
        text::contains_text(
            rest::audio_error_text(rest::AudioErrorView::SampleRate(n)),
            text::decimal(n as nat),
        ),
        text::contains_text(
            rest::audio_error_text(rest::AudioErrorView::Channels(n)),
            text::decimal(n as nat),
        ),
        rest::audio_error_text(rest::AudioErrorView::Wav(error)) == wav::wav_error_text(error),
        text::contains_text(
            wav::wav_error_text(wav::WavError::SampleRate(rate)),
            text::decimal(rate as nat),
        ),
        text::contains_text(
            wav::wav_error_text(wav::WavError::Encoding(format, bits)),
            text::decimal(bits as nat),
        ),
{
    lemma_middle_is_held("unsupported audio.encoding '"@, name, "'; expected 'base64'"@);
    lemma_middle_is_held(
        "unsupported audio.format '"@,
        name,
        "'; expected 'wav' or 'pcm_s16le'"@,
    );
    lemma_middle_is_held("unsupported sample_rate "@, text::decimal(n as nat), "; expected 16000"@);
    lemma_middle_is_held("unsupported channels "@, text::decimal(n as nat), "; expected 1"@);
    lemma_middle_is_held(
        "unsupported WAV sample_rate "@,
        text::decimal(rate as nat),
        "; expected 16000"@,
    );
    lemma_middle_is_held(
        "unsupported WAV encoding; expected 16-bit PCM integer, got "@ + wav::format_name(format)
            + " "@,
        text::decimal(bits as nat),
        " bits"@,
    );
}

/// A WAV file in Base64 is read by what the file itself says: the rate and the
/// channels that the request names besides do not matter.
pub proof fn wav_file_speaks_for_itself(
    req: rest::RequestView,
    bytes: Seq<u8>,
    other: rest::RequestView,
)
    requires
        text::lowercase(text::trim(req.encoding)) == "base64"@,
        text::lowercase(text::trim(req.format)) == "wav"@,
        encoding::base64_bytes(text::trim(req.data)) == Some(bytes),
        text::lowercase(text::trim(other.encoding)) == "base64"@,
        text::lowercase(text::trim(other.format)) == "wav"@,
        text::trim(other.data) == text::trim(req.data),
    ensures
        rest::decoded_request(req) == rest::decoded_request(other),
        match wav::decoded_from(wav::wav_header(bytes), wav::wav_samples(bytes)) {
            Ok((samples, channels)) => rest::decoded_request(req) matches Ok(audio) && {
                &&& audio.samples == samples
                &&& audio.channels == channels
                &&& audio.sample_rate == 16_000
                &&& audio.format == "wav"@
                &&& audio.encoding == "base64"@
            },
            Err(e) => rest::decoded_request(req) == Err::<rest::DecodedView, _>(
                rest::AudioErrorView::Wav(e),
            ),
        },
{
    reveal_strlit("wav");
    reveal_strlit("pcm_s16le");
    reveal_strlit("s16le");
    assert("wav"@.len() == 3);
    assert("pcm_s16le"@.len() == 9);
    assert("s16le"@.len() == 5);
}

} // verus!
