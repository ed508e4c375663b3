use audio2mqtt::audio::MixedSample;
use audio2mqtt::jobs::Timestamp;
use audio2mqtt::json::{JsonNumber, JsonValue};
use audio2mqtt::rest::{
    decode_pcm, decode_rest_audio, rest_job, rest_job_with, rest_transcribe_job, DecodedAudio, RestAudioError,
    RestAudioRequest, RestFailure, TRANSCRIPTION_TIMEOUT_SECONDS,
};
use audio2mqtt::wav::{check_wav_header, mix_wav, SampleFormat, WavError, WavHeader};
use base64::Engine;

fn base64_of(bytes: &[u8]) -> String {
    base64::engine::general_purpose::STANDARD.encode(bytes)
}

fn request(format: &str, encoding: &str, data: &str) -> RestAudioRequest {
    RestAudioRequest {
        format: format.to_string(),
        encoding: encoding.to_string(),
        data: data.to_string(),
        sample_rate: None,
        channels: None,
    }
}

fn wav_bytes(spec: hound::WavSpec, samples: &[i16]) -> Vec<u8> {
    let mut cursor = std::io::Cursor::new(Vec::new());
    let mut writer = hound::WavWriter::new(&mut cursor, spec).unwrap();
    for s in samples {
        writer.write_sample(*s).unwrap();
    }
    writer.finalize().unwrap();
    cursor.into_inner()
}

fn pcm16(channels: u16, sample_rate: u32) -> hound::WavSpec {
    hound::WavSpec {
        channels,
        sample_rate,
        bits_per_sample: 16,
        sample_format: hound::SampleFormat::Int,
    }
}

fn plain_wav(channels: u16, sample_rate: u32, samples: &[i16]) -> Vec<u8> {
    let mut out = b"RIFF".to_vec();
    out.extend((36 + 2 * samples.len() as u32).to_le_bytes());
    out.extend(b"WAVEfmt ");
    out.extend(16u32.to_le_bytes());
    out.extend(1u16.to_le_bytes());
    out.extend(channels.to_le_bytes());
    out.extend(sample_rate.to_le_bytes());
    out.extend((sample_rate * 2 * channels as u32).to_le_bytes());
    out.extend((2 * channels).to_le_bytes());
    out.extend(16u16.to_le_bytes());
    out.extend(b"data");
    out.extend((2 * samples.len() as u32).to_le_bytes());
    for s in samples {
        out.extend(s.to_le_bytes());
    }
    out
}

fn error(req: &RestAudioRequest) -> String {
    decode_rest_audio(req).unwrap_err().message()
}

fn mixed(sum: i32, count: usize) -> MixedSample {
    MixedSample { sum, count }
}

#[test]
fn raw_pcm_is_decoded() {
    let data = base64_of(&[0x01, 0x00, 0xff, 0xff, 0x00, 0x80]);
    for format in ["pcm_s16le", " S16LE "] {
        let audio = decode_rest_audio(&request(format, " Base64 ", &format!(" {data}\n"))).unwrap();
        assert_eq!(audio.samples, vec![mixed(1, 1), mixed(-1, 1), mixed(-32768, 1)]);
        assert_eq!(audio.sample_rate, 16000);
        assert_eq!(audio.channels, 1);
        assert_eq!(audio.format, "pcm_s16le");
        assert_eq!(audio.encoding, "base64");
    }
}

#[test]
fn pcm_with_other_settings_is_refused() {
    let data = base64_of(&[1, 0]);
    let mut req = request("pcm_s16le", "base64", &data);
    req.sample_rate = Some(16000);
    req.channels = Some(1);
    assert!(decode_rest_audio(&req).is_ok());
    req.channels = Some(2);
    assert_eq!(error(&req), "unsupported channels 2; expected 1");
    req.sample_rate = Some(48000);
    assert_eq!(error(&req), "unsupported sample_rate 48000; expected 16000");
    let odd = request("pcm_s16le", "base64", &base64_of(&[1, 0, 2]));
    assert_eq!(error(&odd), "pcm_s16le byte length must be divisible by 2");
    let empty = decode_pcm(&vec![], None, None, "base64".to_string()).unwrap();
    assert!(empty.samples.is_empty());
}

#[test]
fn other_encodings_and_formats_are_refused() {
    assert_eq!(
        error(&request("wav", "Hex ", "00")),
        "unsupported audio.encoding 'Hex '; expected 'base64'"
    );
    assert_eq!(
        error(&request(" MP3", "base64", "")),
        "unsupported audio.format 'mp3'; expected 'wav' or 'pcm_s16le'"
    );
    for data in ["####", "AAA", "AA==AA==", "AB==", "AA =="] {
        assert_eq!(error(&request("mp3", "base64", data)), "decoding base64 audio.data", "{data}");
    }
}

#[test]
fn wav_files_are_decoded() {
    let mono = wav_bytes(pcm16(1, 16000), &[5, -6, 7]);
    let audio = decode_rest_audio(&request("WAV", "base64", &base64_of(&mono))).unwrap();
    assert_eq!(audio.samples, vec![mixed(5, 1), mixed(-6, 1), mixed(7, 1)]);
    assert_eq!((audio.sample_rate, audio.channels), (16000, 1));
    assert_eq!((audio.format.as_str(), audio.encoding.as_str()), ("wav", "base64"));

    let stereo = wav_bytes(pcm16(2, 16000), &[1, 2, -3, -5]);
    let audio = decode_rest_audio(&request("wav", "base64", &base64_of(&stereo))).unwrap();
    assert_eq!(audio.samples, vec![mixed(3, 2), mixed(-8, 2)]);
    assert_eq!(audio.channels, 2);
}

#[test]
fn plain_wav_files_are_read_back() {
    for channels in [1u16, 2, 3, 32767] {
        let samples: Vec<i16> = (0..channels).map(|i| (i as i16).wrapping_mul(257)).collect();
        let bytes = plain_wav(channels, 16000, &samples);
        let audio = decode_rest_audio(&request("wav", "base64", &base64_of(&bytes))).unwrap();
        let sum: i32 = samples.iter().map(|s| *s as i32).sum();
        assert_eq!(audio.samples, vec![mixed(sum, channels as usize)]);
        assert_eq!(audio.channels, channels as usize);
    }
    let empty = plain_wav(1, 16000, &[]);
    let audio = decode_rest_audio(&request("wav", "base64", &base64_of(&empty))).unwrap();
    assert!(audio.samples.is_empty());
    let slow = plain_wav(1, 0, &[1]);
    assert_eq!(
        error(&request("wav", "base64", &base64_of(&slow))),
        "unsupported WAV sample_rate 0; expected 16000"
    );
}

#[test]
fn other_wav_files_are_refused() {
    let req = |bytes: &[u8]| request("wav", "base64", &base64_of(bytes));
    assert_eq!(error(&req(b"no wav")), "reading WAV data");
    assert_eq!(
        error(&req(&wav_bytes(pcm16(1, 44100), &[1]))),
        "unsupported WAV sample_rate 44100; expected 16000"
    );
    let eight = hound::WavSpec { bits_per_sample: 8, ..pcm16(1, 16000) };
    assert_eq!(
        error(&req(&wav_bytes(eight, &[1]))),
        "unsupported WAV encoding; expected 16-bit PCM integer, got Int 8 bits"
    );
    let float = hound::WavSpec {
        bits_per_sample: 32,
        sample_format: hound::SampleFormat::Float,
        ..pcm16(1, 16000)
    };
    assert_eq!(
        error(&req(&wav_bytes(float, &[]))),
        "unsupported WAV encoding; expected 16-bit PCM integer, got Float 32 bits"
    );
    let mut cut = wav_bytes(pcm16(1, 16000), &[1, 2]);
    cut.truncate(cut.len() - 1);
    assert_eq!(error(&req(&cut)), "reading WAV samples");
}

#[test]
fn wav_headers_are_checked() {
    let good = WavHeader {
        channels: 1,
        sample_rate: 16000,
        bits_per_sample: 16,
        sample_format: SampleFormat::Int,
    };
    assert_eq!(check_wav_header(good), Ok(()));
    assert_eq!(
        check_wav_header(WavHeader { channels: 0, ..good }),
        Err(WavError::NoChannels)
    );
    assert_eq!(WavError::NoChannels.message(), "WAV channels must be at least 1");
    assert_eq!(
        check_wav_header(WavHeader { sample_rate: 8000, ..good }),
        Err(WavError::SampleRate(8000))
    );
    assert_eq!(
        check_wav_header(WavHeader { bits_per_sample: 24, ..good }),
        Err(WavError::Encoding(SampleFormat::Int, 24))
    );
    assert_eq!(
        check_wav_header(WavHeader { sample_format: SampleFormat::Float, ..good }),
        Err(WavError::Encoding(SampleFormat::Float, 16))
    );
    assert_eq!(mix_wav(&vec![1, 3], 1), vec![mixed(1, 1), mixed(3, 1)]);
    assert_eq!(mix_wav(&vec![1, 3], 2), vec![mixed(4, 2)]);
}

fn decoded() -> DecodedAudio {
    DecodedAudio {
        samples: vec![mixed(1, 1), mixed(2, 1)],
        sample_rate: 16000,
        channels: 2,
        format: "wav".to_string(),
        encoding: "base64".to_string(),
    }
}

fn member<'a>(value: &'a JsonValue, key: &str) -> &'a JsonValue {
    value.get(key).unwrap()
}

#[test]
fn requests_become_jobs() {
    let at = Timestamp { seconds: 1, nanos: 2 };
    let context = Some(JsonValue::Text("c".to_string()));
    let job = rest_job_with(decoded(), "1.2.3.4:5", context, "id".to_string(), at);
    assert_eq!(job.id, "id");
    assert_eq!(job.received_at, at);
    assert_eq!((job.start_sample, job.end_sample), (0, 2));
    assert_eq!(job.source.source_type, "rest");
    assert_eq!(job.source.src, "1.2.3.4:5");
    let meta = &job.source.meta;
    assert_eq!(member(meta, "endpoint").as_text(), Some("/api/transcribe".to_string()));
    assert_eq!(member(meta, "format").as_text(), Some("wav".to_string()));
    assert_eq!(member(meta, "encoding").as_text(), Some("base64".to_string()));
    assert_eq!(member(meta, "sample_rate").as_natural(), Some(16000));
    assert_eq!(member(meta, "channels").as_natural(), Some(2));
    assert!(!job.vad.enabled);
    assert_eq!(job.vad.engine, "none");
    assert_eq!(job.vad.threshold, None);
    assert_eq!(job.context.unwrap().as_text(), Some("c".to_string()));

    let job = rest_job(decoded(), "x", None);
    assert!(uuid::Uuid::parse_str(&job.id).is_ok());
    assert!(job.context.is_none());
}

#[test]
fn requests_are_queued_or_refused() {
    let data = base64_of(&[3, 0]);
    let job = rest_transcribe_job(&request("s16le", "base64", &data), None, "1.2.3.4:5").unwrap();
    assert_eq!(job.audio, vec![mixed(3, 1)]);
    assert_eq!(job.source.src, "1.2.3.4:5");
    let refused = rest_transcribe_job(&request("ogg", "base64", &data), None, "x").unwrap_err();
    let (status, body) = refused.answer();
    assert_eq!(status, 400);
    assert_eq!(
        member(&body, "error").as_text(),
        Some("unsupported audio.format 'ogg'; expected 'wav' or 'pcm_s16le'".to_string())
    );
}

#[test]
fn failures_are_answered() {
    for (failure, status, message) in [
        (
            RestFailure::BadAudio(RestAudioError::OddLength),
            400,
            "pcm_s16le byte length must be divisible by 2",
        ),
        (
            RestFailure::QueueUnavailable("channel closed".to_string()),
            503,
            "transcriber queue unavailable: channel closed",
        ),
        (RestFailure::Failed("no model".to_string()), 500, "no model"),
        (
            RestFailure::ResponseClosed("gone".to_string()),
            500,
            "transcriber response channel closed: gone",
        ),
        (RestFailure::TimedOut, 504, "transcription timed out"),
    ] {
        let (code, body) = failure.answer();
        assert_eq!(code, status);
        assert!(matches!(body.get("ok"), Some(JsonValue::Bool(false))));
        assert_eq!(member(&body, "error").as_text(), Some(message.to_string()));
    }
    assert_eq!(TRANSCRIPTION_TIMEOUT_SECONDS, 300);
}

#[test]
fn json_values_are_read() {
    let object = JsonValue::Object(vec![
        ("a".to_string(), JsonValue::Number(JsonNumber::Natural(3))),
        ("b".to_string(), JsonValue::Number(JsonNumber::Negative(-3))),
        ("a".to_string(), JsonValue::Null),
    ]);
    assert_eq!(member(&object, "a").as_natural(), Some(3));
    assert_eq!(member(&object, "b").as_natural(), None);
    assert_eq!(member(&object, "a").as_text(), None);
    assert!(object.get("c").is_none());
    assert!(JsonValue::Array(vec![]).get("a").is_none());
    let copy = object.clone();
    assert_eq!(format!("{copy:?}"), format!("{object:?}"));
}
