//! Reading WAV files.

use vstd::prelude::*;

use crate::audio;
use crate::audio::MixedSample;
use crate::jobs::SAMPLE_RATE;
use crate::text;

verus! {

/// How a WAV file holds its samples.
#[derive(Clone, Copy, Debug, PartialEq, Eq, Structural)]
pub enum SampleFormat {
    Float,
    Int,
}

/// What a WAV file says of its samples.
#[derive(Clone, Copy, Debug, PartialEq, Eq, Structural)]
pub struct WavHeader {
    pub channels: u16,
    pub sample_rate: u32,
    pub bits_per_sample: u16,
    pub sample_format: SampleFormat,
}

// ---------------------------------------------------------------------------
// The plain file
// ---------------------------------------------------------------------------

/// Two bytes, the low one first.
pub open spec fn le16(n: int) -> Seq<u8> {
    seq![(n % 256) as u8, (n / 256 % 256) as u8]
}

/// Four bytes, the lowest first.
pub open spec fn le32(n: int) -> Seq<u8> {
    le16(n % 65536) + le16(n / 65536)
}

/// Whether a plain WAV file can hold this many channels of this many samples
/// at this rate.
pub open spec fn fits_wav(channels: int, sample_rate: int, samples: Seq<i16>) -> bool {
    &&& 1 <= channels && 2 * channels <= u16::MAX
    &&& 0 <= sample_rate && 2 * channels * sample_rate <= u32::MAX
    &&& 36 + 2 * samples.len() <= u32::MAX
    &&& samples.len() as int % channels == 0
}

/// The plain WAV file of 16-bit samples: the `RIFF` header, a `fmt ` chunk of
/// sixteen bytes, and the `data` chunk with the samples of all channels
/// interleaved.
pub open spec fn wav_file(channels: int, sample_rate: int, samples: Seq<i16>) -> Seq<u8> {
    let riff = seq![82u8, 73, 70, 70] + le32(36 + 2 * samples.len() as int) + seq![87u8, 65, 86, 69];
    let fmt = seq![102u8, 109, 116, 32] + le32(16) + le16(1) + le16(channels) + le32(sample_rate)
        + le32(2 * channels * sample_rate) + le16(2 * channels) + le16(16);
    let data = seq![100u8, 97, 116, 97] + le32(2 * samples.len() as int) + audio::pcm_bytes(
        samples,
    );
    riff + fmt + data
}

/// What a plain WAV file says of its samples.
pub open spec fn plain_header(channels: int, sample_rate: int) -> WavHeader {
    WavHeader {
        channels: channels as u16,
        sample_rate: sample_rate as u32,
        bits_per_sample: 16,
        sample_format: SampleFormat::Int,
    }
}

// ---------------------------------------------------------------------------
// Reading
// ---------------------------------------------------------------------------

/// The error of `hound`, of which nothing is claimed.
#[verifier::external_type_specification]
#[verifier::external_body]
pub struct ExHoundError(hound::Error);

/// What `hound::WavReader::new` finds in the header of the file, if it reads it.
pub uninterp spec fn wav_header(bytes: Seq<u8>) -> Option<WavHeader>;

/// What `hound::WavReader::into_samples` reads as 16-bit samples, if it reads
/// them all.
pub uninterp spec fn wav_samples(bytes: Seq<u8>) -> Option<Seq<i16>>;

/// Calls `hound::WavReader::new` on the bytes and `WavReader::spec` on the
/// reader. The contract names the result, a function of the bytes alone, and
/// claims what the header of a plain file of 16-bit samples reads as.
#[verifier::external_body]
pub(crate) fn read_wav_header(bytes: &Vec<u8>) -> (r: Result<WavHeader, hound::Error>)
    ensures
        match r {
            Ok(header) => wav_header(bytes@) == Some(header),
            Err(_) => wav_header(bytes@) is None,
        },
        forall|channels: int, sample_rate: int, samples: Seq<i16>|
            fits_wav(channels, sample_rate, samples) && bytes@ == #[trigger] wav_file(
                channels,
                sample_rate,
                samples,
            ) ==> r is Ok && r->Ok_0 == plain_header(channels, sample_rate),
{
    let spec = hound::WavReader::new(std::io::Cursor::new(bytes))?.spec();
    let sample_format = match spec.sample_format {
        hound::SampleFormat::Float => SampleFormat::Float,
        hound::SampleFormat::Int => SampleFormat::Int,
    };
    Ok(
        WavHeader {
            channels: spec.channels,
            sample_rate: spec.sample_rate,
            bits_per_sample: spec.bits_per_sample,
            sample_format,
        },
    )
}

/// Calls `hound::WavReader::new` on the bytes and collects what
/// `WavReader::into_samples` yields as `i16`, up to the first error. The
/// contract names the result, a function of the bytes alone, and claims that
/// the samples of a plain file of 16-bit samples are read back.
#[verifier::external_body]
pub(crate) fn read_wav_samples(bytes: &Vec<u8>) -> (r: Result<Vec<i16>, hound::Error>)
    ensures
        match r {
            Ok(samples) => wav_samples(bytes@) == Some(samples@),
            Err(_) => wav_samples(bytes@) is None,
        },
        forall|channels: int, sample_rate: int, samples: Seq<i16>|
            fits_wav(channels, sample_rate, samples) && bytes@ == #[trigger] wav_file(
                channels,
                sample_rate,
                samples,
            ) ==> r is Ok && r->Ok_0@ == samples,
{
    hound::WavReader::new(std::io::Cursor::new(bytes))?.into_samples::<i16>().collect()
}

// ---------------------------------------------------------------------------
// Decoding
// ---------------------------------------------------------------------------

/// Why a WAV file is not taken.
#[derive(Clone, Copy, Debug, PartialEq, Eq, Structural)]
pub enum WavError {
    Unreadable,
    SampleRate(u32),
    NoChannels,
    Encoding(SampleFormat, u16),
    UnreadableSamples,
}

/// The name of a sample format.
pub open spec fn format_name(format: SampleFormat) -> Seq<char> {
    match format {
        SampleFormat::Float => "Float"@,
        SampleFormat::Int => "Int"@,
    }
}

/// The message of an error.
pub open spec fn wav_error_text(error: WavError) -> Seq<char> {
    match error {
        WavError::Unreadable => "reading WAV data"@,
        WavError::SampleRate(rate) => "unsupported WAV sample_rate "@ + text::decimal(rate as nat)
            + "; expected 16000"@,
        WavError::NoChannels => "WAV channels must be at least 1"@,
        WavError::Encoding(format, bits) =>
            "unsupported WAV encoding; expected 16-bit PCM integer, got "@ + format_name(format)
            + " "@ + text::decimal(bits as nat) + " bits"@,
        WavError::UnreadableSamples => "reading WAV samples"@,
    }
}

impl WavError {
    /// The message of the error.
    pub fn message(&self) -> (r: String)
        ensures
            r@ == wav_error_text(*self),
    {
        match *self {
            WavError::Unreadable => "reading WAV data".to_owned(),
            WavError::SampleRate(rate) => text::concat3(
                "unsupported WAV sample_rate ",
                text::decimal_string(rate as u64).as_str(),
                "; expected 16000",
            ),
            WavError::NoChannels => "WAV channels must be at least 1".to_owned(),
            WavError::Encoding(format, bits) => {
                let name: &str = match format {
                    SampleFormat::Float => "Float",
                    SampleFormat::Int => "Int",
                };
                let start = text::concat3(
                    "unsupported WAV encoding; expected 16-bit PCM integer, got ",
                    name,
                    " ",
                );
                text::concat3(
                    start.as_str(),
                    text::decimal_string(bits as u64).as_str(),
                    " bits",
                )
            },
            WavError::UnreadableSamples => "reading WAV samples".to_owned(),
        }
    }
}

/// What is wrong with a header, if anything is.
pub open spec fn header_error(header: WavHeader) -> Option<WavError> {
    if header.sample_rate != SAMPLE_RATE {
        Some(WavError::SampleRate(header.sample_rate))
    } else if header.channels == 0 {
        Some(WavError::NoChannels)
    } else if header.sample_format != SampleFormat::Int || header.bits_per_sample != 16 {
        Some(WavError::Encoding(header.sample_format, header.bits_per_sample))
    } else {
        None
    }
}

/// Checks that a header promises 16-bit samples at the right rate.
pub fn check_wav_header(header: WavHeader) -> (r: Result<(), WavError>)
    ensures
        match r {
            Ok(_) => header_error(header) is None,
            Err(e) => header_error(header) == Some(e),
        },
{
    if header.sample_rate as u64 != SAMPLE_RATE as u64 {
        return Err(WavError::SampleRate(header.sample_rate));
    }
    if header.channels == 0 {
        return Err(WavError::NoChannels);
    }
    if header.sample_format != SampleFormat::Int || header.bits_per_sample != 16 {
        return Err(WavError::Encoding(header.sample_format, header.bits_per_sample));
    }
    Ok(())
}

/// What a file decodes to, given what its header and its samples read as: the
/// samples mixed to one channel, and the number of channels there were.
pub open spec fn decoded_from(header: Option<WavHeader>, samples: Option<Seq<i16>>) -> Result<
    (Seq<MixedSample>, u16),
    WavError,
> {
    match header {
        None => Err(WavError::Unreadable),
        Some(h) => match header_error(h) {
            Some(e) => Err(e),
            None => match samples {
                None => Err(WavError::UnreadableSamples),
                Some(raw) => Ok((audio::downmixed(raw, h.channels as nat), h.channels)),
            },
        },
    }
}

/// What a file decodes to.
pub open spec fn decoded_wav(bytes: Seq<u8>) -> Result<(Seq<MixedSample>, u16), WavError> {
    decoded_from(wav_header(bytes), wav_samples(bytes))
}

/// The samples of a file mixed to one channel, given those of all channels.
pub fn mix_wav(raw: &Vec<i16>, channels: u16) -> (r: Vec<MixedSample>)
    requires
        channels > 0,
    ensures
        r@ == audio::downmixed(raw@, channels as nat),
{
    if channels == 1 {
        proof {
            audio::one_channel_mixes_to_itself(raw@);
        }
        audio::mono(raw)
    } else {
        audio::downmix(raw, channels)
    }
}

/// Decodes a WAV file of 16-bit samples at 16 kHz: the samples mixed to one
/// channel, and the number of channels there were.
pub fn decode_wav_bytes(bytes: &Vec<u8>) -> (r: Result<(Vec<MixedSample>, u16), WavError>)
    ensures
        match r {
            Ok((samples, channels)) => decoded_wav(bytes@) == Ok::<_, WavError>(
                (samples@, channels),
            ),
            Err(e) => decoded_wav(bytes@) == Err::<(Seq<MixedSample>, u16), _>(e),
        },
        forall|channels: int, samples: Seq<i16>|
            fits_wav(channels, SAMPLE_RATE as int, samples) && bytes@ == #[trigger] wav_file(
                channels,
                SAMPLE_RATE as int,
                samples,
            ) ==> r is Ok && r->Ok_0.0@ == audio::downmixed(samples, channels as nat) && r->Ok_0.1
                == channels,
{
    let header = match read_wav_header(bytes) {
        Ok(header) => header,
        Err(_) => {
            return Err(WavError::Unreadable);
        },
    };
    match check_wav_header(header) {
        Ok(_) => {},
        Err(e) => {
            return Err(e);
        },
    }
    match read_wav_samples(bytes) {
        Ok(raw) => Ok((mix_wav(&raw, header.channels), header.channels)),
        Err(_) => Err(WavError::UnreadableSamples),
    }
}

} // verus!
