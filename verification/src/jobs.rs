//! Transcription jobs: the audio to transcribe, where it came from, and when.

use vstd::prelude::*;

use crate::floats::F32Bits;
use crate::json;
use crate::json::JsonNumber;
use crate::json::JsonValue;

verus! {

/// The sample rate that speech recognition works at, in samples per second.
pub const SAMPLE_RATE: usize = 16_000;

/// The sample rate of TeamSpeak audio, in samples per second.
pub const TEAMSPEAK_SAMPLE_RATE: usize = 48_000;

/// The number of samples in one buffer of TeamSpeak audio, 20 milliseconds.
pub const TEAMSPEAK_FRAME_SAMPLES: usize = 960;

// ---------------------------------------------------------------------------
// Identifiers and times
// ---------------------------------------------------------------------------

/// Whether the character is a lower-case hexadecimal digit.
pub open spec fn is_lower_hex(c: char) -> bool {
    ('0' <= c && c <= '9') || ('a' <= c && c <= 'f')
}

/// Whether the text is a random UUID: lower-case hexadecimal digits in groups
/// of eight, four, four, four and twelve, with dashes between the groups, and
/// with the digits that mark the version and the variant.
pub open spec fn is_random_uuid(s: Seq<char>) -> bool {
    &&& s.len() == 36
    &&& forall|i: int|
        0 <= i < 36 ==> if i == 8 || i == 13 || i == 18 || i == 23 {
            #[trigger] s[i] == '-'
        } else {
            is_lower_hex(s[i])
        }
    &&& s[14] == '4'
    &&& s[19] == '8' || s[19] == '9' || s[19] == 'a' || s[19] == 'b'
}

/// Calls `uuid::Uuid::new_v4` and writes the result with its `Display`, which
/// is the hyphenated lower-case form. The contract claims that form and the
/// version and variant digits; the other digits are random.
#[verifier::external_body]
pub(crate) fn random_uuid() -> (r: String)
    ensures
        is_random_uuid(r@),
{
    uuid::Uuid::new_v4().to_string()
}

/// A point in time: the seconds since the start of 1970 and the nanoseconds
/// after that second, in UTC.
#[derive(Clone, Copy, Debug, PartialEq, Eq, Structural)]
pub struct Timestamp {
    pub seconds: i64,
    pub nanos: u32,
}

/// Whether the time is not before 1970 and its nanoseconds are less than a
/// second.
pub open spec fn is_clock_time(t: Timestamp) -> bool {
    t.seconds >= 0 && t.nanos < 1_000_000_000
}

/// Calls `chrono::Utc::now` and takes the result apart with
/// `DateTime::timestamp` and `DateTime::timestamp_subsec_nanos`. The contract
/// claims what `Utc::now` makes sure of whatever the clock shows: a time that
/// is not before 1970 (it panics where the clock is set before that), and less
/// than a second of nanoseconds.
#[verifier::external_body]
pub(crate) fn utc_now() -> (r: Timestamp)
    ensures
        is_clock_time(r),
{
    let now = chrono::Utc::now();
    Timestamp { seconds: now.timestamp(), nanos: now.timestamp_subsec_nanos() }
}

// ---------------------------------------------------------------------------
// Sources
// ---------------------------------------------------------------------------

/// Where audio came from.
#[derive(Debug)]
pub struct SourceInfo {
    pub source_type: String,
    pub src: String,
    pub meta: JsonValue,
}

/// The contents of a [`SourceInfo`].
#[verifier::ext_equal]
pub struct SourceView {
    pub source_type: Seq<char>,
    pub src: Seq<char>,
    pub meta: json::JsonView,
}

impl View for SourceInfo {
    type V = SourceView;

    open spec fn view(&self) -> SourceView {
        SourceView { source_type: self.source_type@, src: self.src@, meta: self.meta@ }
    }
}

impl Clone for SourceInfo {
    fn clone(&self) -> (r: Self)
        ensures
            r@ == self@,
    {
        SourceInfo {
            source_type: self.source_type.clone(),
            src: self.src.clone(),
            meta: self.meta.clone(),
        }
    }
}

/// A natural number as a JSON value.
pub open spec fn natural(n: nat) -> json::JsonView {
    json::JsonView::Number(JsonNumber::Natural(n as u64))
}

/// A source that is a TCP stream from the given peer.
pub open spec fn stream_source_of(peer: Option<Seq<char>>) -> SourceView {
    SourceView {
        source_type: "stream"@,
        src: match peer {
            Some(p) => p,
            None => "unknown"@,
        },
        meta: json::JsonView::Object(
            seq![
                ("transport"@, json::JsonView::Text("tcp"@)),
                ("format"@, json::JsonView::Text("pcm_s16le"@)),
                ("sample_rate"@, natural(16_000)),
                ("channels"@, natural(1)),
            ],
        ),
    }
}

/// The source for audio of a TCP connection from the given peer, or from a
/// peer whose address is not known.
pub fn stream_source(peer: Option<&str>) -> (r: SourceInfo)
    ensures
        r@ == stream_source_of(crate::text::opt_str_view(peer)),
{
    let src: String = match peer {
        Some(p) => p.to_owned(),
        None => "unknown".to_owned(),
    };
    let mut members = json::no_members();
    json::put_text(&mut members, "transport", "tcp");
    json::put_text(&mut members, "format", "pcm_s16le");
    json::put_natural(&mut members, "sample_rate", SAMPLE_RATE as u64);
    json::put_natural(&mut members, "channels", 1);
    let meta = json::object(members);
    proof {
        assert(meta@->Object_0 =~= stream_source_of(None).meta->Object_0);
    }
    SourceInfo { source_type: "stream".to_owned(), src, meta }
}

/// A source that is a REST request from the given address, with audio of the
/// given format, encoding, sample rate and number of channels.
pub open spec fn rest_source_of(
    src: Seq<char>,
    format: Seq<char>,
    encoding: Seq<char>,
    sample_rate: nat,
    channels: nat,
) -> SourceView {
    SourceView {
        source_type: "rest"@,
        src,
        meta: json::JsonView::Object(
            seq![
                ("endpoint"@, json::JsonView::Text("/api/transcribe"@)),
                ("format"@, json::JsonView::Text(format)),
                ("encoding"@, json::JsonView::Text(encoding)),
                ("sample_rate"@, natural(sample_rate)),
                ("channels"@, natural(channels)),
            ],
        ),
    }
}

/// The source for audio that came in a REST request.
pub fn rest_source(src: &str, format: &str, encoding: &str, sample_rate: usize, channels: usize) -> (r:
    SourceInfo)
    ensures
        r@ == rest_source_of(src@, format@, encoding@, sample_rate as nat, channels as nat),
{
    let mut members = json::no_members();
    json::put_text(&mut members, "endpoint", "/api/transcribe");
    json::put_text(&mut members, "format", format);
    json::put_text(&mut members, "encoding", encoding);
    json::put_natural(&mut members, "sample_rate", sample_rate as u64);
    json::put_natural(&mut members, "channels", channels as u64);
    let meta = json::object(members);
    proof {
        assert(meta@->Object_0 =~= rest_source_of(
            src@,
            format@,
            encoding@,
            sample_rate as nat,
            channels as nat,
        ).meta->Object_0);
    }
    SourceInfo { source_type: "rest".to_owned(), src: src.to_owned(), meta }
}

// ---------------------------------------------------------------------------
// Voice activity detection
// ---------------------------------------------------------------------------

/// How the audio was cut into segments.
#[derive(Debug)]
pub struct VadInfo {
    pub enabled: bool,
    pub engine: String,
    pub threshold: Option<F32Bits>,
}

/// The contents of a [`VadInfo`].
#[verifier::ext_equal]
pub struct VadView {
    pub enabled: bool,
    pub engine: Seq<char>,
    pub threshold: Option<F32Bits>,
}

impl View for VadInfo {
    type V = VadView;

    open spec fn view(&self) -> VadView {
        VadView { enabled: self.enabled, engine: self.engine@, threshold: self.threshold }
    }
}

impl Clone for VadInfo {
    fn clone(&self) -> (r: Self)
        ensures
            r@ == self@,
    {
        VadInfo { enabled: self.enabled, engine: self.engine.clone(), threshold: self.threshold }
    }
}

/// Segments were cut by the Silero detector at the given threshold.
pub open spec fn silero_vad_at(threshold: F32Bits) -> VadView {
    VadView { enabled: true, engine: "silero"@, threshold: Some(threshold) }
}

/// The audio was taken whole.
pub open spec fn without_vad() -> VadView {
    VadView { enabled: false, engine: "none"@, threshold: None }
}

/// Segments were cut by the Silero detector at the given threshold.
pub fn silero_vad(threshold: F32Bits) -> (r: VadInfo)
    ensures
        r@ == silero_vad_at(threshold),
{
    VadInfo { enabled: true, engine: "silero".to_owned(), threshold: Some(threshold) }
}

/// The audio was taken whole.
pub fn no_vad() -> (r: VadInfo)
    ensures
        r@ == without_vad(),
{
    VadInfo { enabled: false, engine: "none".to_owned(), threshold: None }
}

// ---------------------------------------------------------------------------
// Jobs
// ---------------------------------------------------------------------------

/// Audio to transcribe, as samples of type `T` at [`SAMPLE_RATE`]. It starts at
/// the sample with the number `start_sample` in its source and ends before that
/// with the number `end_sample`. For a segment of a stream the numbers tell the
/// length to within a frame, since the frame in which speech started may stand
/// in the audio twice.
#[derive(Debug)]
pub struct TranscribeJob<T> {
    pub id: String,
    pub audio: Vec<T>,
    pub start_sample: u64,
    pub end_sample: u64,
    pub received_at: Timestamp,
    pub source: SourceInfo,
    pub context: Option<JsonValue>,
    pub vad: VadInfo,
}

/// The contents of a [`TranscribeJob`].
#[verifier::ext_equal]
pub struct JobView<T> {
    pub id: Seq<char>,
    pub audio: Seq<T>,
    pub start_sample: u64,
    pub end_sample: u64,
    pub received_at: Timestamp,
    pub source: SourceView,
    pub context: Option<json::JsonView>,
    pub vad: VadView,
}

/// The contents of an optional context.
pub open spec fn context_view(context: Option<JsonValue>) -> Option<json::JsonView> {
    match context {
        Some(v) => Some(v@),
        None => None,
    }
}

impl<T> View for TranscribeJob<T> {
    type V = JobView<T>;

    open spec fn view(&self) -> JobView<T> {
        JobView {
            id: self.id@,
            audio: self.audio@,
            start_sample: self.start_sample,
            end_sample: self.end_sample,
            received_at: self.received_at,
            source: self.source@,
            context: context_view(self.context),
            vad: self.vad@,
        }
    }
}

/// A copy of an optional context.
pub fn clone_context(context: &Option<JsonValue>) -> (r: Option<JsonValue>)
    ensures
        context_view(r) == context_view(*context),
{
    match context {
        Some(v) => Some(v.clone()),
        None => None,
    }
}

} // verus!
