//! The transcriber: which model is loaded, and how what it recognised becomes a
//! transcript.

use vstd::prelude::*;

use crate::config;
use crate::config::RuntimeConfig;
use crate::jobs;
use crate::jobs::SourceInfo;
use crate::jobs::Timestamp;
use crate::jobs::TranscribeJob;
use crate::jobs::VadInfo;
use crate::json;
use crate::json::JsonValue;
use crate::models;
use crate::models::ModelProfile;
use crate::settings;
use crate::settings::EnvConfig;
use crate::settings::TranscriptionConfig;
use crate::text;
use crate::text_laws;

verus! {

// ---------------------------------------------------------------------------
// The loaded model
// ---------------------------------------------------------------------------

/// Which model the transcriber last loaded, and whether it is ready for use.
#[derive(Debug)]
pub struct LoadedModel {
    id: Option<String>,
    path: Option<String>,
    ready: bool,
}

/// The contents of a [`LoadedModel`].
#[verifier::ext_equal]
pub struct LoadedView {
    pub id: Option<Seq<char>>,
    pub path: Option<Seq<char>>,
    pub ready: bool,
}

impl View for LoadedModel {
    type V = LoadedView;

    closed spec fn view(&self) -> LoadedView {
        LoadedView {
            id: text::opt_view(self.id),
            path: text::opt_view(self.path),
            ready: self.ready,
        }
    }
}

/// No model is loaded.
pub open spec fn nothing_loaded() -> LoadedView {
    LoadedView { id: None, path: None, ready: false }
}

/// The model of the profile is loaded.
pub open spec fn loaded_from(profile: models::ProfileView) -> LoadedView {
    LoadedView { id: Some(profile.id), path: Some(profile.path), ready: true }
}

/// Whether the model of the profile has to be loaded before it can be used.
pub open spec fn must_load(loaded: LoadedView, profile: models::ProfileView) -> bool {
    loaded != loaded_from(profile)
}

/// What to do with a job.
#[derive(Debug)]
pub enum JobStep {
    /// Transcribe it.
    Transcribe,
    /// Load the model first.
    Load,
    /// Refuse it with the message.
    Refuse(String),
}

/// The contents of a [`JobStep`].
#[verifier::ext_equal]
pub enum StepView {
    Transcribe,
    Load,
    Refuse(Seq<char>),
}

impl View for JobStep {
    type V = StepView;

    open spec fn view(&self) -> StepView {
        match self {
            JobStep::Transcribe => StepView::Transcribe,
            JobStep::Load => StepView::Load,
            JobStep::Refuse(message) => StepView::Refuse(message@),
        }
    }
}

/// What to do with a job for the model of the profile, whose file is there or
/// not.
pub open spec fn step_for(
    loaded: LoadedView,
    profile: models::ProfileView,
    file_exists: bool,
) -> StepView {
    if !must_load(loaded, profile) {
        StepView::Transcribe
    } else if file_exists {
        StepView::Load
    } else {
        StepView::Refuse(
            "active model file is missing: "@ + profile.path
                + ". Download it from web admin before using it"@,
        )
    }
}

impl LoadedModel {
    /// No model is loaded.
    pub fn new() -> (r: Self)
        ensures
            r@ == nothing_loaded(),
    {
        LoadedModel { id: None, path: None, ready: false }
    }

    /// Whether the model of the profile has to be loaded before it can be used.
    pub fn must_reload(&self, profile: &ModelProfile) -> (b: bool)
        ensures
            b == must_load(self@, profile@),
    {
        if !self.ready {
            return true;
        }
        let id_is = match &self.id {
            Some(id) => text::str_eq(id.as_str(), profile.id.as_str()),
            None => false,
        };
        let path_is = match &self.path {
            Some(path) => text::str_eq(path.as_str(), profile.path.as_str()),
            None => false,
        };
        !id_is || !path_is
    }

    /// What to do with a job for the model of the profile, whose file is there
    /// or not.
    pub fn step(&self, profile: &ModelProfile, file_exists: bool) -> (r: JobStep)
        ensures
            r@ == step_for(self@, profile@, file_exists),
    {
        if !self.must_reload(profile) {
            return JobStep::Transcribe;
        }
        if file_exists {
            return JobStep::Load;
        }
        JobStep::Refuse(
            text::concat3(
                "active model file is missing: ",
                profile.path.as_str(),
                ". Download it from web admin before using it",
            ),
        )
    }

    /// The model of the profile has been loaded.
    pub fn loaded(&mut self, profile: &ModelProfile)
        ensures
            final(self)@ == loaded_from(profile@),
    {
        self.id = Some(profile.id.clone());
        self.path = Some(profile.path.clone());
        self.ready = true;
    }

    /// The model of the profile could not be loaded; what comes back is the
    /// message for its job.
    pub fn load_failed(&mut self, profile: &ModelProfile, error: &str) -> (r: String)
        ensures
            r@ == "failed to load whisper model "@ + profile@.path + ": "@ + error@,
            final(self)@ == (LoadedView { ready: false, ..old(self)@ }),
    {
        self.ready = false;
        let start = text::concat3("failed to load whisper model ", profile.path.as_str(), ": ");
        text::concat2(start.as_str(), error)
    }
}

/// A job is only transcribed with the model of its profile, and once that is
/// loaded no job loads it again.
pub proof fn jobs_use_the_model_of_the_profile(
    loaded: LoadedView,
    profile: models::ProfileView,
    file_exists: bool,
)
    ensures
        step_for(loaded, profile, file_exists) is Transcribe <==> loaded == loaded_from(profile),
        step_for(loaded_from(profile), profile, file_exists) is Transcribe,
{
}

/// After a model could not be loaded no job is transcribed until one is loaded.
pub proof fn failed_load_leaves_no_model(
    loaded: LoadedView,
    profile: models::ProfileView,
    file_exists: bool,
)
    ensures
        !(step_for(
            LoadedView { ready: false, ..loaded },
            profile,
            file_exists,
        ) is Transcribe),
{
}

/// A profile with another identifier or another path is loaded before the next
/// job.
pub proof fn changed_profile_is_loaded(
    old_profile: models::ProfileView,
    profile: models::ProfileView,
)
    requires
        old_profile.id != profile.id || old_profile.path != profile.path,
    ensures
        step_for(loaded_from(old_profile), profile, true) is Load,
{
}

// ---------------------------------------------------------------------------
// Settings of a job
// ---------------------------------------------------------------------------

/// The model profile and the settings for the next job.
pub fn job_settings(cfg: &RuntimeConfig, env: &EnvConfig) -> (r: (ModelProfile, TranscriptionConfig))
    ensures
        r.0@ == config::active_profile(cfg@.models, env@),
        r.1@ == settings::transcription_normalized(cfg@.transcription),
{
    (config::active_model_profile(cfg, env), cfg.transcription.normalized())
}

/// The switches of a run of the recogniser.
#[derive(Clone, Copy, Debug, PartialEq, Eq, Structural)]
pub struct WhisperSwitches {
    pub translate: bool,
    pub no_context: bool,
    pub print_progress: bool,
    pub print_realtime: bool,
    pub print_timestamps: bool,
    pub print_special: bool,
}

/// The switches of every run: the text is not translated, does not depend on
/// earlier text, and nothing is printed.
pub fn whisper_switches() -> (r: WhisperSwitches)
    ensures
        !r.translate,
        r.no_context,
        !r.print_progress,
        !r.print_realtime,
        !r.print_timestamps,
        !r.print_special,
{
    WhisperSwitches {
        translate: false,
        no_context: true,
        print_progress: false,
        print_realtime: false,
        print_timestamps: false,
        print_special: false,
    }
}

// ---------------------------------------------------------------------------
// Transcripts
// ---------------------------------------------------------------------------

/// A piece of text that the recogniser found, with its start and its end in
/// hundredths of a second from the start of the audio.
#[derive(Debug)]
pub struct RawSegment {
    pub text: String,
    pub start_timestamp: i64,
    pub end_timestamp: i64,
}

/// The contents of a [`RawSegment`] or of a [`TranscriptSegment`].
#[verifier::ext_equal]
pub struct TextView {
    pub text: Seq<char>,
    pub start_timestamp: i64,
    pub end_timestamp: i64,
}

impl View for RawSegment {
    type V = TextView;

    open spec fn view(&self) -> TextView {
        TextView {
            text: self.text@,
            start_timestamp: self.start_timestamp,
            end_timestamp: self.end_timestamp,
        }
    }
}

/// A piece of text of a transcript, with its start and its end in hundredths of
/// a second from the start of the audio.
#[derive(Debug)]
pub struct TranscriptSegment {
    pub start_timestamp: i64,
    pub end_timestamp: i64,
    pub text: String,
}

impl View for TranscriptSegment {
    type V = TextView;

    open spec fn view(&self) -> TextView {
        TextView {
            text: self.text@,
            start_timestamp: self.start_timestamp,
            end_timestamp: self.end_timestamp,
        }
    }
}

/// The contents of raw segments.
pub open spec fn raw_views(raw: Seq<RawSegment>) -> Seq<TextView> {
    raw.map_values(|s: RawSegment| s@)
}

/// The contents of transcript segments.
pub open spec fn segment_views(segments: Seq<TranscriptSegment>) -> Seq<TextView> {
    segments.map_values(|s: TranscriptSegment| s@)
}

/// The pieces of text with the white space at their ends removed, without those
/// that are blank.
pub open spec fn kept_segments(raw: Seq<TextView>) -> Seq<TextView>
    decreases raw.len(),
{
    if raw.len() == 0 {
        Seq::empty()
    } else {
        let kept = kept_segments(raw.drop_last());
        let trimmed = text::trim(raw.last().text);
        if trimmed.len() == 0 {
            kept
        } else {
            kept.push(TextView { text: trimmed, ..raw.last() })
        }
    }
}

/// The texts of the segments.
pub open spec fn texts_of(segments: Seq<TextView>) -> Seq<Seq<char>> {
    segments.map_values(|s: TextView| s.text)
}

/// The text of the segments, with a space between each two.
pub open spec fn joined_text(segments: Seq<TextView>) -> Seq<char> {
    text::trim(text::join(texts_of(segments), " "@))
}

/// The model that a transcript came from.
#[derive(Debug)]
pub struct ModelInfo {
    pub id: String,
    pub name: String,
    pub path: String,
}

/// The contents of a [`ModelInfo`].
#[verifier::ext_equal]
pub struct ModelInfoView {
    pub id: Seq<char>,
    pub name: Seq<char>,
    pub path: Seq<char>,
}

impl View for ModelInfo {
    type V = ModelInfoView;

    open spec fn view(&self) -> ModelInfoView {
        ModelInfoView { id: self.id@, name: self.name@, path: self.path@ }
    }
}

/// Where the audio of a transcript stood in its source: the number of its first
/// sample and of the sample after its last.
#[derive(Clone, Copy, Debug, PartialEq, Eq, Structural)]
pub struct AudioSpan {
    pub start_sample: u64,
    pub end_sample: u64,
}

/// What was said.
#[derive(Debug)]
pub struct TranscriptResult {
    pub language: String,
    pub text: String,
    pub segments: Vec<TranscriptSegment>,
}

/// The contents of a [`TranscriptResult`].
#[verifier::ext_equal]
pub struct ResultView {
    pub language: Seq<char>,
    pub text: Seq<char>,
    pub segments: Seq<TextView>,
}

impl View for TranscriptResult {
    type V = ResultView;

    open spec fn view(&self) -> ResultView {
        ResultView {
            language: self.language@,
            text: self.text@,
            segments: segment_views(self.segments@),
        }
    }
}

/// A transcript with everything that is published of it.
#[derive(Debug)]
pub struct TranscriptEvent {
    pub event_type: String,
    pub schema_version: String,
    pub id: String,
    pub ts: Timestamp,
    pub source: SourceInfo,
    pub context: Option<JsonValue>,
    pub model: ModelInfo,
    pub audio: AudioSpan,
    pub vad: VadInfo,
    pub result: TranscriptResult,
}

/// The contents of a [`TranscriptEvent`].
#[verifier::ext_equal]
pub struct EventView {
    pub event_type: Seq<char>,
    pub schema_version: Seq<char>,
    pub id: Seq<char>,
    pub ts: Timestamp,
    pub source: jobs::SourceView,
    pub context: Option<json::JsonView>,
    pub model: ModelInfoView,
    pub audio: AudioSpan,
    pub vad: jobs::VadView,
    pub result: ResultView,
}

impl View for TranscriptEvent {
    type V = EventView;

    open spec fn view(&self) -> EventView {
        EventView {
            event_type: self.event_type@,
            schema_version: self.schema_version@,
            id: self.id@,
            ts: self.ts,
            source: self.source@,
            context: jobs::context_view(self.context),
            model: self.model@,
            audio: self.audio,
            vad: self.vad@,
            result: self.result@,
        }
    }
}

/// The transcript of a job, from what the recogniser found.
pub open spec fn event_of<T>(
    job: jobs::JobView<T>,
    profile: models::ProfileView,
    language: Seq<char>,
    raw: Seq<TextView>,
) -> EventView {
    EventView {
        event_type: "transcript"@,
        schema_version: "1.0"@,
        id: job.id,
        ts: job.received_at,
        source: job.source,
        context: job.context,
        model: ModelInfoView { id: profile.id, name: profile.name, path: profile.path },
        audio: AudioSpan { start_sample: job.start_sample, end_sample: job.end_sample },
        vad: job.vad,
        result: ResultView {
            language,
            text: joined_text(kept_segments(raw)),
            segments: kept_segments(raw),
        },
    }
}

/// The pieces of text with the white space at their ends removed, without those
/// that are blank.
pub fn keep_segments(raw: &Vec<RawSegment>) -> (r: Vec<TranscriptSegment>)
    ensures
        segment_views(r@) == kept_segments(raw_views(raw@)),
{
    let mut out: Vec<TranscriptSegment> = Vec::new();
    assert(segment_views(out@) =~= Seq::<TextView>::empty());
    for i in 0..raw.len()
        invariant
            segment_views(out@) == kept_segments(raw_views(raw@).take(i as int)),
    {
        let ghost so_far = raw_views(raw@).take(i + 1);
        proof {
            assert(so_far.drop_last() =~= raw_views(raw@).take(i as int));
            assert(so_far.last() == raw@[i as int]@);
        }
        let trimmed = text::trim_str(raw[i].text.as_str());
        if !trimmed.is_empty() {
            let ghost before = out@;
            let segment = TranscriptSegment {
                start_timestamp: raw[i].start_timestamp,
                end_timestamp: raw[i].end_timestamp,
                text: trimmed.to_owned(),
            };
            out.push(segment);
            assert(segment_views(out@) =~= segment_views(before).push(segment@));
        }
    }
    assert(raw_views(raw@).take(raw@.len() as int) =~= raw_views(raw@));
    out
}

/// The text of the segments, with a space between each two.
pub fn join_segments(segments: &Vec<TranscriptSegment>) -> (r: String)
    ensures
        r@ == joined_text(segment_views(segments@)),
{
    let mut texts: Vec<String> = Vec::new();
    for i in 0..segments.len()
        invariant
            texts@.len() == i,
            forall|j: int| 0 <= j < i ==> (#[trigger] texts@[j])@ == segments@[j].text@,
    {
        texts.push(segments[i].text.clone());
    }
    assert(text::views(texts@) =~= texts_of(segment_views(segments@)));
    text::trim_str(text::join_strs(&texts, " ").as_str()).to_owned()
}

/// The transcript of a job, from what the recogniser found.
pub fn transcript_event<T>(
    job: TranscribeJob<T>,
    profile: &ModelProfile,
    language: &str,
    raw: &Vec<RawSegment>,
) -> (r: TranscriptEvent)
    ensures
        r@ == event_of(job@, profile@, language@, raw_views(raw@)),
{
    let segments = keep_segments(raw);
    let text = join_segments(&segments);
    TranscriptEvent {
        event_type: "transcript".to_owned(),
        schema_version: "1.0".to_owned(),
        id: job.id,
        ts: job.received_at,
        source: job.source,
        context: job.context,
        model: ModelInfo {
            id: profile.id.clone(),
            name: profile.name.clone(),
            path: profile.path.clone(),
        },
        audio: AudioSpan { start_sample: job.start_sample, end_sample: job.end_sample },
        vad: job.vad,
        result: TranscriptResult { language: language.to_owned(), text, segments },
    }
}

proof fn lemma_kept_are_trimmed(raw: Seq<TextView>)
    ensures
        forall|i: int|
            0 <= i < kept_segments(raw).len() ==> {
                let t = (#[trigger] kept_segments(raw)[i]).text;
                t.len() > 0 && !text::is_white_space(t[0]) && !text::is_white_space(t.last())
            },
    decreases raw.len(),
{
    if raw.len() > 0 {
        lemma_kept_are_trimmed(raw.drop_last());
        text::lemma_trimmed_ends(raw.last().text, text::Cut::Space);
        let before = kept_segments(raw.drop_last());
        assert forall|i: int| 0 <= i < kept_segments(raw).len() implies {
            let t = (#[trigger] kept_segments(raw)[i]).text;
            t.len() > 0 && !text::is_white_space(t[0]) && !text::is_white_space(t.last())
        } by {
            if i < before.len() {
                assert(kept_segments(raw)[i] == before[i]);
            }
        }
    }
}

proof fn lemma_join_ends(parts: Seq<Seq<char>>, sep: Seq<char>)
    requires
        parts.len() > 0,
        forall|i: int| 0 <= i < parts.len() ==> (#[trigger] parts[i]).len() > 0,
    ensures
        text::join(parts, sep).len() > 0,
        text::join(parts, sep)[0] == parts[0][0],
        text::join(parts, sep).last() == parts.last().last(),
    decreases parts.len(),
{
    if parts.len() > 1 {
        assert forall|i: int| 0 <= i < parts.drop_last().len() implies (
        #[trigger] parts.drop_last()[i]).len() > 0 by {
            assert(parts.drop_last()[i] == parts[i]);
        }
        lemma_join_ends(parts.drop_last(), sep);
        assert(parts.last().len() > 0);
    }
}

/// The text of a transcript is that of its segments with a space between each
/// two, none of which is blank or has white space at its ends; and it is empty
/// only where nothing was said.
pub proof fn transcript_text_is_that_of_its_segments<T>(
    job: jobs::JobView<T>,
    profile: models::ProfileView,
    language: Seq<char>,
    raw: Seq<TextView>,
)
    ensures
        ({
            let result = event_of(job, profile, language, raw).result;
            &&& result.text == text::join(texts_of(result.segments), " "@)
            &&& result.text.len() == 0 <==> result.segments.len() == 0
            &&& forall|i: int|
                0 <= i < result.segments.len() ==> {
                    let t = (#[trigger] result.segments[i]).text;
                    t.len() > 0 && text::trim(t) == t
                }
        }),
{
    let kept = kept_segments(raw);
    lemma_kept_are_trimmed(raw);
    assert forall|i: int| 0 <= i < kept.len() implies {
        let t = (#[trigger] kept[i]).text;
        t.len() > 0 && text::trim(t) == t
    } by {
        text::lemma_trim_keeps(kept[i].text, text::Cut::Space);
    }
    let texts = texts_of(kept);
    if kept.len() > 0 {
        assert forall|i: int| 0 <= i < texts.len() implies (#[trigger] texts[i]).len() > 0 by {
            assert(texts[i] == kept[i].text);
        }
        lemma_join_ends(texts, " "@);
        assert(texts[0] == kept[0].text);
        assert(texts.last() == kept[kept.len() - 1].text);
        text::lemma_trim_keeps(text::join(texts, " "@), text::Cut::Space);
    }
}

/// Whether something was said: the text holds a character that is no white
/// space.
pub open spec fn is_spoken(piece: TextView) -> bool {
    exists|k: int| 0 <= k < piece.text.len() && !text::is_white_space(#[trigger] piece.text[k])
}

/// The segments of a transcript are those pieces in which something was said, in
/// order and each with its times, without the white space at the ends of its
/// text.
pub proof fn every_spoken_piece_is_a_segment<T>(
    job: jobs::JobView<T>,
    profile: models::ProfileView,
    language: Seq<char>,
    raw: Seq<TextView>,
)
    ensures
        event_of(job, profile, language, raw).result.segments == raw.filter(
            |piece: TextView| is_spoken(piece),
        ).map_values(
            |piece: TextView|
                TextView {
                    text: text::trim(piece.text),
                    start_timestamp: piece.start_timestamp,
                    end_timestamp: piece.end_timestamp,
                },
        ),
    decreases raw.len(),
{
    let spoken = |piece: TextView| is_spoken(piece);
    let trimmed = |piece: TextView|
        TextView {
            text: text::trim(piece.text),
            start_timestamp: piece.start_timestamp,
            end_timestamp: piece.end_timestamp,
        };
    reveal(Seq::filter);
    if raw.len() > 0 {
        let before = raw.drop_last();
        let last = raw.last();
        every_spoken_piece_is_a_segment(job, profile, language, before);
        text_laws::blank_is_white_space_alone(last.text);
        if is_spoken(last) {
            assert(raw.filter(spoken) == before.filter(spoken).push(last));
            assert(raw.filter(spoken).map_values(trimmed) =~= before.filter(spoken).map_values(
                trimmed,
            ).push(trimmed(last)));
        }
    }
    assert(kept_segments(raw) =~= raw.filter(spoken).map_values(trimmed));
}

/// Pieces of text that come after others add their segments to those of the
/// others, and change none.
pub proof fn later_pieces_change_no_segment<T>(
    job: jobs::JobView<T>,
    profile: models::ProfileView,
    language: Seq<char>,
    a: Seq<TextView>,
    b: Seq<TextView>,
)
    ensures
        event_of(job, profile, language, a + b).result.segments == event_of(
            job,
            profile,
            language,
            a,
        ).result.segments + event_of(job, profile, language, b).result.segments,
    decreases b.len(),
{
    if b.len() == 0 {
        assert(a + b =~= a);
        assert(kept_segments(a) + kept_segments(b) =~= kept_segments(a));
    } else {
        assert((a + b).drop_last() =~= a + b.drop_last());
        later_pieces_change_no_segment(job, profile, language, a, b.drop_last());
        assert(kept_segments(a + b) =~= kept_segments(a) + kept_segments(b));
    }
}

/// A transcript carries what its job carries, names the model that made it, and
/// is in the language that it was made in.
pub proof fn transcript_carries_its_job<T>(
    job: jobs::JobView<T>,
    profile: models::ProfileView,
    language: Seq<char>,
    raw: Seq<TextView>,
)
    ensures
        ({
            let event = event_of(job, profile, language, raw);
            &&& event.event_type == "transcript"@
            &&& event.schema_version == "1.0"@
            &&& event.id == job.id
            &&& event.ts == job.received_at
            &&& event.source == job.source
            &&& event.context == job.context
            &&& event.vad == job.vad
            &&& event.audio.start_sample == job.start_sample
            &&& event.audio.end_sample == job.end_sample
            &&& event.model.id == profile.id
            &&& event.model.name == profile.name
            &&& event.model.path == profile.path
            &&& event.result.language == language
        }),
{
}

/// A job is refused only where the model is not loaded and its file is missing,
/// and the model is loaded only where it is not loaded yet and its file is
/// there.
pub proof fn missing_model_file_refuses_the_job(
    loaded: LoadedView,
    profile: models::ProfileView,
    file_exists: bool,
)
    ensures
        ({
            let at_hand = loaded.ready && loaded.id == Some(profile.id) && loaded.path == Some(
                profile.path,
            );
            let step = step_for(loaded, profile, file_exists);
            &&& at_hand ==> step is Transcribe
            &&& !at_hand && file_exists ==> step is Load
            &&& !at_hand && !file_exists ==> step == StepView::Refuse(
                "active model file is missing: "@ + profile.path
                    + ". Download it from web admin before using it"@,
            )
        }),
        loaded_from(profile).ready,
        loaded_from(profile).id == Some(profile.id),
        loaded_from(profile).path == Some(profile.path),
        !nothing_loaded().ready,
{
}

} // verus!
