//! Whisper model profiles: the built-in ones, the one in use, and the
//! decisions around selecting and downloading a model.

use vstd::prelude::*;

use crate::text;

verus! {

/// A model that can be selected: where its file is stored and where it can
/// be downloaded from.
#[derive(Debug)]
pub struct ModelProfile {
    pub id: String,
    pub name: String,
    pub path: String,
    pub url: String,
    pub description: String,
    pub recommended_vram_gb: Option<u32>,
}

/// The contents of a [`ModelProfile`].
#[verifier::ext_equal]
pub struct ProfileView {
    pub id: Seq<char>,
    pub name: Seq<char>,
    pub path: Seq<char>,
    pub url: Seq<char>,
    pub description: Seq<char>,
    pub recommended_vram_gb: Option<u32>,
}

impl View for ModelProfile {
    type V = ProfileView;

    open spec fn view(&self) -> ProfileView {
        ProfileView {
            id: self.id@,
            name: self.name@,
            path: self.path@,
            url: self.url@,
            description: self.description@,
            recommended_vram_gb: self.recommended_vram_gb,
        }
    }
}

impl Clone for ModelProfile {
    fn clone(&self) -> (r: Self)
        ensures
            r@ == self@,
    {
        ModelProfile {
            id: self.id.clone(),
            name: self.name.clone(),
            path: self.path.clone(),
            url: self.url.clone(),
            description: self.description.clone(),
            recommended_vram_gb: self.recommended_vram_gb,
        }
    }
}

/// The contents of a list of profiles.
pub open spec fn profile_views(profiles: Seq<ModelProfile>) -> Seq<ProfileView> {
    profiles.map_values(|p: ModelProfile| p@)
}

/// A copy of a list of profiles.
pub fn clone_profiles(profiles: &Vec<ModelProfile>) -> (r: Vec<ModelProfile>)
    ensures
        profile_views(r@) == profile_views(profiles@),
{
    let mut out: Vec<ModelProfile> = Vec::new();
    for i in 0..profiles.len()
        invariant
            out@.len() == i,
            forall|j: int| 0 <= j < i ==> #[trigger] out@[j]@ == profiles@[j]@,
    {
        out.push(profiles[i].clone());
    }
    assert(profile_views(out@) =~= profile_views(profiles@));
    out
}

/// The profiles that can be selected and the identifier of the selected one.
#[derive(Debug)]
pub struct ModelConfig {
    pub active_model_id: String,
    pub profiles: Vec<ModelProfile>,
}

/// The contents of a [`ModelConfig`].
#[verifier::ext_equal]
pub struct ModelsView {
    pub active_model_id: Seq<char>,
    pub profiles: Seq<ProfileView>,
}

impl View for ModelConfig {
    type V = ModelsView;

    open spec fn view(&self) -> ModelsView {
        ModelsView {
            active_model_id: self.active_model_id@,
            profiles: profile_views(self.profiles@),
        }
    }
}

impl Clone for ModelConfig {
    fn clone(&self) -> (r: Self)
        ensures
            r@ == self@,
    {
        ModelConfig {
            active_model_id: self.active_model_id.clone(),
            profiles: clone_profiles(&self.profiles),
        }
    }
}

/// Whether a profile has the identifier `id`.
pub open spec fn has_profile(profiles: Seq<ProfileView>, id: Seq<char>) -> bool {
    exists|i: int| 0 <= i < profiles.len() && (#[trigger] profiles[i]).id == id
}

/// Whether the profile at `i` is the first one with the identifier `id`.
pub open spec fn is_first_with_id(profiles: Seq<ProfileView>, id: Seq<char>, i: int) -> bool {
    &&& 0 <= i < profiles.len()
    &&& profiles[i].id == id
    &&& forall|j: int| 0 <= j < i ==> (#[trigger] profiles[j]).id != id
}

/// The position of the first profile with the identifier `id`, or the number
/// of profiles.
pub open spec fn profile_position(profiles: Seq<ProfileView>, id: Seq<char>) -> int
    decreases profiles.len(),
{
    if profiles.len() == 0 || profiles[0].id == id {
        0
    } else {
        1 + profile_position(profiles.drop_first(), id)
    }
}

/// What `profile_position` gives: the first profile with the identifier, if
/// there is one.
pub proof fn lemma_profile_position(profiles: Seq<ProfileView>, id: Seq<char>)
    ensures
        0 <= profile_position(profiles, id) <= profiles.len(),
        has_profile(profiles, id) <==> profile_position(profiles, id) < profiles.len(),
        has_profile(profiles, id) ==> is_first_with_id(
            profiles,
            id,
            profile_position(profiles, id),
        ),
    decreases profiles.len(),
{
    if profiles.len() > 0 && profiles[0].id != id {
        let rest = profiles.drop_first();
        lemma_profile_position(rest, id);
        if has_profile(profiles, id) {
            let i = choose|i: int| 0 <= i < profiles.len() && (#[trigger] profiles[i]).id == id;
            assert(rest[i - 1].id == id);
            assert forall|j: int| 0 <= j < profile_position(profiles, id) implies (
            #[trigger] profiles[j]).id != id by {
                if j > 0 {
                    assert(rest[j - 1] == profiles[j]);
                }
            }
        }
        if has_profile(rest, id) {
            let i = choose|i: int| 0 <= i < rest.len() && (#[trigger] rest[i]).id == id;
            assert(profiles[i + 1].id == id);
        }
    } else if profiles.len() > 0 {
        assert(profiles[0].id == id);
    }
}

/// The first profile with the identifier `id`.
pub open spec fn find_profile(profiles: Seq<ProfileView>, id: Seq<char>) -> Option<ProfileView> {
    if has_profile(profiles, id) {
        Some(profiles[profile_position(profiles, id)])
    } else {
        None
    }
}

/// The position of the first profile with the identifier `id`.
pub fn position_of_profile(profiles: &Vec<ModelProfile>, id: &str) -> (r: Option<usize>)
    ensures
        r is Some <==> has_profile(profile_views(profiles@), id@),
        r matches Some(i) ==> {
            &&& i < profiles@.len()
            &&& i == profile_position(profile_views(profiles@), id@)
            &&& is_first_with_id(profile_views(profiles@), id@, i as int)
        },
{
    let ghost views = profile_views(profiles@);
    for i in 0..profiles.len()
        invariant
            views == profile_views(profiles@),
            forall|j: int| 0 <= j < i ==> (#[trigger] views[j]).id != id@,
    {
        if text::str_eq(profiles[i].id.as_str(), id) {
            proof {
                assert(views[i as int].id == id@);
                lemma_profile_position(views, id@);
                let k = profile_position(views, id@);
                assert(is_first_with_id(views, id@, k));
                if k < i {
                    assert(views[k].id != id@);
                }
                if i < k {
                    assert(views[i as int].id != id@);
                }
            }
            return Some(i);
        }
        assert(views[i as int].id == profiles@[i as int].id@);
    }
    None
}

/// The first profile with the identifier `id`, copied.
pub fn find_profile_by_id(profiles: &Vec<ModelProfile>, id: &str) -> (r: Option<ModelProfile>)
    ensures
        find_profile(profile_views(profiles@), id@) == (match r {
            Some(p) => Some(p@),
            None => None,
        }),
{
    match position_of_profile(profiles, id) {
        Some(i) => Some(profiles[i].clone()),
        None => None,
    }
}

// ---------------------------------------------------------------------------
// Built-in profiles
// ---------------------------------------------------------------------------

/// The Finnish fine-tuned model of Finnish-NLP.
pub open spec fn finnish_profile() -> ProfileView {
    ProfileView {
        id: "finnish-nlp-large-v3"@,
        name: "Finnish-NLP Finnish Whisper large-v3"@,
        path: "/models/ggml-model-fi-large-v3.bin"@,
        url: "https://huggingface.co/Finnish-NLP/Finnish-finetuned-whisper-models-ggml-format/resolve/main/ggml-model-fi-large-v3.bin"@,
        description: "Finnish fine-tuned GGML large-v3 model from Finnish-NLP."@,
        recommended_vram_gb: Some(10),
    }
}

/// The Finnish fine-tuned model of Finnish-NLP.
pub fn finnish_nlp_large_v3_profile() -> (r: ModelProfile)
    ensures
        r@ == finnish_profile(),
{
    ModelProfile {
        id: "finnish-nlp-large-v3".to_owned(),
        name: "Finnish-NLP Finnish Whisper large-v3".to_owned(),
        path: "/models/ggml-model-fi-large-v3.bin".to_owned(),
        url: "https://huggingface.co/Finnish-NLP/Finnish-finetuned-whisper-models-ggml-format/resolve/main/ggml-model-fi-large-v3.bin".to_owned(),
        description: "Finnish fine-tuned GGML large-v3 model from Finnish-NLP.".to_owned(),
        recommended_vram_gb: Some(10),
    }
}

/// The Whisper model large-v3.
pub open spec fn large_v3_profile() -> ProfileView {
    ProfileView {
        id: "large-v3"@,
        name: "Whisper large-v3"@,
        path: "/models/ggml-large-v3.bin"@,
        url: "https://huggingface.co/ggerganov/whisper.cpp/resolve/main/ggml-large-v3.bin"@,
        description: "Best default quality. RTX 3080 10/12 GB: usually works, but the 10 GB variant has less headroom."@,
        recommended_vram_gb: Some(10),
    }
}

/// The Whisper model large-v3-turbo.
pub open spec fn large_v3_turbo_profile() -> ProfileView {
    ProfileView {
        id: "large-v3-turbo"@,
        name: "Whisper large-v3-turbo"@,
        path: "/models/ggml-large-v3-turbo.bin"@,
        url: "https://huggingface.co/ggerganov/whisper.cpp/resolve/main/ggml-large-v3-turbo.bin"@,
        description: "Faster and lighter large-v3 turbo variant."@,
        recommended_vram_gb: Some(8),
    }
}

/// The Whisper model medium.
pub open spec fn medium_profile() -> ProfileView {
    ProfileView {
        id: "medium"@,
        name: "Whisper medium"@,
        path: "/models/ggml-medium.bin"@,
        url: "https://huggingface.co/ggerganov/whisper.cpp/resolve/main/ggml-medium.bin"@,
        description: "Light fallback. Finnish accuracy is clearly weaker than large-v3."@,
        recommended_vram_gb: Some(5),
    }
}

/// The profiles that come with the program.
pub open spec fn builtin_profiles() -> Seq<ProfileView> {
    seq![large_v3_profile(), large_v3_turbo_profile(), medium_profile(), finnish_profile()]
}

/// The profile of a default model that is none of the built-in ones.
pub open spec fn custom_profile(id: Seq<char>, path: Seq<char>, url: Seq<char>) -> ProfileView {
    ProfileView {
        id,
        name: "Custom default: "@ + id,
        path,
        url,
        description: "Default from environment"@,
        recommended_vram_gb: None,
    }
}

/// The profiles of a new configuration: the built-in ones, with the default
/// model in front where it is none of them.
pub open spec fn default_profiles(id: Seq<char>, path: Seq<char>, url: Seq<char>) -> Seq<
    ProfileView,
> {
    if has_profile(builtin_profiles(), id) {
        builtin_profiles()
    } else {
        seq![custom_profile(id, path, url)] + builtin_profiles()
    }
}

/// The profiles of a new configuration: the built-in ones, with the default
/// model in front where it is none of them.
pub fn default_model_profiles(default_id: &str, default_path: &str, default_url: &str) -> (r: Vec<
    ModelProfile,
>)
    ensures
        profile_views(r@) == default_profiles(default_id@, default_path@, default_url@),
{
    let mut profiles: Vec<ModelProfile> = Vec::new();
    profiles.push(
        ModelProfile {
            id: "large-v3".to_owned(),
            name: "Whisper large-v3".to_owned(),
            path: "/models/ggml-large-v3.bin".to_owned(),
            url: "https://huggingface.co/ggerganov/whisper.cpp/resolve/main/ggml-large-v3.bin".to_owned(),
            description: "Best default quality. RTX 3080 10/12 GB: usually works, but the 10 GB variant has less headroom.".to_owned(),
            recommended_vram_gb: Some(10),
        },
    );
    profiles.push(
        ModelProfile {
            id: "large-v3-turbo".to_owned(),
            name: "Whisper large-v3-turbo".to_owned(),
            path: "/models/ggml-large-v3-turbo.bin".to_owned(),
            url: "https://huggingface.co/ggerganov/whisper.cpp/resolve/main/ggml-large-v3-turbo.bin".to_owned(),
            description: "Faster and lighter large-v3 turbo variant.".to_owned(),
            recommended_vram_gb: Some(8),
        },
    );
    profiles.push(
        ModelProfile {
            id: "medium".to_owned(),
            name: "Whisper medium".to_owned(),
            path: "/models/ggml-medium.bin".to_owned(),
            url: "https://huggingface.co/ggerganov/whisper.cpp/resolve/main/ggml-medium.bin".to_owned(),
            description: "Light fallback. Finnish accuracy is clearly weaker than large-v3.".to_owned(),
            recommended_vram_gb: Some(5),
        },
    );
    profiles.push(finnish_nlp_large_v3_profile());
    assert(profile_views(profiles@) =~= builtin_profiles());

    if position_of_profile(&profiles, default_id).is_none() {
        let ghost before = profiles@;
        profiles.insert(
            0,
            ModelProfile {
                id: default_id.to_owned(),
                name: text::concat2("Custom default: ", default_id),
                path: default_path.to_owned(),
                url: default_url.to_owned(),
                description: "Default from environment".to_owned(),
                recommended_vram_gb: None,
            },
        );
        assert(profile_views(profiles@) =~= seq![
            custom_profile(default_id@, default_path@, default_url@),
        ] + profile_views(before));
    }
    profiles
}

/// The profiles with the Finnish one at the end where it is missing.
pub open spec fn with_finnish(profiles: Seq<ProfileView>) -> Seq<ProfileView> {
    if has_profile(profiles, finnish_profile().id) {
        profiles
    } else {
        profiles.push(finnish_profile())
    }
}

/// Adds the Finnish profile where it is missing; the result says whether it
/// was.
pub fn ensure_finnish_nlp_profile(profiles: &mut Vec<ModelProfile>) -> (added: bool)
    ensures
        profile_views(final(profiles)@) == with_finnish(profile_views(old(profiles)@)),
        added == !has_profile(profile_views(old(profiles)@), finnish_profile().id),
{
    let profile = finnish_nlp_large_v3_profile();
    if position_of_profile(profiles, profile.id.as_str()).is_some() {
        return false;
    }
    let ghost before = profiles@;
    profiles.push(profile);
    assert(profile_views(profiles@) =~= profile_views(before).push(finnish_profile()));
    true
}

} // verus!
