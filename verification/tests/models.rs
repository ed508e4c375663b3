use audio2mqtt::models::{
    default_model_profiles, ensure_finnish_nlp_profile, find_profile_by_id,
    finnish_nlp_large_v3_profile, position_of_profile, ModelProfile,
};

fn profile(id: &str, path: &str) -> ModelProfile {
    ModelProfile {
        id: id.to_string(),
        name: id.to_string(),
        path: path.to_string(),
        url: String::new(),
        description: String::new(),
        recommended_vram_gb: None,
    }
}

fn ids(profiles: &[ModelProfile]) -> Vec<&str> {
    profiles.iter().map(|p| p.id.as_str()).collect()
}

#[test]
fn the_finnish_profile_is_built_in() {
    let p = finnish_nlp_large_v3_profile();
    assert_eq!(p.id, "finnish-nlp-large-v3");
    assert_eq!(p.name, "Finnish-NLP Finnish Whisper large-v3");
    assert_eq!(p.path, "/models/ggml-model-fi-large-v3.bin");
    assert_eq!(
        p.url,
        "https://huggingface.co/Finnish-NLP/Finnish-finetuned-whisper-models-ggml-format/resolve/main/ggml-model-fi-large-v3.bin"
    );
    assert_eq!(p.recommended_vram_gb, Some(10));
}

#[test]
fn a_known_default_adds_no_profile() {
    let profiles = default_model_profiles("medium", "/p", "u");
    assert_eq!(
        ids(&profiles),
        vec!["large-v3", "large-v3-turbo", "medium", "finnish-nlp-large-v3"]
    );
    assert_eq!(profiles[0].path, "/models/ggml-large-v3.bin");
    assert_eq!(profiles[1].recommended_vram_gb, Some(8));
    assert_eq!(profiles[2].recommended_vram_gb, Some(5));
    assert_eq!(profiles[2].name, "Whisper medium");
}

#[test]
fn another_default_comes_first() {
    let profiles = default_model_profiles("mine", "/models/mine.bin", "https://x/mine.bin");
    assert_eq!(
        ids(&profiles),
        vec!["mine", "large-v3", "large-v3-turbo", "medium", "finnish-nlp-large-v3"]
    );
    assert_eq!(profiles[0].name, "Custom default: mine");
    assert_eq!(profiles[0].path, "/models/mine.bin");
    assert_eq!(profiles[0].url, "https://x/mine.bin");
    assert_eq!(profiles[0].description, "Default from environment");
    assert_eq!(profiles[0].recommended_vram_gb, None);
}

#[test]
fn the_finnish_profile_is_added_once() {
    let mut profiles = vec![profile("a", "/a")];
    assert!(ensure_finnish_nlp_profile(&mut profiles));
    assert_eq!(ids(&profiles), vec!["a", "finnish-nlp-large-v3"]);
    assert!(!ensure_finnish_nlp_profile(&mut profiles));
    assert_eq!(profiles.len(), 2);
}

#[test]
fn the_first_profile_with_an_identifier_is_found() {
    let profiles = vec![profile("a", "/1"), profile("b", "/2"), profile("b", "/3")];
    assert_eq!(position_of_profile(&profiles, "b"), Some(1));
    assert_eq!(find_profile_by_id(&profiles, "b").unwrap().path, "/2");
    assert_eq!(position_of_profile(&profiles, "B"), None);
    assert!(find_profile_by_id(&profiles, "c").is_none());
}
