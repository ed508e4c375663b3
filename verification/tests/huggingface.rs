use audio2mqtt::huggingface::{
    encode_huggingface_path, filename_after_revision, huggingface_api_url, huggingface_file_score,
    huggingface_model_profile, is_bin_file, percent_encode_path_segment, sanitize_filename,
    sanitize_identifier, select_huggingface_model_file, split_huggingface_repo_and_filename,
    summarize_candidates, validate_huggingface_repo_id, HuggingFaceSibling, RepoError, SelectError,
};

fn siblings(names: &[&str]) -> Vec<HuggingFaceSibling> {
    names.iter().map(|n| HuggingFaceSibling { rfilename: n.to_string() }).collect()
}

fn split(repo: &str, file: Option<&str>) -> (String, Option<String>) {
    split_huggingface_repo_and_filename(repo, file).unwrap()
}

fn pair(repo: &str, file: Option<&str>) -> (String, Option<String>) {
    (repo.to_string(), file.map(|f| f.to_string()))
}

const REPO: &str = "Finnish-NLP/Finnish-finetuned-whisper-models-ggml-format";
const FILE: &str = "ggml-model-fi-large-v3.bin";

#[test]
fn plain_repo_names_are_taken() {
    assert_eq!(split(REPO, None), pair(REPO, None));
    assert_eq!(split("  /owner/model/ ", None), pair("owner/model", None));
    assert_eq!(split("owner/model", Some(" /a/b.bin ")), pair("owner/model", Some("a/b.bin")));
    assert_eq!(split("owner/model", Some("  ")), pair("owner/model", None));
}

#[test]
fn repo_addresses_are_taken() {
    assert_eq!(split("https://huggingface.co/owner/model", None), pair("owner/model", None));
    assert_eq!(split("http://huggingface.co/owner/model/", None), pair("owner/model", None));
    assert_eq!(
        split("https://huggingface.co/owner/model?x=1#top", None),
        pair("owner/model", None)
    );
    assert_eq!(
        split("https://huggingface.co/owner/model/tree/main", None),
        pair("owner/model", None)
    );
}

#[test]
fn file_addresses_name_repo_and_file() {
    let url = format!("https://huggingface.co/{REPO}/resolve/main/{FILE}");
    assert_eq!(split(&url, None), pair(REPO, Some(FILE)));
    assert_eq!(
        split("https://huggingface.co/o/m/blob/main/sub/x.bin?download=true", None),
        pair("o/m", Some("sub/x.bin"))
    );
    assert_eq!(split("o/m/resolve/main/x.bin", Some("y.bin")), pair("o/m", Some("y.bin")));
    assert_eq!(split("o/m/resolve/main", None), pair("o/m", None));
}

#[test]
fn files_behind_a_colon_or_in_the_path_are_taken() {
    assert_eq!(split("owner/model:x.bin", None), pair("owner/model", Some("x.bin")));
    assert_eq!(split("owner/model:", None), pair("owner/model", None));
    assert_eq!(split("owner/model/sub/X.BIN", None), pair("owner/model", Some("sub/X.BIN")));
}

#[test]
fn bad_repo_names_are_refused() {
    for (input, error) in [
        ("", RepoError::Empty),
        ("  \t", RepoError::Empty),
        ("model", RepoError::NotOwnerModel),
        ("owner/model/extra", RepoError::NotOwnerModel),
        ("?owner/model", RepoError::NotOwnerModel),
        ("owner/ /model", RepoError::NotOwnerModel),
        ("owner/mo del", RepoError::UnsupportedCharacters),
        ("owner/modäl", RepoError::UnsupportedCharacters),
    ] {
        assert_eq!(split_huggingface_repo_and_filename(input, None).unwrap_err(), error, "{input}");
    }
    assert_eq!(
        RepoError::Empty.message(),
        "Hugging Face repo name is empty; expected owner/model"
    );
    assert_eq!(
        RepoError::NotOwnerModel.message(),
        "expected Hugging Face repo name in owner/model form"
    );
    assert_eq!(
        RepoError::UnsupportedCharacters.message(),
        "Hugging Face repo name contains unsupported characters"
    );
}

#[test]
fn repo_names_are_checked() {
    assert!(validate_huggingface_repo_id("a/b").is_ok());
    assert!(validate_huggingface_repo_id("a.b-c_d/E9").is_ok());
    assert_eq!(validate_huggingface_repo_id("a").unwrap_err(), RepoError::NotOwnerModel);
    assert_eq!(validate_huggingface_repo_id("/b").unwrap_err(), RepoError::NotOwnerModel);
    assert_eq!(
        validate_huggingface_repo_id("a/b?").unwrap_err(),
        RepoError::UnsupportedCharacters
    );
}

#[test]
fn revisions_are_cut_off() {
    assert_eq!(filename_after_revision("main/a/b.bin"), Some("a/b.bin".to_string()));
    assert_eq!(filename_after_revision("main//b.bin"), Some("b.bin".to_string()));
    assert_eq!(filename_after_revision("main/"), None);
    assert_eq!(filename_after_revision("main"), None);
}

#[test]
fn model_files_end_in_bin() {
    assert!(is_bin_file("a.bin"));
    assert!(is_bin_file("A.BIN"));
    assert!(!is_bin_file("a.bin.txt"));
    assert!(!is_bin_file("bin"));
}

#[test]
fn files_are_scored() {
    for (name, score) in [
        ("ggml-large-v3.bin", 190),
        ("GGML-Large-V2.bin", 185),
        ("large.bin", 80),
        ("medium-small.bin", 70),
        ("ggml-small.bin", 160),
        ("base.bin", 50),
        ("ggml-tiny.bin", 140),
        ("other.bin", 0),
        ("ggml.bin", 100),
    ] {
        assert_eq!(huggingface_file_score(name), score, "{name}");
    }
}

#[test]
fn capitals_do_not_change_the_score() {
    for name in ["ggml-large-v3.bin", "Medium.bin", "tiny.BIN", "other", "ÄggmL-Σ-Small.bin"] {
        let upper = name.to_ascii_uppercase();
        assert_eq!(huggingface_file_score(&upper), huggingface_file_score(name), "{name}");
    }
    assert!(huggingface_file_score("ggml.bin") > huggingface_file_score("large-v3.bin"));
}

#[test]
fn the_best_file_is_chosen() {
    let files = siblings(&[
        "README.md",
        "ggml-tiny.bin",
        "ggml-model-fi-large-v3.bin",
        "ggml-alt-large-v3.bin",
        "ggml-medium.bin",
    ]);
    assert_eq!(
        select_huggingface_model_file(&files, None).unwrap(),
        "ggml-alt-large-v3.bin"
    );
    let mut other = siblings(&["ggml-alt-large-v3.bin", "ggml-model-fi-large-v3.bin"]);
    other.reverse();
    assert_eq!(
        select_huggingface_model_file(&other, Some("  ")).unwrap(),
        "ggml-alt-large-v3.bin"
    );
}

#[test]
fn a_requested_file_must_be_there() {
    let files = siblings(&["a.bin", "b.bin", "c.txt"]);
    assert_eq!(select_huggingface_model_file(&files, Some(" /b.bin")).unwrap(), "b.bin");
    let error = select_huggingface_model_file(&files, Some("c.txt")).unwrap_err();
    assert_eq!(
        error.message(),
        "file 'c.txt' was not found in the Hugging Face repo; available .bin files: a.bin, b.bin"
    );
    let error = select_huggingface_model_file(&siblings(&[]), Some("a.bin")).unwrap_err();
    assert_eq!(
        error.message(),
        "file 'a.bin' was not found in the Hugging Face repo; available .bin files: none"
    );
    let error = select_huggingface_model_file(&siblings(&["x.txt"]), None).unwrap_err();
    assert!(matches!(error, SelectError::NoModelFile));
    assert_eq!(error.message(), "no .bin model file was found in the Hugging Face repo");
}

#[test]
fn long_lists_of_files_are_cut() {
    let names: Vec<String> = (0..9).map(|i| format!("{i}.bin")).collect();
    assert_eq!(summarize_candidates(&vec![]), "none");
    assert_eq!(
        summarize_candidates(&names[..8].to_vec()),
        "0.bin, 1.bin, 2.bin, 3.bin, 4.bin, 5.bin, 6.bin, 7.bin"
    );
    assert_eq!(
        summarize_candidates(&names),
        "0.bin, 1.bin, 2.bin, 3.bin, 4.bin, 5.bin, 6.bin, 7.bin, ..."
    );
}

#[test]
fn identifiers_are_dashed_lower_case() {
    assert_eq!(sanitize_identifier("Finnish-NLP/Finnish Model.v3"), "finnish-nlp-finnish-model-v3");
    assert_eq!(sanitize_identifier("--A__B--"), "a-b");
    assert_eq!(sanitize_identifier("ÄÖ"), "");
    assert_eq!(sanitize_identifier("İx"), "i-x");
    assert_eq!(sanitize_identifier("\u{212a}elvin"), "kelvin");
    assert_eq!(sanitize_identifier(""), "");
}

#[test]
fn file_names_keep_their_length() {
    assert_eq!(sanitize_filename("a b/ä.bin"), "a-b--.bin");
    assert_eq!(sanitize_filename("A-z_0.9"), "A-z_0.9");
}

#[test]
fn path_segments_are_percent_encoded() {
    assert_eq!(percent_encode_path_segment("Az09-_.~"), "Az09-_.~");
    assert_eq!(percent_encode_path_segment("a b%/ä"), "a%20b%25%2F%C3%A4");
    assert_eq!(percent_encode_path_segment("\u{7f}\n"), "%7F%0A");
    assert_eq!(encode_huggingface_path("sub dir/x+y.bin"), "sub%20dir/x%2By.bin");
}

#[test]
fn profiles_are_made_of_repo_and_file() {
    let p = huggingface_model_profile(REPO, FILE, None, None);
    assert_eq!(
        p.id,
        "hf-finnish-nlp-finnish-finetuned-whisper-models-ggml-format-ggml-model-fi-large-v3"
    );
    assert_eq!(p.name, format!("{REPO} / {FILE}"));
    assert_eq!(
        p.path,
        "/models/finnish-nlp-finnish-finetuned-whisper-models-ggml-format-ggml-model-fi-large-v3.bin"
    );
    assert_eq!(p.url, format!("https://huggingface.co/{REPO}/resolve/main/{FILE}"));
    assert_eq!(p.description, format!("Hugging Face GGML model: {REPO}/{FILE}"));
    assert_eq!(p.recommended_vram_gb, None);

    let p = huggingface_model_profile("o/m", "sub/my model.bin", Some(" mine "), Some(" Mine "));
    assert_eq!(p.id, "mine");
    assert_eq!(p.name, "Mine");
    assert_eq!(p.path, "/models/o-m-my-model.bin");
    assert_eq!(p.url, "https://huggingface.co/o/m/resolve/main/sub/my%20model.bin");
    let p = huggingface_model_profile("o/m", "sub/x.bin", Some(" "), Some(""));
    assert_eq!(p.id, "hf-o-m-x");
    assert_eq!(p.name, "o/m / x.bin");
}

#[test]
fn repos_are_described_by_the_site() {
    assert_eq!(huggingface_api_url("o/m"), "https://huggingface.co/api/models/o/m");
}

#[test]
fn identifiers_ignore_capitals_and_stay_as_they_are() {
    for value in ["Finnish-NLP/Finnish Model.v3", "--A__B--", "", "x", "\u{c4}iti a", "İK\u{212a}Σx"] {
        let made = sanitize_identifier(value);
        assert_eq!(sanitize_identifier(&made), made, "{value}");
        assert_eq!(sanitize_identifier(&value.to_ascii_uppercase()), made, "{value}");
    }
}
