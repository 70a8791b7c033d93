use pdf2vid::models::{
    checksum_verdict, download_plan, expected_file_size, find_spec, language_pair_for,
    lookup_model, model_files, model_id_for_pair, model_info, model_registry,
    providers_using_models, sha256_hex, validate_model_id, ModelSpec,
};

#[test]
fn language_pair_for_known_languages() {
    assert_eq!(language_pair_for("Spanish"), "en-es");
    assert_eq!(language_pair_for("Chinese (Simplified)"), "en-zh");
    assert_eq!(language_pair_for("English (US)"), "en-en");
}

#[test]
fn model_id_for_pair_format() {
    assert_eq!(model_id_for_pair("Spanish"), "marian-en-es");
    assert_eq!(model_id_for_pair("Japanese"), "marian-en-jap");
    assert_eq!(model_id_for_pair("English (US)"), "");
}

#[test]
fn registry_is_empty_until_local_inference_is_implemented() {
    assert!(model_registry().is_empty());
}

#[test]
fn unknown_models_are_not_found() {
    assert!(find_spec("marian-en-es").is_none());
    assert_eq!(lookup_model("marian-en-es").unwrap_err(), "Unknown model: marian-en-es");
    assert_eq!(download_plan("piper-en_US-amy").unwrap_err(), "Unknown model: piper-en_US-amy");
}

#[test]
fn model_ids_that_escape_are_rejected() {
    assert!(validate_model_id("marian-en-es").is_ok());
    assert_eq!(validate_model_id("").unwrap_err(), "Invalid model id: ");
    assert_eq!(validate_model_id("a/b").unwrap_err(), "Invalid model id: a/b");
    assert_eq!(validate_model_id("a\\b").unwrap_err(), "Invalid model id: a\\b");
    assert_eq!(validate_model_id("a..b").unwrap_err(), "Invalid model id: a..b");
    assert_eq!(validate_model_id(".hidden").unwrap_err(), "Invalid model id: .hidden");
    assert!(validate_model_id("a.b").is_ok());
}

#[test]
fn model_families_list_their_files() {
    assert_eq!(
        model_files("marian").unwrap(),
        vec!["config.json", "tokenizer.json", "model.safetensors", "vocab.json", "source.spm", "target.spm"]
    );
    assert_eq!(model_files("piper").unwrap(), vec!["config.json", "model.onnx", "model.onnx.json"]);
    assert_eq!(model_files("whisper").unwrap_err(), "Unknown model family: whisper");
}

#[test]
fn only_piper_uses_downloaded_models() {
    assert_eq!(providers_using_models(), vec!["piper".to_string()]);
}

#[test]
fn sha256_hex_of_known_inputs() {
    assert_eq!(
        sha256_hex(b""),
        "e3b0c44298fc1c149afbf4c8996fb92427ae41e4649b934ca495991b7852b855"
    );
    assert_eq!(
        sha256_hex(b"abc"),
        "ba7816bf8f01cfea414140de5dae2223b00361a396177a9cb410ff61f20015ad"
    );
}

#[test]
fn checksum_verdicts() {
    assert!(checksum_verdict("a.bin", "", "anything").is_ok());
    assert!(checksum_verdict("a.bin", "abc", "abc").is_ok());
    assert_eq!(
        checksum_verdict("a.bin", "abc", "def").unwrap_err(),
        "Checksum mismatch for a.bin: expected abc, got def"
    );
}

#[test]
fn expected_file_size_falls_back_to_share() {
    assert_eq!(expected_file_size(Some(42), 900, 3), 42);
    assert_eq!(expected_file_size(None, 900, 3), 300);
}

#[test]
fn model_info_hides_path_when_not_installed() {
    let spec = ModelSpec {
        id: "m".into(),
        family: "piper".into(),
        label: "M".into(),
        url: "https://x/".into(),
        size_bytes: 10,
        sha256: String::new(),
        license: "MIT".into(),
        requires_accept: false,
    };
    let info = model_info(spec.clone(), false, Some("/models/m".into()));
    assert!(!info.installed);
    assert!(info.path.is_none());
    let info = model_info(spec, true, Some("/models/m".into()));
    assert_eq!(info.path.as_deref(), Some("/models/m"));
    assert_eq!(info.family, "piper");
}
