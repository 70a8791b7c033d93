use pdf2vid::commands::{
    check_api_key_input, check_pdf_extension, check_pdf_size, system_status, dependency_status, edge_preview_failure, edge_tts_version_from,
    install_hints, local_deps, missing_translation_key, module_probe_code, preview_call,
    preview_data_url, preview_mime, preview_missing_key, text_translation_route,
    text_translator, tts_engine_status, validate_export, TextTranslation,
};
use pdf2vid::export::{CloudTranslator, VoiceCall};
use pdf2vid::font::{FontRenderKind, FontResolution, Platform};
use pdf2vid::types::{Project, Scene};

fn project() -> Project {
    Project {
        name: "Test".into(),
        source_name: "test.pdf".into(),
        scenes: vec![Scene {
            id: "1".into(),
            page: 1,
            title: "Scene".into(),
            script: "Narration".into(),
            translated_script: None,
            duration: 4,
            selected: true,
            thumbnail: "".into(),
        }],
        language: "English (US)".into(),
        translation_provider: "marian".into(),
        voice_provider: "edge".into(),
        voice: "en-US-JennyNeural".into(),
        output_you_tube: true,
        output_tik_tok: true,
        skipped_pages: vec![],
        voice_speed: 100,
    }
}

#[test]
fn rejects_no_output() {
    let mut p = project();
    p.output_you_tube = false;
    p.output_tik_tok = false;
    assert_eq!(
        validate_export(&p, true, true).unwrap_err(),
        "Select at least one output format"
    );
}

#[test]
fn rejects_empty_script() {
    let mut p = project();
    p.scenes[0].script.clear();
    assert_eq!(
        validate_export(&p, true, true).unwrap_err(),
        "Every selected scene needs narration text"
    );
}

#[test]
fn validation_order_and_success() {
    let mut p = project();
    assert_eq!(validate_export(&p, true, true).unwrap(), "Project validated and ready to render");
    assert_eq!(
        validate_export(&p, false, true).unwrap_err(),
        "FFmpeg and FFprobe must be installed before rendering"
    );
    p.scenes[0].script = "   ".into();
    p.scenes[0].selected = false;
    assert_eq!(validate_export(&p, true, true).unwrap_err(), "Select at least one scene");
}

#[test]
fn api_key_input_must_not_be_blank() {
    assert!(check_api_key_input("openai", "sk-1").is_ok());
    assert_eq!(check_api_key_input(" ", "sk-1").unwrap_err(), "Provider and API key are required");
    assert_eq!(check_api_key_input("openai", "\t").unwrap_err(), "Provider and API key are required");
}

#[test]
fn text_translation_routes() {
    match text_translation_route("", "Spanish") {
        TextTranslation::Argos { to_code } => assert_eq!(to_code, "es"),
        _ => panic!("expected the offline route"),
    }
    match text_translation_route("marian", "Japanese") {
        TextTranslation::Argos { to_code } => assert_eq!(to_code, "ja"),
        _ => panic!("expected the offline route"),
    }
    assert!(matches!(text_translation_route("openai", "Spanish"), TextTranslation::Cloud));
    assert_eq!(text_translator("google").unwrap(), CloudTranslator::Google);
    assert_eq!(text_translator("deepl").unwrap_err(), "deepl translator not implemented");
    assert_eq!(missing_translation_key("google"), "No API key for google");
}

#[test]
fn preview_calls_per_provider() {
    match preview_call("edge", "en-US-AriaNeural", "hi", Some(120)).unwrap() {
        VoiceCall::Edge(r) => {
            assert_eq!(r.voice, "en-US-AriaNeural");
            assert_eq!(r.rate.as_deref(), Some("+20%"));
            assert!(r.pitch.is_none());
        }
        other => panic!("unexpected {other:?}"),
    }
    match preview_call("kokoro", "af_heart", "hi", None).unwrap() {
        VoiceCall::Kokoro { lang_code, speed_percent, .. } => {
            assert_eq!(lang_code, "a");
            assert_eq!(speed_percent, 100);
        }
        other => panic!("unexpected {other:?}"),
    }
    match preview_call("chatterbox", "es", "hola", None).unwrap() {
        VoiceCall::Chatterbox(r) => assert_eq!(r.language_id, "es"),
        other => panic!("unexpected {other:?}"),
    }
    match preview_call("elevenlabs", "voice-1", "hi", None).unwrap() {
        VoiceCall::ElevenLabs { voice_id, request } => {
            assert_eq!(voice_id, "voice-1");
            assert_eq!(request.voice, "voice-1");
        }
        other => panic!("unexpected {other:?}"),
    }
    assert_eq!(preview_call("piper", "v", "t", None).unwrap_err(), "Piper preview not yet implemented");
    assert_eq!(preview_call("azure", "v", "t", None).unwrap_err(), "Voice provider 'azure' not implemented");
}

#[test]
fn preview_audio_labels() {
    assert_eq!(preview_mime("kokoro"), "audio/wav");
    assert_eq!(preview_mime("chatterbox"), "audio/wav");
    assert_eq!(preview_mime("edge"), "audio/mpeg");
    assert_eq!(preview_data_url("edge", "aGk=").unwrap(), "data:audio/mpeg;base64,aGk=");
    assert_eq!(preview_data_url("kokoro", "aGk=").unwrap(), "data:audio/wav;base64,aGk=");
    assert!(preview_data_url("edge", "not base64!").is_err());
    assert_eq!(edge_preview_failure("boom"), "edge-tts synthesis failed: boom");
    assert_eq!(preview_missing_key("openai"), "No OpenAI API key");
    assert_eq!(preview_missing_key("elevenlabs"), "No ElevenLabs API key");
}

#[test]
fn install_hints_for_missing_tools() {
    let hints = install_hints(Platform::MacOs, false, true, false);
    assert_eq!(hints.len(), 2);
    assert_eq!(hints[0].tool, "ffmpeg");
    assert_eq!(hints[0].command, "brew install ffmpeg");
    assert_eq!(hints[1].tool, "python");
    assert_eq!(hints[1].command, "brew install python@3.12 && pip3 install edge-tts");
    assert!(install_hints(Platform::Windows, true, true, true).is_empty());
    let all = install_hints(Platform::Other, false, false, false);
    assert_eq!(all[1].tool, "ffprobe");
    assert_eq!(all[2].command, "sudo apt install python3 python3-pip && pip3 install edge-tts");
}

#[test]
fn dependency_status_report() {
    let s = dependency_status("windows", None, true, None, Some("7.0".into()), false);
    assert!(!s.ffmpeg);
    assert!(s.ffprobe);
    assert!(!s.python);
    assert!(!s.edge_tts);
    assert!(s.edge_tts_version.is_none());
    assert_eq!(s.platform, "windows");
    assert_eq!(s.install_hints.len(), 2);
    assert_eq!(s.install_hints[0].command, "winget install Gyan.FFmpeg");
    let s = dependency_status("linux", Some("/usr/bin/ffmpeg".into()), true, Some("python3".into()), Some("7.0".into()), true);
    assert!(s.install_hints.is_empty());
    assert_eq!(s.edge_tts_version.as_deref(), Some("7.0"));
    assert!(s.ocr_ready);
}

#[test]
fn local_deps_list_three_engines() {
    let deps = local_deps(true, false, true);
    let ids: Vec<_> = deps.iter().map(|d| d.id.as_str()).collect();
    assert_eq!(ids, vec!["argos", "kokoro", "chatterbox"]);
    assert!(deps[0].installed && !deps[1].installed && deps[2].installed);
    assert_eq!(deps[1].command, "pip install kokoro soundfile");
}

#[test]
fn probes_and_engine_status() {
    assert_eq!(
        module_probe_code("kokoro"),
        "import importlib.util,sys; sys.exit(0 if importlib.util.find_spec('kokoro') else 1)"
    );
    assert_eq!(edge_tts_version_from("  6.1.12\n"), Some("6.1.12".to_string()));
    assert_eq!(edge_tts_version_from("\n"), None);
    let st = tts_engine_status(Some("/usr/bin/python3".into()));
    assert!(st.python_available);
    assert!(st.edge_tts_version.is_none());
    assert!(!tts_engine_status(None).python_available);
}

#[test]
fn pdf_reads_are_limited() {
    assert!(check_pdf_extension(Some("PDF")).is_ok());
    assert!(check_pdf_extension(Some("pdf")).is_ok());
    assert_eq!(check_pdf_extension(Some("txt")).unwrap_err(), "Only .pdf files can be read");
    assert_eq!(check_pdf_extension(None).unwrap_err(), "Only .pdf files can be read");
    assert_eq!(check_pdf_size(false, 1).unwrap_err(), "Path is not a regular file");
    assert!(check_pdf_size(true, 200 * 1024 * 1024).is_ok());
    assert_eq!(
        check_pdf_size(true, 300 * 1024 * 1024 + 5).unwrap_err(),
        "PDF is too large (300 MB, limit is 200 MB)"
    );
}

#[test]
fn system_status_reports_font() {
    let font = FontResolution {
        found: true,
        source_path: Some("/f.ttf".into()),
        render_path: Some("/w/font.ttf".into()),
        render_kind: FontRenderKind::Workdir,
        message: "ok".into(),
        install_hint: None,
    };
    let s = system_status(true, false, "linux", false, font);
    assert!(s.ffmpeg && !s.ffprobe && !s.ffmpeg_sidecar_ready);
    assert!(s.font_available);
    assert_eq!(s.font_path.as_deref(), Some("/w/font.ttf"));
    assert_eq!(s.platform, "linux");
}
