use pdf2vid::export::{
    after_voice_attempt, argos_outcome, cloud_outcome, cloud_translator,
    cloud_translator_missing, compose_filter, copy_scene, count_selected, drawtext_available,
    ffmpeg_failure, finish_export, is_hard_voice_error, keyring_failure, missing_api_key,
    note_render_fallback, plan_export, render_font, scene_audio_file, scene_media,
    scene_script, scene_visual_file, thumbnail_bytes, translation_route, video_file_name,
    voice_attempts, voice_call_for_export, voice_chain_exhausted, voice_failure,
    video_outputs, narration_bytes, CloudTranslator, RenderedVideos, SceneMedia, TranslationRoute, VoiceCall,
    VoiceStep,
};
use pdf2vid::ffmpeg::Aspect;
use pdf2vid::font::{FontRenderKind, FontResolution};
use pdf2vid::types::{
    Project, ProjectWarning, Scene, TranslationWarning, WarningCode, WarningSeverity,
};

fn scene(id: &str, page: u32, selected: bool) -> Scene {
    Scene {
        id: id.into(),
        page,
        title: format!("Page {page}"),
        script: format!("Script {page}"),
        translated_script: None,
        duration: 4,
        selected,
        thumbnail: String::new(),
    }
}

fn project(scenes: Vec<Scene>) -> Project {
    Project {
        name: "My Deck".into(),
        source_name: "deck.pdf".into(),
        scenes,
        language: "Spanish".into(),
        translation_provider: "argos".into(),
        voice_provider: "edge".into(),
        voice: "es-ES-ElviraNeural".into(),
        output_you_tube: true,
        output_tik_tok: false,
        skipped_pages: vec![2],
        voice_speed: 110,
    }
}

fn no_font() -> FontResolution {
    FontResolution {
        found: false,
        source_path: None,
        render_path: None,
        render_kind: FontRenderKind::Missing,
        message: "none".into(),
        install_hint: None,
    }
}

#[test]
fn plan_export_checks_in_order() {
    let p = project(vec![scene("a", 1, true), scene("b", 2, false)]);
    assert_eq!(
        plan_export(&p, None, None).unwrap_err(),
        "FFmpeg is not installed. Install FFmpeg and ensure it is on your PATH, or place the bundled sidecar binary next to the application."
    );
    assert_eq!(plan_export(&p, Some("ff".into()), None).unwrap_err(), "FFprobe is not installed.");
    let mut q = project(vec![scene("a", 1, true)]);
    q.output_you_tube = false;
    assert_eq!(
        plan_export(&q, Some("ff".into()), Some("fp".into())).unwrap_err(),
        "Select at least one output format"
    );
    let r = project(vec![scene("a", 1, false)]);
    assert_eq!(
        plan_export(&r, Some("ff".into()), Some("fp".into())).unwrap_err(),
        "Select at least one scene"
    );
    let plan = plan_export(&p, Some("ff".into()), Some("fp".into())).unwrap();
    assert_eq!(plan.ffmpeg, "ff");
    assert_eq!(plan.ffprobe, "fp");
    assert_eq!(plan.total, 1);
    assert_eq!(count_selected(&p.scenes), 1);
}

#[test]
fn translation_routes() {
    let mut p = project(vec![]);
    assert_eq!(translation_route(&p), TranslationRoute::Argos);
    p.language = "English (US)".into();
    assert_eq!(translation_route(&p), TranslationRoute::KeepSource);
    p.translation_provider = "google".into();
    assert_eq!(translation_route(&p), TranslationRoute::Cloud);
    assert_eq!(cloud_translator("openai"), Some(CloudTranslator::OpenAi));
    assert_eq!(cloud_translator("deepl"), None);
    assert_eq!(cloud_translator_missing("deepl"), "deepl translator is not yet implemented");
}

#[test]
fn argos_failure_falls_back_to_source_with_warnings() {
    let s = scene("s7", 7, true);
    let ok = argos_outcome(&s, Ok("Guion".into()));
    assert_eq!(ok.scene.translated_script.as_deref(), Some("Guion"));
    assert!(ok.translation_warning.is_none() && ok.warning.is_none());

    let failed = argos_outcome(&s, Err("not installed".into()));
    assert_eq!(failed.scene.translated_script.as_deref(), Some("Script 7"));
    let tw = failed.translation_warning.unwrap();
    assert_eq!(tw.provider, "argos");
    assert_eq!(tw.page, 7);
    assert_eq!(tw.message, "Argos translation unavailable; using source text for page 7");
    let w = failed.warning.unwrap();
    assert_eq!(w.code, WarningCode::UntranslatedScene);
    assert_eq!(w.severity, WarningSeverity::Warning);
    assert_eq!(w.scene_id.as_deref(), Some("s7"));
    assert_eq!(w.message, "Page 7 used the source script: Argos translation was unavailable");
    assert_eq!(w.detail.as_deref(), Some("not installed"));
}

#[test]
fn cloud_failure_stops_the_export() {
    let s = scene("s3", 3, true);
    let ok = cloud_outcome(&s, "openai", Ok("Hola".into())).unwrap();
    assert_eq!(ok.translated_script.as_deref(), Some("Hola"));
    let f = cloud_outcome(&s, "deepl", Err("no".into())).unwrap_err();
    assert_eq!(f.error, "Translation failed for scene 3: no");
    assert_eq!(f.warning.code, WarningCode::UnsupportedProvider);
    assert_eq!(f.warning.severity, WarningSeverity::Error);
    assert_eq!(f.warning.message, "Translation provider 'deepl' is not yet implemented");
}

#[test]
fn scene_copies_and_scripts() {
    let mut s = scene("x", 1, true);
    assert_eq!(scene_script(&s), "Script 1");
    s.translated_script = Some("Translated".into());
    assert_eq!(scene_script(&s), "Translated");
    let c = copy_scene(&s);
    assert_eq!(c.translated_script, s.translated_script);
    assert_eq!(c.id, s.id);
    assert_eq!(scene_audio_file("x"), "scene-x.mp3");
    assert_eq!(scene_visual_file("x"), "scene-x.jpg");
}

#[test]
fn voice_fallback_chain() {
    assert_eq!(voice_attempts("openai", true), vec!["openai", "edge", "piper"]);
    assert_eq!(voice_attempts("edge", false), vec!["edge"]);
    assert_eq!(voice_attempts("piper", true), vec!["piper", "edge"]);
    assert_eq!(voice_attempts("", true), vec!["", "piper"]);
    assert!(is_hard_voice_error("No API key stored for openai. Open Settings to add one."));
    assert!(is_hard_voice_error("Voice provider 'x' is not yet implemented"));
    assert!(!is_hard_voice_error("network down"));
    assert!(matches!(after_voice_attempt("edge", "edge", Ok(())), VoiceStep::Finished(Ok(()))));
    match after_voice_attempt("openai", "openai", Err("No API key stored for openai.".into())) {
        VoiceStep::Finished(Err(e)) => assert_eq!(e, "No API key stored for openai."),
        _ => panic!("a hard failure of the chosen provider ends the chain"),
    }
    match after_voice_attempt("edge", "openai", Err("No API key here".into())) {
        VoiceStep::TryNext(e) => assert_eq!(e, "No API key here"),
        _ => panic!("a fallback's failure moves on"),
    }
    assert_eq!(voice_chain_exhausted(None), "All voice providers failed");
    assert_eq!(voice_chain_exhausted(Some("last".into())), "last");
}

#[test]
fn voice_calls_for_export() {
    let p = project(vec![]);
    match voice_call_for_export("edge", &p, "Hola", "es-ES-ElviraNeural").unwrap() {
        VoiceCall::Edge(r) => {
            assert_eq!(r.text, "Hola");
            assert_eq!(r.rate.as_deref(), Some("+10%"));
        }
        other => panic!("unexpected {other:?}"),
    }
    match voice_call_for_export("kokoro", &p, "Hola", "ef_dora").unwrap() {
        VoiceCall::Kokoro { lang_code, speed_percent, .. } => {
            assert_eq!(lang_code, "e");
            assert_eq!(speed_percent, 110);
        }
        other => panic!("unexpected {other:?}"),
    }
    match voice_call_for_export("piper", &p, "Hola", "v").unwrap() {
        VoiceCall::Piper { model_id, .. } => assert_eq!(model_id, "piper-en_US-amy"),
        other => panic!("unexpected {other:?}"),
    }
    match voice_call_for_export("elevenlabs", &p, "Hola", "v").unwrap() {
        VoiceCall::ElevenLabs { voice_id, .. } => assert_eq!(voice_id, "21m00Tcm4TlvDq8ikWAM"),
        other => panic!("unexpected {other:?}"),
    }
    assert_eq!(
        voice_call_for_export("chatterbox", &p, "Hola", "v").unwrap_err(),
        "Voice provider 'chatterbox' is not yet implemented"
    );
    assert_eq!(missing_api_key("openai"), "No API key stored for openai. Open Settings to add one.");
    assert_eq!(keyring_failure("locked"), "Keyring error: locked");
    let w = voice_failure(&scene("z", 4, true), "boom");
    assert_eq!(w.code, WarningCode::VoiceSynthesisFailed);
    assert_eq!(w.message, "Voice synthesis failed for page 4: boom");
}

#[test]
fn thumbnails_must_be_jpeg_data_urls() {
    let mut s = scene("t", 9, true);
    s.thumbnail = "data:image/jpeg;base64,aGk=".into();
    assert_eq!(thumbnail_bytes(&s).unwrap(), b"hi".to_vec());
    s.thumbnail = "data:image/png;base64,aGk=".into();
    assert_eq!(thumbnail_bytes(&s).unwrap_err(), "Scene 9 has no valid thumbnail");
    s.thumbnail = "data:image/jpeg;base64,@@@".into();
    assert!(thumbnail_bytes(&s).is_err());
}

#[test]
fn scene_media_looks_up_files_by_id() {
    let scenes = vec![scene("a", 1, true), scene("b", 2, false), scene("c", 3, true)];
    let visuals = vec![("a".to_string(), "/v/a.jpg".to_string()), ("c".to_string(), "/v/c.jpg".to_string())];
    let audios = vec![("a".to_string(), "/a/a.mp3".to_string()), ("c".to_string(), "/a/c.mp3".to_string())];
    let media = scene_media(&scenes, &visuals, &audios).unwrap();
    assert_eq!(media.len(), 2);
    assert_eq!(media[1].index, 2);
    assert_eq!(media[1].visual, "/v/c.jpg");
    assert_eq!(media[1].script, "Script 3");
    assert_eq!(
        scene_media(&scenes, &visuals[..1].to_vec(), &audios).unwrap_err(),
        "Missing visual for scene 3"
    );
    assert_eq!(
        scene_media(&scenes, &visuals, &Vec::new()).unwrap_err(),
        "Missing audio for scene 1"
    );
}

#[test]
fn compose_filter_concatenates_scenes() {
    let media = vec![
        SceneMedia { index: 0, visual: "v0".into(), audio: "a0".into(), script: "hi".into() },
        SceneMedia { index: 2, visual: "v2".into(), audio: "a2".into(), script: "yo".into() },
    ];
    let (inputs, filter) = compose_filter(&media, &vec![25, 50], 1920, 1080, false);
    assert_eq!(inputs, vec!["-i", "v0", "-i", "a0", "-i", "v2", "-i", "a2"]);
    assert!(filter.contains("[1:a]aresample=44100[a0];"));
    assert!(filter.contains("[2:v]split=2[bg1][fg1]"));
    assert!(filter.contains("[3:a]aresample=44100[a1];"));
    assert!(!filter.contains("[4:v]"));
    assert!(filter.ends_with("[v0][a0][v1][a1]concat=n=2:v=1:a=1[vout][aout]"));
    assert!(!filter.contains("drawtext"));
    let (_, with_text) = compose_filter(&media, &vec![25, 50], 1920, 1080, true);
    assert_eq!(with_text.matches("drawtext=text=").count(), 2);
}

#[test]
fn render_fallback_is_recorded_once() {
    let font = no_font();
    assert!(!drawtext_available(&font));
    assert!(render_font(&font).is_none());
    let mut warnings: Vec<ProjectWarning> = Vec::new();
    note_render_fallback(&mut warnings, &font);
    note_render_fallback(&mut warnings, &font);
    assert_eq!(warnings.len(), 1);
    assert_eq!(warnings[0].code, WarningCode::RenderFallback);
    assert_eq!(
        warnings[0].message,
        "No drawtext font found. Videos will render without on-screen narration."
    );
    assert_eq!(warnings[0].suggested_fix.as_deref(), Some("Install a TrueType font and re-export."));
    let good = FontResolution {
        found: true,
        source_path: Some("/f.ttf".into()),
        render_path: Some("/w/font.ttf".into()),
        render_kind: FontRenderKind::Workdir,
        message: "Using font f.ttf".into(),
        install_hint: None,
    };
    let mut none: Vec<ProjectWarning> = Vec::new();
    note_render_fallback(&mut none, &good);
    assert!(none.is_empty());
    assert_eq!(render_font(&good).as_deref(), Some("/w/font.ttf"));
}

#[test]
fn finishing_counts_and_flags() {
    let tw = TranslationWarning {
        scene_id: "a".into(),
        page: 1,
        provider: "argos".into(),
        message: "m".into(),
    };
    let w = ProjectWarning::warning(WarningCode::MissingFont, "m".into());
    let mut videos = RenderedVideos::new();
    videos.record(Aspect::Youtube, "/o/y.mp4".into());
    let done = finish_export("job".into(), videos, vec![tw], vec![2], vec![w]);
    assert_eq!(done.youtube_path.as_deref(), Some("/o/y.mp4"));
    assert!(done.tiktok_path.is_none());
    assert_eq!(done.untranslated_count, 1);
    assert!(done.render_fallback_used);
    assert_eq!(done.skipped_pages, vec![2]);
    let clean = finish_export("job".into(), RenderedVideos::new(), vec![], vec![], vec![]);
    assert!(!clean.render_fallback_used);
    assert_eq!(clean.untranslated_count, 0);
}

#[test]
fn output_names_and_ffmpeg_errors() {
    assert_eq!(video_file_name("My Deck", Aspect::Youtube), "My_Deck-youtube.mp4");
    assert_eq!(video_file_name("a/b", Aspect::Tiktok), "a_b-tiktok.mp4");
    assert_eq!(ffmpeg_failure("line1\nline2\n"), "FFmpeg failed: line1 | line2");
}

#[test]
fn noting_the_fallback_twice_keeps_one_warning() {
    let font = no_font();
    let mut warnings = vec![ProjectWarning::warning(WarningCode::MissingFont, "m".into())];
    note_render_fallback(&mut warnings, &font);
    let once = warnings.len();
    note_render_fallback(&mut warnings, &font);
    assert_eq!(warnings.len(), once);
    assert_eq!(warnings.iter().filter(|w| w.code == WarningCode::RenderFallback).count(), 1);
}

#[test]
fn scene_media_keeps_selected_scenes_in_order() {
    let scenes = vec![scene("a", 1, false), scene("b", 2, true), scene("c", 3, true)];
    let paths = vec![
        ("a".to_string(), "a".to_string()),
        ("b".to_string(), "b".to_string()),
        ("c".to_string(), "c".to_string()),
    ];
    let media = scene_media(&scenes, &paths, &paths).unwrap();
    let idx: Vec<usize> = media.iter().map(|m| m.index).collect();
    assert_eq!(idx, vec![1, 2]);
}

#[test]
fn requested_outputs_decide_reported_paths() {
    let mut p = project(vec![]);
    p.output_you_tube = true;
    p.output_tik_tok = true;
    assert_eq!(video_outputs(&p), vec![Aspect::Youtube, Aspect::Tiktok]);
    p.output_you_tube = false;
    assert_eq!(video_outputs(&p), vec![Aspect::Tiktok]);
    let mut videos = RenderedVideos::new();
    for aspect in video_outputs(&p) {
        videos.record(aspect, "/o/t.mp4".into());
    }
    assert!(videos.youtube_path.is_none());
    assert_eq!(videos.tiktok_path.as_deref(), Some("/o/t.mp4"));
    p.output_tik_tok = false;
    assert!(video_outputs(&p).is_empty());
}

fn run_voice_chain(primary: &str, piper: bool, results: &[Result<(), &str>]) -> Result<(), String> {
    let attempts = voice_attempts(primary, piper);
    let mut last: Option<String> = None;
    for (k, provider) in attempts.iter().enumerate() {
        let outcome = results[k].map_err(|e| e.to_string());
        match after_voice_attempt(provider, primary, outcome) {
            VoiceStep::Finished(r) => return r,
            VoiceStep::TryNext(e) => last = Some(e),
        }
    }
    Err(voice_chain_exhausted(last))
}

#[test]
fn voice_chain_follows_fallback_law() {
    // A hard failure of the chosen provider stops the chain.
    assert_eq!(
        run_voice_chain("openai", true, &[Err("No API key for openai"), Ok(()), Ok(())]),
        Err("No API key for openai".to_string())
    );
    // A soft failure falls back; a later success ends the chain.
    assert_eq!(run_voice_chain("openai", true, &[Err("timeout"), Err("edge down"), Ok(())]), Ok(()));
    // When every provider fails, the last provider's error is reported.
    assert_eq!(
        run_voice_chain("openai", true, &[Err("timeout"), Err("edge down"), Err("piper broke")]),
        Err("piper broke".to_string())
    );
    // A hard-looking error from a fallback provider does not stop the chain.
    assert_eq!(
        run_voice_chain("openai", true, &[Err("timeout"), Err("No API key"), Ok(())]),
        Ok(())
    );
}

#[test]
fn narration_bytes_decode_base64() {
    assert_eq!(narration_bytes("aGVsbG8=").unwrap(), b"hello".to_vec());
    assert_eq!(narration_bytes("").unwrap(), Vec::<u8>::new());
    assert!(narration_bytes("not base64!").is_err());
}

#[test]
fn narration_error_is_decoder_text() {
    assert_eq!(narration_bytes("not base64!").unwrap_err(), "Invalid symbol 32, offset 3.");
}
