use pdf2vid::font::{escape_fontfile_for_filter, FontRenderKind, FontResolution};
use pdf2vid::render::{
    build_ffmpeg_args, build_scene_video_chain, elevenlabs_voice_id, font_render_kind,
    font_warning_from, inject_fontfile_into_filter, is_default_translator, is_english,
    openai_voice_name, resolve_voice, sanitize, sanitize_ffmpeg_drawtext, speed_to_rate,
    split_caption_lines, timed_caption_lines,
};
use pdf2vid::types::{Project, Scene, WarningCode, WarningSeverity};

fn make_test_project() -> Project {
    Project {
        name: "Test".into(),
        source_name: "test.pdf".into(),
        scenes: vec![Scene {
            id: "1".into(),
            page: 1,
            title: "Scene".into(),
            script: "Hello world".into(),
            translated_script: None,
            duration: 5,
            selected: true,
            thumbnail: "".into(),
        }],
        language: "Spanish".into(),
        translation_provider: "marian".into(),
        voice_provider: "edge".into(),
        voice: "es-ES-ElviraNeural".into(),
        output_you_tube: true,
        output_tik_tok: false,
        skipped_pages: vec![],
        voice_speed: 100,
    }
}

#[test]
fn sanitize_strips_path_chars() {
    assert_eq!(sanitize("hello/world:test"), "hello_world_test");
    assert_eq!(sanitize("My Project 2024"), "My_Project_2024");
}

#[test]
fn is_default_translator_matches() {
    let mut p = make_test_project();
    p.translation_provider = "marian".into();
    assert!(is_default_translator(&p));
    p.translation_provider = "".into();
    assert!(is_default_translator(&p));
    p.translation_provider = "openai".into();
    assert!(!is_default_translator(&p));
}

#[test]
fn scene_chain_has_premium_elements() {
    let chain = build_scene_video_chain(0, 0, 1920, 1080, 100, Some("hello"));
    assert!(chain.contains("split=2[bg0][fg0]"));
    assert!(chain.contains("boxblur"));
    assert!(chain.contains("overlay=(W-w)/2:(H-h)/2"));
    assert!(chain.contains("zoompan"));
    assert!(chain.contains("d=100:"));
    assert!(chain.contains("vignette"));
    assert!(chain.contains("drawtext=text='hello'"));
    assert!(chain.contains("shadowx=2"));
    assert!(chain.contains("enable='between(t,"));
    assert!(!chain.contains(":black"));
    assert!(chain.ends_with("[v0];"));
}

#[test]
fn split_caption_lines_wraps_on_word_boundaries() {
    let lines = split_caption_lines("the quick brown fox jumps over the lazy dog", 15);
    assert!(lines.len() > 1);
    assert!(lines.iter().all(|l| l.chars().count() <= 15));
    assert_eq!(
        lines.join(" "),
        "the quick brown fox jumps over the lazy dog"
    );
}

#[test]
fn timed_caption_lines_cover_scene_without_gaps() {
    let lines = vec![
        "one".to_string(),
        "two two".to_string(),
        "three".to_string(),
    ];
    let timed = timed_caption_lines(&lines, 100);
    assert_eq!(timed.first().unwrap().1, 0);
    assert_eq!(timed.last().unwrap().2, 100);
    for pair in timed.windows(2) {
        assert_eq!(pair[0].2, pair[1].1);
        assert!(pair[0].1 < pair[0].2);
    }
}

#[test]
fn read_along_emits_one_drawtext_per_line() {
    let script = "This is a reasonably long narration sentence that should wrap \
                  across several caption lines when rendered on screen.";
    let chain = build_scene_video_chain(0, 0, 1920, 1080, 250, Some(script));
    let count = chain.matches("drawtext=text=").count();
    assert!(count >= 2, "expected multiple caption lines, got {count}");
    assert_eq!(chain.matches("enable='between(t,").count(), count);
}

#[test]
fn scene_chain_without_font_omits_drawtext() {
    let chain = build_scene_video_chain(2, 1, 1080, 1920, 150, None);
    assert!(chain.contains("[2:v]split=2[bg1][fg1]"));
    assert!(chain.contains("d=150:"));
    assert!(!chain.contains("drawtext"));
    assert!(chain.ends_with("[v1];"));
}

#[test]
fn speed_to_rate_maps_percentages() {
    assert_eq!(speed_to_rate(100), None);
    assert_eq!(speed_to_rate(125), Some("+25%".to_string()));
    assert_eq!(speed_to_rate(75), Some("-25%".to_string()));
    assert_eq!(speed_to_rate(0), Some("-50%".to_string()));
    assert_eq!(speed_to_rate(999), Some("+100%".to_string()));
}

#[test]
fn is_english_recognizes_us() {
    assert!(is_english("English (US)"));
    assert!(is_english(""));
    assert!(!is_english("Spanish"));
}

#[test]
fn build_ffmpeg_args_shape() {
    let inputs = vec![
        "-loop".into(),
        "1".into(),
        "-i".into(),
        "/tmp/visual.jpg".into(),
        "-i".into(),
        "/tmp/audio.mp3".into(),
    ];
    let filter =
        "[0:v]scale=1920:1080[vout];[1:a]aresample=44100[aout];concat=n=1:v=1:a=1[vout][aout]"
            .to_string();
    let args = build_ffmpeg_args(&inputs, &filter, "/tmp/out.mp4", None);

    assert_eq!(args[0], "-y");
    assert!(args.contains(&"/tmp/visual.jpg".to_string()));
    assert!(args.contains(&"/tmp/audio.mp3".to_string()));
    let filter_idx = args
        .iter()
        .position(|a| a == "-filter_complex")
        .expect("ffmpeg args should include -filter_complex");
    assert_eq!(args[filter_idx + 1], filter);
    assert!(args.windows(2).any(|w| w == ["-map", "[vout]"]));
    assert!(args.windows(2).any(|w| w == ["-map", "[aout]"]));
    assert!(args.windows(2).any(|w| w == ["-c:v", "libx264"]));
    assert!(args.windows(2).any(|w| w == ["-c:a", "aac"]));
    assert!(args.windows(2).any(|w| w == ["-movflags", "+faststart"]));
    assert!(args.contains(&"-shortest".to_string()));
    assert_eq!(args.last().unwrap(), "/tmp/out.mp4");
}

#[test]
fn build_ffmpeg_args_injects_fontfile() {
    let inputs = vec![
        "-loop".into(),
        "1".into(),
        "-i".into(),
        "/tmp/visual.jpg".into(),
        "-i".into(),
        "/tmp/audio.mp3".into(),
    ];
    let filter = "[0:v]scale=1920:1080,drawtext=text='hi':x=10[v0];[1:a]aresample=44100[a0];[v0][a0]concat=n=1:v=1:a=1[vout][aout]".to_string();
    let args = build_ffmpeg_args(&inputs, &filter, "/tmp/out.mp4", Some("/tmp/font.ttf"));
    let filter_idx = args
        .iter()
        .position(|a| a == "-filter_complex")
        .expect("ffmpeg args should include -filter_complex");
    let injected = &args[filter_idx + 1];
    assert!(injected.contains("drawtext=fontfile=/tmp/font.ttf:text='hi'"));
    assert!(!injected.contains("drawtext=text"));
}

#[test]
fn build_ffmpeg_args_injects_fontfile_into_multiple_drawtext_clauses() {
    let inputs = vec![
        "-i".into(),
        "/tmp/a.jpg".into(),
        "-i".into(),
        "/tmp/b.jpg".into(),
    ];
    let filter = "[0:v]scale=10:10,drawtext=text='one':x=0[v0];[1:v]scale=10:10,drawtext=text='two':x=0[v1];[v0][v1]concat=n=2:v=1:a=0[vout]".to_string();
    let args = build_ffmpeg_args(&inputs, &filter, "/tmp/out.mp4", Some("/tmp/font.ttf"));
    let filter_idx = args
        .iter()
        .position(|a| a == "-filter_complex")
        .expect("ffmpeg args should include -filter_complex");
    let injected = &args[filter_idx + 1];
    assert_eq!(
        injected.matches("drawtext=fontfile=/tmp/font.ttf").count(),
        2
    );
}

#[test]
fn build_ffmpeg_args_with_windows_style_font_path_escapes() {
    let inputs = vec!["-i".into(), "/tmp/visual.jpg".into()];
    let filter = "[0:v]scale=10:10,drawtext=text='hi'[vout]".to_string();
    let args = build_ffmpeg_args(
        &inputs,
        &filter,
        "/tmp/out.mp4",
        Some(r"C:\Windows\Fonts\arial.ttf"),
    );
    let filter_idx = args
        .iter()
        .position(|a| a == "-filter_complex")
        .expect("ffmpeg args should include -filter_complex");
    let injected = &args[filter_idx + 1];
    assert!(injected.contains(r"fontfile=C\:\\Windows\\Fonts\\arial.ttf"));
}

#[test]
fn build_ffmpeg_args_missing_font_keeps_filter_intact() {
    let inputs = vec!["-i".into(), "/tmp/visual.jpg".into()];
    let filter = "[0:v]scale=10:10,drawtext=text='hi'[vout]".to_string();
    let args = build_ffmpeg_args(&inputs, &filter, "/tmp/out.mp4", None);
    let filter_idx = args
        .iter()
        .position(|a| a == "-filter_complex")
        .expect("ffmpeg args should include -filter_complex");
    assert_eq!(args[filter_idx + 1], filter);
}

#[test]
fn font_warning_from_returns_none_when_found() {
    let r = FontResolution {
        found: true,
        source_path: Some("/tmp/a.ttf".into()),
        render_path: Some("/tmp/font.ttf".into()),
        render_kind: FontRenderKind::Workdir,
        message: "ok".into(),
        install_hint: None,
    };
    assert!(font_warning_from(&r).is_none());
    assert_eq!(font_render_kind(&r), FontRenderKind::Workdir);
}

#[test]
fn font_warning_from_populates_missing_font() {
    let r = FontResolution {
        found: false,
        source_path: None,
        render_path: None,
        render_kind: FontRenderKind::Missing,
        message: "no fonts".into(),
        install_hint: Some("install dejavu".into()),
    };
    let w = font_warning_from(&r).unwrap();
    assert_eq!(w.code, WarningCode::MissingFont);
    assert_eq!(w.severity, WarningSeverity::Warning);
    assert!(w.detail.is_some());
    assert!(w.suggested_fix.is_some());
    assert_eq!(w.detail.as_deref(), Some("no fonts"));
    assert_eq!(w.suggested_fix.as_deref(), Some("install dejavu"));
}

#[test]
fn drawtext_sanitization() {
    let s = sanitize_ffmpeg_drawtext("It's 100% done: yes");
    assert!(s.contains("\\%"));
    assert!(s.contains("\\:"));
    assert!(!s.contains("'"));
}

#[test]
fn scene_chain_exact_without_caption() {
    let chain = build_scene_video_chain(0, 0, 4, 2, 7, None);
    assert_eq!(
        chain,
        "[0:v]split=2[bg0][fg0];[bg0]scale=4:2:force_original_aspect_ratio=increase,crop=4:2,boxblur=24:2,eq=brightness=-0.12:saturation=1.15[bgb0];[fg0]scale=4:2:force_original_aspect_ratio=decrease[fgs0];[bgb0][fgs0]overlay=(W-w)/2:(H-h)/2,zoompan=z='min(zoom+0.0008,1.15)':d=7:s=4x2:fps=25,vignette=PI/5,setsar=1,fps=25,format=yuv420p[v0];"
    );
}

#[test]
fn caption_window_times_have_two_decimals() {
    let chain = build_scene_video_chain(0, 0, 10, 10, 50, Some("hi"));
    assert!(chain.contains("enable='between(t,0.00,2.00)'"));
}

#[test]
fn timed_caption_lines_weigh_by_length() {
    let lines = vec!["aa".to_string(), "bbbbbb".to_string()];
    let timed = timed_caption_lines(&lines, 80);
    assert_eq!(timed, vec![("aa".to_string(), 0, 20), ("bbbbbb".to_string(), 20, 80)]);
    assert!(timed_caption_lines(&Vec::new(), 80).is_empty());
}

#[test]
fn inject_fontfile_without_drawtext_is_identity() {
    assert_eq!(inject_fontfile_into_filter("[0:v]scale=1:1[v]", "f.ttf"), "[0:v]scale=1:1[v]");
    assert_eq!(
        inject_fontfile_into_filter("drawtext=text='a'", "f.ttf"),
        "drawtext=fontfile=f.ttf:text='a'"
    );
}

#[test]
fn voices_per_provider() {
    let mut p = make_test_project();
    assert_eq!(resolve_voice(&p, "x"), "es-ES-ElviraNeural");
    p.voice_provider = "openai".into();
    p.voice = "Ryan · English (US)".into();
    assert_eq!(openai_voice_name(&p), "onyx");
    p.voice = "Someone".into();
    assert_eq!(openai_voice_name(&p), "alloy");
    assert_eq!(elevenlabs_voice_id("anything"), "21m00Tcm4TlvDq8ikWAM");
}

#[test]
fn split_caption_lines_keeps_long_words_whole() {
    assert_eq!(
        split_caption_lines("supercalifragilistic is long", 10),
        vec!["supercalifragilistic", "is long"]
    );
    assert!(split_caption_lines("   ", 10).is_empty());
}

#[test]
fn caption_windows_nonempty_when_frames_cover_text() {
    let lines = vec!["one".to_string(), "two two".to_string(), "three".to_string(), String::new()];
    // Total weight: 3 + 7 + 5 + 1 = 16.
    for frames in [16u32, 17, 40] {
        let timed = timed_caption_lines(&lines, frames);
        assert_eq!(timed.len(), lines.len());
        for (k, (line, start, end)) in timed.iter().enumerate() {
            assert_eq!(line, &lines[k]);
            assert!(start < end);
        }
    }
}

#[test]
fn drawtext_and_window_counts_match_caption_lines() {
    let script = "It's 100% done: every line\\word gets its own window, even when the narration runs long enough to wrap several times";
    let n = split_caption_lines(script, 42).len();
    assert!(n > 2);
    for frames in [1u32, 7, 250] {
        let chain = build_scene_video_chain(3, 2, 1080, 1920, frames, Some(script));
        assert_eq!(chain.matches("drawtext=text=").count(), n);
        assert_eq!(chain.matches("enable='between(t,").count(), n);
    }
    // A caption whose escaped text spells the key itself adds to the count.
    let odd = build_scene_video_chain(0, 0, 1920, 1080, 50, Some("drawtext=te'xt="));
    assert_eq!(odd.matches("drawtext=text=").count(), 2);
    assert_eq!(odd.matches("enable='between(t,").count(), 1);
}

#[test]
fn font_injection_is_str_replace() {
    let inputs = vec!["-i".to_string(), "a.png".to_string()];
    let filter = "[0:v]drawtext=text='a',drawtext=text='b'drawtext=drawtext=[vout]";
    let font = r"C:\work\it's:font.ttf";
    let args = build_ffmpeg_args(&inputs, filter, "out.mp4", Some(font));
    let expected = filter.replace(
        "drawtext=",
        &format!("drawtext=fontfile={}:", escape_fontfile_for_filter(font)),
    );
    assert_eq!(args[4], expected);
    let mut full = vec!["-y".to_string()];
    full.extend(inputs.iter().cloned());
    for s in [
        "-filter_complex", &expected, "-map", "[vout]", "-map", "[aout]", "-c:v", "libx264",
        "-preset", "medium", "-crf", "20", "-pix_fmt", "yuv420p", "-c:a", "aac", "-b:a", "192k",
        "-shortest", "-movflags", "+faststart", "out.mp4",
    ] {
        full.push(s.to_string());
    }
    assert_eq!(args, full);
}
