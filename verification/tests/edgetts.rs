use pdf2vid::edgetts::{
    chunk_text, edge_tts_args, google_tts_urls, parse_subtitle_cues, public_engines, public_fallback,
    streamelements_url, url_encode, voice_to_language, voice_to_streamelements, TtsRequest, PublicEngine,
};

#[test]
fn voice_to_language_known() {
    assert_eq!(voice_to_language("en-US-AriaNeural"), "en");
    assert_eq!(voice_to_language("es-ES-ElviraNeural"), "es");
    assert_eq!(voice_to_language("zh-CN-XiaoxiaoNeural"), "zh-CN");
}

#[test]
fn voice_to_streamelements_known() {
    assert_eq!(voice_to_streamelements("en-US-AriaNeural"), "Amy");
    assert_eq!(voice_to_streamelements("en-US-JennyNeural"), "Amy");
    assert_eq!(voice_to_streamelements("en-US-GuyNeural"), "Brian");
}

#[test]
fn chunk_text_short() {
    assert_eq!(chunk_text("hello world", 200), vec!["hello world"]);
}

#[test]
fn chunk_text_long() {
    let text = "a".repeat(500);
    let chunks = chunk_text(&text, 200);
    assert!(
        chunks.len() > 1,
        "expected multiple chunks, got {}",
        chunks.len()
    );
    assert!(chunks.iter().all(|c| c.chars().count() <= 200));
}

#[test]
fn url_encode_handles_unicode() {
    assert_eq!(url_encode("hello world"), "hello%20world");
    assert_eq!(url_encode("café"), "caf%C3%A9");
}

#[test]
fn subtitle_cue_fields_from_srt() {
    let srt =
        "1\n00:00:00,100 --> 00:00:00,500\nHello\n\n2\n00:00:00,500 --> 00:00:01,250\nworld\n";
    let cues = parse_subtitle_cues(srt);
    assert_eq!(cues.len(), 2);
    assert_eq!(cues[0].text, "Hello");
    assert_eq!(cues[0].start, vec!["00", "00", "00.100"]);
    assert_eq!(cues[0].end, vec!["00", "00", "00.500"]);
    assert_eq!(cues[1].text, "world");
    assert_eq!(cues[1].end, vec!["00", "00", "01.250"]);
}

#[test]
fn subtitle_cue_fields_from_vtt_with_header() {
    let vtt = "WEBVTT\n\n00:00:00.000 --> 00:00:00.800\nGood morning\n";
    let cues = parse_subtitle_cues(vtt);
    assert_eq!(cues.len(), 1);
    assert_eq!(cues[0].text, "Good morning");
    assert_eq!(cues[0].end, vec!["00", "00", "00.800"]);
}

#[test]
fn subtitle_cues_of_text_without_timing_are_empty() {
    assert!(parse_subtitle_cues("").is_empty());
    assert!(parse_subtitle_cues("garbage without timings").is_empty());
}

#[test]
fn chunk_text_splits_on_words_within_limit() {
    let chunks = chunk_text("one two three four five", 9);
    assert_eq!(chunks, vec!["one two", "three", "four five"]);
    assert!(chunks.iter().all(|c| c.chars().count() <= 9));
}

#[test]
fn chunk_text_keeps_short_text_whole() {
    assert_eq!(chunk_text("   ", 10), vec!["   "]);
    assert!(chunk_text("   a   ", 3).len() == 1);
}

#[test]
fn edge_tts_args_skip_empty_rate_and_missing_pitch() {
    let req = TtsRequest {
        text: "Hi".into(),
        voice: "en-US-AriaNeural".into(),
        rate: Some(String::new()),
        pitch: None,
    };
    let args = edge_tts_args(&req, "/tmp/a.mp3", "/tmp/a.srt");
    assert_eq!(
        args,
        vec![
            "-m",
            "edge_tts",
            "--text",
            "Hi",
            "--voice",
            "en-US-AriaNeural",
            "--write-media",
            "/tmp/a.mp3",
            "--write-subtitles",
            "/tmp/a.srt"
        ]
    );
}

#[test]
fn edge_tts_args_pass_rate_and_pitch() {
    let req = TtsRequest {
        text: "Hi".into(),
        voice: "v".into(),
        rate: Some("+10%".into()),
        pitch: Some("+2Hz".into()),
    };
    let args = edge_tts_args(&req, "m", "s");
    assert_eq!(
        args,
        vec![
            "-m", "edge_tts", "--text", "Hi", "--voice", "v", "--rate", "+10%", "--pitch",
            "+2Hz", "--write-media", "m", "--write-subtitles", "s"
        ]
    );
}

#[test]
fn streamelements_url_encodes_text() {
    let req = TtsRequest {
        text: "hi there".into(),
        voice: "en-US-GuyNeural".into(),
        rate: None,
        pitch: None,
    };
    assert_eq!(
        streamelements_url(&req),
        "https://api.streamelements.com/kappa/v2/speech?voice=Brian&text=hi%20there"
    );
}

#[test]
fn google_tts_urls_one_per_chunk() {
    let urls = google_tts_urls("hola mundo", "es");
    assert_eq!(
        urls,
        vec!["https://translate.google.com/translate_tts?ie=UTF-8&q=hola%20mundo&tl=es&client=tw-ob"]
    );
}

#[test]
fn public_fallback_prefers_streamelements_for_english() {
    assert_eq!(public_fallback("en-GB-SoniaNeural"), ("en".to_string(), true));
    assert_eq!(public_fallback("ja-JP-NanamiNeural"), ("ja".to_string(), false));
}

#[test]
fn voice_to_language_recognizes_spanish_voice() {
    let en = voice_to_language("en-US-AriaNeural");
    let es = voice_to_language("es-ES-ElviraNeural");
    let zh = voice_to_language("zh-CN-XiaoxiaoNeural");
    assert_eq!(en, "en");
    assert_eq!(es, "es");
    assert_eq!(zh, "zh-CN");
}

#[test]
fn public_engines_follow_documented_order() {
    assert_eq!(
        public_engines("en-US-AriaNeural"),
        vec![PublicEngine::Edge, PublicEngine::StreamElements, PublicEngine::Google]
    );
    assert_eq!(public_engines("es-ES-ElviraNeural"), vec![PublicEngine::Edge, PublicEngine::Google]);
}
