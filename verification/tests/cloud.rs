use pdf2vid::cloud::{
    elevenlabs_url, google_language_code, google_translation_from_body,
    openai_translation_from_body, openai_tts_fields, google_query, google_translation_reply, http_error,
    marian_translate, mp3_reply, openai_translation_prompt, openai_translation_reply,
    piper_synthesize, CloudSynthesisRequest, TranslationRequest,
};

#[test]
fn google_codes_and_query() {
    assert_eq!(google_language_code("Chinese (Simplified)"), "zh-CN");
    assert_eq!(google_language_code("Elvish"), "en");
    let req = TranslationRequest { text: "hi".into(), target_language: "French".into() };
    let q = google_query("KEY", &req);
    assert_eq!(
        q,
        vec![
            ("key".to_string(), "KEY".to_string()),
            ("q".to_string(), "hi".to_string()),
            ("target".to_string(), "fr".to_string()),
            ("format".to_string(), "text".to_string()),
        ]
    );
}

#[test]
fn translation_replies() {
    assert_eq!(openai_translation_reply(Some("  Bonjour \n".into())).unwrap().translated_text, "Bonjour");
    assert_eq!(openai_translation_reply(None).unwrap_err(), "Unexpected OpenAI response shape");
    assert_eq!(google_translation_reply(Some(" Hola ".into())).unwrap().translated_text, " Hola ");
    assert_eq!(google_translation_reply(None).unwrap_err(), "Unexpected Google response shape");
    assert_eq!(http_error("OpenAI", "401 Unauthorized", "bad key"), "OpenAI error 401 Unauthorized: bad key");
}

#[test]
fn prompt_names_the_language() {
    assert_eq!(
        openai_translation_prompt("German"),
        "You are a professional translator. Translate the user's text into German. Preserve technical terms, named entities, and numbers. Output only the translated text, no commentary."
    );
}

#[test]
fn local_model_stubs() {
    let same = marian_translate(
        "/m",
        TranslationRequest { text: "hi".into(), target_language: "English (US)".into() },
    );
    assert_eq!(same.unwrap().translated_text, "hi");
    let other = marian_translate(
        "/m",
        TranslationRequest { text: "hi".into(), target_language: "Hindi".into() },
    );
    assert!(other.unwrap_err().starts_with("Local MarianMT inference not yet implemented for Hindi."));
    let p = piper_synthesize("/m", CloudSynthesisRequest { text: "t".into(), voice: "amy".into() });
    assert!(p.unwrap_err().starts_with("Local Piper TTS not yet implemented for voice 'amy'."));
}

#[test]
fn audio_replies_and_urls() {
    let r = mp3_reply(b"abc");
    assert_eq!(r.audio_base64, "YWJj");
    assert_eq!(r.format, "mp3");
    assert_eq!(elevenlabs_url("v1"), "https://api.elevenlabs.io/v1/text-to-speech/v1");
}

#[test]
fn translation_reply_bodies() {
    let openai = r#"{"choices":[{"message":{"role":"assistant","content":"  Hola mundo \n"}}]}"#;
    assert_eq!(openai_translation_from_body(openai).unwrap().translated_text, "Hola mundo");
    assert_eq!(
        openai_translation_from_body(r#"{"choices":[]}"#).unwrap_err(),
        "Unexpected OpenAI response shape"
    );
    assert_eq!(openai_translation_from_body("not json").unwrap_err(), "error decoding response body");
    let google = r#"{"data":{"translations":[{"translatedText":" Bonjour "}]}}"#;
    assert_eq!(google_translation_from_body(google).unwrap().translated_text, " Bonjour ");
    assert_eq!(
        google_translation_from_body(r#"{"data":{}}"#).unwrap_err(),
        "Unexpected Google response shape"
    );
    assert_eq!(google_translation_from_body("<html>").unwrap_err(), "error decoding response body");
}

#[test]
fn openai_speech_request_fields() {
    let req = CloudSynthesisRequest { text: "Hello there".into(), voice: "alloy".into() };
    let fields = openai_tts_fields(&req);
    let expected: Vec<(String, String)> = vec![
        ("model".into(), "tts-1".into()),
        ("input".into(), "Hello there".into()),
        ("voice".into(), "alloy".into()),
        ("response_format".into(), "mp3".into()),
    ];
    assert_eq!(fields, expected);
}

#[test]
fn mp3_reply_uses_standard_padded_base64() {
    let r = mp3_reply(&[104, 101, 108, 108, 111, 255, 62]);
    assert_eq!(r.audio_base64, "aGVsbG//Pg==");
    assert_eq!(r.format, "mp3");
    assert_eq!(mp3_reply(&[]).audio_base64, "");
    assert_eq!(mp3_reply(&[0xfb, 0xff]).audio_base64, "+/8=");
}
