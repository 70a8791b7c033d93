//! Requests and replies of the cloud translation and voice providers, and
//! the local model stubs that stand in for them.

use vstd::prelude::*;
use crate::text::str_eq;

verus! {

broadcast use vstd::string::group_string_axioms;

/// Text to translate and the UI name of the target language.
#[derive(Debug, Clone)]
pub struct TranslationRequest {
    pub text: String,
    pub target_language: String,
}

/// A translation result.
#[derive(Debug, Clone)]
pub struct TranslationResponse {
    pub translated_text: String,
}

/// Text to speak and the provider's voice name.
#[derive(Debug, Clone)]
pub struct CloudSynthesisRequest {
    pub text: String,
    pub voice: String,
}

/// Synthesized audio, base64-encoded, and its format.
#[derive(Debug, Clone)]
pub struct CloudSynthesisResponse {
    pub audio_base64: String,
    pub format: String,
}

/// Google Cloud Translation language code per UI language (`en` for
/// anything unknown).
pub open spec fn google_code_spec(language: Seq<char>) -> Seq<char> {
    if language == "English (US)"@ {
        "en"@
    } else if language == "Spanish"@ {
        "es"@
    } else if language == "French"@ {
        "fr"@
    } else if language == "German"@ {
        "de"@
    } else if language == "Portuguese"@ {
        "pt"@
    } else if language == "Hindi"@ {
        "hi"@
    } else if language == "Japanese"@ {
        "ja"@
    } else if language == "Korean"@ {
        "ko"@
    } else if language == "Chinese (Simplified)"@ {
        "zh-CN"@
    } else if language == "Arabic"@ {
        "ar"@
    } else {
        "en"@
    }
}

/// The Google Cloud Translation target code for a UI language.
pub fn google_language_code(language: &str) -> (r: &'static str)
    ensures
        r@ == google_code_spec(language@),
{
    if str_eq(language, "English (US)") {
        "en"
    } else if str_eq(language, "Spanish") {
        "es"
    } else if str_eq(language, "French") {
        "fr"
    } else if str_eq(language, "German") {
        "de"
    } else if str_eq(language, "Portuguese") {
        "pt"
    } else if str_eq(language, "Hindi") {
        "hi"
    } else if str_eq(language, "Japanese") {
        "ja"
    } else if str_eq(language, "Korean") {
        "ko"
    } else if str_eq(language, "Chinese (Simplified)") {
        "zh-CN"
    } else if str_eq(language, "Arabic") {
        "ar"
    } else {
        "en"
    }
}

/// The system prompt of the OpenAI translation request.
pub open spec fn openai_translation_prompt_spec(language: Seq<char>) -> Seq<char> {
    "You are a professional translator. Translate the user's text into "@ + language
        + ". Preserve technical terms, named entities, and numbers. Output only the translated text, no commentary."@
}

/// The system prompt asking OpenAI to translate into `target_language`.
pub fn openai_translation_prompt(target_language: &str) -> (r: String)
    ensures
        r@ == openai_translation_prompt_spec(target_language@),
{
    let mut out: Vec<char> = Vec::new();
    crate::text::push_str(&mut out, "You are a professional translator. Translate the user's text into ");
    crate::text::push_str(&mut out, target_language);
    crate::text::push_str(
        &mut out,
        ". Preserve technical terms, named entities, and numbers. Output only the translated text, no commentary.",
    );
    crate::text::string_from_chars(&out)
}

/// Local MarianMT translation. English needs none and is returned as is;
/// the ONNX inference for other languages is not wired up, so they fail
/// with an explanation.
pub fn marian_translate(_model_path: &str, req: TranslationRequest) -> (r: Result<
    TranslationResponse,
    String,
>)
    ensures
        req.target_language@ == "English (US)"@ ==> (r matches Ok(t) && t.translated_text@
            == req.text@),
        req.target_language@ != "English (US)"@ ==> (r matches Err(e) && e@ == "Local MarianMT inference not yet implemented for "@
            + req.target_language@
            + ". The model files can be downloaded, but the ONNX inference loop needs ort (ONNX Runtime) integration. See cloud.rs for the integration point."@),
{
    if str_eq(&req.target_language, "English (US)") {
        return Ok(TranslationResponse { translated_text: req.text });
    }
    let mut out: Vec<char> = Vec::new();
    crate::text::push_str(&mut out, "Local MarianMT inference not yet implemented for ");
    crate::text::push_str(&mut out, &req.target_language);
    crate::text::push_str(
        &mut out,
        ". The model files can be downloaded, but the ONNX inference loop needs ort (ONNX Runtime) integration. See cloud.rs for the integration point.",
    );
    Err(crate::text::string_from_chars(&out))
}

/// Local Piper synthesis. The ONNX inference is not wired up, so every
/// request fails with an explanation naming the voice.
pub fn piper_synthesize(_model_path: &str, req: CloudSynthesisRequest) -> (r: Result<
    CloudSynthesisResponse,
    String,
>)
    ensures
        r matches Err(e) && e@ == "Local Piper TTS not yet implemented for voice '"@ + req.voice@
            + "'. The model files can be downloaded, but the ONNX inference loop needs ort integration. See cloud.rs for the integration point."@,
{
    let mut out: Vec<char> = Vec::new();
    crate::text::push_str(&mut out, "Local Piper TTS not yet implemented for voice '");
    crate::text::push_str(&mut out, &req.voice);
    crate::text::push_str(
        &mut out,
        "'. The model files can be downloaded, but the ONNX inference loop needs ort integration. See cloud.rs for the integration point.",
    );
    Err(crate::text::string_from_chars(&out))
}

/// The error for a cloud reply with a failure status: the service,
/// the status line and the body the service sent.
pub fn http_error(service: &str, status: &str, body: &str) -> (r: String)
    ensures
        r@ == service@ + " error "@ + status@ + ": "@ + body@,
{
    let mut m: Vec<char> = Vec::new();
    crate::text::push_str(&mut m, service);
    crate::text::push_str(&mut m, " error ");
    crate::text::push_str(&mut m, status);
    crate::text::push_str(&mut m, ": ");
    crate::text::push_str(&mut m, body);
    crate::text::string_from_chars(&m)
}

/// Reads an OpenAI chat reply: its message content
/// (`choices[0].message.content`) trimmed is the result, and a reply
/// without such a string is an error.
pub fn openai_translation_reply(content: Option<String>) -> (r: Result<TranslationResponse, String>)
    ensures
        match content {
            Some(c) => r matches Ok(t) && t.translated_text@ == crate::text::trim(c@),
            None => r matches Err(e) && e@ == "Unexpected OpenAI response shape"@,
        },
{
    match content {
        Some(c) => {
            let t = crate::text::trim_chars(&crate::text::chars_of(&c));
            Ok(TranslationResponse { translated_text: crate::text::string_from_chars(&t) })
        },
        None => Err("Unexpected OpenAI response shape".to_owned()),
    }
}

/// Reads a Google Cloud Translation reply: its
/// `data.translations[0].translatedText`, as sent, is the result, and a
/// reply without such a string is an error.
pub fn google_translation_reply(text: Option<String>) -> (r: Result<TranslationResponse, String>)
    ensures
        match text {
            Some(c) => r matches Ok(t) && t.translated_text@ == c@,
            None => r matches Err(e) && e@ == "Unexpected Google response shape"@,
        },
{
    match text {
        Some(c) => Ok(TranslationResponse { translated_text: c }),
        None => Err("Unexpected Google response shape".to_owned()),
    }
}

/// The error a reply body that is not JSON gives: what the HTTP client
/// reports when it cannot decode a response body as JSON.
pub open spec fn body_decode_error() -> Seq<char> {
    "error decoding response body"@
}

/// What `serde_json` finds at `choices[0].message.content` of an OpenAI
/// chat reply body: `None` when the body is not JSON, `Some(None)` when
/// that place holds no string, `Some(Some(text))` otherwise.
pub uninterp spec fn openai_reply_content_of(body: Seq<char>) -> Option<Option<Seq<char>>>;

/// Trusted: parses `body` with `serde_json::from_str` into a
/// `serde_json::Value`, indexes it with `["choices"][0]["message"]["content"]`
/// and reads `as_str()`. The contract claims only that the outcome is the
/// named value of `body` (`None` when the body does not parse).
#[verifier::external_body]
pub(crate) fn openai_reply_content(body: &str) -> (r: Option<Option<String>>)
    ensures
        match r {
            Some(Some(s)) => openai_reply_content_of(body@) == Some(Some(s@)),
            Some(None) => openai_reply_content_of(body@) == Some(None::<Seq<char>>),
            None => openai_reply_content_of(body@) is None,
        },
{
    match serde_json::from_str::<serde_json::Value>(body) {
        Ok(v) => Some(v["choices"][0]["message"]["content"].as_str().map(|s| s.to_owned())),
        Err(_) => None,
    }
}

/// What `serde_json` finds at `data.translations[0].translatedText` of a
/// Google Cloud Translation reply body: `None` when the body is not JSON,
/// `Some(None)` when that place holds no string, `Some(Some(text))`
/// otherwise.
pub uninterp spec fn google_reply_text_of(body: Seq<char>) -> Option<Option<Seq<char>>>;

/// Trusted: parses `body` with `serde_json::from_str` into a
/// `serde_json::Value`, indexes it with
/// `["data"]["translations"][0]["translatedText"]` and reads `as_str()`.
/// The contract claims only that the outcome is the named value of
/// `body` (`None` when the body does not parse).
#[verifier::external_body]
pub(crate) fn google_reply_text(body: &str) -> (r: Option<Option<String>>)
    ensures
        match r {
            Some(Some(s)) => google_reply_text_of(body@) == Some(Some(s@)),
            Some(None) => google_reply_text_of(body@) == Some(None::<Seq<char>>),
            None => google_reply_text_of(body@) is None,
        },
{
    match serde_json::from_str::<serde_json::Value>(body) {
        Ok(v) => Some(v["data"]["translations"][0]["translatedText"].as_str().map(|s| s.to_owned())),
        Err(_) => None,
    }
}

/// The translation in an OpenAI chat reply body: the message content,
/// trimmed; the shape error when the reply holds no content string; the
/// HTTP client's decoding error when the body is not JSON.
pub fn openai_translation_from_body(body: &str) -> (r: Result<TranslationResponse, String>)
    ensures
        match openai_reply_content_of(body@) {
            None => r matches Err(e) && e@ == body_decode_error(),
            Some(Some(c)) => r matches Ok(t) && t.translated_text@ == crate::text::trim(c),
            Some(None) => r matches Err(e) && e@ == "Unexpected OpenAI response shape"@,
        },
{
    match openai_reply_content(body) {
        Some(content) => openai_translation_reply(content),
        None => Err("error decoding response body".to_owned()),
    }
}

/// The translation in a Google Cloud Translation reply body: the
/// translated text as sent; the shape error when the reply holds no such
/// string; the HTTP client's decoding error when the body is not JSON.
pub fn google_translation_from_body(body: &str) -> (r: Result<TranslationResponse, String>)
    ensures
        match google_reply_text_of(body@) {
            None => r matches Err(e) && e@ == body_decode_error(),
            Some(Some(c)) => r matches Ok(t) && t.translated_text@ == c,
            Some(None) => r matches Err(e) && e@ == "Unexpected Google response shape"@,
        },
{
    match google_reply_text(body) {
        Some(text) => google_translation_reply(text),
        None => Err("error decoding response body".to_owned()),
    }
}

/// The query of a Google Cloud Translation request: the key, the text,
/// the target language code and plain-text format.
pub fn google_query(api_key: &str, req: &TranslationRequest) -> (r: Vec<(String, String)>)
    ensures
        r.deep_view() == seq![
            ("key"@, api_key@),
            ("q"@, req.text@),
            ("target"@, google_code_spec(req.target_language@)),
            ("format"@, "text"@),
        ],
{
    let r = vec![
        ("key".to_owned(), api_key.to_owned()),
        ("q".to_owned(), req.text.clone()),
        ("target".to_owned(), google_language_code(&req.target_language).to_owned()),
        ("format".to_owned(), "text".to_owned()),
    ];
    assert(r.deep_view() == seq![
        ("key"@, api_key@),
        ("q"@, req.text@),
        ("target"@, google_code_spec(req.target_language@)),
        ("format"@, "text"@),
    ]);
    r
}

/// The string fields of an OpenAI speech request, in order: the model,
/// the text to speak, the voice and MP3 output.
pub fn openai_tts_fields(req: &CloudSynthesisRequest) -> (r: Vec<(String, String)>)
    ensures
        r.deep_view() == seq![
            ("model"@, "tts-1"@),
            ("input"@, req.text@),
            ("voice"@, req.voice@),
            ("response_format"@, "mp3"@),
        ],
{
    let r = vec![
        ("model".to_owned(), "tts-1".to_owned()),
        ("input".to_owned(), req.text.clone()),
        ("voice".to_owned(), req.voice.clone()),
        ("response_format".to_owned(), "mp3".to_owned()),
    ];
    assert(r.deep_view() == seq![
        ("model"@, "tts-1"@),
        ("input"@, req.text@),
        ("voice"@, req.voice@),
        ("response_format"@, "mp3"@),
    ]);
    r
}

/// A cloud voice reply: its MP3 bytes, base64-encoded.
pub fn mp3_reply(audio: &[u8]) -> (r: CloudSynthesisResponse)
    requires
        audio@.len() <= usize::MAX / 2,
    ensures
        r.audio_base64@ == crate::codec::base64_encoding(audio@),
        r.format@ == "mp3"@,
{
    CloudSynthesisResponse { audio_base64: crate::codec::base64_encode(audio), format: "mp3".to_owned() }
}

/// The ElevenLabs speech endpoint of a voice.
pub fn elevenlabs_url(voice_id: &str) -> (r: String)
    ensures
        r@ == "https://api.elevenlabs.io/v1/text-to-speech/"@ + voice_id@,
{
    let mut m: Vec<char> = Vec::new();
    crate::text::push_str(&mut m, "https://api.elevenlabs.io/v1/text-to-speech/");
    crate::text::push_str(&mut m, voice_id);
    crate::text::string_from_chars(&m)
}

} // verus!
