//! The decisions behind the commands the interface invokes: validating a
//! project before export, checking API-key input, routing a text
//! translation, choosing the engine for a voice preview and labelling its
//! audio, and the dependency and install-hint reports.

use vstd::prelude::*;
use crate::chatterbox::ChatterboxRequest;
use crate::cloud::CloudSynthesisRequest;
use crate::codec::{base64_decode, base64_decoding, base64_encode, base64_encoding};
use crate::edgetts::TtsRequest;
use crate::export::{cloud_translator_spec, selected_count, CloudTranslator, VoiceCall, VoiceCallView};
use crate::font::{platform_from_os, platform_named, Platform};
use crate::providers::{argos_code_spec, argos_lang_code};
use crate::render::{rate_for_speed, speed_to_rate};
use crate::font::FontResolution;
use crate::text::{
    chars_of, dec, eq_ignore_ascii_case, eq_ignore_ascii_case_exec, push_dec, push_str, str_eq,
    string_from_chars, trim, trim_chars,
};
use crate::types::{opt_chars, Project, SceneView, SystemStatus};

verus! {

broadcast use vstd::string::group_string_axioms;

// ---------------------------------------------------------------------
// Export validation
// ---------------------------------------------------------------------

/// Some selected scene has a blank script.
pub open spec fn blank_selected_script(scenes: Seq<SceneView>) -> bool {
    exists|k: int| 0 <= k < scenes.len() && scenes[k].selected && trim(scenes[k].script).len() == 0
}

/// The verdict on a project before export, checks in order: an output
/// format, a selected scene, narration for every selected scene, then
/// FFmpeg and FFprobe.
pub open spec fn validation_spec(
    scenes: Seq<SceneView>,
    youtube: bool,
    tiktok: bool,
    ffmpeg_ok: bool,
    ffprobe_ok: bool,
) -> Result<Seq<char>, Seq<char>> {
    if !youtube && !tiktok {
        Err("Select at least one output format"@)
    } else if selected_count(scenes) == 0 {
        Err("Select at least one scene"@)
    } else if blank_selected_script(scenes) {
        Err("Every selected scene needs narration text"@)
    } else if !ffmpeg_ok || !ffprobe_ok {
        Err("FFmpeg and FFprobe must be installed before rendering"@)
    } else {
        Ok("Project validated and ready to render"@)
    }
}

fn has_blank_selected(scenes: &Vec<crate::types::Scene>) -> (r: bool)
    ensures
        r == blank_selected_script(scenes.deep_view()),
{
    let mut i: usize = 0;
    while i < scenes.len()
        invariant
            i <= scenes.len(),
            forall|k: int|
                0 <= k < i ==> !(scenes.deep_view()[k].selected && trim(
                    scenes.deep_view()[k].script,
                ).len() == 0),
        decreases scenes.len() - i,
    {
        let s = &scenes[i];
        assert(scenes.deep_view()[i as int] == s.deep_view());
        if s.selected {
            let v = chars_of(&s.script);
            let t = trim_chars(&v);
            if t.len() == 0 {
                return true;
            }
        }
        i += 1;
    }
    false
}

/// Checks a project before export. `ffmpeg_ok` and `ffprobe_ok` say
/// whether each binary was found and runs.
pub fn validate_export(project: &Project, ffmpeg_ok: bool, ffprobe_ok: bool) -> (r: Result<
    String,
    String,
>)
    ensures
        match validation_spec(
            project.scenes.deep_view(),
            project.output_you_tube,
            project.output_tik_tok,
            ffmpeg_ok,
            ffprobe_ok,
        ) {
            Ok(m) => r matches Ok(s) && s@ == m,
            Err(m) => r matches Err(e) && e@ == m,
        },
{
    if !project.output_you_tube && !project.output_tik_tok {
        return Err("Select at least one output format".to_owned());
    }
    if crate::export::count_selected(&project.scenes) == 0 {
        return Err("Select at least one scene".to_owned());
    }
    if has_blank_selected(&project.scenes) {
        return Err("Every selected scene needs narration text".to_owned());
    }
    if !ffmpeg_ok || !ffprobe_ok {
        return Err("FFmpeg and FFprobe must be installed before rendering".to_owned());
    }
    Ok("Project validated and ready to render".to_owned())
}

// ---------------------------------------------------------------------
// API keys
// ---------------------------------------------------------------------

/// Refuses to store an API key when the provider or the key is blank.
pub fn check_api_key_input(provider: &str, secret: &str) -> (r: Result<(), String>)
    ensures
        r is Ok <==> (trim(provider@).len() > 0 && trim(secret@).len() > 0),
        r matches Err(e) ==> e@ == "Provider and API key are required"@,
{
    let p = trim_chars(&chars_of(provider));
    let s = trim_chars(&chars_of(secret));
    if p.len() == 0 || s.len() == 0 {
        return Err("Provider and API key are required".to_owned());
    }
    Ok(())
}

// ---------------------------------------------------------------------
// Text translation
// ---------------------------------------------------------------------

/// The engine that handles a one-off text request of the inspector.
#[derive(Debug, Clone)]
pub enum TextTranslation {
    /// Offline Argos from English into the given language code.
    Argos { to_code: String },
    /// A cloud provider, which needs its stored key.
    Cloud,
}

/// The offline route is taken for Argos, for the legacy `marian` choice
/// and when no provider is set.
pub open spec fn offline_provider(provider: Seq<char>) -> bool {
    provider == "argos"@ || provider == "marian"@ || provider.len() == 0
}

/// The engine that handles a one-off text request of the inspector.
pub fn text_translation_route(provider: &str, target_language: &str) -> (r: TextTranslation)
    ensures
        offline_provider(provider@) ==> (r matches TextTranslation::Argos { to_code } && to_code@
            == argos_code_spec(target_language@)),
        !offline_provider(provider@) ==> r is Cloud,
{
    if str_eq(provider, "argos") || str_eq(provider, "marian") || provider.unicode_len() == 0 {
        TextTranslation::Argos { to_code: argos_lang_code(target_language).to_owned() }
    } else {
        TextTranslation::Cloud
    }
}

/// The cloud translator for an inspector translation, or the error for a
/// provider that has none.
pub fn text_translator(provider: &str) -> (r: Result<CloudTranslator, String>)
    ensures
        match cloud_translator_spec(provider@) {
            Some(t) => r == Ok::<CloudTranslator, String>(t),
            None => r matches Err(e) && e@ == provider@ + " translator not implemented"@,
        },
{
    match crate::export::cloud_translator(provider) {
        Some(t) => Ok(t),
        None => {
            let mut m: Vec<char> = Vec::new();
            push_str(&mut m, provider);
            push_str(&mut m, " translator not implemented");
            Err(string_from_chars(&m))
        },
    }
}

/// The error when no key is stored for an inspector translation.
pub fn missing_translation_key(provider: &str) -> (r: String)
    ensures
        r@ == "No API key for "@ + provider@,
{
    let mut m: Vec<char> = Vec::new();
    push_str(&mut m, "No API key for ");
    push_str(&mut m, provider);
    string_from_chars(&m)
}

// ---------------------------------------------------------------------
// Voice preview
// ---------------------------------------------------------------------

/// The Kokoro language code of a voice id: its first letter (`af_heart`
/// is `a`), empty for an empty id.
pub open spec fn kokoro_voice_lang(voice: Seq<char>) -> Seq<char> {
    if voice.len() > 0 {
        seq![voice[0]]
    } else {
        Seq::empty()
    }
}

/// The engine request for a voice preview, or its error. The speed
/// defaults to 100%; Chatterbox takes the voice value as its language.
pub open spec fn preview_call_spec(
    provider: Seq<char>,
    voice: Seq<char>,
    text: Seq<char>,
    speed: Option<u32>,
) -> Result<VoiceCallView, Seq<char>> {
    let pct: u32 = match speed {
        Some(s) => s,
        None => 100,
    };
    if provider == "edge"@ {
        Ok(VoiceCallView::Edge { text, voice, rate: rate_for_speed(pct as nat), pitch: None })
    } else if provider == "kokoro"@ {
        Ok(
            VoiceCallView::Kokoro {
                text,
                voice,
                lang_code: kokoro_voice_lang(voice),
                speed_percent: pct,
            },
        )
    } else if provider == "chatterbox"@ {
        Ok(VoiceCallView::Chatterbox { text, language_id: voice })
    } else if provider == "piper"@ {
        Err("Piper preview not yet implemented"@)
    } else if provider == "openai"@ {
        Ok(VoiceCallView::OpenAi { text, voice })
    } else if provider == "elevenlabs"@ {
        Ok(VoiceCallView::ElevenLabs { voice_id: voice, text, voice })
    } else {
        Err("Voice provider '"@ + provider + "' not implemented"@)
    }
}

/// The engine request for a voice preview, or its error.
pub fn preview_call(provider: &str, voice: &str, text: &str, speed: Option<u32>) -> (r: Result<
    VoiceCall,
    String,
>)
    ensures
        match preview_call_spec(provider@, voice@, text@, speed) {
            Ok(c) => r matches Ok(v) && v.deep_view() == c,
            Err(m) => r matches Err(e) && e@ == m,
        },
{
    let pct: u32 = match speed {
        Some(s) => s,
        None => 100,
    };
    if str_eq(provider, "edge") {
        let rate = speed_to_rate(pct);
        proof {
            assert(opt_chars(rate) == rate_for_speed(pct as nat));
        }
        Ok(
            VoiceCall::Edge(
                TtsRequest { text: text.to_owned(), voice: voice.to_owned(), rate, pitch: None },
            ),
        )
    } else if str_eq(provider, "kokoro") {
        let v = chars_of(voice);
        let mut lang: Vec<char> = Vec::new();
        if v.len() > 0 {
            lang.push(v[0]);
        }
        assert(lang@ == kokoro_voice_lang(voice@));
        Ok(
            VoiceCall::Kokoro {
                text: text.to_owned(),
                voice: voice.to_owned(),
                lang_code: string_from_chars(&lang),
                speed_percent: pct,
            },
        )
    } else if str_eq(provider, "chatterbox") {
        Ok(
            VoiceCall::Chatterbox(
                ChatterboxRequest { text: text.to_owned(), language_id: voice.to_owned() },
            ),
        )
    } else if str_eq(provider, "piper") {
        Err("Piper preview not yet implemented".to_owned())
    } else if str_eq(provider, "openai") {
        Ok(
            VoiceCall::OpenAi(
                CloudSynthesisRequest { text: text.to_owned(), voice: voice.to_owned() },
            ),
        )
    } else if str_eq(provider, "elevenlabs") {
        Ok(
            VoiceCall::ElevenLabs {
                voice_id: voice.to_owned(),
                request: CloudSynthesisRequest { text: text.to_owned(), voice: voice.to_owned() },
            },
        )
    } else {
        let mut m: Vec<char> = Vec::new();
        push_str(&mut m, "Voice provider '");
        push_str(&mut m, provider);
        push_str(&mut m, "' not implemented");
        Err(string_from_chars(&m))
    }
}

/// The error shown when an edge-tts preview fails.
pub fn edge_preview_failure(detail: &str) -> (r: String)
    ensures
        r@ == "edge-tts synthesis failed: "@ + detail@,
{
    let mut m: Vec<char> = Vec::new();
    push_str(&mut m, "edge-tts synthesis failed: ");
    push_str(&mut m, detail);
    string_from_chars(&m)
}

/// The error when a preview needs a cloud key that is not stored.
pub fn preview_missing_key(provider: &str) -> (r: String)
    ensures
        provider@ == "openai"@ ==> r@ == "No OpenAI API key"@,
        provider@ != "openai"@ ==> r@ == "No ElevenLabs API key"@,
{
    if str_eq(provider, "openai") {
        "No OpenAI API key".to_owned()
    } else {
        "No ElevenLabs API key".to_owned()
    }
}

/// The audio type of a preview: WAV from the local neural engines, MP3
/// from the others.
pub open spec fn preview_mime_spec(provider: Seq<char>) -> Seq<char> {
    if provider == "kokoro"@ || provider == "chatterbox"@ {
        "audio/wav"@
    } else {
        "audio/mpeg"@
    }
}

/// The audio type of a preview.
pub fn preview_mime(provider: &str) -> (r: &'static str)
    ensures
        r@ == preview_mime_spec(provider@),
{
    if str_eq(provider, "kokoro") || str_eq(provider, "chatterbox") {
        "audio/wav"
    } else {
        "audio/mpeg"
    }
}

/// The data URL the interface plays for a preview: the engine's base64
/// audio decoded, re-encoded and labelled with its type. A payload the
/// decoder rejects gives the decoder's error.
pub fn preview_data_url(provider: &str, audio_base64: &str) -> (r: Result<String, String>)
    requires
        audio_base64@.len() <= usize::MAX / 2,
    ensures
        match base64_decoding(audio_base64@) {
            Ok(b) => r matches Ok(s) && s@ == "data:"@ + preview_mime_spec(provider@)
                + ";base64,"@ + base64_encoding(b),
            Err(m) => r matches Err(e) && e@ == m,
        },
{
    match base64_decode(audio_base64) {
        Ok(bytes) => {
            let mut m: Vec<char> = Vec::new();
            push_str(&mut m, "data:");
            push_str(&mut m, preview_mime(provider));
            push_str(&mut m, ";base64,");
            let enc = base64_encode(bytes.as_slice());
            push_str(&mut m, &enc);
            Ok(string_from_chars(&m))
        },
        Err(e) => Err(e),
    }
}

// ---------------------------------------------------------------------
// Dependencies
// ---------------------------------------------------------------------

/// Whether Python with edge-tts was found, for the voice-engine check.
#[derive(Debug, Clone)]
pub struct TtsEngineStatus {
    pub python_available: bool,
    pub python_path: Option<String>,
    pub edge_tts_version: Option<String>,
}

/// The voice-engine report for the Python interpreter found, if any.
pub fn tts_engine_status(python_path: Option<String>) -> (r: TtsEngineStatus)
    ensures
        r.python_available == (python_path is Some),
        opt_chars(r.python_path) == opt_chars(python_path),
        r.edge_tts_version is None,
{
    TtsEngineStatus {
        python_available: python_path.is_some(),
        python_path,
        edge_tts_version: None,
    }
}

/// How to install a missing tool.
#[derive(Debug, Clone)]
pub struct InstallHint {
    pub tool: String,
    pub message: String,
    pub command: String,
}

/// An install hint as (tool, message, command).
pub open spec fn hint_view(h: InstallHint) -> (Seq<char>, Seq<char>, Seq<char>) {
    (h.tool@, h.message@, h.command@)
}

/// The hint for a missing FFmpeg.
pub open spec fn ffmpeg_hint(platform: Platform) -> (Seq<char>, Seq<char>, Seq<char>) {
    match platform {
        Platform::Windows => (
            "ffmpeg"@,
            "FFmpeg is required to render videos. Install via winget or download from gyan.dev."@,
            "winget install Gyan.FFmpeg"@,
        ),
        Platform::MacOs => (
            "ffmpeg"@,
            "FFmpeg is required to render videos. Install via Homebrew."@,
            "brew install ffmpeg"@,
        ),
        Platform::Other => (
            "ffmpeg"@,
            "FFmpeg is required to render videos. Install via your package manager."@,
            "sudo apt install ffmpeg"@,
        ),
    }
}

/// The hint for a missing FFprobe.
pub open spec fn ffprobe_hint() -> (Seq<char>, Seq<char>, Seq<char>) {
    (
        "ffprobe"@,
        "ffprobe (bundled with ffmpeg) is required to probe output videos."@,
        "Install ffmpeg (ffprobe is included)."@,
    )
}

/// The hint for a missing Python with edge-tts.
pub open spec fn python_hint(platform: Platform) -> (Seq<char>, Seq<char>, Seq<char>) {
    (
        "python"@,
        "Python 3.8+ with the edge-tts package is the default voice engine."@,
        match platform {
            Platform::Windows => "winget install Python.Python.3.12 && pip install edge-tts"@,
            Platform::MacOs => "brew install python@3.12 && pip3 install edge-tts"@,
            Platform::Other => "sudo apt install python3 python3-pip && pip3 install edge-tts"@,
        },
    )
}

/// The hints for what is missing, in the order FFmpeg, FFprobe, Python.
pub open spec fn install_hints_spec(
    platform: Platform,
    ffmpeg: bool,
    ffprobe: bool,
    python: bool,
) -> Seq<(Seq<char>, Seq<char>, Seq<char>)> {
    (if !ffmpeg {
        seq![ffmpeg_hint(platform)]
    } else {
        Seq::empty()
    }) + (if !ffprobe {
        seq![ffprobe_hint()]
    } else {
        Seq::empty()
    }) + (if !python {
        seq![python_hint(platform)]
    } else {
        Seq::empty()
    })
}

fn hint(tool: &str, message: &str, command: &str) -> (r: InstallHint)
    ensures
        hint_view(r) == (tool@, message@, command@),
{
    InstallHint { tool: tool.to_owned(), message: message.to_owned(), command: command.to_owned() }
}

/// The install hints for what is missing on `platform`.
pub fn install_hints(platform: Platform, ffmpeg: bool, ffprobe: bool, python: bool) -> (r: Vec<
    InstallHint,
>)
    ensures
        r@.map_values(|h: InstallHint| hint_view(h)) == install_hints_spec(
            platform,
            ffmpeg,
            ffprobe,
            python,
        ),
{
    let mut v: Vec<InstallHint> = Vec::new();
    if !ffmpeg {
        let h = match platform {
            Platform::Windows => hint(
                "ffmpeg",
                "FFmpeg is required to render videos. Install via winget or download from gyan.dev.",
                "winget install Gyan.FFmpeg",
            ),
            Platform::MacOs => hint(
                "ffmpeg",
                "FFmpeg is required to render videos. Install via Homebrew.",
                "brew install ffmpeg",
            ),
            Platform::Other => hint(
                "ffmpeg",
                "FFmpeg is required to render videos. Install via your package manager.",
                "sudo apt install ffmpeg",
            ),
        };
        v.push(h);
    }
    let ghost a = v@.map_values(|h: InstallHint| hint_view(h));
    assert(a == (if !ffmpeg {
        seq![ffmpeg_hint(platform)]
    } else {
        Seq::empty()
    }));
    if !ffprobe {
        v.push(
            hint(
                "ffprobe",
                "ffprobe (bundled with ffmpeg) is required to probe output videos.",
                "Install ffmpeg (ffprobe is included).",
            ),
        );
    }
    let ghost b = v@.map_values(|h: InstallHint| hint_view(h));
    assert(b == a + (if !ffprobe {
        seq![ffprobe_hint()]
    } else {
        Seq::empty()
    }));
    if !python {
        let h = match platform {
            Platform::Windows => hint(
                "python",
                "Python 3.8+ with the edge-tts package is the default voice engine.",
                "winget install Python.Python.3.12 && pip install edge-tts",
            ),
            Platform::MacOs => hint(
                "python",
                "Python 3.8+ with the edge-tts package is the default voice engine.",
                "brew install python@3.12 && pip3 install edge-tts",
            ),
            Platform::Other => hint(
                "python",
                "Python 3.8+ with the edge-tts package is the default voice engine.",
                "sudo apt install python3 python3-pip && pip3 install edge-tts",
            ),
        };
        v.push(h);
    }
    assert(v@.map_values(|h: InstallHint| hint_view(h)) == b + (if !python {
        seq![python_hint(platform)]
    } else {
        Seq::empty()
    }));
    v
}

/// The dependency report of the settings screen.
#[derive(Debug, Clone)]
pub struct DependencyStatus {
    pub ffmpeg: bool,
    pub ffprobe: bool,
    pub ffmpeg_path: Option<String>,
    pub python: bool,
    pub python_path: Option<String>,
    pub edge_tts: bool,
    pub edge_tts_version: Option<String>,
    pub ocr_ready: bool,
    pub platform: String,
    pub install_hints: Vec<InstallHint>,
}

/// The dependency report from what was found: the FFmpeg path, whether
/// FFprobe exists, the Python with edge-tts and its version (asked only
/// when that Python exists), and whether OCR is ready. `os` is the
/// operating-system name (`windows`, `macos`, `linux`, ...).
pub fn dependency_status(
    os: &str,
    ffmpeg_path: Option<String>,
    ffprobe_found: bool,
    python_path: Option<String>,
    edge_tts_version: Option<String>,
    ocr_ready: bool,
) -> (r: DependencyStatus)
    ensures
        r.ffmpeg == (ffmpeg_path is Some),
        r.ffprobe == ffprobe_found,
        opt_chars(r.ffmpeg_path) == opt_chars(ffmpeg_path),
        r.python == (python_path is Some),
        opt_chars(r.python_path) == opt_chars(python_path),
        r.edge_tts == (python_path is Some),
        opt_chars(r.edge_tts_version) == (if python_path is Some {
            opt_chars(edge_tts_version)
        } else {
            None
        }),
        r.ocr_ready == ocr_ready,
        r.platform@ == os@,
        r.install_hints@.map_values(|h: InstallHint| hint_view(h)) == install_hints_spec(
            platform_named(os@),
            ffmpeg_path is Some,
            ffprobe_found,
            python_path is Some,
        ),
{
    let ffmpeg = ffmpeg_path.is_some();
    let python_ok = python_path.is_some();
    let version = if python_ok {
        edge_tts_version
    } else {
        None
    };
    let hints = install_hints(platform_from_os(os), ffmpeg, ffprobe_found, python_ok);
    DependencyStatus {
        ffmpeg,
        ffprobe: ffprobe_found,
        ffmpeg_path,
        python: python_ok,
        python_path,
        edge_tts: python_ok,
        edge_tts_version: version,
        ocr_ready,
        platform: os.to_owned(),
        install_hints: hints,
    }
}

/// An optional local engine the user can install.
#[derive(Debug, Clone)]
pub struct LocalDep {
    pub id: String,
    pub label: String,
    pub purpose: String,
    pub installed: bool,
    pub command: String,
    pub docs: String,
}

/// A local engine entry as (id, label, purpose, installed, command, docs).
pub open spec fn local_dep_view(d: LocalDep) -> (
    Seq<char>,
    Seq<char>,
    Seq<char>,
    bool,
    Seq<char>,
    Seq<char>,
) {
    (d.id@, d.label@, d.purpose@, d.installed, d.command@, d.docs@)
}

/// The optional local engines: Argos translation, Kokoro and Chatterbox
/// voices, each with its install command.
pub open spec fn local_deps_spec(argos: bool, kokoro: bool, chatterbox: bool) -> Seq<
    (Seq<char>, Seq<char>, Seq<char>, bool, Seq<char>, Seq<char>),
> {
    seq![
        (
            "argos"@,
            "Argos Translate"@,
            "Offline translation for non-English output"@,
            argos,
            "pip install argostranslate"@,
            "https://github.com/argosopentech/argos-translate"@,
        ),
        (
            "kokoro"@,
            "Kokoro voice"@,
            "Fast local voice · 8 languages · runs on CPU"@,
            kokoro,
            "pip install kokoro soundfile"@,
            "https://github.com/hexgrad/kokoro"@,
        ),
        (
            "chatterbox"@,
            "Chatterbox voice"@,
            "Premium multilingual voice · 23 languages · GPU recommended"@,
            chatterbox,
            "pip install chatterbox-tts torchaudio"@,
            "https://github.com/resemble-ai/chatterbox"@,
        ),
    ]
}

fn local_dep(
    id: &str,
    label: &str,
    purpose: &str,
    installed: bool,
    command: &str,
    docs: &str,
) -> (r: LocalDep)
    ensures
        local_dep_view(r) == (id@, label@, purpose@, installed, command@, docs@),
{
    LocalDep {
        id: id.to_owned(),
        label: label.to_owned(),
        purpose: purpose.to_owned(),
        installed,
        command: command.to_owned(),
        docs: docs.to_owned(),
    }
}

/// The optional local engines and whether each is installed.
pub fn local_deps(argos: bool, kokoro: bool, chatterbox: bool) -> (r: Vec<LocalDep>)
    ensures
        r@.map_values(|d: LocalDep| local_dep_view(d)) == local_deps_spec(argos, kokoro, chatterbox),
{
    let r = vec![
        local_dep(
            "argos",
            "Argos Translate",
            "Offline translation for non-English output",
            argos,
            "pip install argostranslate",
            "https://github.com/argosopentech/argos-translate",
        ),
        local_dep(
            "kokoro",
            "Kokoro voice",
            "Fast local voice · 8 languages · runs on CPU",
            kokoro,
            "pip install kokoro soundfile",
            "https://github.com/hexgrad/kokoro",
        ),
        local_dep(
            "chatterbox",
            "Chatterbox voice",
            "Premium multilingual voice · 23 languages · GPU recommended",
            chatterbox,
            "pip install chatterbox-tts torchaudio",
            "https://github.com/resemble-ai/chatterbox",
        ),
    ];
    assert(r@.map_values(|d: LocalDep| local_dep_view(d)) == local_deps_spec(
        argos,
        kokoro,
        chatterbox,
    ));
    r
}

/// The Python one-liner that exits 0 exactly when `module` can be
/// imported, checked without importing it.
pub fn module_probe_code(module: &str) -> (r: String)
    ensures
        r@ == "import importlib.util,sys; sys.exit(0 if importlib.util.find_spec('"@ + module@
            + "') else 1)"@,
{
    let mut m: Vec<char> = Vec::new();
    push_str(&mut m, "import importlib.util,sys; sys.exit(0 if importlib.util.find_spec('");
    push_str(&mut m, module);
    push_str(&mut m, "') else 1)");
    string_from_chars(&m)
}

/// The edge-tts version a probe printed: its trimmed output, or none when
/// it printed nothing.
pub fn edge_tts_version_from(stdout: &str) -> (r: Option<String>)
    ensures
        trim(stdout@).len() == 0 ==> r is None,
        trim(stdout@).len() > 0 ==> (r matches Some(v) && v@ == trim(stdout@)),
{
    let t = trim_chars(&chars_of(stdout));
    if t.len() == 0 {
        None
    } else {
        Some(string_from_chars(&t))
    }
}

// ---------------------------------------------------------------------
// Status and files
// ---------------------------------------------------------------------

/// The host report shown at startup: the tool checks, the platform name,
/// whether the bundled FFmpeg sits next to the application, and the
/// drawtext font discovered.
pub fn system_status(
    ffmpeg: bool,
    ffprobe: bool,
    os: &str,
    sidecar_ready: bool,
    font: FontResolution,
) -> (r: SystemStatus)
    ensures
        r.ffmpeg == ffmpeg,
        r.ffprobe == ffprobe,
        r.platform@ == os@,
        r.ffmpeg_sidecar_ready == sidecar_ready,
        r.font_available == font.found,
        opt_chars(r.font_path) == opt_chars(font.render_path),
{
    SystemStatus {
        ffmpeg,
        ffprobe,
        platform: os.to_owned(),
        ffmpeg_sidecar_ready: sidecar_ready,
        font_available: font.found,
        font_path: font.render_path,
    }
}

/// Largest PDF the interface may read: 200 MiB.
pub open spec fn max_pdf_bytes() -> nat {
    200 * 1024 * 1024
}

/// Accepts only files whose extension is `pdf` in any letter case.
pub fn check_pdf_extension(extension: Option<&str>) -> (r: Result<(), String>)
    ensures
        r is Ok <==> (extension matches Some(e) && eq_ignore_ascii_case(e@, "pdf"@)),
        r matches Err(m) ==> m@ == "Only .pdf files can be read"@,
{
    match extension {
        Some(e) => {
            let ev = chars_of(e);
            let pdf = chars_of("pdf");
            if eq_ignore_ascii_case_exec(&ev, &pdf) {
                Ok(())
            } else {
                Err("Only .pdf files can be read".to_owned())
            }
        },
        None => Err("Only .pdf files can be read".to_owned()),
    }
}

/// Accepts a regular file of at most 200 MiB; a larger one is refused
/// with its size in whole MiB.
pub fn check_pdf_size(is_file: bool, len: u64) -> (r: Result<(), String>)
    ensures
        !is_file ==> (r matches Err(m) && m@ == "Path is not a regular file"@),
        is_file && len > max_pdf_bytes() ==> (r matches Err(m) && m@ == "PDF is too large ("@
            + dec(len as nat / (1024 * 1024)) + " MB, limit is 200 MB)"@),
        is_file && len <= max_pdf_bytes() ==> r is Ok,
{
    if !is_file {
        return Err("Path is not a regular file".to_owned());
    }
    if len > 200 * 1024 * 1024 {
        let mut m: Vec<char> = Vec::new();
        push_str(&mut m, "PDF is too large (");
        push_dec(&mut m, (len / (1024 * 1024)) as u128);
        push_str(&mut m, " MB, limit is 200 MB)");
        return Err(string_from_chars(&m));
    }
    Ok(())
}

} // verus!
