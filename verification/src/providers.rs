//! The provider registry: the translation, voice and visual providers
//! the user can pick, the advertised output languages, and the per-language
//! voice and language-code tables.

use vstd::prelude::*;
use crate::text::str_eq;
use crate::types::{ProviderCategory, ProviderKind, ProviderList, ProviderOption, ProviderOptionView};

verus! {

broadcast use vstd::string::group_string_axioms;

/// The translation providers, free default first.
pub open spec fn translation_options() -> Seq<ProviderOptionView> {
    seq![
        ProviderOptionView {
            id: "argos"@,
            label: "Argos Translate"@,
            kind: ProviderKind::Local,
            detail: "Free · Offline · Requires Python + argostranslate"@,
            implemented: true,
            online: false,
            key_label: None,
            category: ProviderCategory::Translation,
        },
        ProviderOptionView {
            id: "openai"@,
            label: "OpenAI"@,
            kind: ProviderKind::Api,
            detail: "Use your API key · GPT translation"@,
            implemented: true,
            online: true,
            key_label: Some("OpenAI API key"@),
            category: ProviderCategory::Translation,
        },
        ProviderOptionView {
            id: "google"@,
            label: "Google Cloud Translation"@,
            kind: ProviderKind::Api,
            detail: "Use your API key"@,
            implemented: true,
            online: true,
            key_label: Some("Google Cloud API key"@),
            category: ProviderCategory::Translation,
        },
        ProviderOptionView {
            id: "deepl"@,
            label: "DeepL"@,
            kind: ProviderKind::Api,
            detail: "Coming soon"@,
            implemented: false,
            online: true,
            key_label: Some("DeepL API key"@),
            category: ProviderCategory::Translation,
        },
    ]
}

/// The voice providers, free default first.
pub open spec fn voice_options() -> Seq<ProviderOptionView> {
    seq![
        ProviderOptionView {
            id: "edge"@,
            label: "edge-tts"@,
            kind: ProviderKind::Local,
            detail: "Free · Microsoft Neural · Requires Python + edge-tts"@,
            implemented: true,
            online: true,
            key_label: None,
            category: ProviderCategory::Voice,
        },
        ProviderOptionView {
            id: "chatterbox"@,
            label: "Chatterbox"@,
            kind: ProviderKind::Local,
            detail: "Premium · Multilingual · Requires Python + chatterbox-tts (GPU)"@,
            implemented: true,
            online: false,
            key_label: None,
            category: ProviderCategory::Voice,
        },
        ProviderOptionView {
            id: "kokoro"@,
            label: "Kokoro"@,
            kind: ProviderKind::Local,
            detail: "Free · Offline · Requires Python + kokoro"@,
            implemented: true,
            online: false,
            key_label: None,
            category: ProviderCategory::Voice,
        },
        ProviderOptionView {
            id: "piper"@,
            label: "Piper"@,
            kind: ProviderKind::Local,
            detail: "Free · Offline ONNX voices"@,
            implemented: true,
            online: false,
            key_label: None,
            category: ProviderCategory::Voice,
        },
        ProviderOptionView {
            id: "elevenlabs"@,
            label: "ElevenLabs"@,
            kind: ProviderKind::Api,
            detail: "Use your API key · Premium neural voices"@,
            implemented: true,
            online: true,
            key_label: Some("ElevenLabs API key"@),
            category: ProviderCategory::Voice,
        },
        ProviderOptionView {
            id: "openai"@,
            label: "OpenAI TTS"@,
            kind: ProviderKind::Api,
            detail: "Use your API key"@,
            implemented: true,
            online: true,
            key_label: Some("OpenAI API key"@),
            category: ProviderCategory::Voice,
        },
        ProviderOptionView {
            id: "azure"@,
            label: "Azure Speech"@,
            kind: ProviderKind::Api,
            detail: "Coming soon"@,
            implemented: false,
            online: true,
            key_label: Some("Azure Speech key"@),
            category: ProviderCategory::Voice,
        },
    ]
}

/// The visual providers, free default first.
pub open spec fn visual_options() -> Seq<ProviderOptionView> {
    seq![
        ProviderOptionView {
            id: "pages"@,
            label: "PDF pages"@,
            kind: ProviderKind::Local,
            detail: "Free · Original document + Ken Burns"@,
            implemented: true,
            online: false,
            key_label: None,
            category: ProviderCategory::Visual,
        },
        ProviderOptionView {
            id: "higgsfield"@,
            label: "Higgsfield"@,
            kind: ProviderKind::Api,
            detail: "Coming soon"@,
            implemented: false,
            online: true,
            key_label: Some("Higgsfield API key"@),
            category: ProviderCategory::Visual,
        },
    ]
}

/// The advertised output languages.
pub open spec fn language_names() -> Seq<Seq<char>> {
    seq![
        "English (US)"@,
        "Spanish"@,
        "French"@,
        "German"@,
        "Portuguese"@,
        "Hindi"@,
        "Japanese"@,
        "Korean"@,
        "Chinese (Simplified)"@,
        "Arabic"@,
    ]
}

fn option(
    id: &str,
    label: &str,
    kind: ProviderKind,
    detail: &str,
    implemented: bool,
    online: bool,
    key_label: Option<&str>,
    category: ProviderCategory,
) -> (o: ProviderOption)
    ensures
        o.deep_view() == (ProviderOptionView {
            id: id@,
            label: label@,
            kind,
            detail: detail@,
            implemented,
            online,
            key_label: match key_label {
                Some(k) => Some(k@),
                None => None,
            },
            category,
        }),
{
    ProviderOption {
        id: id.to_owned(),
        label: label.to_owned(),
        kind,
        detail: detail.to_owned(),
        implemented,
        online,
        key_label: match key_label {
            Some(k) => Some(k.to_owned()),
            None => None,
        },
        category,
    }
}

fn push_option(v: &mut Vec<ProviderOption>, o: ProviderOption)
    ensures
        final(v).deep_view() == old(v).deep_view().push(o.deep_view()),
{
    let ghost before = v.deep_view();
    let ghost ov = o.deep_view();
    v.push(o);
    assert(v.deep_view() =~= before.push(ov));
}

fn push_name(v: &mut Vec<String>, s: &str)
    ensures
        final(v).deep_view() == old(v).deep_view().push(s@),
{
    let ghost before = v.deep_view();
    v.push(s.to_owned());
    assert(v.deep_view() =~= before.push(s@));
}

fn translation_list() -> (v: Vec<ProviderOption>)
    ensures
        v.deep_view() == translation_options(),
{
    let mut v: Vec<ProviderOption> = Vec::new();
    push_option(
        &mut v,
        option(
            "argos",
            "Argos Translate",
            ProviderKind::Local,
            "Free · Offline · Requires Python + argostranslate",
            true,
            false,
            None,
            ProviderCategory::Translation,
        ),
    );
    push_option(
        &mut v,
        option(
            "openai",
            "OpenAI",
            ProviderKind::Api,
            "Use your API key · GPT translation",
            true,
            true,
            Some("OpenAI API key"),
            ProviderCategory::Translation,
        ),
    );
    push_option(
        &mut v,
        option(
            "google",
            "Google Cloud Translation",
            ProviderKind::Api,
            "Use your API key",
            true,
            true,
            Some("Google Cloud API key"),
            ProviderCategory::Translation,
        ),
    );
    push_option(
        &mut v,
        option(
            "deepl",
            "DeepL",
            ProviderKind::Api,
            "Coming soon",
            false,
            true,
            Some("DeepL API key"),
            ProviderCategory::Translation,
        ),
    );
    assert(v.deep_view() =~= translation_options());
    v
}

fn voice_list() -> (v: Vec<ProviderOption>)
    ensures
        v.deep_view() == voice_options(),
{
    let mut v: Vec<ProviderOption> = Vec::new();
    push_option(
        &mut v,
        option(
            "edge",
            "edge-tts",
            ProviderKind::Local,
            "Free · Microsoft Neural · Requires Python + edge-tts",
            true,
            true,
            None,
            ProviderCategory::Voice,
        ),
    );
    push_option(
        &mut v,
        option(
            "chatterbox",
            "Chatterbox",
            ProviderKind::Local,
            "Premium · Multilingual · Requires Python + chatterbox-tts (GPU)",
            true,
            false,
            None,
            ProviderCategory::Voice,
        ),
    );
    push_option(
        &mut v,
        option(
            "kokoro",
            "Kokoro",
            ProviderKind::Local,
            "Free · Offline · Requires Python + kokoro",
            true,
            false,
            None,
            ProviderCategory::Voice,
        ),
    );
    push_option(
        &mut v,
        option(
            "piper",
            "Piper",
            ProviderKind::Local,
            "Free · Offline ONNX voices",
            true,
            false,
            None,
            ProviderCategory::Voice,
        ),
    );
    push_option(
        &mut v,
        option(
            "elevenlabs",
            "ElevenLabs",
            ProviderKind::Api,
            "Use your API key · Premium neural voices",
            true,
            true,
            Some("ElevenLabs API key"),
            ProviderCategory::Voice,
        ),
    );
    push_option(
        &mut v,
        option(
            "openai",
            "OpenAI TTS",
            ProviderKind::Api,
            "Use your API key",
            true,
            true,
            Some("OpenAI API key"),
            ProviderCategory::Voice,
        ),
    );
    push_option(
        &mut v,
        option(
            "azure",
            "Azure Speech",
            ProviderKind::Api,
            "Coming soon",
            false,
            true,
            Some("Azure Speech key"),
            ProviderCategory::Voice,
        ),
    );
    assert(v.deep_view() =~= voice_options());
    v
}

fn visual_list() -> (v: Vec<ProviderOption>)
    ensures
        v.deep_view() == visual_options(),
{
    let mut v: Vec<ProviderOption> = Vec::new();
    push_option(
        &mut v,
        option(
            "pages",
            "PDF pages",
            ProviderKind::Local,
            "Free · Original document + Ken Burns",
            true,
            false,
            None,
            ProviderCategory::Visual,
        ),
    );
    push_option(
        &mut v,
        option(
            "higgsfield",
            "Higgsfield",
            ProviderKind::Api,
            "Coming soon",
            false,
            true,
            Some("Higgsfield API key"),
            ProviderCategory::Visual,
        ),
    );
    assert(v.deep_view() =~= visual_options());
    v
}

fn language_list() -> (v: Vec<String>)
    ensures
        v.deep_view() == language_names(),
{
    let mut v: Vec<String> = Vec::new();
    push_name(&mut v, "English (US)");
    push_name(&mut v, "Spanish");
    push_name(&mut v, "French");
    push_name(&mut v, "German");
    push_name(&mut v, "Portuguese");
    push_name(&mut v, "Hindi");
    push_name(&mut v, "Japanese");
    push_name(&mut v, "Korean");
    push_name(&mut v, "Chinese (Simplified)");
    push_name(&mut v, "Arabic");
    assert(v.deep_view() =~= language_names());
    v
}

/// The full provider registry. The first option of each stage is the
/// free, local, implemented default.
pub fn provider_list() -> (r: ProviderList)
    ensures
        r.translation.deep_view() == translation_options(),
        r.voice.deep_view() == voice_options(),
        r.visual.deep_view() == visual_options(),
        r.languages.deep_view() == language_names(),
{
    ProviderList {
        translation: translation_list(),
        voice: voice_list(),
        visual: visual_list(),
        languages: language_list(),
    }
}

/// The advertised output languages.
pub fn languages() -> (r: Vec<String>)
    ensures
        r.deep_view() == language_names(),
{
    provider_list().languages
}


/// The registry's promises: in every stage the first option is the free
/// default (local and implemented); option ids are unique within a stage;
/// every option is filed under its own stage; and the placeholder
/// providers (DeepL, Azure Speech, Higgsfield) are marked unimplemented.
pub proof fn lemma_registry_laws()
    ensures
        translation_options()[0].kind == ProviderKind::Local && translation_options()[0].implemented,
        voice_options()[0].kind == ProviderKind::Local && voice_options()[0].implemented,
        visual_options()[0].kind == ProviderKind::Local && visual_options()[0].implemented,
        forall|i: int, j: int|
            0 <= i < j < translation_options().len() ==> translation_options()[i].id
                != translation_options()[j].id,
        forall|i: int, j: int|
            0 <= i < j < voice_options().len() ==> voice_options()[i].id != voice_options()[j].id,
        forall|i: int, j: int|
            0 <= i < j < visual_options().len() ==> visual_options()[i].id != visual_options()[j].id,
        forall|i: int|
            0 <= i < translation_options().len() ==> translation_options()[i].category
                == ProviderCategory::Translation,
        forall|i: int|
            0 <= i < voice_options().len() ==> voice_options()[i].category == ProviderCategory::Voice,
        forall|i: int|
            0 <= i < visual_options().len() ==> visual_options()[i].category == ProviderCategory::Visual,
        forall|i: int|
            0 <= i < translation_options().len() && translation_options()[i].id == "deepl"@
                ==> !translation_options()[i].implemented,
        forall|i: int|
            0 <= i < voice_options().len() && voice_options()[i].id == "azure"@
                ==> !voice_options()[i].implemented,
        forall|i: int|
            0 <= i < visual_options().len() && visual_options()[i].id == "higgsfield"@
                ==> !visual_options()[i].implemented,
{
    reveal_strlit("argos");
    reveal_strlit("openai");
    reveal_strlit("google");
    reveal_strlit("deepl");
    reveal_strlit("edge");
    reveal_strlit("chatterbox");
    reveal_strlit("kokoro");
    reveal_strlit("piper");
    reveal_strlit("elevenlabs");
    reveal_strlit("azure");
    reveal_strlit("pages");
    reveal_strlit("higgsfield");
    let t = translation_options();
    let v = voice_options();
    let g = visual_options();
    assert forall|i: int, j: int| 0 <= i < j < t.len() implies t[i].id != t[j].id by {
        if t[i].id == t[j].id {
            assert(t[i].id[0] == t[j].id[0]);
            assert(t[i].id[1] == t[j].id[1]);
        }
    }
    assert forall|i: int, j: int| 0 <= i < j < v.len() implies v[i].id != v[j].id by {
        if v[i].id == v[j].id {
            assert(v[i].id[0] == v[j].id[0]);
            assert(v[i].id[1] == v[j].id[1]);
        }
    }
    assert forall|i: int, j: int| 0 <= i < j < g.len() implies g[i].id != g[j].id by {
        if g[i].id == g[j].id {
            assert(g[i].id[0] == g[j].id[0]);
        }
    }
}

/// Default edge-tts voice per UI language.
pub open spec fn edge_voice_spec(language: Seq<char>) -> Seq<char> {
    if language == "Spanish"@ {
        "es-ES-ElviraNeural"@
    } else if language == "French"@ {
        "fr-FR-DeniseNeural"@
    } else if language == "German"@ {
        "de-DE-KatjaNeural"@
    } else if language == "Portuguese"@ {
        "pt-PT-RaquelNeural"@
    } else if language == "Hindi"@ {
        "hi-IN-SwaraNeural"@
    } else if language == "Japanese"@ {
        "ja-JP-NanamiNeural"@
    } else if language == "Korean"@ {
        "ko-KR-SunHiNeural"@
    } else if language == "Chinese (Simplified)"@ {
        "zh-CN-XiaoxiaoNeural"@
    } else if language == "Arabic"@ {
        "ar-EG-SalmaNeural"@
    } else {
        "en-US-JennyNeural"@
    }
}

/// The Microsoft Neural voice used for a UI language (Jenny for English and anything unknown).
pub fn edge_voice_for_language(language: &str) -> (r: &'static str)
    ensures
        r@ == edge_voice_spec(language@),
{
    if str_eq(language, "Spanish") {
        "es-ES-ElviraNeural"
    } else if str_eq(language, "French") {
        "fr-FR-DeniseNeural"
    } else if str_eq(language, "German") {
        "de-DE-KatjaNeural"
    } else if str_eq(language, "Portuguese") {
        "pt-PT-RaquelNeural"
    } else if str_eq(language, "Hindi") {
        "hi-IN-SwaraNeural"
    } else if str_eq(language, "Japanese") {
        "ja-JP-NanamiNeural"
    } else if str_eq(language, "Korean") {
        "ko-KR-SunHiNeural"
    } else if str_eq(language, "Chinese (Simplified)") {
        "zh-CN-XiaoxiaoNeural"
    } else if str_eq(language, "Arabic") {
        "ar-EG-SalmaNeural"
    } else {
        "en-US-JennyNeural"
    }
}

/// Argos/ISO code per UI language, empty for unknown ones.
pub open spec fn argos_code_spec(language: Seq<char>) -> Seq<char> {
    if language == "English (US)"@ {
        "en"@
    } else if language == "Spanish"@ {
        "es"@
    } else if language == "French"@ {
        "fr"@
    } else if language == "German"@ {
        "de"@
    } else if language == "Portuguese"@ {
        "pt"@
    } else if language == "Hindi"@ {
        "hi"@
    } else if language == "Japanese"@ {
        "ja"@
    } else if language == "Korean"@ {
        "ko"@
    } else if language == "Chinese (Simplified)"@ {
        "zh"@
    } else if language == "Arabic"@ {
        "ar"@
    } else {
        ""@
    }
}

/// Argos/ISO language code for a UI language name; empty when the language isn't in the advertised set.
pub fn argos_lang_code(language: &str) -> (r: &'static str)
    ensures
        r@ == argos_code_spec(language@),
{
    if str_eq(language, "English (US)") {
        "en"
    } else if str_eq(language, "Spanish") {
        "es"
    } else if str_eq(language, "French") {
        "fr"
    } else if str_eq(language, "German") {
        "de"
    } else if str_eq(language, "Portuguese") {
        "pt"
    } else if str_eq(language, "Hindi") {
        "hi"
    } else if str_eq(language, "Japanese") {
        "ja"
    } else if str_eq(language, "Korean") {
        "ko"
    } else if str_eq(language, "Chinese (Simplified)") {
        "zh"
    } else if str_eq(language, "Arabic") {
        "ar"
    } else {
        ""
    }
}

/// Kokoro language code per UI language, empty where Kokoro has none.
pub open spec fn kokoro_code_spec(language: Seq<char>) -> Seq<char> {
    if language == "English (US)"@ {
        "a"@
    } else if language == "Spanish"@ {
        "e"@
    } else if language == "French"@ {
        "f"@
    } else if language == "Portuguese"@ {
        "p"@
    } else if language == "Hindi"@ {
        "h"@
    } else if language == "Japanese"@ {
        "j"@
    } else if language == "Chinese (Simplified)"@ {
        "z"@
    } else {
        ""@
    }
}

/// Kokoro language code for a UI language name; empty for the languages Kokoro does not cover (German, Korean, Arabic) so the caller can fall back to another provider.
pub fn kokoro_lang_code(language: &str) -> (r: &'static str)
    ensures
        r@ == kokoro_code_spec(language@),
{
    if str_eq(language, "English (US)") {
        "a"
    } else if str_eq(language, "Spanish") {
        "e"
    } else if str_eq(language, "French") {
        "f"
    } else if str_eq(language, "Portuguese") {
        "p"
    } else if str_eq(language, "Hindi") {
        "h"
    } else if str_eq(language, "Japanese") {
        "j"
    } else if str_eq(language, "Chinese (Simplified)") {
        "z"
    } else {
        ""
    }
}

/// Default Kokoro voice per UI language.
pub open spec fn kokoro_voice_spec(language: Seq<char>) -> Seq<char> {
    if language == "Spanish"@ {
        "ef_dora"@
    } else if language == "French"@ {
        "ff_siwis"@
    } else if language == "Portuguese"@ {
        "pf_dora"@
    } else if language == "Hindi"@ {
        "hf_alpha"@
    } else if language == "Japanese"@ {
        "jf_alpha"@
    } else if language == "Chinese (Simplified)"@ {
        "zf_xiaobei"@
    } else {
        "af_heart"@
    }
}

/// A default Kokoro voice id per UI language (`af_heart` otherwise).
pub fn kokoro_voice_for_language(language: &str) -> (r: &'static str)
    ensures
        r@ == kokoro_voice_spec(language@),
{
    if str_eq(language, "Spanish") {
        "ef_dora"
    } else if str_eq(language, "French") {
        "ff_siwis"
    } else if str_eq(language, "Portuguese") {
        "pf_dora"
    } else if str_eq(language, "Hindi") {
        "hf_alpha"
    } else if str_eq(language, "Japanese") {
        "jf_alpha"
    } else if str_eq(language, "Chinese (Simplified)") {
        "zf_xiaobei"
    } else {
        "af_heart"
    }
}

} // verus!
