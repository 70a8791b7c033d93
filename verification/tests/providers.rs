use pdf2vid::providers::{
    argos_lang_code, edge_voice_for_language, kokoro_lang_code, kokoro_voice_for_language,
    languages, provider_list,
};
use pdf2vid::types::ProviderKind;

#[test]
fn free_translation_default_is_local() {
    let list = provider_list();
    assert_eq!(list.translation[0].id, "argos");
    assert_eq!(list.translation[0].kind, ProviderKind::Local);
    assert!(list.translation[0].implemented);
}

#[test]
fn free_voice_default_is_local() {
    let list = provider_list();
    assert_eq!(list.voice[0].id, "edge");
    assert_eq!(list.voice[0].kind, ProviderKind::Local);
    assert!(list.voice[0].implemented);
}

#[test]
fn voice_provider_ids_are_unique() {
    let list = provider_list();
    let ids: Vec<_> = list.voice.iter().map(|v| v.id.clone()).collect();
    let unique: std::collections::HashSet<_> = ids.iter().collect();
    assert_eq!(unique.len(), ids.len());
}

#[test]
fn translation_provider_ids_are_unique() {
    let list = provider_list();
    let ids: Vec<_> = list.translation.iter().map(|v| v.id.clone()).collect();
    let unique: std::collections::HashSet<_> = ids.iter().collect();
    assert_eq!(unique.len(), ids.len());
}

#[test]
fn voice_provider_for_english_is_jenny() {
    assert_eq!(edge_voice_for_language("English (US)"), "en-US-JennyNeural");
}

#[test]
fn voice_provider_for_chinese_is_xiaoxiao() {
    assert_eq!(
        edge_voice_for_language("Chinese (Simplified)"),
        "zh-CN-XiaoxiaoNeural"
    );
}

#[test]
fn free_voice_uses_edge_tts() {
    let list = provider_list();
    let free = list.voice.iter().find(|p| p.id == "edge").unwrap();
    assert_eq!(free.label, "edge-tts");
    assert!(
        free.detail.contains("Microsoft Neural"),
        "Provider description should mention Microsoft Neural"
    );
    assert!(free.online, "edge-tts is online (Microsoft endpoint)");
}

#[test]
fn stub_providers_are_marked_not_implemented() {
    let list = provider_list();
    let deepl = list.translation.iter().find(|p| p.id == "deepl").unwrap();
    assert!(!deepl.implemented);
    let azure = list.voice.iter().find(|p| p.id == "azure").unwrap();
    assert!(!azure.implemented);
}

#[test]
fn languages_include_advertised_set() {
    let list = provider_list();
    for lang in [
        "English (US)",
        "Spanish",
        "French",
        "German",
        "Hindi",
        "Japanese",
        "Korean",
        "Chinese (Simplified)",
        "Arabic",
        "Portuguese",
    ] {
        assert!(list.languages.contains(&lang.to_string()), "missing {lang}");
    }
}

#[test]
fn visual_default_is_local_and_higgsfield_is_a_stub() {
    let list = provider_list();
    assert_eq!(list.visual[0].kind, ProviderKind::Local);
    assert!(list.visual[0].implemented);
    let h = list.visual.iter().find(|p| p.id == "higgsfield").unwrap();
    assert!(!h.implemented);
}

#[test]
fn language_codes_per_engine() {
    assert_eq!(argos_lang_code("Japanese"), "ja");
    assert_eq!(argos_lang_code("Klingon"), "");
    assert_eq!(kokoro_lang_code("Spanish"), "e");
    assert_eq!(kokoro_voice_for_language("English (US)"), "af_heart");
    assert_eq!(languages(), provider_list().languages);
}
