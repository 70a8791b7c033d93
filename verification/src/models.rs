//! Local model registry, model id rules and download bookkeeping.

use vstd::prelude::*;
use crate::codec::{hex_encode, hex_text, sha256_digest, sha256_of};
use crate::providers::{provider_list, translation_options, voice_options};
use crate::text::{
    chars_of, contains, find_from_exec, has_char, has_char_exec, lemma_find_from, occurs_at,
    push_str, str_eq, string_from_chars,
};
use crate::types::{opt_chars, ModelInfo, ProviderOptionView};

verus! {

broadcast use vstd::string::group_string_axioms;

/// A downloadable local model.
#[derive(Debug, Clone)]
pub struct ModelSpec {
    pub id: String,
    pub family: String,
    pub label: String,
    pub url: String,
    pub size_bytes: u64,
    pub sha256: String,
    pub license: String,
    pub requires_accept: bool,
}

/// The ids of the registry's models. It is empty: no local inference
/// path (MarianMT, Piper) is wired up yet, so no model is offered.
pub open spec fn registry_ids() -> Seq<Seq<char>> {
    Seq::empty()
}

/// The families of the registry's models, position by position.
pub open spec fn registry_families() -> Seq<Seq<char>> {
    Seq::empty()
}

/// The position of the first registry entry with id `id`; meaningful
/// only where the registry holds that id.
pub open spec fn registry_position(id: Seq<char>) -> int {
    choose|k: int|
        0 <= k < registry_ids().len() && registry_ids()[k] == id && forall|j: int|
            0 <= j < k ==> #[trigger] registry_ids()[j] != id
}

/// The family of the registry entry that a lookup of `id` finds.
pub open spec fn registered_family(id: Seq<char>) -> Seq<char> {
    registry_families()[registry_position(id)]
}

/// The downloadable models.
pub fn model_registry() -> (r: Vec<ModelSpec>)
    ensures
        r.len() == registry_ids().len(),
        registry_families().len() == registry_ids().len(),
        forall|k: int| 0 <= k < r.len() ==> #[trigger] r@[k].id@ == registry_ids()[k],
        forall|k: int| 0 <= k < r.len() ==> #[trigger] r@[k].family@ == registry_families()[k],
{
    Vec::new()
}

/// The registry entry with id `id`, if there is one.
pub fn find_spec(id: &str) -> (r: Option<ModelSpec>)
    ensures
        r matches Some(m) ==> m.id@ == id@ && m.family@ == registered_family(id@),
        r is Some <==> registry_ids().contains(id@),
{
    let mut reg = model_registry();
    let mut i: usize = 0;
    while i < reg.len()
        invariant
            i <= reg.len(),
            reg.len() == registry_ids().len(),
            registry_families().len() == registry_ids().len(),
            forall|k: int| 0 <= k < reg.len() ==> #[trigger] reg@[k].id@ == registry_ids()[k],
            forall|k: int|
                0 <= k < reg.len() ==> #[trigger] reg@[k].family@ == registry_families()[k],
            forall|k: int| 0 <= k < i ==> #[trigger] registry_ids()[k] != id@,
        decreases reg.len() - i,
    {
        if str_eq(&reg[i].id, id) {
            assert(registry_ids()[i as int] == id@);
            proof {
                let k = registry_position(id@);
                assert(0 <= i < registry_ids().len() && registry_ids()[i as int] == id@
                    && forall|j: int| 0 <= j < i ==> #[trigger] registry_ids()[j] != id@);
                if k < i {
                    assert(registry_ids()[k] != id@);
                } else if k > i {
                    assert(registry_ids()[i as int] != id@);
                }
                assert(k == i);
            }
            let m = reg.remove(i);
            return Some(m);
        }
        i += 1;
    }
    None
}

/// The registry entry with id `id`, or the error the download reports.
pub fn lookup_model(id: &str) -> (r: Result<ModelSpec, String>)
    ensures
        r matches Ok(m) ==> m.id@ == id@ && m.family@ == registered_family(id@),
        r is Ok <==> registry_ids().contains(id@),
        r matches Err(e) ==> e@ == "Unknown model: "@ + id@,
{
    match find_spec(id) {
        Some(m) => Ok(m),
        None => {
            let mut out: Vec<char> = Vec::new();
            push_str(&mut out, "Unknown model: ");
            push_str(&mut out, id);
            Err(string_from_chars(&out))
        },
    }
}

/// A model id that could escape the models directory: empty, holding a
/// path separator or a `..`, or starting with a dot.
pub open spec fn unsafe_model_id(id: Seq<char>) -> bool {
    ||| id.len() == 0
    ||| has_char(id, '/')
    ||| has_char(id, '\\')
    ||| contains(id, ".."@)
    ||| id[0] == '.'
}

/// Rejects model ids that could escape the models directory. Model ids
/// are registry identifiers (`marian-en-es`), never paths.
pub fn validate_model_id(model_id: &str) -> (r: Result<(), String>)
    ensures
        r is Ok <==> !unsafe_model_id(model_id@),
        r matches Err(e) ==> e@ == "Invalid model id: "@ + model_id@,
{
    let v = chars_of(model_id);
    let dots = chars_of("..");
    let found = find_from_exec(&v, &dots, 0);
    proof {
        reveal_strlit("..");
        lemma_find_from(v@, dots@, 0);
    }
    let bad = v.len() == 0 || has_char_exec(model_id, '/') || has_char_exec(model_id, '\\')
        || found.is_some() || v[0] == '.';
    assert(found.is_some() <==> contains(model_id@, ".."@)) by {
        if contains(model_id@, ".."@) {
            let j = choose|j: int| occurs_at(v@, dots@, j);
            assert(0 <= j);
        }
    }
    if bad {
        let mut out: Vec<char> = Vec::new();
        push_str(&mut out, "Invalid model id: ");
        push_str(&mut out, model_id);
        Err(string_from_chars(&out))
    } else {
        Ok(())
    }
}

/// The MarianMT language pair for a UI language (`en-en` for English
/// and anything unknown).
pub open spec fn language_pair_spec(language: Seq<char>) -> Seq<char> {
    if language == "Spanish"@ {
        "en-es"@
    } else if language == "French"@ {
        "en-fr"@
    } else if language == "German"@ {
        "en-de"@
    } else if language == "Portuguese"@ {
        "en-pt"@
    } else if language == "Hindi"@ {
        "en-hi"@
    } else if language == "Japanese"@ {
        "en-jap"@
    } else if language == "Korean"@ {
        "en-ko"@
    } else if language == "Chinese (Simplified)"@ {
        "en-zh"@
    } else if language == "Arabic"@ {
        "en-ar"@
    } else {
        "en-en"@
    }
}

/// The MarianMT language pair for a UI language.
pub fn language_pair_for(language: &str) -> (r: &'static str)
    ensures
        r@ == language_pair_spec(language@),
{
    if str_eq(language, "Spanish") {
        "en-es"
    } else if str_eq(language, "French") {
        "en-fr"
    } else if str_eq(language, "German") {
        "en-de"
    } else if str_eq(language, "Portuguese") {
        "en-pt"
    } else if str_eq(language, "Hindi") {
        "en-hi"
    } else if str_eq(language, "Japanese") {
        "en-jap"
    } else if str_eq(language, "Korean") {
        "en-ko"
    } else if str_eq(language, "Chinese (Simplified)") {
        "en-zh"
    } else if str_eq(language, "Arabic") {
        "en-ar"
    } else {
        "en-en"
    }
}

/// The MarianMT model id for a UI language: `marian-<pair>`, or empty
/// when no translation is needed.
pub open spec fn model_id_spec(language: Seq<char>) -> Seq<char> {
    if language_pair_spec(language) == "en-en"@ {
        Seq::empty()
    } else {
        "marian-"@ + language_pair_spec(language)
    }
}

/// The MarianMT model id for a UI language.
pub fn model_id_for_pair(language: &str) -> (r: String)
    ensures
        r@ == model_id_spec(language@),
{
    let pair = language_pair_for(language);
    if str_eq(pair, "en-en") {
        return String::new();
    }
    let mut out: Vec<char> = Vec::new();
    push_str(&mut out, "marian-");
    push_str(&mut out, pair);
    string_from_chars(&out)
}

/// A provider whose engine runs on downloaded models.
pub open spec fn uses_models(id: Seq<char>) -> bool {
    id == "marian"@ || id == "piper"@
}

/// The ids, in registry order (translation stage first), of the providers
/// that run on downloaded models.
pub open spec fn model_provider_ids() -> Seq<Seq<char>> {
    (translation_options() + voice_options()).map_values(|p: ProviderOptionView| p.id).filter(
        |id: Seq<char>| uses_models(id),
    )
}

/// The providers that run on downloaded models.
pub fn providers_using_models() -> (r: Vec<String>)
    ensures
        r.deep_view() == model_provider_ids(),
{
    let list = provider_list();
    let ghost all = (translation_options() + voice_options()).map_values(
        |p: ProviderOptionView| p.id,
    );
    let ghost pred = |id: Seq<char>| uses_models(id);
    let mut out: Vec<String> = Vec::new();
    let n = list.translation.len();
    let mut i: usize = 0;
    while i < n + list.voice.len()
        invariant
            n == list.translation.len(),
            n == translation_options().len(),
            list.translation.deep_view() == translation_options(),
            list.voice.deep_view() == voice_options(),
            all == (translation_options() + voice_options()).map_values(
                |p: ProviderOptionView| p.id,
            ),
            pred == (|id: Seq<char>| uses_models(id)),
            i <= all.len(),
            out.deep_view() == all.take(i as int).filter(pred),
        decreases all.len() - i,
    {
        assert(all.take(i + 1).drop_last() == all.take(i as int));
        proof {
            reveal(Seq::filter);
        }
        let id: &String = if i < n {
            assert(all[i as int] == list.translation.deep_view()[i as int].id);
            &list.translation[i].id
        } else {
            assert(all[i as int] == list.voice.deep_view()[i - n].id);
            &list.voice[i - n].id
        };
        assert(all.take(i + 1).last() == id@);
        if str_eq(id, "marian") || str_eq(id, "piper") {
            out.push(id.clone());
            assert(out.deep_view() == all.take(i as int).filter(pred).push(id@));
        }
        i += 1;
    }
    assert(all.take(i as int) == all);
    out
}

/// The files a model family downloads, in order.
pub open spec fn family_files(family: Seq<char>) -> Option<Seq<Seq<char>>> {
    if family == "marian"@ {
        Some(
            seq![
                "config.json"@,
                "tokenizer.json"@,
                "model.safetensors"@,
                "vocab.json"@,
                "source.spm"@,
                "target.spm"@,
            ],
        )
    } else if family == "piper"@ {
        Some(seq!["config.json"@, "model.onnx"@, "model.onnx.json"@])
    } else {
        None
    }
}

/// The files to download for a model family, or the error for an
/// unknown family.
pub fn model_files(family: &str) -> (r: Result<Vec<String>, String>)
    ensures
        r matches Ok(v) ==> family_files(family@) == Some(v.deep_view()),
        r is Err <==> family_files(family@) is None,
        r matches Err(e) ==> e@ == "Unknown model family: "@ + family@,
{
    if str_eq(family, "marian") {
        let v = vec![
            "config.json".to_string(),
            "tokenizer.json".to_string(),
            "model.safetensors".to_string(),
            "vocab.json".to_string(),
            "source.spm".to_string(),
            "target.spm".to_string(),
        ];
        assert(v.deep_view() == family_files(family@)->0);
        Ok(v)
    } else if str_eq(family, "piper") {
        let v = vec![
            "config.json".to_string(),
            "model.onnx".to_string(),
            "model.onnx.json".to_string(),
        ];
        assert(v.deep_view() == family_files(family@)->0);
        Ok(v)
    } else {
        let mut out: Vec<char> = Vec::new();
        push_str(&mut out, "Unknown model family: ");
        push_str(&mut out, family);
        Err(string_from_chars(&out))
    }
}

/// The lowercase hex SHA-256 digest of `bytes`, as a downloaded model
/// file is checked against the registry's pinned hash.
pub fn sha256_hex(bytes: &[u8]) -> (r: String)
    ensures
        r@ == hex_text(sha256_of(bytes@)),
{
    let d = sha256_digest(bytes);
    hex_encode(d.as_slice())
}

/// The verdict on a downloaded file: accepted when the registry pins no
/// hash or the hash matches, otherwise the checksum error.
pub fn checksum_verdict(file: &str, expected: &str, actual: &str) -> (r: Result<(), String>)
    ensures
        r is Ok <==> (expected@.len() == 0 || actual@ == expected@),
        r matches Err(e) ==> e@ == "Checksum mismatch for "@ + file@ + ": expected "@ + expected@
            + ", got "@ + actual@,
{
    if expected.unicode_len() == 0 || str_eq(actual, expected) {
        Ok(())
    } else {
        let mut out: Vec<char> = Vec::new();
        push_str(&mut out, "Checksum mismatch for ");
        push_str(&mut out, file);
        push_str(&mut out, ": expected ");
        push_str(&mut out, expected);
        push_str(&mut out, ", got ");
        push_str(&mut out, actual);
        Err(string_from_chars(&out))
    }
}

/// The byte count a file download is measured against: the length the
/// server announced, else an even share of the model's size.
pub fn expected_file_size(content_length: Option<u64>, size_bytes: u64, files_count: u64) -> (r: u64)
    requires
        files_count > 0,
    ensures
        r == match content_length {
            Some(n) => n,
            None => size_bytes / files_count,
        },
{
    match content_length {
        Some(n) => n,
        None => size_bytes / files_count,
    }
}

/// The interface's view of a registry model: its registry fields,
/// whether it is installed, and its directory when it is.
pub fn model_info(spec: ModelSpec, installed: bool, path: Option<String>) -> (r: ModelInfo)
    ensures
        r.id@ == spec.id@,
        r.family@ == spec.family@,
        r.label@ == spec.label@,
        r.url@ == spec.url@,
        r.size_bytes == spec.size_bytes,
        r.sha256@ == spec.sha256@,
        r.license@ == spec.license@,
        r.requires_accept == spec.requires_accept,
        r.installed == installed,
        opt_chars(r.path) == (if installed {
            opt_chars(path)
        } else {
            None
        }),
{
    ModelInfo {
        id: spec.id,
        family: spec.family,
        label: spec.label,
        url: spec.url,
        size_bytes: spec.size_bytes,
        sha256: spec.sha256,
        license: spec.license,
        requires_accept: spec.requires_accept,
        installed,
        path: if installed {
            path
        } else {
            None
        },
    }
}

/// What a model download fetches: the registry entry and, per file, its
/// name and URL (the model's base URL followed by the name).
#[derive(Debug)]
pub struct DownloadPlan {
    pub spec: ModelSpec,
    pub files: Vec<(String, String)>,
}

/// The download of a model: refused for an unknown model, an id that
/// could escape the models directory, or an unknown family, in that
/// order; otherwise the files to fetch.
pub fn download_plan(model_id: &str) -> (r: Result<DownloadPlan, String>)
    ensures
        !registry_ids().contains(model_id@) ==> (r matches Err(e) && e@ == "Unknown model: "@
            + model_id@),
        registry_ids().contains(model_id@) && unsafe_model_id(model_id@) ==> (r matches Err(e)
            && e@ == "Invalid model id: "@ + model_id@),
        registry_ids().contains(model_id@) && !unsafe_model_id(model_id@) && family_files(
            registered_family(model_id@),
        ) is None ==> (r matches Err(e) && e@ == "Unknown model family: "@ + registered_family(
            model_id@,
        )),
        registry_ids().contains(model_id@) && !unsafe_model_id(model_id@) && family_files(
            registered_family(model_id@),
        ) is Some ==> r is Ok,
        r matches Ok(p) ==> {
            &&& p.spec.id@ == model_id@
            &&& p.spec.family@ == registered_family(model_id@)
            &&& !unsafe_model_id(model_id@)
            &&& family_files(p.spec.family@) matches Some(fs) && p.files.len() == fs.len()
                && forall|k: int|
                0 <= k < fs.len() ==> (#[trigger] p.files.deep_view()[k]).0 == fs[k]
                    && p.files.deep_view()[k].1 == p.spec.url@ + fs[k]
        },
{
    let spec = match lookup_model(model_id) {
        Ok(s) => s,
        Err(e) => return Err(e),
    };
    match validate_model_id(model_id) {
        Ok(()) => {},
        Err(e) => return Err(e),
    }
    let names = match model_files(&spec.family) {
        Ok(v) => v,
        Err(e) => return Err(e),
    };
    let ghost fs = names.deep_view();
    let mut files: Vec<(String, String)> = Vec::new();
    let mut i: usize = 0;
    while i < names.len()
        invariant
            i <= names.len(),
            fs == names.deep_view(),
            files.len() == i,
            forall|k: int|
                0 <= k < i ==> (#[trigger] files.deep_view()[k]).0 == fs[k]
                    && files.deep_view()[k].1 == spec.url@ + fs[k],
        decreases names.len() - i,
    {
        let mut u: Vec<char> = Vec::new();
        push_str(&mut u, &spec.url);
        push_str(&mut u, &names[i]);
        let ghost before = files.deep_view();
        files.push((names[i].clone(), string_from_chars(&u)));
        assert(files.deep_view() == before.push((fs[i as int], spec.url@ + fs[i as int])));
        i += 1;
    }
    Ok(DownloadPlan { spec, files })
}

} // verus!
