//! The decisions of an export: what is checked before any work starts,
//! how each scene's translation and narration outcome is recorded, how
//! the voice providers fall back on one another, how the FFmpeg filter
//! graph of a video is assembled, and what the finished export reports.
//! The caller performs the subprocess and network work in between and
//! hands each outcome back here.

use vstd::prelude::*;
use crate::ffmpeg::{
    ensure_ffmpeg_or_error, ensure_ffprobe_or_error, ffmpeg_missing_message, Aspect,
};
use crate::font::FontResolution;
use crate::chatterbox::ChatterboxRequest;
use crate::codec::{base64_decode, base64_decoding};
use crate::cloud::CloudSynthesisRequest;
use crate::edgetts::TtsRequest;
use crate::providers::{kokoro_code_spec, kokoro_lang_code};
use crate::render::{
    build_scene_video_chain, default_translator, elevenlabs_voice_id, english,
    is_default_translator, is_english, openai_voice_name, openai_voice_spec, rate_for_speed,
    sanitize, sanitized, scene_chain, scene_chain_base, speed_to_rate,
};
use crate::text::{
    chars_of, contains, contains_exec, dec, occurs_at, first_lines, first_lines_spec, push_all, push_dec,
    push_range, push_str, starts_with, starts_with_exec, str_eq,
    string_from_chars,
};
use crate::types::{
    opt_chars, ExportComplete, Project, ProjectWarning, ProjectWarningView, Scene, SceneView, TranslationWarning,
    TranslationWarningView, WarningCode, WarningSeverity,
};

verus! {

broadcast use vstd::string::group_string_axioms;

// ---------------------------------------------------------------------
// Checks before work starts
// ---------------------------------------------------------------------

/// Number of selected scenes.
pub open spec fn selected_count(scenes: Seq<SceneView>) -> nat
    decreases scenes.len(),
{
    if scenes.len() == 0 {
        0
    } else {
        selected_count(scenes.drop_last()) + if scenes.last().selected {
            1nat
        } else {
            0nat
        }
    }
}

/// What an accepted export request starts from: the FFmpeg and FFprobe
/// binaries and the number of scenes to render.
#[derive(Debug, Clone)]
pub struct ExportPlan {
    pub ffmpeg: String,
    pub ffprobe: String,
    pub total: usize,
}

/// The first reason, in the order they are checked, why an export
/// request cannot start: FFmpeg missing, FFprobe missing, no output
/// format chosen, no scene selected.
pub open spec fn export_refusal(
    scenes: Seq<SceneView>,
    youtube: bool,
    tiktok: bool,
    ffmpeg_found: bool,
    ffprobe_found: bool,
) -> Option<Seq<char>> {
    if !ffmpeg_found {
        Some(ffmpeg_missing_message())
    } else if !ffprobe_found {
        Some("FFprobe is not installed."@)
    } else if !youtube && !tiktok {
        Some("Select at least one output format"@)
    } else if selected_count(scenes) == 0 {
        Some("Select at least one scene"@)
    } else {
        None
    }
}

/// Checks an export request against the binaries that were found and
/// either refuses it with the first failing check's message or returns
/// the plan.
pub fn plan_export(project: &Project, ffmpeg: Option<String>, ffprobe: Option<String>) -> (r: Result<
    ExportPlan,
    String,
>)
    ensures
        match export_refusal(
            project.scenes.deep_view(),
            project.output_you_tube,
            project.output_tik_tok,
            ffmpeg is Some,
            ffprobe is Some,
        ) {
            Some(msg) => r matches Err(e) && e@ == msg,
            None => r matches Ok(p) && {
                &&& ffmpeg matches Some(f) && p.ffmpeg@ == f@
                &&& ffprobe matches Some(f) && p.ffprobe@ == f@
                &&& p.total == selected_count(project.scenes.deep_view())
            },
        },
{
    let ffmpeg_path = match ensure_ffmpeg_or_error(ffmpeg) {
        Ok(p) => p,
        Err(e) => return Err(e),
    };
    let ffprobe_path = match ensure_ffprobe_or_error(ffprobe) {
        Ok(p) => p,
        Err(e) => return Err(e),
    };
    if !project.output_you_tube && !project.output_tik_tok {
        return Err("Select at least one output format".to_owned());
    }
    let total = count_selected(&project.scenes);
    if total == 0 {
        return Err("Select at least one scene".to_owned());
    }
    Ok(ExportPlan { ffmpeg: ffmpeg_path, ffprobe: ffprobe_path, total })
}

/// Number of selected scenes.
pub fn count_selected(scenes: &Vec<Scene>) -> (n: usize)
    ensures
        n == selected_count(scenes.deep_view()),
{
    let mut n: usize = 0;
    let mut i: usize = 0;
    while i < scenes.len()
        invariant
            i <= scenes.len(),
            n == selected_count(scenes.deep_view().take(i as int)),
            n <= i,
        decreases scenes.len() - i,
    {
        assert(scenes.deep_view().take(i + 1).drop_last() == scenes.deep_view().take(i as int));
        if scenes[i].selected {
            n += 1;
        }
        i += 1;
    }
    assert(scenes.deep_view().take(i as int) == scenes.deep_view());
    n
}

// ---------------------------------------------------------------------
// Scenes
// ---------------------------------------------------------------------

/// `scene` with its translated script replaced.
pub open spec fn with_translation(scene: SceneView, translated: Option<Seq<char>>) -> SceneView {
    SceneView {
        id: scene.id,
        page: scene.page,
        title: scene.title,
        script: scene.script,
        translated_script: translated,
        duration: scene.duration,
        selected: scene.selected,
        thumbnail: scene.thumbnail,
    }
}

fn clone_opt(o: &Option<String>) -> (r: Option<String>)
    ensures
        opt_chars(r) == opt_chars(*o),
{
    match o {
        Some(s) => Some(s.clone()),
        None => None,
    }
}

/// A copy of `scene` whose translated script is `translated`.
pub fn scene_with_translation(scene: &Scene, translated: Option<String>) -> (r: Scene)
    ensures
        r.deep_view() == with_translation(scene.deep_view(), opt_chars(translated)),
{
    Scene {
        id: scene.id.clone(),
        page: scene.page,
        title: scene.title.clone(),
        script: scene.script.clone(),
        translated_script: translated,
        duration: scene.duration,
        selected: scene.selected,
        thumbnail: scene.thumbnail.clone(),
    }
}

/// A copy of `scene`.
pub fn copy_scene(scene: &Scene) -> (r: Scene)
    ensures
        r.deep_view() == scene.deep_view(),
{
    let t = clone_opt(&scene.translated_script);
    scene_with_translation(scene, t)
}

/// The text narrated for a scene: its translation when it has one, its
/// source script otherwise.
pub open spec fn narration_of(scene: SceneView) -> Seq<char> {
    match scene.translated_script {
        Some(t) => t,
        None => scene.script,
    }
}

/// The text narrated for a scene.
pub fn scene_script(scene: &Scene) -> (r: String)
    ensures
        r@ == narration_of(scene.deep_view()),
{
    match &scene.translated_script {
        Some(t) => t.clone(),
        None => scene.script.clone(),
    }
}

// ---------------------------------------------------------------------
// Translation stage
// ---------------------------------------------------------------------

/// How the scenes of an export are translated.
#[derive(Debug, Clone, Copy, PartialEq, Eq, Structural)]
pub enum TranslationRoute {
    /// Offline Argos into a non-English language.
    Argos,
    /// English output with the default translator: scripts kept as they are.
    KeepSource,
    /// A cloud translator chosen by the user.
    Cloud,
}

/// The translation route of a project: the offline default (or the
/// legacy `marian` choice) runs Argos unless the output is English; any
/// other provider is a cloud translator.
pub open spec fn route_of(provider: Seq<char>, language: Seq<char>) -> TranslationRoute {
    if provider == "marian"@ || default_translator(provider) {
        if !english(language) {
            TranslationRoute::Argos
        } else {
            TranslationRoute::KeepSource
        }
    } else {
        TranslationRoute::Cloud
    }
}

/// The translation route of a project.
pub fn translation_route(project: &Project) -> (r: TranslationRoute)
    ensures
        r == route_of(project.translation_provider@, project.language@),
{
    if str_eq(&project.translation_provider, "marian") || is_default_translator(project) {
        if !is_english(&project.language) {
            TranslationRoute::Argos
        } else {
            TranslationRoute::KeepSource
        }
    } else {
        TranslationRoute::Cloud
    }
}

/// What one scene's Argos translation left behind: the scene to narrate
/// and, when Argos failed, the two warnings recording the fallback.
#[derive(Debug, Clone)]
pub struct ArgosOutcome {
    pub scene: Scene,
    pub translation_warning: Option<TranslationWarning>,
    pub warning: Option<ProjectWarning>,
}

/// The suggested fix when Argos is unavailable.
pub open spec fn argos_fix() -> Seq<char> {
    "Install it with `pip install argostranslate`, or switch to OpenAI / Google Cloud in the inspector."@
}

/// The `TranslationWarning` of a scene whose Argos translation failed.
pub open spec fn argos_translation_warning(scene: SceneView) -> TranslationWarningView {
    TranslationWarningView {
        scene_id: scene.id,
        page: scene.page,
        provider: "argos"@,
        message: "Argos translation unavailable; using source text for page "@ + dec(
            scene.page as nat,
        ),
    }
}

/// The structured warning of a scene whose Argos translation failed
/// with `error`.
pub open spec fn untranslated_warning(scene: SceneView, error: Seq<char>) -> ProjectWarningView {
    ProjectWarningView {
        code: WarningCode::UntranslatedScene,
        severity: WarningSeverity::Warning,
        scene_id: Some(scene.id),
        page: Some(scene.page),
        message: "Page "@ + dec(scene.page as nat)
            + " used the source script: Argos translation was unavailable"@,
        detail: Some(error),
        suggested_fix: Some(argos_fix()),
    }
}

/// Records the Argos result of a selected scene. A translation becomes
/// the scene's translated script; a failure does not stop the export:
/// the source script is narrated instead and both warnings are returned.
pub fn argos_outcome(scene: &Scene, result: Result<String, String>) -> (r: ArgosOutcome)
    ensures
        match result {
            Ok(t) => {
                &&& r.scene.deep_view() == with_translation(scene.deep_view(), Some(t@))
                &&& r.translation_warning is None
                &&& r.warning is None
            },
            Err(e) => {
                &&& r.scene.deep_view() == with_translation(
                    scene.deep_view(),
                    Some(scene.script@),
                )
                &&& r.translation_warning matches Some(tw) && tw.deep_view()
                    == argos_translation_warning(scene.deep_view())
                &&& r.warning matches Some(w) && w.deep_view() == untranslated_warning(
                    scene.deep_view(),
                    e@,
                )
            },
        },
{
    match result {
        Ok(t) => ArgosOutcome {
            scene: scene_with_translation(scene, Some(t)),
            translation_warning: None,
            warning: None,
        },
        Err(e) => {
            let mut m: Vec<char> = Vec::new();
            push_str(&mut m, "Argos translation unavailable; using source text for page ");
            push_dec(&mut m, scene.page as u128);
            let tw = TranslationWarning {
                scene_id: scene.id.clone(),
                page: scene.page,
                provider: "argos".to_owned(),
                message: string_from_chars(&m),
            };
            let mut pm: Vec<char> = Vec::new();
            push_str(&mut pm, "Page ");
            push_dec(&mut pm, scene.page as u128);
            push_str(&mut pm, " used the source script: Argos translation was unavailable");
            let w = ProjectWarning::warning(
                WarningCode::UntranslatedScene,
                string_from_chars(&pm),
            ).with_scene(scene.id.clone(), scene.page).with_detail(e).with_fix(
                "Install it with `pip install argostranslate`, or switch to OpenAI / Google Cloud in the inspector.".to_owned(),
            );
            ArgosOutcome {
                scene: scene_with_translation(scene, Some(scene.script.clone())),
                translation_warning: Some(tw),
                warning: Some(w),
            }
        },
    }
}

/// The cloud translators the export can call.
#[derive(Debug, Clone, Copy, PartialEq, Eq, Structural)]
pub enum CloudTranslator {
    OpenAi,
    Google,
}

/// The cloud translator behind a provider id, if it is implemented.
pub open spec fn cloud_translator_spec(provider: Seq<char>) -> Option<CloudTranslator> {
    if provider == "openai"@ {
        Some(CloudTranslator::OpenAi)
    } else if provider == "google"@ {
        Some(CloudTranslator::Google)
    } else {
        None
    }
}

/// The cloud translator behind a provider id, if it is implemented.
pub fn cloud_translator(provider: &str) -> (r: Option<CloudTranslator>)
    ensures
        r == cloud_translator_spec(provider@),
{
    if str_eq(provider, "openai") {
        Some(CloudTranslator::OpenAi)
    } else if str_eq(provider, "google") {
        Some(CloudTranslator::Google)
    } else {
        None
    }
}

/// The error a scene gets during export when its cloud provider has no
/// implementation.
pub fn cloud_translator_missing(provider: &str) -> (r: String)
    ensures
        r@ == provider@ + " translator is not yet implemented"@,
{
    let mut m: Vec<char> = Vec::new();
    push_str(&mut m, provider);
    push_str(&mut m, " translator is not yet implemented");
    string_from_chars(&m)
}

/// A cloud translation failure: the warning it records and the error
/// that ends the export.
#[derive(Debug, Clone)]
pub struct CloudFailure {
    pub warning: ProjectWarning,
    pub error: String,
}

/// The warning recorded when a scene's cloud translation fails.
pub open spec fn cloud_failure_warning(
    scene: SceneView,
    provider: Seq<char>,
    error: Seq<char>,
) -> ProjectWarningView {
    ProjectWarningView {
        code: WarningCode::UnsupportedProvider,
        severity: WarningSeverity::Error,
        scene_id: Some(scene.id),
        page: Some(scene.page),
        message: "Translation provider '"@ + provider + "' is not yet implemented"@,
        detail: Some(error),
        suggested_fix: None,
    }
}

/// Records the cloud result of a selected scene: a translation becomes
/// the translated script; a failure ends the export with a warning and
/// an error naming the page.
pub fn cloud_outcome(scene: &Scene, provider: &str, result: Result<String, String>) -> (r: Result<
    Scene,
    CloudFailure,
>)
    ensures
        match result {
            Ok(t) => r matches Ok(s) && s.deep_view() == with_translation(
                scene.deep_view(),
                Some(t@),
            ),
            Err(e) => r matches Err(f) && {
                &&& f.warning.deep_view() == cloud_failure_warning(
                    scene.deep_view(),
                    provider@,
                    e@,
                )
                &&& f.error@ == "Translation failed for scene "@ + dec(scene.page as nat) + ": "@
                    + e@
            },
        },
{
    match result {
        Ok(t) => Ok(scene_with_translation(scene, Some(t))),
        Err(e) => {
            let mut wm: Vec<char> = Vec::new();
            push_str(&mut wm, "Translation provider '");
            push_str(&mut wm, provider);
            push_str(&mut wm, "' is not yet implemented");
            let mut em: Vec<char> = Vec::new();
            push_str(&mut em, "Translation failed for scene ");
            push_dec(&mut em, scene.page as u128);
            push_str(&mut em, ": ");
            push_str(&mut em, &e);
            let warning = ProjectWarning::error(
                WarningCode::UnsupportedProvider,
                string_from_chars(&wm),
            ).with_scene(scene.id.clone(), scene.page).with_detail(e);
            Err(CloudFailure { warning, error: string_from_chars(&em) })
        },
    }
}

// ---------------------------------------------------------------------
// Voice stage
// ---------------------------------------------------------------------

/// The file a scene's narration is written to.
pub fn scene_audio_file(scene_id: &str) -> (r: String)
    ensures
        r@ == "scene-"@ + scene_id@ + ".mp3"@,
{
    let mut m: Vec<char> = Vec::new();
    push_str(&mut m, "scene-");
    push_str(&mut m, scene_id);
    push_str(&mut m, ".mp3");
    string_from_chars(&m)
}

/// The file a scene's page image is written to.
pub fn scene_visual_file(scene_id: &str) -> (r: String)
    ensures
        r@ == "scene-"@ + scene_id@ + ".jpg"@,
{
    let mut m: Vec<char> = Vec::new();
    push_str(&mut m, "scene-");
    push_str(&mut m, scene_id);
    push_str(&mut m, ".jpg");
    string_from_chars(&m)
}

/// The voice providers tried for a scene, in order: the user's choice
/// first, then edge-tts (when it was not the choice and a choice was
/// made), then Piper (when it was not the choice and its model is
/// installed).
pub open spec fn voice_attempts_spec(primary: Seq<char>, piper_installed: bool) -> Seq<Seq<char>> {
    seq![primary] + (if primary != "edge"@ && primary.len() > 0 {
        seq!["edge"@]
    } else {
        Seq::empty()
    }) + (if primary != "piper"@ && piper_installed {
        seq!["piper"@]
    } else {
        Seq::empty()
    })
}

/// The voice providers tried for a scene, in order, each at most once.
pub fn voice_attempts(primary: &str, piper_installed: bool) -> (r: Vec<String>)
    ensures
        r.deep_view() == voice_attempts_spec(primary@, piper_installed),
        r.deep_view()[0] == primary@,
        forall|i: int, j: int|
            0 <= i < j < r.len() ==> r.deep_view()[i] != r.deep_view()[j],
{
    proof {
        reveal_strlit("edge");
        reveal_strlit("piper");
        assert("edge"@ != "piper"@) by {
            assert("edge"@[0] != "piper"@[0]);
        }
    }
    let mut r: Vec<String> = Vec::new();
    r.push(primary.to_owned());
    let ghost first = r.deep_view();
    assert(first == seq![primary@]);
    if !str_eq(primary, "edge") && primary.unicode_len() > 0 {
        r.push("edge".to_owned());
    }
    let ghost second = r.deep_view();
    assert(second == seq![primary@] + (if primary@ != "edge"@ && primary@.len() > 0 {
        seq!["edge"@]
    } else {
        Seq::empty()
    }));
    if !str_eq(primary, "piper") && piper_installed {
        r.push("piper".to_owned());
    }
    r
}

/// A voice failure that is not worth falling back from: a missing key or
/// model, a provider that is not implemented, a missing input.
pub open spec fn hard_voice_error(e: Seq<char>) -> bool {
    ||| starts_with(e, "No API key"@)
    ||| contains(e, "is not downloaded"@)
    ||| contains(e, "not yet implemented"@)
    ||| contains(e, "is required"@)
}

/// Whether a voice failure is hard.
pub fn is_hard_voice_error(e: &str) -> (r: bool)
    ensures
        r == hard_voice_error(e@),
{
    let v = chars_of(e);
    starts_with_exec(&v, "No API key") || contains_exec(&v, "is not downloaded") || contains_exec(
        &v,
        "not yet implemented",
    ) || contains_exec(&v, "is required")
}

/// What follows one voice attempt.
#[derive(Debug)]
pub enum VoiceStep {
    /// The scene's narration is settled: written, or failed for good.
    Finished(Result<(), String>),
    /// Try the next provider; the failure is remembered as the last one.
    TryNext(String),
}

/// What follows an attempt with `provider` for a scene whose chosen
/// provider is `primary`: success ends the chain; a hard failure of the
/// chosen provider ends it with that error; any other failure moves on.
pub fn after_voice_attempt(provider: &str, primary: &str, result: Result<(), String>) -> (r: VoiceStep)
    ensures
        match result {
            Ok(()) => r matches VoiceStep::Finished(Ok(())),
            Err(e) => if hard_voice_error(e@) && provider@ == primary@ {
                r matches VoiceStep::Finished(Err(f)) && f@ == e@
            } else {
                r matches VoiceStep::TryNext(f) && f@ == e@
            },
        },
{
    match result {
        Ok(()) => VoiceStep::Finished(Ok(())),
        Err(e) => {
            if is_hard_voice_error(&e) && str_eq(provider, primary) {
                VoiceStep::Finished(Err(e))
            } else {
                VoiceStep::TryNext(e)
            }
        },
    }
}

/// The error when every provider was tried: the last failure, or a
/// generic message when there was none.
pub fn voice_chain_exhausted(last_error: Option<String>) -> (r: String)
    ensures
        match last_error {
            Some(e) => r@ == e@,
            None => r@ == "All voice providers failed"@,
        },
{
    match last_error {
        Some(e) => e,
        None => "All voice providers failed".to_owned(),
    }
}

/// The outcome of the whole fallback chain, given the outcome of each
/// attempt in order (as far as the chain gets).
pub open spec fn voice_chain_result(
    attempts: Seq<Seq<char>>,
    primary: Seq<char>,
    outcomes: Seq<Result<(), Seq<char>>>,
    last: Option<Seq<char>>,
) -> Result<(), Seq<char>>
    decreases attempts.len(),
{
    if attempts.len() == 0 || outcomes.len() == 0 {
        Err(
            match last {
                Some(e) => e,
                None => "All voice providers failed"@,
            },
        )
    } else {
        match outcomes[0] {
            Ok(()) => Ok(()),
            Err(e) => if hard_voice_error(e) && attempts[0] == primary {
                Err(e)
            } else {
                voice_chain_result(attempts.drop_first(), primary, outcomes.drop_first(), Some(e))
            },
        }
    }
}

/// An attempt that failed with an error that rules out any fallback.
pub open spec fn hard_failure(outcome: Result<(), Seq<char>>) -> bool {
    match outcome {
        Ok(()) => false,
        Err(e) => hard_voice_error(e),
    }
}

/// Some attempt among the first `n` succeeded.
pub open spec fn some_attempt_succeeds(outcomes: Seq<Result<(), Seq<char>>>, n: int) -> bool {
    exists|i: int| 0 <= i < n && (#[trigger] outcomes[i]) is Ok
}

/// The chain over fallback providers (none of them the chosen one):
/// it succeeds exactly when some attempt does, and otherwise fails with
/// the last attempt's error.
proof fn lemma_fallback_tail(
    attempts: Seq<Seq<char>>,
    primary: Seq<char>,
    outcomes: Seq<Result<(), Seq<char>>>,
    last: Option<Seq<char>>,
)
    requires
        outcomes.len() >= attempts.len(),
        forall|j: int| 0 <= j < attempts.len() ==> #[trigger] attempts[j] != primary,
    ensures
        voice_chain_result(attempts, primary, outcomes, last) is Ok <==> some_attempt_succeeds(
            outcomes,
            attempts.len() as int,
        ),
        !some_attempt_succeeds(outcomes, attempts.len() as int) && attempts.len() > 0
            ==> voice_chain_result(attempts, primary, outcomes, last) == Err::<(), Seq<char>>(
            outcomes[attempts.len() - 1]->Err_0,
        ),
    decreases attempts.len(),
{
    if attempts.len() > 0 {
        let t = attempts.drop_first();
        let o = outcomes.drop_first();
        assert forall|j: int| 0 <= j < t.len() implies #[trigger] t[j] != primary by {
            assert(t[j] == attempts[j + 1]);
        }
        match outcomes[0] {
            Ok(()) => {
                assert(some_attempt_succeeds(outcomes, attempts.len() as int)) by {
                    assert(outcomes[0] is Ok);
                }
            },
            Err(e) => {
                assert(attempts[0] != primary);
                lemma_fallback_tail(t, primary, o, Some(e));
                if some_attempt_succeeds(outcomes, attempts.len() as int) {
                    let i = choose|i: int| 0 <= i < attempts.len() && (#[trigger] outcomes[i]) is Ok;
                    assert(o[i - 1] == outcomes[i]);
                    assert(some_attempt_succeeds(o, t.len() as int));
                }
                if some_attempt_succeeds(o, t.len() as int) {
                    let i = choose|i: int| 0 <= i < t.len() && (#[trigger] o[i]) is Ok;
                    assert(outcomes[i + 1] == o[i]);
                    assert(some_attempt_succeeds(outcomes, attempts.len() as int));
                }
                if t.len() > 0 {
                    assert(o[t.len() - 1] == outcomes[attempts.len() - 1]);
                }
            },
        }
    }
}

/// The law of the whole fallback chain. A hard failure of the chosen
/// provider ends the scene with that error. Otherwise the scene's voice
/// succeeds exactly when one of the providers tried succeeds, and when
/// none does it fails with the error of the last provider tried.
pub proof fn lemma_voice_chain(
    primary: Seq<char>,
    piper_installed: bool,
    outcomes: Seq<Result<(), Seq<char>>>,
)
    requires
        outcomes.len() >= voice_attempts_spec(primary, piper_installed).len(),
    ensures
        ({
            let a = voice_attempts_spec(primary, piper_installed);
            let r = voice_chain_result(a, primary, outcomes, None);
            &&& hard_failure(outcomes[0]) ==> r == Err::<(), Seq<char>>(outcomes[0]->Err_0)
            &&& !hard_failure(outcomes[0]) ==> {
                &&& r is Ok <==> some_attempt_succeeds(outcomes, a.len() as int)
                &&& !some_attempt_succeeds(outcomes, a.len() as int) ==> r == Err::<
                    (),
                    Seq<char>,
                >(outcomes[a.len() - 1]->Err_0)
            }
        }),
{
    let a = voice_attempts_spec(primary, piper_installed);
    reveal_strlit("edge");
    reveal_strlit("piper");
    assert("edge"@ != "piper"@) by {
        assert("edge"@[0] != "piper"@[0]);
    }
    assert(a[0] == primary);
    let t = a.drop_first();
    assert forall|j: int| 0 <= j < t.len() implies #[trigger] t[j] != primary by {
        assert(t[j] == a[j + 1]);
    }
    match outcomes[0] {
        Ok(()) => {
            assert(some_attempt_succeeds(outcomes, a.len() as int)) by {
                assert(outcomes[0] is Ok);
            }
        },
        Err(e) => {
            if !hard_voice_error(e) {
                let o = outcomes.drop_first();
                lemma_fallback_tail(t, primary, o, Some(e));
                if some_attempt_succeeds(outcomes, a.len() as int) {
                    let i = choose|i: int| 0 <= i < a.len() && (#[trigger] outcomes[i]) is Ok;
                    assert(o[i - 1] == outcomes[i]);
                    assert(some_attempt_succeeds(o, t.len() as int));
                }
                if some_attempt_succeeds(o, t.len() as int) {
                    let i = choose|i: int| 0 <= i < t.len() && (#[trigger] o[i]) is Ok;
                    assert(outcomes[i + 1] == o[i]);
                    assert(some_attempt_succeeds(outcomes, a.len() as int));
                }
                if t.len() > 0 {
                    assert(o[t.len() - 1] == outcomes[a.len() - 1]);
                }
            }
        },
    }
}

/// The warning recorded when a scene's narration could not be made.
pub open spec fn voice_failure_warning(scene: SceneView, error: Seq<char>) -> ProjectWarningView {
    ProjectWarningView {
        code: WarningCode::VoiceSynthesisFailed,
        severity: WarningSeverity::Error,
        scene_id: Some(scene.id),
        page: Some(scene.page),
        message: "Voice synthesis failed for page "@ + dec(scene.page as nat) + ": "@ + error,
        detail: Some(error),
        suggested_fix: Some(
            "Check edge-tts / API key in Settings, or pick a different voice provider."@,
        ),
    }
}

/// The warning recorded when a scene's narration could not be made.
pub fn voice_failure(scene: &Scene, error: &str) -> (r: ProjectWarning)
    ensures
        r.deep_view() == voice_failure_warning(scene.deep_view(), error@),
{
    let mut m: Vec<char> = Vec::new();
    push_str(&mut m, "Voice synthesis failed for page ");
    push_dec(&mut m, scene.page as u128);
    push_str(&mut m, ": ");
    push_str(&mut m, error);
    ProjectWarning::error(WarningCode::VoiceSynthesisFailed, string_from_chars(&m)).with_scene(
        scene.id.clone(),
        scene.page,
    ).with_detail(error.to_owned()).with_fix(
        "Check edge-tts / API key in Settings, or pick a different voice provider.".to_owned(),
    )
}

/// A request to one voice engine, ready to be sent.
#[derive(Debug, Clone)]
pub enum VoiceCall {
    Edge(TtsRequest),
    /// Kokoro, with the narration speed as a percentage (100 = normal).
    Kokoro { text: String, voice: String, lang_code: String, speed_percent: u32 },
    Chatterbox(ChatterboxRequest),
    /// Piper, with the id of the local model it runs.
    Piper { model_id: String, request: CloudSynthesisRequest },
    OpenAi(CloudSynthesisRequest),
    ElevenLabs { voice_id: String, request: CloudSynthesisRequest },
}

/// Mathematical view of a [`VoiceCall`].
pub enum VoiceCallView {
    Edge { text: Seq<char>, voice: Seq<char>, rate: Option<Seq<char>>, pitch: Option<Seq<char>> },
    Kokoro { text: Seq<char>, voice: Seq<char>, lang_code: Seq<char>, speed_percent: u32 },
    Chatterbox { text: Seq<char>, language_id: Seq<char> },
    Piper { model_id: Seq<char>, text: Seq<char>, voice: Seq<char> },
    OpenAi { text: Seq<char>, voice: Seq<char> },
    ElevenLabs { voice_id: Seq<char>, text: Seq<char>, voice: Seq<char> },
}

impl DeepView for VoiceCall {
    type V = VoiceCallView;

    open spec fn deep_view(&self) -> VoiceCallView {
        match self {
            VoiceCall::Edge(r) => VoiceCallView::Edge {
                text: r.text@,
                voice: r.voice@,
                rate: opt_chars(r.rate),
                pitch: opt_chars(r.pitch),
            },
            VoiceCall::Kokoro { text, voice, lang_code, speed_percent } => VoiceCallView::Kokoro {
                text: text@,
                voice: voice@,
                lang_code: lang_code@,
                speed_percent: *speed_percent,
            },
            VoiceCall::Chatterbox(r) => VoiceCallView::Chatterbox {
                text: r.text@,
                language_id: r.language_id@,
            },
            VoiceCall::Piper { model_id, request } => VoiceCallView::Piper {
                model_id: model_id@,
                text: request.text@,
                voice: request.voice@,
            },
            VoiceCall::OpenAi(r) => VoiceCallView::OpenAi { text: r.text@, voice: r.voice@ },
            VoiceCall::ElevenLabs { voice_id, request } => VoiceCallView::ElevenLabs {
                voice_id: voice_id@,
                text: request.text@,
                voice: request.voice@,
            },
        }
    }
}

/// The local Piper voice model the export falls back to.
pub open spec fn piper_model_id() -> Seq<char> {
    "piper-en_US-amy"@
}

/// The engine request an export makes for one scene with `provider`, or
/// none when the provider has no engine behind it. `voice_name` is the
/// resolved voice; `voice` is the project's voice choice.
pub open spec fn export_voice_call(
    provider: Seq<char>,
    text: Seq<char>,
    voice_name: Seq<char>,
    voice: Seq<char>,
    language: Seq<char>,
    speed: u32,
) -> Option<VoiceCallView> {
    if provider == "edge"@ {
        Some(
            VoiceCallView::Edge {
                text,
                voice: voice_name,
                rate: rate_for_speed(speed as nat),
                pitch: None,
            },
        )
    } else if provider == "kokoro"@ {
        Some(
            VoiceCallView::Kokoro {
                text,
                voice: voice_name,
                lang_code: kokoro_code_spec(language),
                speed_percent: speed,
            },
        )
    } else if provider == "piper"@ {
        Some(VoiceCallView::Piper { model_id: piper_model_id(), text, voice: voice_name })
    } else if provider == "openai"@ {
        Some(VoiceCallView::OpenAi { text, voice: openai_voice_spec(voice) })
    } else if provider == "elevenlabs"@ {
        Some(
            VoiceCallView::ElevenLabs {
                voice_id: "21m00Tcm4TlvDq8ikWAM"@,
                text,
                voice: voice_name,
            },
        )
    } else {
        None
    }
}

/// The narration audio a voice engine returned, decoded from base64 for
/// writing to the scene's audio file; a payload the decoder rejects gives
/// the decoder's error.
pub fn narration_bytes(audio_base64: &str) -> (r: Result<Vec<u8>, String>)
    ensures
        match base64_decoding(audio_base64@) {
            Ok(b) => r matches Ok(v) && v@ == b,
            Err(m) => r matches Err(e) && e@ == m,
        },
{
    base64_decode(audio_base64)
}

/// The engine request for narrating `text` of a project with `provider`,
/// or the error for a provider with no engine behind it.
pub fn voice_call_for_export(provider: &str, project: &Project, text: &str, voice_name: &str) -> (r: Result<
    VoiceCall,
    String,
>)
    ensures
        match export_voice_call(
            provider@,
            text@,
            voice_name@,
            project.voice@,
            project.language@,
            project.voice_speed,
        ) {
            Some(c) => r matches Ok(v) && v.deep_view() == c,
            None => r matches Err(e) && e@ == "Voice provider '"@ + provider@
                + "' is not yet implemented"@,
        },
{
    if str_eq(provider, "edge") {
        let rate = speed_to_rate(project.voice_speed);
        proof {
            assert(opt_chars(rate) == rate_for_speed(project.voice_speed as nat));
        }
        Ok(
            VoiceCall::Edge(
                TtsRequest {
                    text: text.to_owned(),
                    voice: voice_name.to_owned(),
                    rate,
                    pitch: None,
                },
            ),
        )
    } else if str_eq(provider, "kokoro") {
        Ok(
            VoiceCall::Kokoro {
                text: text.to_owned(),
                voice: voice_name.to_owned(),
                lang_code: kokoro_lang_code(&project.language).to_owned(),
                speed_percent: project.voice_speed,
            },
        )
    } else if str_eq(provider, "piper") {
        Ok(
            VoiceCall::Piper {
                model_id: "piper-en_US-amy".to_owned(),
                request: CloudSynthesisRequest {
                    text: text.to_owned(),
                    voice: voice_name.to_owned(),
                },
            },
        )
    } else if str_eq(provider, "openai") {
        Ok(
            VoiceCall::OpenAi(
                CloudSynthesisRequest { text: text.to_owned(), voice: openai_voice_name(project) },
            ),
        )
    } else if str_eq(provider, "elevenlabs") {
        Ok(
            VoiceCall::ElevenLabs {
                voice_id: elevenlabs_voice_id(voice_name),
                request: CloudSynthesisRequest {
                    text: text.to_owned(),
                    voice: voice_name.to_owned(),
                },
            },
        )
    } else {
        let mut m: Vec<char> = Vec::new();
        push_str(&mut m, "Voice provider '");
        push_str(&mut m, provider);
        push_str(&mut m, "' is not yet implemented");
        Err(string_from_chars(&m))
    }
}

/// The error when no API key is stored for a provider.
pub fn missing_api_key(provider: &str) -> (r: String)
    ensures
        r@ == "No API key stored for "@ + provider@ + ". Open Settings to add one."@,
{
    let mut m: Vec<char> = Vec::new();
    push_str(&mut m, "No API key stored for ");
    push_str(&mut m, provider);
    push_str(&mut m, ". Open Settings to add one.");
    string_from_chars(&m)
}

/// The error when the system keyring cannot be opened.
pub fn keyring_failure(detail: &str) -> (r: String)
    ensures
        r@ == "Keyring error: "@ + detail@,
{
    let mut m: Vec<char> = Vec::new();
    push_str(&mut m, "Keyring error: ");
    push_str(&mut m, detail);
    string_from_chars(&m)
}

// ---------------------------------------------------------------------
// Visuals
// ---------------------------------------------------------------------

/// The prefix of a JPEG thumbnail data URL.
pub open spec fn jpeg_data_prefix() -> Seq<char> {
    "data:image/jpeg;base64,"@
}

/// The image bytes of a scene's thumbnail: decoded from its JPEG data
/// URL, or an error naming the page when it is not one. A payload the
/// base64 decoder rejects gives the decoder's error.
pub fn thumbnail_bytes(scene: &Scene) -> (r: Result<Vec<u8>, String>)
    ensures
        starts_with(scene.thumbnail@, jpeg_data_prefix()) ==> match base64_decoding(
            scene.thumbnail@.skip(jpeg_data_prefix().len() as int),
        ) {
            Ok(b) => r matches Ok(v) && v@ == b,
            Err(m) => r matches Err(e) && e@ == m,
        },
        !starts_with(scene.thumbnail@, jpeg_data_prefix()) ==> (r matches Err(e) && e@
            == "Scene "@ + dec(scene.page as nat) + " has no valid thumbnail"@),
{
    let v = chars_of(&scene.thumbnail);
    let prefix = "data:image/jpeg;base64,";
    if starts_with_exec(&v, prefix) {
        let n = prefix.unicode_len();
        let mut rest: Vec<char> = Vec::new();
        push_range(&mut rest, &v, n, v.len());
        let payload = string_from_chars(&rest);
        assert(payload@ == scene.thumbnail@.skip(jpeg_data_prefix().len() as int));
        base64_decode(&payload)
    } else {
        let mut m: Vec<char> = Vec::new();
        push_str(&mut m, "Scene ");
        push_dec(&mut m, scene.page as u128);
        push_str(&mut m, " has no valid thumbnail");
        Err(string_from_chars(&m))
    }
}

// ---------------------------------------------------------------------
// Composing a video
// ---------------------------------------------------------------------

/// The files and narration text of one selected scene, with the scene's
/// position in the project.
#[derive(Debug, Clone)]
pub struct SceneMedia {
    pub index: usize,
    pub visual: String,
    pub audio: String,
    pub script: String,
}

/// Mathematical view of a [`SceneMedia`].
pub struct SceneMediaView {
    pub index: nat,
    pub visual: Seq<char>,
    pub audio: Seq<char>,
    pub script: Seq<char>,
}

impl DeepView for SceneMedia {
    type V = SceneMediaView;

    open spec fn deep_view(&self) -> SceneMediaView {
        SceneMediaView {
            index: self.index as nat,
            visual: self.visual@,
            audio: self.audio@,
            script: self.script@,
        }
    }
}

/// The path recorded first for a scene id.
pub open spec fn path_for(items: Seq<(Seq<char>, Seq<char>)>, id: Seq<char>) -> Option<Seq<char>>
    decreases items.len(),
{
    if items.len() == 0 {
        None
    } else if items[0].0 == id {
        Some(items[0].1)
    } else {
        path_for(items.drop_first(), id)
    }
}

/// The path recorded first for a scene id.
pub fn find_path(items: &Vec<(String, String)>, id: &str) -> (r: Option<String>)
    ensures
        opt_chars(r) == path_for(items.deep_view(), id@),
{
    let mut i: usize = 0;
    assert(items.deep_view().skip(0) == items.deep_view());
    while i < items.len()
        invariant
            i <= items.len(),
            path_for(items.deep_view(), id@) == path_for(items.deep_view().skip(i as int), id@),
        decreases items.len() - i,
    {
        assert(items.deep_view().skip(i as int).drop_first() == items.deep_view().skip(i + 1));
        if str_eq(&items[i].0, id) {
            return Some(items[i].1.clone());
        }
        i += 1;
    }
    None
}

/// The media of the selected scenes, in order, or the error for the first
/// selected scene whose image or narration is missing (the image is
/// looked for first).
pub open spec fn scene_media_spec(
    scenes: Seq<SceneView>,
    visuals: Seq<(Seq<char>, Seq<char>)>,
    audios: Seq<(Seq<char>, Seq<char>)>,
) -> Result<Seq<SceneMediaView>, Seq<char>>
    decreases scenes.len(),
{
    if scenes.len() == 0 {
        Ok(Seq::empty())
    } else {
        match scene_media_spec(scenes.drop_last(), visuals, audios) {
            Err(e) => Err(e),
            Ok(ms) => {
                let s = scenes.last();
                if !s.selected {
                    Ok(ms)
                } else {
                    match path_for(visuals, s.id) {
                        None => Err("Missing visual for scene "@ + dec(s.page as nat)),
                        Some(v) => match path_for(audios, s.id) {
                            None => Err("Missing audio for scene "@ + dec(s.page as nat)),
                            Some(a) => Ok(
                                ms.push(
                                    SceneMediaView {
                                        index: (scenes.len() - 1) as nat,
                                        visual: v,
                                        audio: a,
                                        script: narration_of(s),
                                    },
                                ),
                            ),
                        },
                    }
                }
            },
        }
    }
}

/// The media of the selected scenes, looked up by scene id among the
/// written page images and narrations.
pub fn scene_media(
    scenes: &Vec<Scene>,
    visuals: &Vec<(String, String)>,
    audios: &Vec<(String, String)>,
) -> (r: Result<Vec<SceneMedia>, String>)
    ensures
        match scene_media_spec(scenes.deep_view(), visuals.deep_view(), audios.deep_view()) {
            Ok(ms) => r matches Ok(v) && v.deep_view() == ms,
            Err(m) => r matches Err(e) && e@ == m,
        },
        r matches Ok(v) ==> forall|k: int| 0 <= k < v.len() ==> #[trigger] v@[k].index < scenes.len(),
        r matches Ok(v) ==> forall|k: int|
            0 <= k < v.len() ==> #[trigger] scenes@[v@[k].index as int].selected,
        r matches Ok(v) ==> forall|k: int, l: int|
            0 <= k < l < v.len() ==> v@[k].index < v@[l].index,
{
    let mut out: Vec<SceneMedia> = Vec::new();
    let mut i: usize = 0;
    assert(scenes.deep_view().take(0) == Seq::<SceneView>::empty());
    assert(out.deep_view() == Seq::<SceneMediaView>::empty());
    while i < scenes.len()
        invariant
            i <= scenes.len(),
            scene_media_spec(scenes.deep_view().take(i as int), visuals.deep_view(), audios.deep_view())
                == Ok::<Seq<SceneMediaView>, Seq<char>>(out.deep_view()),
            forall|k: int| 0 <= k < out.len() ==> #[trigger] out@[k].index < i,
            forall|k: int| 0 <= k < out.len() ==> #[trigger] scenes@[out@[k].index as int].selected,
            forall|k: int, l: int| 0 <= k < l < out.len() ==> out@[k].index < out@[l].index,
        decreases scenes.len() - i,
    {
        let ghost pre = scenes.deep_view().take(i as int);
        assert(scenes.deep_view().take(i + 1).drop_last() == pre);
        let scene = &scenes[i];
        assert(scenes.deep_view().take(i + 1).last() == scene.deep_view());
        if scene.selected {
            let visual = match find_path(visuals, &scene.id) {
                Some(v) => v,
                None => {
                    let mut m: Vec<char> = Vec::new();
                    push_str(&mut m, "Missing visual for scene ");
                    push_dec(&mut m, scene.page as u128);
                    proof {
                        lemma_media_error_sticks(
                            scenes.deep_view(),
                            visuals.deep_view(),
                            audios.deep_view(),
                            i as int + 1,
                        );
                    }
                    assert(scenes.deep_view().take(scenes.len() as int) == scenes.deep_view());
                    return Err(string_from_chars(&m));
                },
            };
            let audio = match find_path(audios, &scene.id) {
                Some(a) => a,
                None => {
                    let mut m: Vec<char> = Vec::new();
                    push_str(&mut m, "Missing audio for scene ");
                    push_dec(&mut m, scene.page as u128);
                    proof {
                        lemma_media_error_sticks(
                            scenes.deep_view(),
                            visuals.deep_view(),
                            audios.deep_view(),
                            i as int + 1,
                        );
                    }
                    assert(scenes.deep_view().take(scenes.len() as int) == scenes.deep_view());
                    return Err(string_from_chars(&m));
                },
            };
            let media = SceneMedia { index: i, visual, audio, script: scene_script(scene) };
            let ghost before = out.deep_view();
            out.push(media);
            assert(out.deep_view() == before.push(media.deep_view()));
        }
        i += 1;
    }
    assert(scenes.deep_view().take(i as int) == scenes.deep_view());
    Ok(out)
}

/// Once a prefix of the scenes fails, every longer prefix fails with the
/// same error.
proof fn lemma_media_error_sticks(
    scenes: Seq<SceneView>,
    visuals: Seq<(Seq<char>, Seq<char>)>,
    audios: Seq<(Seq<char>, Seq<char>)>,
    k: int,
)
    requires
        0 <= k <= scenes.len(),
        scene_media_spec(scenes.take(k), visuals, audios) is Err,
    ensures
        scene_media_spec(scenes, visuals, audios) == scene_media_spec(scenes.take(k), visuals, audios),
    decreases scenes.len() - k,
{
    if k < scenes.len() {
        assert(scenes.take(k + 1).drop_last() == scenes.take(k));
        lemma_media_error_sticks(scenes, visuals, audios, k + 1);
    } else {
        assert(scenes.take(k) == scenes);
    }
}

/// The audio part of the chains of the `k`-th rendered scene: its
/// narration, input pad `2·k + 1`, resampled to 44.1 kHz under the label
/// `[a{k}]`.
pub open spec fn audio_chain(k: nat) -> Seq<char> {
    "["@ + dec(2 * k + 1) + ":a]aresample=44100[a"@ + dec(k) + "];"@
}

/// Video and audio chains of the `k`-th rendered scene. Inputs are passed
/// two per rendered scene (page image, then narration), so its image is
/// input pad `2·k` and its narration pad `2·k + 1`; its outputs are
/// labelled `[v{k}]` and `[a{k}]`.
pub open spec fn scene_block(
    m: SceneMediaView,
    k: nat,
    frames: nat,
    w: nat,
    h: nat,
    drawtext: bool,
) -> Seq<char> {
    scene_chain(
        2 * k,
        k,
        w,
        h,
        frames,
        if drawtext {
            Some(m.script)
        } else {
            None
        },
    ) + audio_chain(k)
}

/// The chains of the first `k` scenes.
pub open spec fn scene_blocks(
    ms: Seq<SceneMediaView>,
    fs: Seq<u32>,
    w: nat,
    h: nat,
    drawtext: bool,
    k: nat,
) -> Seq<char>
    decreases k,
{
    if k == 0 {
        Seq::empty()
    } else {
        scene_blocks(ms, fs, w, h, drawtext, (k - 1) as nat) + scene_block(
            ms[k - 1],
            (k - 1) as nat,
            fs[k - 1] as nat,
            w,
            h,
            drawtext,
        )
    }
}

/// The `[v{j}][a{j}]` pairs of the first `k` rendered scenes, fed to
/// `concat`.
pub open spec fn concat_labels(ms: Seq<SceneMediaView>, k: nat) -> Seq<char>
    decreases k,
{
    if k == 0 {
        Seq::empty()
    } else {
        concat_labels(ms, (k - 1) as nat) + "[v"@ + dec((k - 1) as nat) + "][a"@ + dec(
            (k - 1) as nat,
        ) + "]"@
    }
}

/// The whole filter graph: every scene's chains, then the concatenation
/// of all scenes into `[vout]` and `[aout]`.
pub open spec fn filter_graph(
    ms: Seq<SceneMediaView>,
    fs: Seq<u32>,
    w: nat,
    h: nat,
    drawtext: bool,
) -> Seq<char> {
    scene_blocks(ms, fs, w, h, drawtext, ms.len()) + concat_labels(ms, ms.len()) + "concat=n="@
        + dec(ms.len()) + ":v=1:a=1[vout][aout]"@
}

proof fn lemma_scene_blocks_prefix(
    ms: Seq<SceneMediaView>,
    fs: Seq<u32>,
    w: nat,
    h: nat,
    drawtext: bool,
    m: nat,
    n: nat,
)
    requires
        m <= n,
    ensures
        scene_blocks(ms, fs, w, h, drawtext, m).len() <= scene_blocks(ms, fs, w, h, drawtext, n).len(),
        scene_blocks(ms, fs, w, h, drawtext, n).take(
            scene_blocks(ms, fs, w, h, drawtext, m).len() as int,
        ) == scene_blocks(ms, fs, w, h, drawtext, m),
    decreases n,
{
    let a = scene_blocks(ms, fs, w, h, drawtext, m);
    if m == n {
        assert(a.take(a.len() as int) == a);
    } else {
        lemma_scene_blocks_prefix(ms, fs, w, h, drawtext, m, (n - 1) as nat);
        let b = scene_blocks(ms, fs, w, h, drawtext, (n - 1) as nat);
        let c = scene_blocks(ms, fs, w, h, drawtext, n);
        assert(c.take(a.len() as int) == b.take(a.len() as int));
    }
}

/// A scene's chain starts with its page chain.
proof fn lemma_chain_starts_with_base(v: nat, i: nat, w: nat, h: nat, f: nat, cap: Option<Seq<char>>)
    ensures
        scene_chain_base(v, i, w, h, f).len() <= scene_chain(v, i, w, h, f, cap).len(),
        scene_chain(v, i, w, h, f, cap).take(scene_chain_base(v, i, w, h, f).len() as int)
            == scene_chain_base(v, i, w, h, f),
{
    let base = scene_chain_base(v, i, w, h, f);
    let c = scene_chain(v, i, w, h, f, cap);
    let x = match cap {
        Some(script) => crate::render::caption_clauses(
            crate::render::timed_windows(crate::render::caption_lines(script, 42), f),
        ),
        None => Seq::empty(),
    };
    lemma_take_prefix(base, x + "[v"@ + dec(i) + "];"@);
    assert(c == base + (x + "[v"@ + dec(i) + "];"@));
}

proof fn lemma_take_prefix(a: Seq<char>, b: Seq<char>)
    ensures
        (a + b).take(a.len() as int) == a,
{
    assert((a + b).take(a.len() as int) =~= a);
}

/// Where `g` starts with `all`, `all` with `pre + (chain + audio)` and
/// `chain` with `base`, `base` occurs in `g` right after `pre`.
proof fn lemma_occurs_after_prefix(
    g: Seq<char>,
    all: Seq<char>,
    upto: Seq<char>,
    pre: Seq<char>,
    chain: Seq<char>,
    audio: Seq<char>,
    base: Seq<char>,
)
    requires
        all.len() <= g.len(),
        g.take(all.len() as int) == all,
        upto.len() <= all.len(),
        all.take(upto.len() as int) == upto,
        upto == pre + (chain + audio),
        base.len() <= chain.len(),
        chain.take(base.len() as int) == base,
    ensures
        occurs_at(g, base, pre.len() as int),
{
    let lo = pre.len() as int;
    let hi = lo + base.len();
    assert(g.subrange(lo, hi) =~= base) by {
        assert forall|j: int| 0 <= j < base.len() implies g.subrange(lo, hi)[j] == base[j] by {
            assert(g[lo + j] == g.take(all.len() as int)[lo + j]);
            assert(all[lo + j] == all.take(upto.len() as int)[lo + j]);
            assert(upto[lo + j] == chain[j]);
            assert(chain[j] == chain.take(base.len() as int)[j]);
        }
    }
}

proof fn lemma_scene_blocks_step(
    ms: Seq<SceneMediaView>,
    fs: Seq<u32>,
    w: nat,
    h: nat,
    drawtext: bool,
    k: int,
)
    requires
        0 <= k,
    ensures
        scene_blocks(ms, fs, w, h, drawtext, (k + 1) as nat) == scene_blocks(
            ms,
            fs,
            w,
            h,
            drawtext,
            k as nat,
        ) + (scene_chain(
            2 * k as nat,
            k as nat,
            w,
            h,
            fs[k] as nat,
            if drawtext {
                Some(ms[k].script)
            } else {
                None
            },
        ) + audio_chain(k as nat)),
{
}

proof fn lemma_filter_graph_starts_with_blocks(
    ms: Seq<SceneMediaView>,
    fs: Seq<u32>,
    w: nat,
    h: nat,
    drawtext: bool,
)
    ensures
        scene_blocks(ms, fs, w, h, drawtext, ms.len() as nat).len() <= filter_graph(
            ms,
            fs,
            w,
            h,
            drawtext,
        ).len(),
        filter_graph(ms, fs, w, h, drawtext).take(
            scene_blocks(ms, fs, w, h, drawtext, ms.len() as nat).len() as int,
        ) == scene_blocks(ms, fs, w, h, drawtext, ms.len() as nat),
{
    let n = ms.len() as nat;
    let all = scene_blocks(ms, fs, w, h, drawtext, n);
    let rest = concat_labels(ms, n) + "concat=n="@ + dec(n) + ":v=1:a=1[vout][aout]"@;
    lemma_take_prefix(all, rest);
    assert(filter_graph(ms, fs, w, h, drawtext) == all + rest);
}

/// Each scene plays for its own narration: in the filter graph of `n`
/// rendered scenes, the `k`-th scene's video chain starts right after the
/// chains of the scenes before it, reads its own page image (input pad
/// `2·k`), is labelled `k` and zooms over exactly `fs[k]` frames (its
/// `zoompan` duration `d`), the frame count of its own narration.
pub proof fn lemma_scene_chain_uses_own_frames(
    ms: Seq<SceneMediaView>,
    fs: Seq<u32>,
    w: nat,
    h: nat,
    drawtext: bool,
    k: int,
)
    requires
        0 <= k < ms.len(),
        fs.len() == ms.len(),
    ensures
        occurs_at(
            filter_graph(ms, fs, w, h, drawtext),
            scene_chain_base(2 * k as nat, k as nat, w, h, fs[k] as nat),
            scene_blocks(ms, fs, w, h, drawtext, k as nat).len() as int,
        ),
{
    let n = ms.len() as nat;
    let cap = if drawtext {
        Some(ms[k].script)
    } else {
        None
    };
    let pre = scene_blocks(ms, fs, w, h, drawtext, k as nat);
    let base = scene_chain_base(2 * k as nat, k as nat, w, h, fs[k] as nat);
    let chain = scene_chain(2 * k as nat, k as nat, w, h, fs[k] as nat, cap);
    lemma_scene_blocks_prefix(ms, fs, w, h, drawtext, (k + 1) as nat, n);
    lemma_chain_starts_with_base(2 * k as nat, k as nat, w, h, fs[k] as nat, cap);
    let upto = scene_blocks(ms, fs, w, h, drawtext, (k + 1) as nat);
    lemma_scene_blocks_step(ms, fs, w, h, drawtext, k);
    lemma_filter_graph_starts_with_blocks(ms, fs, w, h, drawtext);
    lemma_occurs_after_prefix(
        filter_graph(ms, fs, w, h, drawtext),
        scene_blocks(ms, fs, w, h, drawtext, n),
        upto,
        pre,
        chain,
        audio_chain(k as nat),
        base,
    );
}

/// The `-i` arguments of the first `k` scenes: page image, then narration.
pub open spec fn input_args(ms: Seq<SceneMediaView>, k: nat) -> Seq<Seq<char>>
    decreases k,
{
    if k == 0 {
        Seq::empty()
    } else {
        input_args(ms, (k - 1) as nat) + seq!["-i"@, ms[k - 1].visual, "-i"@, ms[k - 1].audio]
    }
}

/// The `-i` arguments of `n` rendered scenes are `4·n` words passing
/// `2·n` inputs.
pub proof fn lemma_input_args_len(ms: Seq<SceneMediaView>, n: nat)
    ensures
        input_args(ms, n).len() == 4 * n,
    decreases n,
{
    if n > 0 {
        lemma_input_args_len(ms, (n - 1) as nat);
    }
}

/// The law of the input pads: among the inputs of `n` rendered scenes,
/// input pad `2·k` is the page image of the `k`-th scene and pad
/// `2·k + 1` its narration, exactly the pads its chains read
/// ([`scene_block`]).
pub proof fn lemma_input_pads(ms: Seq<SceneMediaView>, n: nat, k: nat)
    requires
        k < n <= ms.len(),
    ensures
        input_args(ms, n).len() == 4 * n,
        input_args(ms, n)[4 * (k as int)] == "-i"@,
        input_args(ms, n)[4 * (k as int) + 1] == ms[k as int].visual,
        input_args(ms, n)[4 * (k as int) + 2] == "-i"@,
        input_args(ms, n)[4 * (k as int) + 3] == ms[k as int].audio,
    decreases n,
{
    lemma_input_args_len(ms, n);
    lemma_input_args_len(ms, (n - 1) as nat);
    let prev = input_args(ms, (n - 1) as nat);
    let tail = seq!["-i"@, ms[n - 1].visual, "-i"@, ms[n - 1].audio];
    assert(input_args(ms, n) == prev + tail);
    if k < n - 1 {
        lemma_input_pads(ms, (n - 1) as nat, k);
        assert((prev + tail)[4 * (k as int)] == prev[4 * (k as int)]);
        assert((prev + tail)[4 * (k as int) + 1] == prev[4 * (k as int) + 1]);
        assert((prev + tail)[4 * (k as int) + 2] == prev[4 * (k as int) + 2]);
        assert((prev + tail)[4 * (k as int) + 3] == prev[4 * (k as int) + 3]);
    } else {
        assert((prev + tail)[4 * (k as int)] == tail[0]);
        assert((prev + tail)[4 * (k as int) + 1] == tail[1]);
        assert((prev + tail)[4 * (k as int) + 2] == tail[2]);
        assert((prev + tail)[4 * (k as int) + 3] == tail[3]);
    }
}

/// The FFmpeg inputs and filter graph of one video. `frames[k]` is the
/// length in frames of the `k`-th scene (its narration's duration at 25
/// fps); captions are drawn only when `drawtext` is set.
pub fn compose_filter(media: &Vec<SceneMedia>, frames: &Vec<u32>, w: u32, h: u32, drawtext: bool) -> (r: (
    Vec<String>,
    String,
))
    requires
        frames.len() == media.len(),
        media.len() < usize::MAX / 2,
    ensures
        r.0.deep_view() == input_args(media.deep_view(), media.len() as nat),
        r.1@ == filter_graph(media.deep_view(), frames@, w as nat, h as nat, drawtext),
{
    let ghost ms = media.deep_view();
    let mut inputs: Vec<String> = Vec::new();
    let mut filter: Vec<char> = Vec::new();
    let mut labels: Vec<char> = Vec::new();
    let mut k: usize = 0;
    while k < media.len()
        invariant
            k <= media.len(),
            frames.len() == media.len(),
            ms == media.deep_view(),
            media.len() < usize::MAX / 2,
            inputs.deep_view() == input_args(ms, k as nat),
            filter@ == scene_blocks(ms, frames@, w as nat, h as nat, drawtext, k as nat),
            labels@ == concat_labels(ms, k as nat),
        decreases media.len() - k,
    {
        let m = &media[k];
        assert(ms[k as int] == m.deep_view());
        push_inputs(&mut inputs, m);
        push_scene_block(&mut filter, m, k, frames[k], w, h, drawtext);
        push_label(&mut labels, k);
        k += 1;
    }
    push_all(&mut filter, &labels);
    push_str(&mut filter, "concat=n=");
    push_dec(&mut filter, media.len() as u128);
    push_str(&mut filter, ":v=1:a=1[vout][aout]");
    (inputs, string_from_chars(&filter))
}

fn push_inputs(inputs: &mut Vec<String>, m: &SceneMedia)
    ensures
        final(inputs).deep_view() == old(inputs).deep_view() + seq![
            "-i"@,
            m.visual@,
            "-i"@,
            m.audio@,
        ],
{
    let ghost before = inputs.deep_view();
    inputs.push("-i".to_owned());
    inputs.push(m.visual.clone());
    inputs.push("-i".to_owned());
    inputs.push(m.audio.clone());
    assert(inputs.deep_view() == before + seq!["-i"@, m.visual@, "-i"@, m.audio@]);
}

fn push_scene_block(
    filter: &mut Vec<char>,
    m: &SceneMedia,
    k: usize,
    frames: u32,
    w: u32,
    h: u32,
    drawtext: bool,
)
    requires
        k < usize::MAX / 2,
    ensures
        final(filter)@ == old(filter)@ + scene_block(
            m.deep_view(),
            k as nat,
            frames as nat,
            w as nat,
            h as nat,
            drawtext,
        ),
{
    let i = k;
    let caption: Option<&str> = if drawtext {
        Some(m.script.as_str())
    } else {
        None
    };
    let ghost cap: Option<Seq<char>> = if drawtext {
        Some(m.script@)
    } else {
        None
    };
    let ghost c = scene_chain((2 * i) as nat, i as nat, w as nat, h as nat, frames as nat, cap);
    let ghost a = audio_chain(i as nat);
    let chain = build_scene_video_chain(i * 2, i, w, h, frames, caption);
    assert(chain@ == c);
    let ghost before = filter@;
    push_str(filter, &chain);
    let mut tail: Vec<char> = Vec::new();
    push_str(&mut tail, "[");
    push_dec(&mut tail, (i * 2 + 1) as u128);
    push_str(&mut tail, ":a]aresample=44100[a");
    push_dec(&mut tail, i as u128);
    push_str(&mut tail, "];");
    assert(tail@ == a);
    push_all(filter, &tail);
    assert(scene_block(m.deep_view(), i as nat, frames as nat, w as nat, h as nat, drawtext) == c
        + a);
}

fn push_label(labels: &mut Vec<char>, i: usize)
    ensures
        final(labels)@ == old(labels)@ + "[v"@ + dec(i as nat) + "][a"@ + dec(i as nat) + "]"@,
{
    push_str(labels, "[v");
    push_dec(labels, i as u128);
    push_str(labels, "][a");
    push_dec(labels, i as u128);
    push_str(labels, "]");
}

/// Captions can be drawn only when a font was found and staged.
pub open spec fn drawtext_available_spec(font: FontResolution) -> bool {
    font.found && font.render_path is Some
}

/// Whether captions can be drawn with the resolved font.
pub fn drawtext_available(font: &FontResolution) -> (r: bool)
    ensures
        r == drawtext_available_spec(*font),
{
    font.found && font.render_path.is_some()
}

/// The font file handed to FFmpeg: the staged path when captions can be
/// drawn, none otherwise.
pub fn render_font(font: &FontResolution) -> (r: Option<String>)
    ensures
        drawtext_available_spec(*font) ==> opt_chars(r) == opt_chars(font.render_path),
        !drawtext_available_spec(*font) ==> r is None,
{
    if drawtext_available(font) {
        clone_opt(&font.render_path)
    } else {
        None
    }
}

/// `ws` holds a warning with code `code`.
pub open spec fn has_code(ws: Seq<ProjectWarningView>, code: WarningCode) -> bool {
    exists|k: int| 0 <= k < ws.len() && ws[k].code == code
}

fn has_code_exec(ws: &Vec<ProjectWarning>, code: WarningCode) -> (r: bool)
    ensures
        r == has_code(ws.deep_view(), code),
{
    let mut i: usize = 0;
    while i < ws.len()
        invariant
            i <= ws.len(),
            forall|k: int| 0 <= k < i ==> ws.deep_view()[k].code != code,
        decreases ws.len() - i,
    {
        assert(ws.deep_view()[i as int].code == ws@[i as int].code);
        if ws[i].code == code {
            return true;
        }
        i += 1;
    }
    false
}

/// The warning recorded when videos render without on-screen captions.
pub open spec fn render_fallback_warning(font: FontResolution) -> ProjectWarningView {
    ProjectWarningView {
        code: WarningCode::RenderFallback,
        severity: WarningSeverity::Warning,
        scene_id: None,
        page: None,
        message: "No drawtext font found. Videos will render without on-screen narration."@,
        detail: Some(font.message@),
        suggested_fix: Some(
            match font.install_hint {
                Some(h) => h@,
                None => "Install a TrueType font and re-export."@,
            },
        ),
    }
}

/// The warnings after noting that captions could not be drawn: the
/// fallback warning is appended when the font is unusable and no such
/// warning was recorded yet; otherwise the list stays as it is.
pub open spec fn with_render_fallback(ws: Seq<ProjectWarningView>, font: FontResolution) -> Seq<
    ProjectWarningView,
> {
    if !drawtext_available_spec(font) && !has_code(ws, WarningCode::RenderFallback) {
        ws.push(render_fallback_warning(font))
    } else {
        ws
    }
}

/// Records, once per export, that captions could not be drawn.
pub fn note_render_fallback(warnings: &mut Vec<ProjectWarning>, font: &FontResolution)
    ensures
        final(warnings).deep_view() == with_render_fallback(old(warnings).deep_view(), *font),
{
    if drawtext_available(font) {
        return;
    }
    if has_code_exec(warnings, WarningCode::RenderFallback) {
        return;
    }
    let fix = match &font.install_hint {
        Some(h) => h.clone(),
        None => "Install a TrueType font and re-export.".to_owned(),
    };
    let w = ProjectWarning::warning(
        WarningCode::RenderFallback,
        "No drawtext font found. Videos will render without on-screen narration.".to_owned(),
    ).with_detail(font.message.clone()).with_fix(fix);
    let ghost before = warnings.deep_view();
    warnings.push(w);
    assert(warnings.deep_view() == before.push(w.deep_view()));
}

/// Number of warnings in `ws` with code `code`.
pub open spec fn code_count(ws: Seq<ProjectWarningView>, code: WarningCode) -> nat
    decreases ws.len(),
{
    if ws.len() == 0 {
        0
    } else {
        code_count(ws.drop_last(), code) + if ws.last().code == code {
            1nat
        } else {
            0nat
        }
    }
}

proof fn lemma_code_count_zero(ws: Seq<ProjectWarningView>, code: WarningCode)
    requires
        !has_code(ws, code),
    ensures
        code_count(ws, code) == 0,
    decreases ws.len(),
{
    if ws.len() > 0 {
        assert(!has_code(ws.drop_last(), code)) by {
            if has_code(ws.drop_last(), code) {
                let k = choose|k: int| 0 <= k < ws.drop_last().len() && ws.drop_last()[k].code == code;
                assert(ws[k].code == code);
            }
        }
        assert(ws[ws.len() - 1].code != code);
        lemma_code_count_zero(ws.drop_last(), code);
    }
}

/// The law of the caption fallback, noted once per video of an export:
/// noting it again changes nothing; afterwards a fallback warning is on
/// record exactly when the font is unusable or one was there before; and
/// starting from at most one such warning, there is still at most one.
pub proof fn lemma_render_fallback_once(ws: Seq<ProjectWarningView>, font: FontResolution)
    ensures
        with_render_fallback(with_render_fallback(ws, font), font) == with_render_fallback(
            ws,
            font,
        ),
        has_code(with_render_fallback(ws, font), WarningCode::RenderFallback) <==> (
        !drawtext_available_spec(font) || has_code(ws, WarningCode::RenderFallback)),
        code_count(ws, WarningCode::RenderFallback) <= 1 ==> code_count(
            with_render_fallback(ws, font),
            WarningCode::RenderFallback,
        ) <= 1,
{
    let w = render_fallback_warning(font);
    let ws2 = ws.push(w);
    assert(ws2[ws.len() as int].code == WarningCode::RenderFallback);
    assert(ws2.drop_last() == ws);
    if has_code(ws, WarningCode::RenderFallback) {
        let k = choose|k: int| 0 <= k < ws.len() && ws[k].code == WarningCode::RenderFallback;
        assert(ws2[k].code == WarningCode::RenderFallback);
    } else {
        lemma_code_count_zero(ws, WarningCode::RenderFallback);
        assert forall|k: int| 0 <= k < ws2.len() && ws2[k].code == WarningCode::RenderFallback
            implies has_code(ws2, WarningCode::RenderFallback) by {}
    }
}

/// The error of a failed FFmpeg run, with the first five lines of its
/// stderr.
pub fn ffmpeg_failure(stderr: &str) -> (r: String)
    ensures
        r@ == "FFmpeg failed: "@ + first_lines_spec(stderr@, 5),
{
    let mut m: Vec<char> = Vec::new();
    push_str(&mut m, "FFmpeg failed: ");
    let fl = first_lines(stderr, 5);
    push_str(&mut m, &fl);
    string_from_chars(&m)
}

/// The file name of a video of the project.
pub fn video_file_name(project_name: &str, aspect: Aspect) -> (r: String)
    ensures
        r@ == sanitized(project_name@) + match aspect {
            Aspect::Youtube => "-youtube.mp4"@,
            Aspect::Tiktok => "-tiktok.mp4"@,
        },
{
    let mut m: Vec<char> = Vec::new();
    let safe = sanitize(project_name);
    push_str(&mut m, &safe);
    match aspect {
        Aspect::Youtube => push_str(&mut m, "-youtube.mp4"),
        Aspect::Tiktok => push_str(&mut m, "-tiktok.mp4"),
    }
    string_from_chars(&m)
}

// ---------------------------------------------------------------------
// Which videos are rendered and recorded
// ---------------------------------------------------------------------

/// The videos an export renders, in order: YouTube when requested, then
/// TikTok when requested.
pub open spec fn video_outputs_spec(youtube: bool, tiktok: bool) -> Seq<Aspect> {
    (if youtube {
        seq![Aspect::Youtube]
    } else {
        Seq::empty()
    }) + (if tiktok {
        seq![Aspect::Tiktok]
    } else {
        Seq::empty()
    })
}

/// The videos an export of `project` renders, in order.
pub fn video_outputs(project: &Project) -> (r: Vec<Aspect>)
    ensures
        r@ == video_outputs_spec(project.output_you_tube, project.output_tik_tok),
{
    let mut r: Vec<Aspect> = Vec::new();
    if project.output_you_tube {
        r.push(Aspect::Youtube);
    }
    if project.output_tik_tok {
        r.push(Aspect::Tiktok);
    }
    assert(r@ == video_outputs_spec(project.output_you_tube, project.output_tik_tok));
    r
}

/// The paths of the videos rendered so far, one field per layout.
#[derive(Debug, Clone)]
pub struct RenderedVideos {
    pub youtube_path: Option<String>,
    pub tiktok_path: Option<String>,
}

/// Rendered paths seen as (YouTube, TikTok).
pub type RenderedView = (Option<Seq<char>>, Option<Seq<char>>);

/// The rendered paths after recording `path` for `aspect`: the path goes
/// into that layout's field; the other field is unchanged.
pub open spec fn record_spec(s: RenderedView, aspect: Aspect, path: Seq<char>) -> RenderedView {
    match aspect {
        Aspect::Youtube => (Some(path), s.1),
        Aspect::Tiktok => (s.0, Some(path)),
    }
}

/// The rendered paths after recording `paths[k]` for `aspects[k]`, in
/// order, starting from none.
pub open spec fn record_all(aspects: Seq<Aspect>, paths: Seq<Seq<char>>) -> RenderedView
    decreases aspects.len(),
{
    if aspects.len() == 0 {
        (None, None)
    } else {
        record_spec(
            record_all(aspects.drop_last(), paths),
            aspects.last(),
            paths[aspects.len() - 1],
        )
    }
}

impl RenderedVideos {
    /// No video rendered yet.
    pub fn new() -> (r: Self)
        ensures
            r.youtube_path is None,
            r.tiktok_path is None,
    {
        RenderedVideos { youtube_path: None, tiktok_path: None }
    }

    /// Records the path of the rendered video of layout `aspect`.
    pub fn record(&mut self, aspect: Aspect, path: String)
        ensures
            (opt_chars(final(self).youtube_path), opt_chars(final(self).tiktok_path)) == record_spec(
                (opt_chars(old(self).youtube_path), opt_chars(old(self).tiktok_path)),
                aspect,
                path@,
            ),
    {
        match aspect {
            Aspect::Youtube => self.youtube_path = Some(path),
            Aspect::Tiktok => self.tiktok_path = Some(path),
        }
    }
}

/// The law of the export report: recording one path for each video that
/// [`video_outputs`] asks for leaves a YouTube path exactly when YouTube
/// output was requested, and a TikTok path exactly when TikTok output was.
pub proof fn lemma_outputs_recorded(youtube: bool, tiktok: bool, paths: Seq<Seq<char>>)
    requires
        paths.len() == video_outputs_spec(youtube, tiktok).len(),
    ensures
        record_all(video_outputs_spec(youtube, tiktok), paths).0 is Some <==> youtube,
        record_all(video_outputs_spec(youtube, tiktok), paths).1 is Some <==> tiktok,
{
    let a = video_outputs_spec(youtube, tiktok);
    reveal_with_fuel(record_all, 3);
    if youtube && tiktok {
        assert(a == seq![Aspect::Youtube, Aspect::Tiktok]);
        assert(a.drop_last() == seq![Aspect::Youtube]);
        assert(a.drop_last().drop_last() == Seq::<Aspect>::empty());
    } else if youtube {
        assert(a == seq![Aspect::Youtube]);
        assert(a.drop_last() == Seq::<Aspect>::empty());
    } else if tiktok {
        assert(a == seq![Aspect::Tiktok]);
        assert(a.drop_last() == Seq::<Aspect>::empty());
    } else {
        assert(a == Seq::<Aspect>::empty());
    }
}

// ---------------------------------------------------------------------
// Finishing
// ---------------------------------------------------------------------

/// The report of a finished export. The video paths are those recorded
/// in `videos`, layout by layout. The untranslated count is the number
/// of translation warnings; the render fallback is reported when any
/// warning says the font was missing or captions were dropped.
pub fn finish_export(
    job_id: String,
    videos: RenderedVideos,
    translation_warnings: Vec<TranslationWarning>,
    skipped_pages: Vec<u32>,
    warnings: Vec<ProjectWarning>,
) -> (r: ExportComplete)
    ensures
        r.job_id@ == job_id@,
        opt_chars(r.youtube_path) == opt_chars(videos.youtube_path),
        opt_chars(r.tiktok_path) == opt_chars(videos.tiktok_path),
        r.translation_warnings.deep_view() == translation_warnings.deep_view(),
        r.skipped_pages@ == skipped_pages@,
        r.untranslated_count == translation_warnings.len() as u32,
        r.warnings.deep_view() == warnings.deep_view(),
        r.render_fallback_used == (has_code(warnings.deep_view(), WarningCode::MissingFont)
            || has_code(warnings.deep_view(), WarningCode::RenderFallback)),
{
    let untranslated_count = translation_warnings.len() as u32;
    let render_fallback_used = has_code_exec(&warnings, WarningCode::MissingFont) || has_code_exec(
        &warnings,
        WarningCode::RenderFallback,
    );
    ExportComplete {
        job_id,
        youtube_path: videos.youtube_path,
        tiktok_path: videos.tiktok_path,
        translation_warnings,
        skipped_pages,
        untranslated_count,
        warnings,
        render_fallback_used,
    }
}

} // verus!
