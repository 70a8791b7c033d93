//! Data shared between the export pipeline, the provider registry and
//! the user interface.

use vstd::prelude::*;

verus! {

/// Host capabilities reported to the interface.
#[derive(Debug, Clone)]
pub struct SystemStatus {
    pub ffmpeg: bool,
    pub ffprobe: bool,
    pub platform: String,
    pub ffmpeg_sidecar_ready: bool,
    /// Whether a usable drawtext font was discovered on the host.
    pub font_available: bool,
    /// Path of the font that will be used, when one exists.
    pub font_path: Option<String>,
}

/// One narrated page of the project.
#[derive(Debug, Clone)]
pub struct Scene {
    pub id: String,
    pub page: u32,
    pub title: String,
    pub script: String,
    pub translated_script: Option<String>,
    pub duration: u32,
    pub selected: bool,
    pub thumbnail: String,
}

/// Mathematical view of a [`Scene`].
pub struct SceneView {
    pub id: Seq<char>,
    pub page: u32,
    pub title: Seq<char>,
    pub script: Seq<char>,
    pub translated_script: Option<Seq<char>>,
    pub duration: u32,
    pub selected: bool,
    pub thumbnail: Seq<char>,
}

/// The characters of an optional string.
pub open spec fn opt_chars(o: Option<String>) -> Option<Seq<char>> {
    match o {
        Some(s) => Some(s@),
        None => None,
    }
}

impl DeepView for Scene {
    type V = SceneView;

    open spec fn deep_view(&self) -> SceneView {
        SceneView {
            id: self.id@,
            page: self.page,
            title: self.title@,
            script: self.script@,
            translated_script: opt_chars(self.translated_script),
            duration: self.duration,
            selected: self.selected,
            thumbnail: self.thumbnail@,
        }
    }
}

/// A PDF turned into scenes plus the chosen providers and outputs.
#[derive(Debug, Clone)]
pub struct Project {
    pub name: String,
    pub source_name: String,
    pub scenes: Vec<Scene>,
    pub language: String,
    pub translation_provider: String,
    pub voice_provider: String,
    pub voice: String,
    pub output_you_tube: bool,
    pub output_tik_tok: bool,
    pub skipped_pages: Vec<u32>,
    /// Narration speed as a percentage (100 = normal).
    pub voice_speed: u32,
}

/// Narration speed used when a saved project carries none: 100%.
pub fn default_voice_speed() -> (r: u32)
    ensures
        r == 100,
{
    100
}

/// Whether a provider runs on the device or calls a remote API.
#[derive(Debug, Clone, Copy, PartialEq, Eq, Structural)]
pub enum ProviderKind {
    Local,
    Api,
}

/// The pipeline stage a provider serves.
#[derive(Debug, Clone, Copy, PartialEq, Eq, Structural)]
pub enum ProviderCategory {
    Translation,
    Voice,
    Visual,
}

/// One entry of the provider registry.
#[derive(Debug, Clone)]
pub struct ProviderOption {
    pub id: String,
    pub label: String,
    pub kind: ProviderKind,
    pub detail: String,
    pub implemented: bool,
    pub online: bool,
    pub key_label: Option<String>,
    pub category: ProviderCategory,
}

/// Mathematical view of a [`ProviderOption`].
pub struct ProviderOptionView {
    pub id: Seq<char>,
    pub label: Seq<char>,
    pub kind: ProviderKind,
    pub detail: Seq<char>,
    pub implemented: bool,
    pub online: bool,
    pub key_label: Option<Seq<char>>,
    pub category: ProviderCategory,
}

impl DeepView for ProviderOption {
    type V = ProviderOptionView;

    open spec fn deep_view(&self) -> ProviderOptionView {
        ProviderOptionView {
            id: self.id@,
            label: self.label@,
            kind: self.kind,
            detail: self.detail@,
            implemented: self.implemented,
            online: self.online,
            key_label: match self.key_label {
                Some(k) => Some(k@),
                None => None,
            },
            category: self.category,
        }
    }
}

/// The registry: providers per stage and the advertised languages.
#[derive(Debug, Clone)]
pub struct ProviderList {
    pub translation: Vec<ProviderOption>,
    pub voice: Vec<ProviderOption>,
    pub visual: Vec<ProviderOption>,
    pub languages: Vec<String>,
}

/// What the interface asks to export.
#[derive(Debug, Clone)]
pub struct ExportRequest {
    pub project: Project,
    pub output_dir: String,
    pub job_id: String,
}

/// A progress event of a running export.
#[derive(Debug, Clone)]
pub struct ExportProgress {
    pub job_id: String,
    pub stage: String,
    pub message: String,
    pub percent: u8,
    pub current: Option<u32>,
    pub total: Option<u32>,
}

/// The outcome of a finished export.
#[derive(Debug, Clone)]
pub struct ExportComplete {
    pub job_id: String,
    pub youtube_path: Option<String>,
    pub tiktok_path: Option<String>,
    /// Scenes whose translation failed; their source script was used.
    pub translation_warnings: Vec<TranslationWarning>,
    /// Pages skipped at import because they had no selectable text.
    pub skipped_pages: Vec<u32>,
    /// Number of scenes that ended up untranslated.
    pub untranslated_count: u32,
    /// Structured warnings of every category.
    pub warnings: Vec<ProjectWarning>,
    /// `true` when the render had no font for on-screen text.
    pub render_fallback_used: bool,
}

/// Category of a [`ProjectWarning`].
#[derive(Debug, Clone, Copy, PartialEq, Eq, Structural)]
pub enum WarningCode {
    /// PDF page had no selectable text and was dropped from the scene list.
    SkippedPage,
    /// Translation provider returned an error; source script used as fallback.
    UntranslatedScene,
    /// drawtext could not find a font; render proceeded with the fallback path.
    MissingFont,
    /// drawtext could not be used and the export went without on-screen text.
    RenderFallback,
    /// FFmpeg, ffprobe, python, or edge-tts is not installed.
    MissingDependency,
    /// The chosen provider exists in the registry but isn't wired up.
    UnsupportedProvider,
    /// Voice synthesis failed across all providers in the fallback chain.
    VoiceSynthesisFailed,
}

/// How serious a [`ProjectWarning`] is.
#[derive(Debug, Clone, Copy, PartialEq, Eq, Structural)]
pub enum WarningSeverity {
    Info,
    Warning,
    Error,
}

/// Structured warning surfaced through `ExportComplete.warnings`.
#[derive(Debug, Clone)]
pub struct ProjectWarning {
    pub code: WarningCode,
    pub severity: WarningSeverity,
    /// Scene id, or `None` for project-wide warnings.
    pub scene_id: Option<String>,
    pub page: Option<u32>,
    pub message: String,
    /// Optional short technical detail.
    pub detail: Option<String>,
    /// Actionable suggestion.
    pub suggested_fix: Option<String>,
}

impl ProjectWarning {
    /// An informational warning with no scene, detail or fix.
    pub fn info(code: WarningCode, message: String) -> (w: Self)
        ensures
            w.code == code,
            w.severity == WarningSeverity::Info,
            w.scene_id is None,
            w.page is None,
            w.message@ == message@,
            w.detail is None,
            w.suggested_fix is None,
    {
        ProjectWarning {
            code,
            severity: WarningSeverity::Info,
            scene_id: None,
            page: None,
            message,
            detail: None,
            suggested_fix: None,
        }
    }

    /// A warning-level entry with no scene, detail or fix.
    pub fn warning(code: WarningCode, message: String) -> (w: Self)
        ensures
            w.code == code,
            w.severity == WarningSeverity::Warning,
            w.scene_id is None,
            w.page is None,
            w.message@ == message@,
            w.detail is None,
            w.suggested_fix is None,
    {
        ProjectWarning {
            code,
            severity: WarningSeverity::Warning,
            scene_id: None,
            page: None,
            message,
            detail: None,
            suggested_fix: None,
        }
    }

    /// An error-level entry with no scene, detail or fix.
    pub fn error(code: WarningCode, message: String) -> (w: Self)
        ensures
            w.code == code,
            w.severity == WarningSeverity::Error,
            w.scene_id is None,
            w.page is None,
            w.message@ == message@,
            w.detail is None,
            w.suggested_fix is None,
    {
        ProjectWarning {
            code,
            severity: WarningSeverity::Error,
            scene_id: None,
            page: None,
            message,
            detail: None,
            suggested_fix: None,
        }
    }

    /// The same warning attached to a scene and its page.
    pub fn with_scene(self, scene_id: String, page: u32) -> (w: Self)
        ensures
            w.code == self.code,
            w.severity == self.severity,
            w.scene_id matches Some(s) && s@ == scene_id@,
            w.page == Some(page),
            w.message@ == self.message@,
            w.detail == self.detail,
            w.suggested_fix == self.suggested_fix,
    {
        let mut w = self;
        w.scene_id = Some(scene_id);
        w.page = Some(page);
        w
    }

    /// The same warning with a technical detail.
    pub fn with_detail(self, detail: String) -> (w: Self)
        ensures
            w.code == self.code,
            w.severity == self.severity,
            w.scene_id == self.scene_id,
            w.page == self.page,
            w.message@ == self.message@,
            w.detail matches Some(d) && d@ == detail@,
            w.suggested_fix == self.suggested_fix,
    {
        let mut w = self;
        w.detail = Some(detail);
        w
    }

    /// The same warning with a suggested fix.
    pub fn with_fix(self, fix: String) -> (w: Self)
        ensures
            w.code == self.code,
            w.severity == self.severity,
            w.scene_id == self.scene_id,
            w.page == self.page,
            w.message@ == self.message@,
            w.detail == self.detail,
            w.suggested_fix matches Some(f) && f@ == fix@,
    {
        let mut w = self;
        w.suggested_fix = Some(fix);
        w
    }
}

/// Mathematical view of a [`ProjectWarning`].
pub struct ProjectWarningView {
    pub code: WarningCode,
    pub severity: WarningSeverity,
    pub scene_id: Option<Seq<char>>,
    pub page: Option<u32>,
    pub message: Seq<char>,
    pub detail: Option<Seq<char>>,
    pub suggested_fix: Option<Seq<char>>,
}

impl DeepView for ProjectWarning {
    type V = ProjectWarningView;

    open spec fn deep_view(&self) -> ProjectWarningView {
        ProjectWarningView {
            code: self.code,
            severity: self.severity,
            scene_id: opt_chars(self.scene_id),
            page: self.page,
            message: self.message@,
            detail: opt_chars(self.detail),
            suggested_fix: opt_chars(self.suggested_fix),
        }
    }
}

/// A scene whose translation did not run.
#[derive(Debug, Clone)]
pub struct TranslationWarning {
    pub scene_id: String,
    pub page: u32,
    pub provider: String,
    pub message: String,
}

/// Mathematical view of a [`TranslationWarning`].
pub struct TranslationWarningView {
    pub scene_id: Seq<char>,
    pub page: u32,
    pub provider: Seq<char>,
    pub message: Seq<char>,
}

impl DeepView for TranslationWarning {
    type V = TranslationWarningView;

    open spec fn deep_view(&self) -> TranslationWarningView {
        TranslationWarningView {
            scene_id: self.scene_id@,
            page: self.page,
            provider: self.provider@,
            message: self.message@,
        }
    }
}

/// An export that failed.
#[derive(Debug, Clone)]
pub struct ExportError {
    pub job_id: String,
    pub stage: String,
    pub message: String,
}

/// A downloadable local model and whether it is installed.
#[derive(Debug, Clone)]
pub struct ModelInfo {
    pub id: String,
    pub family: String,
    pub label: String,
    pub url: String,
    pub size_bytes: u64,
    pub sha256: String,
    pub license: String,
    pub requires_accept: bool,
    pub installed: bool,
    pub path: Option<String>,
}

/// A progress event of a model download.
#[derive(Debug, Clone)]
pub struct ModelDownloadProgress {
    pub model_id: String,
    pub downloaded: u64,
    pub total: u64,
    pub percent: u8,
}

} // verus!
