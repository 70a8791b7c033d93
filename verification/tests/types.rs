use pdf2vid::types::{default_voice_speed, ProjectWarning, WarningCode, WarningSeverity};

#[test]
fn warning_builders_fill_fields() {
    let w = ProjectWarning::error(WarningCode::MissingDependency, "ffmpeg missing".into())
        .with_scene("s1".into(), 3)
        .with_detail("not on PATH".into())
        .with_fix("install it".into());
    assert_eq!(w.code, WarningCode::MissingDependency);
    assert_eq!(w.severity, WarningSeverity::Error);
    assert_eq!(w.scene_id.as_deref(), Some("s1"));
    assert_eq!(w.page, Some(3));
    assert_eq!(w.message, "ffmpeg missing");
    assert_eq!(w.detail.as_deref(), Some("not on PATH"));
    assert_eq!(w.suggested_fix.as_deref(), Some("install it"));
    let i = ProjectWarning::info(WarningCode::SkippedPage, "skipped".into());
    assert_eq!(i.severity, WarningSeverity::Info);
    assert!(i.scene_id.is_none() && i.page.is_none());
}

#[test]
fn default_speed_is_normal() {
    assert_eq!(default_voice_speed(), 100);
}
