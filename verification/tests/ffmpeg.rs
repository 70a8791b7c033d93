use pdf2vid::ffmpeg::{ensure_ffmpeg_or_error, ensure_ffprobe_or_error, Aspect};

#[test]
fn aspect_dimensions() {
    assert_eq!(Aspect::Youtube.dimensions(), (1920, 1080));
    assert_eq!(Aspect::Tiktok.dimensions(), (1080, 1920));
}

#[test]
fn missing_binaries_give_install_errors() {
    assert_eq!(
        ensure_ffmpeg_or_error(None).unwrap_err(),
        "FFmpeg is not installed. Install FFmpeg and ensure it is on your PATH, or place the bundled sidecar binary next to the application."
    );
    assert_eq!(ensure_ffprobe_or_error(None).unwrap_err(), "FFprobe is not installed.");
    assert_eq!(ensure_ffmpeg_or_error(Some("/usr/bin/ffmpeg".into())).unwrap(), "/usr/bin/ffmpeg");
    assert_eq!(ensure_ffprobe_or_error(Some("/usr/bin/ffprobe".into())).unwrap(), "/usr/bin/ffprobe");
}
