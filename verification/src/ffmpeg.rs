//! Output formats and the FFmpeg / FFprobe availability checks.

use vstd::prelude::*;

verus! {

/// The two video layouts the export renders.
#[derive(Debug, Clone, Copy, PartialEq, Eq, Structural)]
pub enum Aspect {
    /// Landscape 1920×1080.
    Youtube,
    /// Portrait 1080×1920.
    Tiktok,
}

impl Aspect {
    /// Frame size `(width, height)` of the layout.
    pub fn dimensions(&self) -> (r: (u32, u32))
        ensures
            *self == Aspect::Youtube ==> r == (1920u32, 1080u32),
            *self == Aspect::Tiktok ==> r == (1080u32, 1920u32),
    {
        match self {
            Aspect::Youtube => (1920, 1080),
            Aspect::Tiktok => (1080, 1920),
        }
    }
}

/// The message shown when no FFmpeg binary was found.
pub open spec fn ffmpeg_missing_message() -> Seq<char> {
    "FFmpeg is not installed. Install FFmpeg and ensure it is on your PATH, or place the bundled sidecar binary next to the application."@
}

/// The FFmpeg path, given the result of looking for it (sidecar next to
/// the executable, then `PATH`), or the error to show the user.
pub fn ensure_ffmpeg_or_error(found: Option<String>) -> (r: Result<String, String>)
    ensures
        match found {
            Some(p) => r == Ok::<String, String>(p),
            None => r matches Err(e) && e@ == ffmpeg_missing_message(),
        },
{
    match found {
        Some(p) => Ok(p),
        None => Err(
            "FFmpeg is not installed. Install FFmpeg and ensure it is on your PATH, or place the bundled sidecar binary next to the application.".to_owned(),
        ),
    }
}

/// The FFprobe path, given the result of looking for it, or the error to
/// show the user.
pub fn ensure_ffprobe_or_error(found: Option<String>) -> (r: Result<String, String>)
    ensures
        match found {
            Some(p) => r == Ok::<String, String>(p),
            None => r matches Err(e) && e@ == "FFprobe is not installed."@,
        },
{
    match found {
        Some(p) => Ok(p),
        None => Err("FFprobe is not installed.".to_owned()),
    }
}

} // verus!
