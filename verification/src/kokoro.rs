//! Kokoro, the local text-to-speech engine run through Python: the
//! language check made before the subprocess starts and how its run
//! becomes audio.

use vstd::prelude::*;
use crate::subprocess::{engine_audio, engine_audio_spec};

verus! {

broadcast use vstd::string::group_string_axioms;

/// Kokoro's synthesized audio.
#[derive(Debug, Clone)]
pub struct KokoroResponse {
    pub audio_base64: String,
    pub format: String,
}

/// The error for a language Kokoro has no voice for.
pub open spec fn unsupported_language_message() -> Seq<char> {
    "Kokoro does not support the selected language. Use edge-tts or a cloud voice."@
}

/// Refuses an empty Kokoro language code before any subprocess runs.
pub fn check_language(lang_code: &str) -> (r: Result<(), String>)
    ensures
        r is Ok <==> lang_code@.len() > 0,
        r matches Err(e) ==> e@ == unsupported_language_message(),
{
    if lang_code.unicode_len() == 0 {
        Err(
            "Kokoro does not support the selected language. Use edge-tts or a cloud voice.".to_owned(),
        )
    } else {
        Ok(())
    }
}

/// The reply of a finished Kokoro run: WAV audio, or the run's error.
pub fn kokoro_reply(success: bool, stderr: &str, audio: &[u8]) -> (r: Result<KokoroResponse, String>)
    requires
        audio@.len() <= usize::MAX / 2,
    ensures
        match engine_audio_spec("kokoro"@, success, stderr@, audio@) {
            Ok(b) => r matches Ok(k) && k.audio_base64@ == b && k.format@ == "wav"@,
            Err(m) => r matches Err(e) && e@ == m,
        },
{
    match engine_audio("kokoro", success, stderr, audio) {
        Ok(b) => Ok(KokoroResponse { audio_base64: b, format: "wav".to_owned() }),
        Err(e) => Err(e),
    }
}

} // verus!
