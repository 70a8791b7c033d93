//! Chatterbox, the multilingual local text-to-speech engine run through
//! Python: the language check made before the subprocess starts and how
//! its run becomes audio.

use vstd::prelude::*;
use crate::subprocess::{engine_audio, engine_audio_spec};

verus! {

broadcast use vstd::string::group_string_axioms;

/// What to synthesize with Chatterbox.
#[derive(Debug, Clone)]
pub struct ChatterboxRequest {
    pub text: String,
    /// Chatterbox language id, e.g. `en`, `es`, `ja`, `zh`.
    pub language_id: String,
}

/// Chatterbox's synthesized audio.
#[derive(Debug, Clone)]
pub struct ChatterboxResponse {
    pub audio_base64: String,
    pub format: String,
}

/// Refuses a request without a language id before any subprocess runs.
pub fn check_request(req: &ChatterboxRequest) -> (r: Result<(), String>)
    ensures
        r is Ok <==> req.language_id@.len() > 0,
        r matches Err(e) ==> e@ == "Chatterbox: unsupported language"@,
{
    if req.language_id.unicode_len() == 0 {
        Err("Chatterbox: unsupported language".to_owned())
    } else {
        Ok(())
    }
}

/// The reply of a finished Chatterbox run: WAV audio, or the run's error.
pub fn chatterbox_reply(success: bool, stderr: &str, audio: &[u8]) -> (r: Result<
    ChatterboxResponse,
    String,
>)
    requires
        audio@.len() <= usize::MAX / 2,
    ensures
        match engine_audio_spec("chatterbox"@, success, stderr@, audio@) {
            Ok(b) => r matches Ok(k) && k.audio_base64@ == b && k.format@ == "wav"@,
            Err(m) => r matches Err(e) && e@ == m,
        },
{
    match engine_audio("chatterbox", success, stderr, audio) {
        Ok(b) => Ok(ChatterboxResponse { audio_base64: b, format: "wav".to_owned() }),
        Err(e) => Err(e),
    }
}

} // verus!
