use pdf2vid::argos::{translate_precheck, translation_reply};
use pdf2vid::chatterbox::{chatterbox_reply, check_request, ChatterboxRequest};
use pdf2vid::kokoro::{check_language, kokoro_reply};
use pdf2vid::subprocess::{
    any_python_candidates, collect_segments, engine_audio, executable_suffixes,
    progress_segments, python_candidates, service_audio, SegmentBuffer,
};
use pdf2vid::font::Platform;

#[test]
fn empty_pair_is_rejected() {
    let r = translate_precheck("", "es", "hola").unwrap();
    assert!(r.is_err());
}

#[test]
fn same_language_is_identity() {
    let r = translate_precheck("en", "en", "hello").unwrap().unwrap();
    assert_eq!(r, "hello");
}

#[test]
fn empty_language_is_rejected_fast() {
    let r = check_request(&ChatterboxRequest {
        text: "hello".into(),
        language_id: String::new(),
    });
    assert!(r.is_err());
    assert!(r.unwrap_err().contains("unsupported language"));
}

#[test]
fn empty_lang_is_rejected_fast() {
    let r = check_language("");
    assert!(r.is_err());
    assert!(r.unwrap_err().contains("does not support"));
    assert!(check_language("a").is_ok());
}

#[test]
fn argos_needs_a_run_for_real_pairs() {
    assert!(translate_precheck("en", "es", "hi").is_none());
    assert_eq!(translation_reply(true, "  Hola  \n", "").unwrap(), "Hola");
    assert_eq!(translation_reply(true, " \n", "").unwrap_err(), "Argos produced empty output");
    assert_eq!(
        translation_reply(false, "", "a\nb\nc\nd\ne\nf\n").unwrap_err(),
        "Argos failed: a | b | c | d | e"
    );
}

#[test]
fn engine_runs_become_audio_or_errors() {
    assert_eq!(engine_audio("kokoro", true, "", b"hi").unwrap(), "aGk=");
    assert_eq!(engine_audio("kokoro", true, "", b"").unwrap_err(), "kokoro produced empty audio");
    assert_eq!(engine_audio("edge-tts", false, "bad\r\nworse", b"x").unwrap_err(), "edge-tts failed: bad | worse");
    let k = kokoro_reply(true, "", b"abc").unwrap();
    assert_eq!(k.audio_base64, "YWJj");
    assert_eq!(k.format, "wav");
    assert_eq!(chatterbox_reply(false, "oops", b"").unwrap_err(), "chatterbox failed: oops");
    assert_eq!(service_audio("Google TTS", b"").unwrap_err(), "Google TTS returned no audio");
    assert_eq!(service_audio("StreamElements", b"hi").unwrap(), "aGk=");
}

#[test]
fn forwards_carriage_return_progress_segments() {
    let stderr = "\rProgress 0%\rProgress 25%\rProgress 50%\rProgress 75%\rProgress 100%\ndone\n";
    let seen = progress_segments(stderr);
    assert!(seen.iter().any(|s| s.contains("Progress 0%")), "segments: {seen:?}");
    assert!(seen.iter().any(|s| s.contains("Progress 100%")));
    assert!(seen.iter().any(|s| s == "done"));
    let collected = collect_segments(&seen);
    assert!(collected.contains("done"));
}

#[test]
fn segments_are_trimmed_and_blank_ones_dropped() {
    assert_eq!(progress_segments("  a  \r\r\n b\ntail"), vec!["a", "b", "tail"]);
    assert!(progress_segments("").is_empty());
    assert_eq!(collect_segments(&vec!["x".to_string(), "y".to_string()]), "x\ny\n");
}

#[test]
fn segment_buffer_matches_batch_split() {
    let text = "one\rtwo\n\n three ";
    let mut buf = SegmentBuffer::new();
    let mut live = Vec::new();
    for c in text.chars() {
        if let Some(s) = buf.push(c) {
            live.push(s);
        }
    }
    if let Some(s) = buf.flush() {
        live.push(s);
    }
    assert_eq!(live, progress_segments(text));
}

#[test]
fn interpreter_candidates() {
    assert_eq!(python_candidates(Platform::Windows), vec!["python", "python3", "py"]);
    assert_eq!(python_candidates(Platform::Other), vec!["python3", "python"]);
    assert_eq!(any_python_candidates(Platform::MacOs), vec!["python3", "python", "py"]);
    assert_eq!(executable_suffixes(), vec!["", ".exe", ".bat", ".cmd"]);
}
