use pdf2vid::font::Platform;
use pdf2vid::ocr::{
    ocr_failure, ocr_image_bytes, ocr_payload, ocr_script, ocr_text, pip_failure, venv_failure,
    venv_python,
};

#[test]
fn payload_follows_the_base64_marker() {
    assert_eq!(ocr_payload("data:image/png;base64, aGk= "), "aGk=");
    assert_eq!(ocr_payload(" aGk=\n"), "aGk=");
    assert_eq!(ocr_image_bytes("data:image/png;base64,aGk=").unwrap(), b"hi".to_vec());
    assert!(ocr_image_bytes("data:image/png;base64,!!").unwrap_err().starts_with("OCR: invalid image data: "));
}

#[test]
fn ocr_output_and_failures() {
    assert_eq!(ocr_text("{\"text\": \"  line one\\nline two \"}\n"), "line one\nline two");
    assert_eq!(ocr_text("not json"), "");
    assert_eq!(ocr_text("{\"other\": 1}"), "");
    assert_eq!(
        ocr_failure("Traceback\nocr error: no module\nmore"),
        "OCR failed: ocr error: no module"
    );
    assert_eq!(ocr_failure("ValueError: bad\n"), "OCR failed: ValueError: bad");
    assert_eq!(ocr_failure("nothing useful"), "OCR failed: OCR engine failed");
}

#[test]
fn setup_failures_name_the_last_line() {
    assert_eq!(
        venv_failure("warn\n  Error: no venv  \n"),
        "OCR setup could not create a Python venv: Error: no venv"
    );
    assert_eq!(venv_failure(""), "OCR setup could not create a Python venv: unknown error");
    assert_eq!(
        pip_failure(""),
        "Could not auto-install the OCR engine (rapidocr-onnxruntime). Ensure network access is available. "
    );
    assert_eq!(venv_python(Platform::Windows), vec!["Scripts", "python.exe"]);
    assert_eq!(venv_python(Platform::Other), vec!["bin", "python"]);
}

#[test]
fn ocr_script_embeds_the_image_path() {
    let s = ocr_script("/tmp/p.png");
    assert!(s.starts_with("import sys, json\ntry:\n"));
    assert!(s.contains("Image.open(r'/tmp/p.png')"));
    assert!(s.ends_with("sys.exit(2)\n"));
}

#[test]
fn ocr_script_indents_try_and_except_bodies() {
    let s = ocr_script("/tmp/p.png");
    assert!(s.contains("try:\n    from PIL import Image\n"));
    assert!(s.contains("\n    sys.stdout.write("));
    assert!(s.contains("\nexcept Exception as e:\n    sys.stderr.write("));
    assert!(s.ends_with("\n    sys.exit(2)\n"));
    for line in s.lines().skip(2) {
        assert!(line.starts_with("    ") || line == "except Exception as e:");
    }
}

#[test]
fn ocr_image_error_carries_decoder_text() {
    assert_eq!(
        ocr_image_bytes("data:image/png;base64,!!").unwrap_err(),
        "OCR: invalid image data: Invalid symbol 33, offset 0."
    );
}
