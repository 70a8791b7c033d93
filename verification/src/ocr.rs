//! OCR of image-only PDF pages with RapidOCR in a dedicated Python venv:
//! where the venv's interpreter lives, how a page image arrives, the
//! program run on it, and how its output or failure is read.

use vstd::prelude::*;
use crate::codec::{base64_decode, base64_decoding, json_text_field, json_text_field_of};
use crate::font::Platform;
use crate::text::{
    chars_of, contains, contains_exec, find_from, find_from_exec, lemma_find_from, lines,
    lines_of, occurs_at, push_all, push_range, push_str, string_from_chars, trim, trim_chars,
};

verus! {

broadcast use vstd::string::group_string_axioms;

/// The interpreter inside the OCR venv, as path components below the
/// venv directory.
pub open spec fn venv_python_parts(platform: Platform) -> Seq<Seq<char>> {
    match platform {
        Platform::Windows => seq!["Scripts"@, "python.exe"@],
        _ => seq!["bin"@, "python"@],
    }
}

/// The interpreter inside the OCR venv, as path components.
pub fn venv_python(platform: Platform) -> (r: Vec<String>)
    ensures
        r.deep_view() == venv_python_parts(platform),
{
    let r = match platform {
        Platform::Windows => vec!["Scripts".to_owned(), "python.exe".to_owned()],
        _ => vec!["bin".to_owned(), "python".to_owned()],
    };
    assert(r.deep_view() == venv_python_parts(platform));
    r
}

/// The base64 part of a page-image data URL: what follows the first
/// `base64,` (the whole text when there is none), trimmed.
pub open spec fn image_payload(data_url: Seq<char>) -> Seq<char> {
    let k = find_from(data_url, "base64,"@, 0);
    if k == -1 {
        trim(data_url)
    } else {
        trim(data_url.skip(k + 7))
    }
}

/// The base64 part of a page-image data URL.
pub fn ocr_payload(data_url: &str) -> (r: String)
    ensures
        r@ == image_payload(data_url@),
{
    let v = chars_of(data_url);
    let marker = chars_of("base64,");
    proof {
        reveal_strlit("base64,");
    }
    let found = find_from_exec(&v, &marker, 0);
    proof {
        lemma_find_from(v@, marker@, 0);
    }
    let t = match found {
        Some(k) => {
            assert(marker@.len() == 7);
            assert(occurs_at(v@, marker@, k as int));
            assert(k + 7 <= v@.len());
            assert(v@.len() == v.len());
            let mut rest: Vec<char> = Vec::new();
            push_range(&mut rest, &v, k + 7, v.len());
            assert(rest@ == v@.skip(k + 7));
            trim_chars(&rest)
        },
        None => trim_chars(&v),
    };
    string_from_chars(&t)
}

/// The page image decoded from its data URL, or the decoder's error
/// after `OCR: invalid image data: `.
pub fn ocr_image_bytes(data_url: &str) -> (r: Result<Vec<u8>, String>)
    ensures
        match base64_decoding(image_payload(data_url@)) {
            Ok(b) => r matches Ok(v) && v@ == b,
            Err(m) => r matches Err(e) && e@ == "OCR: invalid image data: "@ + m,
        },
{
    let p = ocr_payload(data_url);
    match base64_decode(&p) {
        Ok(b) => Ok(b),
        Err(e) => {
            let mut m: Vec<char> = Vec::new();
            push_str(&mut m, "OCR: invalid image data: ");
            push_str(&mut m, &e);
            Err(string_from_chars(&m))
        },
    }
}

/// The program run by the venv's Python on the page image at
/// `image_path`: it prints `{"text": ...}` with the recognized lines, or
/// writes `ocr error: ...` to stderr and exits with status 2. The
/// program is one line per statement, the `try` and `except` bodies
/// indented, as it is handed to `python -c`.
pub open spec fn ocr_script_spec(image_path: Seq<char>) -> Seq<char> {
    "import sys, json\ntry:\n    from PIL import Image\n    import numpy as np\n    from rapidocr_onnxruntime import RapidOCR\n    img = np.array(Image.open(r'"@
        + image_path
        + "').convert('RGB'))\n    engine = RapidOCR()\n    result, _ = engine(img)\n    texts = [t[1] for t in (result or [])]\n    sys.stdout.write(json.dumps({'text': '\\n'.join(texts)}))\nexcept Exception as e:\n    sys.stderr.write('ocr error: ' + str(e) + '\\n')\n    sys.exit(2)\n"@
}

/// The OCR program for the page image at `image_path`.
pub fn ocr_script(image_path: &str) -> (r: String)
    ensures
        r@ == ocr_script_spec(image_path@),
{
    let mut m: Vec<char> = Vec::new();
    push_str(
        &mut m,
        "import sys, json\ntry:\n    from PIL import Image\n    import numpy as np\n    from rapidocr_onnxruntime import RapidOCR\n    img = np.array(Image.open(r'",
    );
    push_str(&mut m, image_path);
    push_str(
        &mut m,
        "').convert('RGB'))\n    engine = RapidOCR()\n    result, _ = engine(img)\n    texts = [t[1] for t in (result or [])]\n    sys.stdout.write(json.dumps({'text': '\\n'.join(texts)}))\nexcept Exception as e:\n    sys.stderr.write('ocr error: ' + str(e) + '\\n')\n    sys.exit(2)\n",
    );
    string_from_chars(&m)
}

/// A stderr line that explains an OCR failure.
pub open spec fn error_line(l: Seq<char>) -> bool {
    contains(l, "ocr error"@) || contains(l, "Error"@)
}

/// The first explaining line among `ls`, if any.
pub open spec fn first_error_line(ls: Seq<Seq<char>>) -> Option<Seq<char>>
    decreases ls.len(),
{
    if ls.len() == 0 {
        None
    } else if error_line(ls[0]) {
        Some(ls[0])
    } else {
        first_error_line(ls.drop_first())
    }
}

/// The error of a failed OCR run: its first stderr line mentioning an
/// error, or a generic message when there is none.
pub fn ocr_failure(stderr: &str) -> (r: String)
    ensures
        r@ == "OCR failed: "@ + match first_error_line(lines(stderr@)) {
            Some(l) => l,
            None => "OCR engine failed"@,
        },
{
    let v = chars_of(stderr);
    let ls = lines_of(&v);
    let mut m: Vec<char> = Vec::new();
    push_str(&mut m, "OCR failed: ");
    let mut i: usize = 0;
    assert(ls.deep_view().skip(0) == ls.deep_view());
    while i < ls.len()
        invariant
            i <= ls.len(),
            ls.deep_view() == lines(stderr@),
            m@ == "OCR failed: "@,
            first_error_line(ls.deep_view()) == first_error_line(ls.deep_view().skip(i as int)),
        decreases ls.len() - i,
    {
        assert(ls.deep_view().skip(i as int).drop_first() == ls.deep_view().skip(i + 1));
        assert(ls.deep_view()[i as int] == ls@[i as int]@);
        if contains_exec(&ls[i], "ocr error") || contains_exec(&ls[i], "Error") {
            push_all(&mut m, &ls[i]);
            return string_from_chars(&m);
        }
        i += 1;
    }
    push_str(&mut m, "OCR engine failed");
    string_from_chars(&m)
}

/// The recognized text an OCR run printed: the `"text"` field of its JSON
/// output, trimmed; empty when the output has none.
pub open spec fn recognized_text(stdout: Seq<char>) -> Seq<char> {
    match json_text_field_of(trim(stdout)) {
        Some(t) => trim(t),
        None => Seq::empty(),
    }
}

/// The recognized text an OCR run printed.
pub fn ocr_text(stdout: &str) -> (r: String)
    ensures
        r@ == recognized_text(stdout@),
{
    let t = trim_chars(&chars_of(stdout));
    let doc = string_from_chars(&t);
    match json_text_field(&doc) {
        Some(s) => string_from_chars(&trim_chars(&chars_of(&s))),
        None => String::new(),
    }
}

/// The last line of `s`, if it has any.
pub open spec fn last_line(s: Seq<char>) -> Option<Seq<char>> {
    if lines(s).len() == 0 {
        None
    } else {
        Some(lines(s).last())
    }
}

fn last_line_exec(s: &str) -> (r: Option<Vec<char>>)
    ensures
        match last_line(s@) {
            Some(l) => r matches Some(v) && v@ == l,
            None => r is None,
        },
{
    let ls = lines_of(&chars_of(s));
    if ls.len() == 0 {
        None
    } else {
        let mut v: Vec<char> = Vec::new();
        push_all(&mut v, &ls[ls.len() - 1]);
        assert(ls.deep_view().last() == ls@[ls.len() - 1]@);
        Some(v)
    }
}

/// The error when the OCR venv could not be created: the last stderr
/// line, trimmed, or `unknown error`.
pub fn venv_failure(stderr: &str) -> (r: String)
    ensures
        r@ == "OCR setup could not create a Python venv: "@ + trim(
            match last_line(stderr@) {
                Some(l) => l,
                None => "unknown error"@,
            },
        ),
{
    let l = match last_line_exec(stderr) {
        Some(v) => v,
        None => chars_of("unknown error"),
    };
    let mut m: Vec<char> = Vec::new();
    push_str(&mut m, "OCR setup could not create a Python venv: ");
    let t = trim_chars(&l);
    push_all(&mut m, &t);
    string_from_chars(&m)
}

/// The error when pip could not install the OCR engine: a fixed
/// explanation followed by the last stderr line, trimmed.
pub fn pip_failure(stderr: &str) -> (r: String)
    ensures
        r@ == "Could not auto-install the OCR engine (rapidocr-onnxruntime). Ensure network access is available. "@
            + trim(
            match last_line(stderr@) {
                Some(l) => l,
                None => Seq::empty(),
            },
        ),
{
    let l = match last_line_exec(stderr) {
        Some(v) => v,
        None => Vec::new(),
    };
    let mut m: Vec<char> = Vec::new();
    push_str(
        &mut m,
        "Could not auto-install the OCR engine (rapidocr-onnxruntime). Ensure network access is available. ",
    );
    let t = trim_chars(&l);
    push_all(&mut m, &t);
    string_from_chars(&m)
}

} // verus!
