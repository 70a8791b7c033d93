//! Argos Translate, the offline translator run through Python: the
//! checks made before the subprocess is started and how its output
//! becomes a translation or an error.

use vstd::prelude::*;
use crate::text::{
    first_lines, first_lines_spec, push_str, str_eq, string_from_chars, trim, trim_chars,
};

verus! {

broadcast use vstd::string::group_string_axioms;

/// The answer known without running Argos: an error for an empty
/// language code, the text itself when both codes are the same, and
/// nothing otherwise.
pub open spec fn translate_shortcut(from: Seq<char>, to: Seq<char>, text: Seq<char>) -> Option<
    Result<Seq<char>, Seq<char>>,
> {
    if from.len() == 0 || to.len() == 0 {
        Some(Err("Argos: unsupported language pair"@))
    } else if from == to {
        Some(Ok(text))
    } else {
        None
    }
}

/// The answer for a translation request that needs no subprocess, if
/// there is one.
pub fn translate_precheck(from_code: &str, to_code: &str, text: &str) -> (r: Option<
    Result<String, String>,
>)
    ensures
        match translate_shortcut(from_code@, to_code@, text@) {
            Some(Ok(t)) => r matches Some(Ok(s)) && s@ == t,
            Some(Err(m)) => r matches Some(Err(e)) && e@ == m,
            None => r is None,
        },
{
    if from_code.unicode_len() == 0 || to_code.unicode_len() == 0 {
        return Some(Err("Argos: unsupported language pair".to_owned()));
    }
    if str_eq(from_code, to_code) {
        return Some(Ok(text.to_owned()));
    }
    None
}

/// What a finished Argos run yields: its error (first five stderr lines)
/// when it failed, an error when it printed nothing, the trimmed output
/// otherwise.
pub open spec fn translation_reply_spec(success: bool, stdout: Seq<char>, stderr: Seq<char>) -> Result<
    Seq<char>,
    Seq<char>,
> {
    if !success {
        Err("Argos failed: "@ + first_lines_spec(stderr, 5))
    } else if trim(stdout).len() == 0 {
        Err("Argos produced empty output"@)
    } else {
        Ok(trim(stdout))
    }
}

/// What a finished Argos run yields: the translated text or an error.
pub fn translation_reply(success: bool, stdout: &str, stderr: &str) -> (r: Result<String, String>)
    ensures
        match translation_reply_spec(success, stdout@, stderr@) {
            Ok(t) => r matches Ok(s) && s@ == t,
            Err(m) => r matches Err(e) && e@ == m,
        },
{
    if !success {
        let mut out: Vec<char> = Vec::new();
        push_str(&mut out, "Argos failed: ");
        let fl = first_lines(stderr, 5);
        push_str(&mut out, &fl);
        return Err(string_from_chars(&out));
    }
    let mut v: Vec<char> = Vec::new();
    push_str(&mut v, stdout);
    let t = trim_chars(&v);
    if t.len() == 0 {
        return Err("Argos produced empty output".to_owned());
    }
    Ok(string_from_chars(&t))
}

} // verus!
