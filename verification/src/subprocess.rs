//! What the library decides around the helper programs it runs (Python
//! engines, FFmpeg): which interpreters to look for, how a tool's stderr
//! progress is cut into the segments shown to the user, and how a
//! finished engine run becomes audio or an error.

use vstd::prelude::*;
use crate::codec::{base64_encode, base64_encoding};
use crate::font::Platform;
use crate::text::{first_lines, first_lines_spec, push_str, string_from_chars, trim, trim_chars};

verus! {

broadcast use vstd::string::group_string_axioms;

// ---------------------------------------------------------------------
// Interpreters
// ---------------------------------------------------------------------

/// Interpreter names tried, in order, when looking for a Python that has
/// an engine package installed.
pub open spec fn python_names(platform: Platform) -> Seq<Seq<char>> {
    match platform {
        Platform::Windows => seq!["python"@, "python3"@, "py"@],
        _ => seq!["python3"@, "python"@],
    }
}

/// Interpreter names tried when looking for a Python that has an engine
/// package installed.
pub fn python_candidates(platform: Platform) -> (r: Vec<String>)
    ensures
        r.deep_view() == python_names(platform),
{
    let r = match platform {
        Platform::Windows => vec!["python".to_owned(), "python3".to_owned(), "py".to_owned()],
        _ => vec!["python3".to_owned(), "python".to_owned()],
    };
    assert(r.deep_view() == python_names(platform));
    r
}

/// Interpreter names tried when any Python 3 will do.
pub open spec fn any_python_names(platform: Platform) -> Seq<Seq<char>> {
    match platform {
        Platform::Windows => seq!["python"@, "python3"@, "py"@],
        _ => seq!["python3"@, "python"@, "py"@],
    }
}

/// Interpreter names tried when any Python 3 will do.
pub fn any_python_candidates(platform: Platform) -> (r: Vec<String>)
    ensures
        r.deep_view() == any_python_names(platform),
{
    let r = match platform {
        Platform::Windows => vec!["python".to_owned(), "python3".to_owned(), "py".to_owned()],
        _ => vec!["python3".to_owned(), "python".to_owned(), "py".to_owned()],
    };
    assert(r.deep_view() == any_python_names(platform));
    r
}

/// File-name suffixes tried for an executable found on `PATH`.
pub fn executable_suffixes() -> (r: Vec<String>)
    ensures
        r.deep_view() == seq![""@, ".exe"@, ".bat"@, ".cmd"@],
{
    let r = vec!["".to_owned(), ".exe".to_owned(), ".bat".to_owned(), ".cmd".to_owned()];
    assert(r.deep_view() == seq![""@, ".exe"@, ".bat"@, ".cmd"@]);
    r
}

// ---------------------------------------------------------------------
// Progress segments
// ---------------------------------------------------------------------

/// Model runtimes report progress on stderr with carriage returns as
/// well as newlines; both end a segment.
pub open spec fn is_segment_end(c: char) -> bool {
    c == '\r' || c == '\n'
}

/// The raw pieces of `s` completed so far, and the piece still open.
pub open spec fn segment_pieces(s: Seq<char>) -> (Seq<Seq<char>>, Seq<char>)
    decreases s.len(),
{
    if s.len() == 0 {
        (Seq::empty(), Seq::empty())
    } else {
        let (done, open) = segment_pieces(s.drop_last());
        if is_segment_end(s.last()) {
            (done.push(open), Seq::empty())
        } else {
            (done, open.push(s.last()))
        }
    }
}

/// The pieces trimmed, blank ones dropped.
pub open spec fn shown_segments(pieces: Seq<Seq<char>>) -> Seq<Seq<char>>
    decreases pieces.len(),
{
    if pieces.len() == 0 {
        Seq::empty()
    } else if trim(pieces.last()).len() > 0 {
        shown_segments(pieces.drop_last()).push(trim(pieces.last()))
    } else {
        shown_segments(pieces.drop_last())
    }
}

/// The segments forwarded for the whole text `s`: every piece between
/// separators, the final unterminated one included, trimmed and
/// non-blank.
pub open spec fn progress_segments_spec(s: Seq<char>) -> Seq<Seq<char>> {
    shown_segments(segment_pieces(s).0.push(segment_pieces(s).1))
}

/// The stderr text collected from the forwarded segments: each followed
/// by a newline.
pub open spec fn collected_text(segs: Seq<Seq<char>>) -> Seq<char>
    decreases segs.len(),
{
    if segs.len() == 0 {
        Seq::empty()
    } else {
        collected_text(segs.drop_last()) + segs.last() + seq!['\n']
    }
}

/// The open segment of a stream being read.
pub struct SegmentBuffer {
    pub pending: Vec<char>,
}

impl SegmentBuffer {
    /// An empty buffer.
    pub fn new() -> (b: Self)
        ensures
            b.pending@ == Seq::<char>::empty(),
    {
        SegmentBuffer { pending: Vec::new() }
    }

    /// Feeds one character. A separator closes the open segment, which is
    /// returned trimmed when it is not blank; any other character extends
    /// it.
    pub fn push(&mut self, c: char) -> (r: Option<String>)
        ensures
            is_segment_end(c) ==> final(self).pending@ == Seq::<char>::empty() && (if trim(
                old(self).pending@,
            ).len() > 0 {
                r matches Some(s) && s@ == trim(old(self).pending@)
            } else {
                r is None
            }),
            !is_segment_end(c) ==> final(self).pending@ == old(self).pending@.push(c) && r is None,
    {
        if c == '\r' || c == '\n' {
            self.flush()
        } else {
            self.pending.push(c);
            None
        }
    }

    /// Closes the open segment, returning it trimmed when it is not blank.
    pub fn flush(&mut self) -> (r: Option<String>)
        ensures
            final(self).pending@ == Seq::<char>::empty(),
            if trim(old(self).pending@).len() > 0 {
                r matches Some(s) && s@ == trim(old(self).pending@)
            } else {
                r is None
            },
    {
        let t = trim_chars(&self.pending);
        self.pending = Vec::new();
        if t.len() > 0 {
            Some(string_from_chars(&t))
        } else {
            None
        }
    }
}

/// The segments forwarded, in order, for a whole stderr text, computed by
/// feeding it through a [`SegmentBuffer`] one character at a time as the
/// reader does.
pub fn progress_segments(text: &str) -> (r: Vec<String>)
    ensures
        r.deep_view() == progress_segments_spec(text@),
{
    let mut chars: Vec<char> = Vec::new();
    push_str(&mut chars, text);
    let mut buf = SegmentBuffer::new();
    let mut out: Vec<String> = Vec::new();
    let mut i: usize = 0;
    while i < chars.len()
        invariant
            i <= chars.len(),
            chars@ == text@,
            out.deep_view() == shown_segments(segment_pieces(chars@.take(i as int)).0),
            buf.pending@ == segment_pieces(chars@.take(i as int)).1,
        decreases chars.len() - i,
    {
        assert(chars@.take(i + 1).drop_last() == chars@.take(i as int));
        let c = chars[i];
        let ghost before = out.deep_view();
        let ghost pieces = segment_pieces(chars@.take(i as int));
        let emitted = buf.push(c);
        match emitted {
            Some(s) => {
                out.push(s);
                assert(out.deep_view() == before.push(trim(pieces.1)));
            },
            None => {},
        }
        proof {
            if is_segment_end(c) {
                assert(pieces.0.push(pieces.1).drop_last() == pieces.0);
            }
        }
        i += 1;
    }
    assert(chars@.take(i as int) == chars@);
    let ghost before = out.deep_view();
    let ghost pieces = segment_pieces(chars@);
    let last = buf.flush();
    match last {
        Some(s) => {
            out.push(s);
            assert(out.deep_view() == before.push(trim(pieces.1)));
        },
        None => {},
    }
    assert(pieces.0.push(pieces.1).drop_last() == pieces.0);
    out
}

/// The stderr text collected from forwarded segments.
pub fn collect_segments(segs: &Vec<String>) -> (r: String)
    ensures
        r@ == collected_text(segs.deep_view()),
{
    let mut out: Vec<char> = Vec::new();
    let mut i: usize = 0;
    while i < segs.len()
        invariant
            i <= segs.len(),
            out@ == collected_text(segs.deep_view().take(i as int)),
        decreases segs.len() - i,
    {
        assert(segs.deep_view().take(i + 1).drop_last() == segs.deep_view().take(i as int));
        push_str(&mut out, &segs[i]);
        out.push('\n');
        i += 1;
    }
    assert(segs.deep_view().take(i as int) == segs.deep_view());
    string_from_chars(&out)
}

// ---------------------------------------------------------------------
// Engine runs
// ---------------------------------------------------------------------

/// What a finished speech-engine run yields: its error when the process
/// failed (with the first five stderr lines) or wrote no audio, the
/// base64 of the audio otherwise.
pub open spec fn engine_audio_spec(
    engine: Seq<char>,
    success: bool,
    stderr: Seq<char>,
    audio: Seq<u8>,
) -> Result<Seq<char>, Seq<char>> {
    if !success {
        Err(engine + " failed: "@ + first_lines_spec(stderr, 5))
    } else if audio.len() == 0 {
        Err(engine + " produced empty audio"@)
    } else {
        Ok(base64_encoding(audio))
    }
}

/// The outcome of a speech-engine run (`edge-tts`, `kokoro`,
/// `chatterbox`) from its exit status, its stderr and the audio file it
/// wrote.
pub fn engine_audio(engine: &str, success: bool, stderr: &str, audio: &[u8]) -> (r: Result<
    String,
    String,
>)
    requires
        audio@.len() <= usize::MAX / 2,
    ensures
        match engine_audio_spec(engine@, success, stderr@, audio@) {
            Ok(b) => r matches Ok(s) && s@ == b,
            Err(m) => r matches Err(e) && e@ == m,
        },
{
    if !success {
        let mut out: Vec<char> = Vec::new();
        push_str(&mut out, engine);
        push_str(&mut out, " failed: ");
        let fl = first_lines(stderr, 5);
        push_str(&mut out, &fl);
        return Err(string_from_chars(&out));
    }
    if audio.len() == 0 {
        let mut out: Vec<char> = Vec::new();
        push_str(&mut out, engine);
        push_str(&mut out, " produced empty audio");
        return Err(string_from_chars(&out));
    }
    Ok(base64_encode(audio))
}

/// What a public speech service's reply yields: an error when it carried
/// no audio, the base64 of the audio otherwise.
pub fn service_audio(service: &str, audio: &[u8]) -> (r: Result<String, String>)
    requires
        audio@.len() <= usize::MAX / 2,
    ensures
        audio@.len() == 0 ==> (r matches Err(e) && e@ == service@ + " returned no audio"@),
        audio@.len() > 0 ==> (r matches Ok(s) && s@ == base64_encoding(audio@)),
{
    if audio.len() == 0 {
        let mut out: Vec<char> = Vec::new();
        push_str(&mut out, service);
        push_str(&mut out, " returned no audio");
        return Err(string_from_chars(&out));
    }
    Ok(base64_encode(audio))
}

} // verus!
