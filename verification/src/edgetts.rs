//! edge-tts (Microsoft Neural voices) and its public fallbacks: the
//! subprocess arguments, the subtitle parser used for read-along
//! timing, the language of a voice, and the URLs of the StreamElements
//! and Google Translate speech endpoints.

use vstd::prelude::*;
use crate::codec::utf8_decode;
use crate::render::caption_lines;
use crate::text::{
    ascii_lower, chars_of, contains, eq_ignore_ascii_case, eq_ignore_ascii_case_exec, find_from,
    find_from_exec, join, join_chars, lemma_chars_deep_view, lemma_find_from, lines, lines_of,
    occurs_at, push_all, push_range, push_str, replace_char, replace_char_chars, split_on,
    split_on_exec, starts_with, starts_with_exec, str_eq, string_from_chars, strings_from, trim,
    trim_chars, words,
};

verus! {

broadcast use vstd::string::group_string_axioms;

/// What to synthesize with edge-tts.
#[derive(Debug, Clone)]
pub struct TtsRequest {
    pub text: String,
    pub voice: String,
    /// Signed percentage like `+15%`, or none for the default rate.
    pub rate: Option<String>,
    /// Signed pitch offset, or none for the default pitch.
    pub pitch: Option<String>,
}

// ---------------------------------------------------------------------
// Voice language
// ---------------------------------------------------------------------

/// The language code used for the public speech fallbacks, from the
/// voice's locale prefix (`en` when unknown; `zh-CN` for Chinese).
pub open spec fn voice_language(voice: Seq<char>) -> Seq<char> {
    if starts_with(voice, "en-"@) {
        "en"@
    } else if starts_with(voice, "es-"@) {
        "es"@
    } else if starts_with(voice, "fr-"@) {
        "fr"@
    } else if starts_with(voice, "de-"@) {
        "de"@
    } else if starts_with(voice, "pt-"@) {
        "pt"@
    } else if starts_with(voice, "hi-"@) {
        "hi"@
    } else if starts_with(voice, "ja-"@) {
        "ja"@
    } else if starts_with(voice, "ko-"@) {
        "ko"@
    } else if starts_with(voice, "zh-"@) {
        "zh-CN"@
    } else if starts_with(voice, "ar-"@) {
        "ar"@
    } else {
        "en"@
    }
}

/// The language of an edge-tts voice, from its locale prefix.
pub fn voice_to_language(voice: &str) -> (r: String)
    ensures
        r@ == voice_language(voice@),
{
    let v = chars_of(voice);
    if starts_with_exec(&v, "en-") {
        "en".to_owned()
    } else if starts_with_exec(&v, "es-") {
        "es".to_owned()
    } else if starts_with_exec(&v, "fr-") {
        "fr".to_owned()
    } else if starts_with_exec(&v, "de-") {
        "de".to_owned()
    } else if starts_with_exec(&v, "pt-") {
        "pt".to_owned()
    } else if starts_with_exec(&v, "hi-") {
        "hi".to_owned()
    } else if starts_with_exec(&v, "ja-") {
        "ja".to_owned()
    } else if starts_with_exec(&v, "ko-") {
        "ko".to_owned()
    } else if starts_with_exec(&v, "zh-") {
        "zh-CN".to_owned()
    } else if starts_with_exec(&v, "ar-") {
        "ar".to_owned()
    } else {
        "en".to_owned()
    }
}

/// The StreamElements (Amazon Polly) voice standing in for an edge voice.
pub open spec fn streamelements_voice(voice: Seq<char>) -> Seq<char> {
    if voice == "en-US-AriaNeural"@ || voice == "en-US-JennyNeural"@ {
        "Amy"@
    } else if voice == "en-US-GuyNeural"@ {
        "Brian"@
    } else {
        "Amy"@
    }
}

/// StreamElements voice for an edge-tts voice: Brian for Guy, Amy
/// otherwise (Aria and Jenny included).
pub fn voice_to_streamelements(voice: &str) -> (r: &'static str)
    ensures
        r@ == streamelements_voice(voice@),
{
    if str_eq(voice, "en-US-AriaNeural") || str_eq(voice, "en-US-JennyNeural") {
        "Amy"
    } else if str_eq(voice, "en-US-GuyNeural") {
        "Brian"
    } else {
        "Amy"
    }
}

// ---------------------------------------------------------------------
// URL encoding
// ---------------------------------------------------------------------

/// Uppercase hexadecimal digit for `d < 16`.
pub open spec fn hex_upper(d: nat) -> char {
    if d < 10 {
        ((d + 48) as u8) as char
    } else {
        ((d + 55) as u8) as char
    }
}

/// Bytes passed through unescaped: ASCII letters, digits and `-_.~`.
pub open spec fn unreserved(b: u8) -> bool {
    (65 <= b <= 90) || (97 <= b <= 122) || (48 <= b <= 57) || b == 45 || b == 95 || b == 46
        || b == 126
}

/// Percent-encoding of UTF-8 bytes: unreserved bytes as themselves, every
/// other byte as `%XX` with uppercase hex.
pub open spec fn percent_encoded(bytes: Seq<u8>) -> Seq<char>
    decreases bytes.len(),
{
    if bytes.len() == 0 {
        Seq::empty()
    } else {
        let b = bytes.last();
        percent_encoded(bytes.drop_last()) + if unreserved(b) {
            seq![b as char]
        } else {
            seq!['%', hex_upper((b / 16) as nat), hex_upper((b % 16) as nat)]
        }
    }
}

/// Characters a URL query value may carry as themselves: ASCII letters,
/// digits, `-`, `_`, `.` and `~`.
pub open spec fn url_safe_char(c: char) -> bool {
    ||| ('A' <= c && c <= 'Z')
    ||| ('a' <= c && c <= 'z')
    ||| ('0' <= c && c <= '9')
    ||| c == '-'
    ||| c == '_'
    ||| c == '.'
    ||| c == '~'
}

/// The value of an uppercase hexadecimal digit.
pub open spec fn hex_value(c: char) -> nat {
    if '0' <= c && c <= '9' {
        (c as nat - 48) as nat
    } else if 'A' <= c && c <= 'F' {
        (c as nat - 55) as nat
    } else {
        0
    }
}

/// Percent-decoding: `%XY` is the byte with hex value `XY`, and any other
/// character is the byte of its code.
pub open spec fn percent_decoded(s: Seq<char>) -> Seq<u8>
    decreases s.len(),
{
    if s.len() == 0 {
        Seq::empty()
    } else if s[0] == '%' && s.len() >= 3 {
        seq![(hex_value(s[1]) * 16 + hex_value(s[2])) as u8] + percent_decoded(s.skip(3))
    } else {
        seq![s[0] as u8] + percent_decoded(s.drop_first())
    }
}

/// The encoding of one byte.
spec fn byte_token(b: u8) -> Seq<char> {
    if unreserved(b) {
        seq![b as char]
    } else {
        seq!['%', hex_upper((b / 16) as nat), hex_upper((b % 16) as nat)]
    }
}

proof fn lemma_byte_token(b: u8)
    ensures
        forall|j: int|
            0 <= j < byte_token(b).len() ==> url_safe_char(#[trigger] byte_token(b)[j])
                || byte_token(b)[j] == '%',
        unreserved(b) <==> url_safe_char(b as char),
        unreserved(b) ==> byte_token(b) == seq![b as char] && b as char != '%' && (b as char) as u8
            == b,
        !unreserved(b) ==> byte_token(b).len() == 3 && byte_token(b)[0] == '%' && (hex_value(
            byte_token(b)[1],
        ) * 16 + hex_value(byte_token(b)[2])) as u8 == b,
{
    let hi = (b / 16) as nat;
    let lo = (b % 16) as nat;
    assert(hex_value(hex_upper(hi)) == hi);
    assert(hex_value(hex_upper(lo)) == lo);
    assert(url_safe_char(hex_upper(hi)));
    assert(url_safe_char(hex_upper(lo)));
    assert(hi * 16 + lo == b);
}

proof fn lemma_percent_encoded_front(bytes: Seq<u8>)
    requires
        bytes.len() > 0,
    ensures
        percent_encoded(bytes) == byte_token(bytes[0]) + percent_encoded(bytes.drop_first()),
    decreases bytes.len(),
{
    assert(percent_encoded(bytes) == percent_encoded(bytes.drop_last()) + byte_token(bytes.last()));
    if bytes.len() == 1 {
        assert(bytes.drop_last().len() == 0);
        assert(bytes.drop_first().len() == 0);
        assert(bytes.last() == bytes[0]);
        assert(percent_encoded(bytes.drop_last()) == Seq::<char>::empty());
        assert(percent_encoded(bytes.drop_first()) == Seq::<char>::empty());
        assert(byte_token(bytes[0]) + Seq::<char>::empty() == byte_token(bytes[0]));
        assert(Seq::<char>::empty() + byte_token(bytes[0]) == byte_token(bytes[0]));
    } else {
        let p = bytes.drop_last();
        let q = bytes.drop_first();
        lemma_percent_encoded_front(p);
        assert(p.drop_first() == q.drop_last());
        assert(q.last() == bytes.last());
        assert(p[0] == bytes[0]);
        assert(percent_encoded(q) == percent_encoded(q.drop_last()) + byte_token(q.last()));
        assert(byte_token(bytes[0]) + percent_encoded(p.drop_first()) + byte_token(bytes.last())
            == byte_token(bytes[0]) + (percent_encoded(p.drop_first()) + byte_token(bytes.last())));
    }
}

proof fn lemma_decode_encoded(bytes: Seq<u8>, y: Seq<char>)
    ensures
        percent_decoded(percent_encoded(bytes) + y) == bytes + percent_decoded(y),
    decreases bytes.len(),
{
    if bytes.len() == 0 {
        assert(percent_encoded(bytes) + y == y);
        assert(bytes + percent_decoded(y) == percent_decoded(y));
    } else {
        let b = bytes[0];
        let rest = bytes.drop_first();
        lemma_percent_encoded_front(bytes);
        lemma_byte_token(b);
        lemma_decode_encoded(rest, y);
        let z = percent_encoded(rest) + y;
        let s = byte_token(b) + z;
        assert(percent_encoded(bytes) + y == s);
        if unreserved(b) {
            assert(s[0] == b as char);
            assert(s.drop_first() == z);
        } else {
            assert(s[0] == '%');
            assert(s[1] == byte_token(b)[1]);
            assert(s[2] == byte_token(b)[2]);
            assert(s.skip(3) == z);
        }
        assert(bytes == seq![b] + rest);
    }
}

proof fn lemma_percent_encoded_shape(bytes: Seq<u8>)
    ensures
        forall|j: int|
            0 <= j < percent_encoded(bytes).len() ==> url_safe_char(#[trigger] percent_encoded(bytes)[j])
                || percent_encoded(bytes)[j] == '%',
        forall|j: int|
            0 <= j < percent_encoded(bytes).len() && #[trigger] percent_encoded(bytes)[j] == '%' ==> j
                + 2 < percent_encoded(bytes).len() && !url_safe_char(
                ((hex_value(percent_encoded(bytes)[j + 1]) * 16 + hex_value(
                    percent_encoded(bytes)[j + 2],
                )) as u8) as char,
            ),
    decreases bytes.len(),
{
    if bytes.len() > 0 {
        let p = bytes.drop_last();
        let b = bytes.last();
        lemma_percent_encoded_shape(p);
        lemma_byte_token(b);
        let a = percent_encoded(p);
        let t = byte_token(b);
        let e = percent_encoded(bytes);
        assert(e == a + t);
        assert forall|j: int| 0 <= j < e.len() implies url_safe_char(#[trigger] e[j]) || e[j] == '%' by {
            if j < a.len() {
                assert(e[j] == a[j]);
            } else {
                assert(e[j] == t[j - a.len()]);
            }
        }
        assert forall|j: int| 0 <= j < e.len() && #[trigger] e[j] == '%' implies j + 2 < e.len()
            && !url_safe_char(((hex_value(e[j + 1]) * 16 + hex_value(e[j + 2])) as u8) as char) by {
            if j < a.len() {
                assert(e[j] == a[j]);
                assert(e[j + 1] == a[j + 1]);
                assert(e[j + 2] == a[j + 2]);
            } else {
                assert(e[j] == t[j - a.len()]);
                if unreserved(b) {
                    assert(t[0] == b as char);
                } else {
                    assert(j == a.len());
                    assert(e[j + 1] == t[1]);
                    assert(e[j + 2] == t[2]);
                }
            }
        }
    }
}

/// What URL encoding guarantees: only ASCII letters, digits and `-_.~`
/// stand for themselves, every other character of the result starts a
/// `%XY` escape of a byte that is none of those, and percent-decoding
/// the result gives back the UTF-8 bytes of the input.
pub proof fn lemma_url_encoding_round_trip(s: Seq<char>)
    ensures
        ({
            let r = percent_encoded(vstd::utf8::encode_utf8(s));
            &&& forall|j: int| 0 <= j < r.len() ==> url_safe_char(#[trigger] r[j]) || r[j] == '%'
            &&& forall|j: int|
                0 <= j < r.len() && #[trigger] r[j] == '%' ==> j + 2 < r.len() && !url_safe_char(
                    ((hex_value(r[j + 1]) * 16 + hex_value(r[j + 2])) as u8) as char,
                )
            &&& percent_decoded(r) == vstd::utf8::encode_utf8(s)
        }),
{
    let bytes = vstd::utf8::encode_utf8(s);
    lemma_percent_encoded_shape(bytes);
    lemma_decode_encoded(bytes, Seq::empty());
    assert(percent_encoded(bytes) + Seq::<char>::empty() == percent_encoded(bytes));
    assert(bytes + percent_decoded(Seq::<char>::empty()) == bytes);
}

fn hex_upper_char(d: u8) -> (c: char)
    requires
        d < 16,
    ensures
        c == hex_upper(d as nat),
{
    if d < 10 {
        (d + 48) as char
    } else {
        (d + 55) as char
    }
}

/// Percent-encodes the UTF-8 bytes of `s` for a URL query value.
pub fn url_encode(s: &str) -> (r: String)
    ensures
        r@ == percent_encoded(vstd::utf8::encode_utf8(s@)),
{
    let bytes = s.as_bytes();
    let mut out: Vec<char> = Vec::new();
    let mut i: usize = 0;
    while i < bytes.len()
        invariant
            i <= bytes@.len(),
            bytes@ == vstd::utf8::encode_utf8(s@),
            out@ == percent_encoded(bytes@.take(i as int)),
        decreases bytes@.len() - i,
    {
        assert(bytes@.take(i + 1).drop_last() == bytes@.take(i as int));
        let b = bytes[i];
        if (65 <= b && b <= 90) || (97 <= b && b <= 122) || (48 <= b && b <= 57) || b == 45
            || b == 95 || b == 46 || b == 126 {
            out.push(b as char);
        } else {
            out.push('%');
            out.push(hex_upper_char(b / 16));
            out.push(hex_upper_char(b % 16));
        }
        i += 1;
    }
    assert(bytes@.take(i as int) == bytes@);
    string_from_chars(&out)
}

// ---------------------------------------------------------------------
// Chunking text for the Google speech endpoint
// ---------------------------------------------------------------------

/// `b` cut into consecutive pieces of `m` bytes (the last may be shorter).
pub open spec fn byte_pieces(b: Seq<u8>, m: nat) -> Seq<Seq<u8>>
    decreases b.len(),
{
    if b.len() == 0 || m == 0 {
        Seq::empty()
    } else if b.len() <= m {
        seq![b]
    } else {
        seq![b.subrange(0, m as int)] + byte_pieces(b.subrange(m as int, b.len() as int), m)
    }
}

/// The pieces that are well-formed UTF-8, decoded; the others dropped.
pub open spec fn decodable_pieces(ps: Seq<Seq<u8>>) -> Seq<Seq<char>>
    decreases ps.len(),
{
    if ps.len() == 0 {
        Seq::empty()
    } else {
        (if vstd::utf8::valid_utf8(ps[0]) {
            seq![vstd::utf8::decode_utf8(ps[0])]
        } else {
            Seq::empty()
        }) + decodable_pieces(ps.drop_first())
    }
}

/// Chunks that fit are kept; an over-long one (a single long word) is cut
/// into `m`-byte pieces, keeping those that are valid UTF-8.
pub open spec fn chunks_fitted(cs: Seq<Seq<char>>, m: nat) -> Seq<Seq<char>>
    decreases cs.len(),
{
    if cs.len() == 0 {
        Seq::empty()
    } else {
        chunks_fitted(cs.drop_last(), m) + if cs.last().len() <= m {
            seq![cs.last()]
        } else {
            decodable_pieces(byte_pieces(vstd::utf8::encode_utf8(cs.last()), m))
        }
    }
}

/// `text` split into chunks of at most `m` characters for the Google
/// speech endpoint: as is when it fits, otherwise greedily by words.
pub open spec fn text_chunks(text: Seq<char>, m: nat) -> Seq<Seq<char>> {
    if text.len() <= m {
        seq![text]
    } else {
        chunks_fitted(caption_lines(text, m), m)
    }
}

/// Well-formed UTF-8 never decodes to more characters than it has bytes.
pub proof fn lemma_decode_len(b: Seq<u8>)
    requires
        vstd::utf8::valid_utf8(b),
    ensures
        vstd::utf8::decode_utf8(b).len() <= b.len(),
    decreases b.len(),
{
    if b.len() > 0 {
        let l = vstd::utf8::length_of_first_scalar(b);
        assert(1 <= l <= 4);
        assert(l <= b.len());
        let rest = vstd::utf8::pop_first_scalar(b);
        assert(rest.len() == b.len() - l);
        lemma_decode_len(rest);
    }
}

proof fn lemma_decodable_short(ps: Seq<Seq<u8>>, m: nat)
    requires
        forall|k: int| 0 <= k < ps.len() ==> #[trigger] ps[k].len() <= m,
    ensures
        forall|k: int|
            0 <= k < decodable_pieces(ps).len() ==> #[trigger] decodable_pieces(ps)[k].len() <= m,
    decreases ps.len(),
{
    if ps.len() > 0 {
        let t = ps.drop_first();
        assert forall|k: int| 0 <= k < t.len() implies #[trigger] t[k].len() <= m by {
            assert(t[k] == ps[k + 1]);
        }
        lemma_decodable_short(t, m);
        if vstd::utf8::valid_utf8(ps[0]) {
            lemma_decode_len(ps[0]);
            let h = seq![vstd::utf8::decode_utf8(ps[0])];
            assert forall|k: int|
                0 <= k < decodable_pieces(ps).len() implies #[trigger] decodable_pieces(ps)[k].len()
                <= m by {
                if k > 0 {
                    assert(decodable_pieces(ps)[k] == decodable_pieces(t)[k - 1]);
                }
            }
        } else {
            assert(decodable_pieces(ps) == decodable_pieces(t));
        }
    }
}

proof fn lemma_byte_pieces_short(b: Seq<u8>, m: nat)
    ensures
        forall|k: int| 0 <= k < byte_pieces(b, m).len() ==> #[trigger] byte_pieces(b, m)[k].len() <= m,
    decreases b.len(),
{
    if b.len() > m && m > 0 {
        let rest = b.subrange(m as int, b.len() as int);
        lemma_byte_pieces_short(rest, m);
        assert forall|k: int| 0 <= k < byte_pieces(b, m).len() implies #[trigger] byte_pieces(b, m)[k].len() <= m by {
            if k > 0 {
                assert(byte_pieces(b, m)[k] == byte_pieces(rest, m)[k - 1]);
            }
        }
    }
}

proof fn lemma_chunks_fitted_short(cs: Seq<Seq<char>>, m: nat)
    ensures
        forall|k: int|
            0 <= k < chunks_fitted(cs, m).len() ==> #[trigger] chunks_fitted(cs, m)[k].len() <= m,
    decreases cs.len(),
{
    if cs.len() > 0 {
        lemma_chunks_fitted_short(cs.drop_last(), m);
        let a = chunks_fitted(cs.drop_last(), m);
        let last = cs.last();
        if last.len() <= m {
            assert forall|k: int| 0 <= k < chunks_fitted(cs, m).len() implies #[trigger] chunks_fitted(cs, m)[k].len() <= m by {
                if k < a.len() {
                    assert(chunks_fitted(cs, m)[k] == a[k]);
                }
            }
        } else {
            let ps = byte_pieces(vstd::utf8::encode_utf8(last), m);
            lemma_byte_pieces_short(vstd::utf8::encode_utf8(last), m);
            lemma_decodable_short(ps, m);
            let d = decodable_pieces(ps);
            assert forall|k: int| 0 <= k < chunks_fitted(cs, m).len() implies #[trigger] chunks_fitted(cs, m)[k].len() <= m by {
                if k < a.len() {
                    assert(chunks_fitted(cs, m)[k] == a[k]);
                } else {
                    assert(chunks_fitted(cs, m)[k] == d[k - a.len()]);
                }
            }
        }
    }
}

/// The decodable `m`-byte pieces of `b`, decoded.
fn decoded_byte_pieces(b: &[u8], m: usize) -> (r: Vec<Vec<char>>)
    requires
        m > 0,
    ensures
        r.deep_view() == decodable_pieces(byte_pieces(b@, m as nat)),
{
    let n = b.len();
    let mut out: Vec<Vec<char>> = Vec::new();
    let mut off: usize = 0;
    assert(b@.subrange(0, n as int) == b@);
    while off < n
        invariant
            n == b@.len(),
            m > 0,
            off <= n,
            out.deep_view() + decodable_pieces(byte_pieces(b@.subrange(off as int, n as int), m as nat))
                == decodable_pieces(byte_pieces(b@, m as nat)),
        decreases n - off,
    {
        let ghost t = b@.subrange(off as int, n as int);
        let end: usize = if n - off <= m { n } else { off + m };
        let mut piece: Vec<u8> = Vec::new();
        let mut k = off;
        while k < end
            invariant
                off <= k <= end <= n,
                n == b@.len(),
                piece@ == b@.subrange(off as int, k as int),
            decreases end - k,
        {
            piece.push(b[k]);
            k += 1;
            assert(piece@ == b@.subrange(off as int, k as int));
        }
        proof {
            let bp = byte_pieces(t, m as nat);
            if n - off <= m {
                assert(bp == seq![t]);
                assert(bp.drop_first() == Seq::<Seq<u8>>::empty());
            } else {
                assert(t.subrange(0, m as int) == piece@);
                assert(t.subrange(m as int, t.len() as int) == b@.subrange(end as int, n as int));
                assert(bp.drop_first() == byte_pieces(b@.subrange(end as int, n as int), m as nat));
            }
            assert(bp[0] == piece@);
        }
        let ghost before = out.deep_view();
        match utf8_decode(piece.as_slice()) {
            Some(s) => {
                let cs = chars_of(&s);
                proof {
                    crate::text::lemma_chars_deep_view(&cs);
                }
                let ghost cv = cs@;
                out.push(cs);
                assert(out.deep_view() =~= before.push(cv));
            },
            None => {},
        }
        off = end;
    }
    assert(out.deep_view() + decodable_pieces(byte_pieces(b@.subrange(n as int, n as int), m as nat))
        == out.deep_view());
    out
}

/// Splits text into chunks of at most `max_chars` characters for the
/// Google speech endpoint: short text stays whole; longer text is wrapped
/// greedily by words, and a word longer than the limit is cut into
/// `max_chars`-byte pieces, keeping those that are valid UTF-8.
pub fn chunk_text(text: &str, max_chars: usize) -> (r: Vec<String>)
    requires
        max_chars > 0 || words(text@).len() == 0,
    ensures
        r.deep_view() == text_chunks(text@, max_chars as nat),
        forall|k: int| 0 <= k < r.len() ==> #[trigger] r.deep_view()[k].len() <= max_chars,
{
    let n = crate::text::char_count(text);
    if n <= max_chars {
        let one = vec![chars_of(text)];
        proof {
            crate::text::lemma_chars_deep_view(&one[0]);
            assert(one.deep_view() =~= seq![text@]);
        }
        return strings_from(one);
    }
    let lines = crate::render::split_caption_lines(text, max_chars);
    let mut out: Vec<Vec<char>> = Vec::new();
    let mut i: usize = 0;
    let ghost cs = lines.deep_view();
    while i < lines.len()
        invariant
            i <= lines.len(),
            cs == lines.deep_view(),
            cs == caption_lines(text@, max_chars as nat),
            max_chars > 0 || words(text@).len() == 0,
            out.deep_view() == chunks_fitted(cs.take(i as int), max_chars as nat),
        decreases lines.len() - i,
    {
        assert(cs.take(i + 1).drop_last() == cs.take(i as int));
        assert(cs.take(i + 1).last() == cs[i as int]);
        let ghost before = out.deep_view();
        let c = chars_of(&lines[i]);
        if c.len() <= max_chars {
            proof {
                crate::text::lemma_chars_deep_view(&c);
            }
            let ghost cv = c@;
            out.push(c);
            assert(out.deep_view() =~= before.push(cv));
        } else {
            proof {
                if max_chars == 0 {
                    crate::render::lemma_words_nonempty_lines(text@, max_chars as nat);
                }
            }
            let bytes = lines[i].as_str().as_bytes();
            let pieces = decoded_byte_pieces(bytes, max_chars);
            let mut k: usize = 0;
            while k < pieces.len()
                invariant
                    k <= pieces.len(),
                    out.deep_view() == before + pieces.deep_view().take(k as int),
                decreases pieces.len() - k,
            {
                let mut p: Vec<char> = Vec::new();
                push_all(&mut p, &pieces[k]);
                proof {
                    crate::text::lemma_chars_deep_view(&p);
                    crate::text::lemma_chars_deep_view(&pieces[k as int]);
                }
                let ghost pv = p@;
                let ghost mid = out.deep_view();
                out.push(p);
                assert(out.deep_view() =~= mid.push(pv));
                assert(pieces.deep_view().take(k + 1) =~= pieces.deep_view().take(k as int).push(pv));
                k += 1;
            }
            assert(pieces.deep_view().take(k as int) == pieces.deep_view());
        }
        i += 1;
    }
    assert(cs.take(i as int) == cs);
    proof {
        lemma_chunks_fitted_short(cs, max_chars as nat);
    }
    strings_from(out)
}

// ---------------------------------------------------------------------
// Subtitle parsing (SRT / VTT from edge-tts)
// ---------------------------------------------------------------------

/// A subtitle cue: its text and its start and end timestamps, each given
/// as its `:`-separated fields (`[h, m, s]` or `[m, s]`) with a `,`
/// millisecond separator already turned into `.`. Converting the fields
/// to seconds is left to the caller.
#[derive(Debug, Clone)]
pub struct SubtitleCue {
    pub text: String,
    pub start: Vec<String>,
    pub end: Vec<String>,
}

/// Mathematical view of a [`SubtitleCue`].
pub struct SubtitleCueView {
    pub text: Seq<char>,
    pub start: Seq<Seq<char>>,
    pub end: Seq<Seq<char>>,
}

impl DeepView for SubtitleCue {
    type V = SubtitleCueView;

    open spec fn deep_view(&self) -> SubtitleCueView {
        SubtitleCueView {
            text: self.text@,
            start: self.start.deep_view(),
            end: self.end.deep_view(),
        }
    }
}

/// The `-->` separating a cue's start and end times.
pub open spec fn arrow() -> Seq<char> {
    seq!['-', '-', '>']
}

/// The block separator: an empty line.
pub open spec fn blank_line() -> Seq<char> {
    seq!['\n', '\n']
}

/// Reading a block's lines: blank lines and a `WEBVTT` header are
/// skipped, a line with `-->` is the timing line (a later one replaces an
/// earlier one), and lines after the timing line are text. Lines are
/// trimmed.
pub open spec fn block_fold(ls: Seq<Seq<char>>) -> (Option<Seq<char>>, Seq<Seq<char>>)
    decreases ls.len(),
{
    if ls.len() == 0 {
        (None, Seq::empty())
    } else {
        let prev = block_fold(ls.drop_last());
        let t = trim(ls.last());
        if t.len() == 0 || eq_ignore_ascii_case(t, "WEBVTT"@) {
            prev
        } else if contains(t, arrow()) {
            (Some(t), prev.1)
        } else if prev.0 is Some {
            (prev.0, prev.1.push(t))
        } else {
            prev
        }
    }
}

/// The fields of a timestamp (`HH:MM:SS,mmm`, `HH:MM:SS.mmm` or
/// `MM:SS.mmm`): `,` turned into `.`, split at `:`; none unless there are
/// two or three fields.
pub open spec fn timestamp_fields(s: Seq<char>) -> Option<Seq<Seq<char>>> {
    let parts = split_on(replace_char(s, ',', seq!['.']), seq![':']);
    if parts.len() == 2 || parts.len() == 3 {
        Some(parts)
    } else {
        None
    }
}

/// The cue a block describes, if it has a timing line with two valid
/// timestamps and non-empty text.
pub open spec fn block_cue(block: Seq<char>) -> Option<SubtitleCueView> {
    let st = block_fold(lines(block));
    match st.0 {
        None => None,
        Some(tl) => {
            let k = find_from(tl, arrow(), 0);
            let left = tl.subrange(0, k);
            let right = tl.subrange(k + 3, tl.len() as int);
            match (timestamp_fields(trim(left)), timestamp_fields(trim(right))) {
                (Some(a), Some(b)) => {
                    let text = trim(join(st.1, seq![' ']));
                    if text.len() > 0 {
                        Some(SubtitleCueView { text, start: a, end: b })
                    } else {
                        None
                    }
                },
                _ => None,
            }
        },
    }
}

/// The cues of all blocks, in order.
pub open spec fn cues_of_blocks(blocks: Seq<Seq<char>>) -> Seq<SubtitleCueView>
    decreases blocks.len(),
{
    if blocks.len() == 0 {
        Seq::empty()
    } else {
        cues_of_blocks(blocks.drop_last()) + match block_cue(blocks.last()) {
            Some(c) => seq![c],
            None => Seq::empty(),
        }
    }
}

/// The cues of edge-tts subtitle output (SRT or VTT): blocks are
/// separated by an empty line.
pub open spec fn subtitle_cues_spec(content: Seq<char>) -> Seq<SubtitleCueView> {
    cues_of_blocks(split_on(content, blank_line()))
}

/// A trimmed line that holds a cue's time range.
pub open spec fn is_timing_line(l: Seq<char>) -> bool {
    contains(trim(l), arrow())
}

/// A trimmed line that is cue text: not blank, not a `WEBVTT` header and
/// not a time range.
pub open spec fn is_text_line(t: Seq<char>) -> bool {
    t.len() > 0 && !eq_ignore_ascii_case(t, "WEBVTT"@) && !contains(t, arrow())
}

/// The text of a line, trimmed, when it is cue text.
pub open spec fn text_of_line(l: Seq<char>) -> Option<Seq<char>> {
    if is_text_line(trim(l)) {
        Some(trim(l))
    } else {
        None
    }
}

proof fn lemma_block_fold_no_timing(ls: Seq<Seq<char>>)
    requires
        forall|i: int| 0 <= i < ls.len() ==> !is_timing_line(#[trigger] ls[i]),
    ensures
        block_fold(ls).0 is None,
        block_fold(ls).1.len() == 0,
    decreases ls.len(),
{
    if ls.len() > 0 {
        let p = ls.drop_last();
        assert forall|i: int| 0 <= i < p.len() implies !is_timing_line(#[trigger] p[i]) by {
            assert(p[i] == ls[i]);
        }
        lemma_block_fold_no_timing(p);
        assert(!is_timing_line(ls[ls.len() - 1]));
    }
}

/// A block's text lines: with `f` the first line holding a time range,
/// they are all the lines after it that are cue text, each trimmed, in
/// order; lines before the time range never count.
pub proof fn lemma_block_text_lines(ls: Seq<Seq<char>>, f: int)
    requires
        0 <= f < ls.len(),
        is_timing_line(ls[f]),
        forall|i: int| 0 <= i < f ==> !is_timing_line(#[trigger] ls[i]),
    ensures
        block_fold(ls).0 is Some,
        block_fold(ls).1 == ls.skip(f + 1).filter_map(|l: Seq<char>| text_of_line(l)),
    decreases ls.len(),
{
    let g = |l: Seq<char>| text_of_line(l);
    let t = trim(ls.last());
    if ls.len() == f + 1 {
        let p = ls.drop_last();
        assert forall|i: int| 0 <= i < p.len() implies !is_timing_line(#[trigger] p[i]) by {
            assert(p[i] == ls[i]);
        }
        lemma_block_fold_no_timing(p);
        assert(ls.skip(f + 1).len() == 0);
        assert(t.len() > 0) by {
            let j = choose|j: int| occurs_at(t, arrow(), j);
            assert(t.subrange(j, j + 3).len() == 3);
        }
        assert(!eq_ignore_ascii_case(t, "WEBVTT"@)) by {
            reveal_strlit("WEBVTT");
            if eq_ignore_ascii_case(t, "WEBVTT"@) {
                let j = choose|j: int| occurs_at(t, arrow(), j);
                assert(t.subrange(j, j + 3)[0] == '-');
                assert(t[j] == '-');
                assert(ascii_lower(t[j]) == ascii_lower("WEBVTT"@[j]));
            }
        }
    } else {
        let p = ls.drop_last();
        assert forall|i: int| 0 <= i < f implies !is_timing_line(#[trigger] p[i]) by {
            assert(p[i] == ls[i]);
        }
        assert(p[f] == ls[f]);
        lemma_block_text_lines(p, f);
        let s = ls.skip(f + 1);
        assert(s.drop_last() == p.skip(f + 1));
        assert(s.last() == ls.last());
        assert(s.filter_map(g) == p.skip(f + 1).filter_map(g) + match g(ls.last()) {
            Some(x) => seq![x],
            None => Seq::empty(),
        });
        if t.len() == 0 || eq_ignore_ascii_case(t, "WEBVTT"@) {
        } else if contains(t, arrow()) {
        } else {
            assert(block_fold(p).1.push(t) == block_fold(p).1 + seq![t]);
        }
    }
}

/// A cue's text is all of its block's text lines after the time range,
/// each trimmed, joined with single spaces and trimmed.
pub proof fn lemma_cue_text(block: Seq<char>, f: int)
    requires
        0 <= f < lines(block).len(),
        is_timing_line(lines(block)[f]),
        forall|i: int| 0 <= i < f ==> !is_timing_line(#[trigger] lines(block)[i]),
    ensures
        block_cue(block) matches Some(c) ==> c.text == trim(
            join(lines(block).skip(f + 1).filter_map(|l: Seq<char>| text_of_line(l)), seq![' ']),
        ),
{
    lemma_block_text_lines(lines(block), f);
}

fn block_state(ls: &Vec<Vec<char>>) -> (r: (Option<Vec<char>>, Vec<Vec<char>>))
    ensures
        (match r.0 {
            Some(t) => Some(t@),
            None => None,
        }) == block_fold(ls.deep_view()).0,
        r.1.deep_view() == block_fold(ls.deep_view()).1,
        r.0 matches Some(t) ==> contains(t@, arrow()),
{
    let webvtt = chars_of("WEBVTT");
    let arr = vec!['-', '-', '>'];
    assert(arr@ == arrow());
    let mut time: Option<Vec<char>> = None;
    let mut texts: Vec<Vec<char>> = Vec::new();
    let mut i: usize = 0;
    let ghost lv = ls.deep_view();
    while i < ls.len()
        invariant
            i <= ls.len(),
            lv == ls.deep_view(),
            webvtt@ == "WEBVTT"@,
            arr@ == arrow(),
            (match time {
                Some(t) => Some(t@),
                None => None,
            }) == block_fold(lv.take(i as int)).0,
            texts.deep_view() == block_fold(lv.take(i as int)).1,
            time matches Some(t) ==> contains(t@, arrow()),
        decreases ls.len() - i,
    {
        assert(lv.take(i + 1).drop_last() == lv.take(i as int));
        proof {
            lemma_chars_deep_view(&ls[i as int]);
        }
        assert(lv.take(i + 1).last() == ls[i as int]@);
        let t = trim_chars(&ls[i]);
        if t.len() == 0 || eq_ignore_ascii_case_exec(&t, &webvtt) {
        } else {
            let found = find_from_exec(&t, &arr, 0);
            proof {
                lemma_find_from(t@, arrow(), 0);
                if found is None {
                    if contains(t@, arrow()) {
                        let w = choose|w: int| occurs_at(t@, arrow(), w);
                        assert(occurs_at(t@, arrow(), w));
                    }
                }
            }
            if found.is_some() {
                proof {
                    assert(occurs_at(t@, arrow(), found->0 as int));
                }
                time = Some(t);
            } else if time.is_some() {
                proof {
                    lemma_chars_deep_view(&t);
                }
                let ghost before = texts.deep_view();
                let ghost tv = t@;
                texts.push(t);
                assert(texts.deep_view() =~= before.push(tv));
            }
        }
        i += 1;
    }
    assert(lv.take(i as int) == lv);
    (time, texts)
}

fn timestamp_fields_exec(s: &Vec<char>) -> (r: Option<Vec<Vec<char>>>)
    ensures
        match r {
            Some(v) => timestamp_fields(s@) == Some(v.deep_view()),
            None => timestamp_fields(s@) is None,
        },
{
    let dot = vec!['.'];
    let colon = vec![':'];
    assert(dot@ == seq!['.']);
    assert(colon@ == seq![':']);
    let r = replace_char_chars(s, ',', &dot);
    let parts = split_on_exec(&r, &colon);
    if parts.len() == 2 || parts.len() == 3 {
        Some(parts)
    } else {
        None
    }
}

fn block_cue_exec(block: &Vec<char>) -> (r: Option<SubtitleCue>)
    ensures
        match r {
            Some(c) => block_cue(block@) == Some(c.deep_view()),
            None => block_cue(block@) is None,
        },
{
    let ls = lines_of(block);
    let (time, texts) = block_state(&ls);
    match time {
        None => None,
        Some(tl) => {
            let arr = vec!['-', '-', '>'];
            assert(arr@ == arrow());
            proof {
                lemma_find_from(tl@, arrow(), 0);
                assert(contains(tl@, arrow()));
                let w = choose|w: int| occurs_at(tl@, arrow(), w);
                assert(occurs_at(tl@, arrow(), w));
            }
            let k = match find_from_exec(&tl, &arr, 0) {
                Some(k) => k,
                None => {
                    return None;
                },
            };
            let mut left: Vec<char> = Vec::new();
            push_range(&mut left, &tl, 0, k);
            let mut right: Vec<char> = Vec::new();
            push_range(&mut right, &tl, k + 3, tl.len());
            let lt = trim_chars(&left);
            let rt = trim_chars(&right);
            match (timestamp_fields_exec(&lt), timestamp_fields_exec(&rt)) {
                (Some(a), Some(b)) => {
                    let sp = vec![' '];
                    assert(sp@ == seq![' ']);
                    let joined = join_chars(&texts, &sp);
                    let text = trim_chars(&joined);
                    if text.len() > 0 {
                        let a_s = strings_from(a);
                        let b_s = strings_from(b);
                        Some(SubtitleCue { text: string_from_chars(&text), start: a_s, end: b_s })
                    } else {
                        None
                    }
                },
                _ => None,
            }
        },
    }
}

/// Parses edge-tts subtitle output (SRT or VTT) into cues. Tolerates both
/// `,` and `.` millisecond separators, bare SRT sequence numbers and a
/// `WEBVTT` header; blocks without a timing line, with malformed
/// timestamps or without text yield no cue.
pub fn parse_subtitle_cues(content: &str) -> (r: Vec<SubtitleCue>)
    ensures
        r.deep_view() == subtitle_cues_spec(content@),
{
    let c = chars_of(content);
    let sep = vec!['\n', '\n'];
    assert(sep@ == blank_line());
    let blocks = split_on_exec(&c, &sep);
    let ghost bv = blocks.deep_view();
    let mut out: Vec<SubtitleCue> = Vec::new();
    let mut i: usize = 0;
    while i < blocks.len()
        invariant
            i <= blocks.len(),
            bv == blocks.deep_view(),
            out.deep_view() == cues_of_blocks(bv.take(i as int)),
        decreases blocks.len() - i,
    {
        assert(bv.take(i + 1).drop_last() == bv.take(i as int));
        proof {
            lemma_chars_deep_view(&blocks[i as int]);
        }
        assert(bv.take(i + 1).last() == blocks[i as int]@);
        let ghost before = out.deep_view();
        match block_cue_exec(&blocks[i]) {
            Some(cue) => {
                let ghost cv = cue.deep_view();
                out.push(cue);
                assert(out.deep_view() =~= before.push(cv));
            },
            None => {
                assert(before + Seq::<SubtitleCueView>::empty() == before);
            },
        }
        i += 1;
    }
    assert(bv.take(i as int) == bv);
    out
}

// ---------------------------------------------------------------------
// Requests to the engines
// ---------------------------------------------------------------------

fn push_arg(args: &mut Vec<String>, s: &str)
    ensures
        final(args).deep_view() == old(args).deep_view().push(s@),
{
    let ghost before = args.deep_view();
    args.push(s.to_owned());
    assert(args.deep_view() =~= before.push(s@));
}

/// An optional flag is passed only when its value is non-empty.
pub open spec fn optional_flag(flag: Seq<char>, value: Option<Seq<char>>) -> Seq<Seq<char>> {
    match value {
        Some(v) => if v.len() > 0 {
            seq![flag, v]
        } else {
            Seq::empty()
        },
        None => Seq::empty(),
    }
}

/// Arguments of `python -m edge_tts` for one synthesis.
pub open spec fn edge_tts_args_spec(
    text: Seq<char>,
    voice: Seq<char>,
    rate: Option<Seq<char>>,
    pitch: Option<Seq<char>>,
    media: Seq<char>,
    subtitles: Seq<char>,
) -> Seq<Seq<char>> {
    seq!["-m"@, "edge_tts"@, "--text"@, text, "--voice"@, voice] + optional_flag("--rate"@, rate)
        + optional_flag("--pitch"@, pitch) + seq![
        "--write-media"@,
        media,
        "--write-subtitles"@,
        subtitles,
    ]
}

fn opt_view(o: &Option<String>) -> (r: Option<&str>)
    ensures
        match r {
            Some(s) => o matches Some(x) && s@ == x@,
            None => o is None,
        },
{
    match o {
        Some(s) => Some(s.as_str()),
        None => None,
    }
}

/// The arguments of `python -m edge_tts` that write the narration to
/// `media_path` and its subtitles to `subtitle_path`; `--rate` and
/// `--pitch` are passed only when set and non-empty.
pub fn edge_tts_args(req: &TtsRequest, media_path: &str, subtitle_path: &str) -> (r: Vec<String>)
    ensures
        r.deep_view() == edge_tts_args_spec(
            req.text@,
            req.voice@,
            match req.rate {
                Some(x) => Some(x@),
                None => None,
            },
            match req.pitch {
                Some(x) => Some(x@),
                None => None,
            },
            media_path@,
            subtitle_path@,
        ),
{
    let mut args: Vec<String> = Vec::new();
    push_arg(&mut args, "-m");
    push_arg(&mut args, "edge_tts");
    push_arg(&mut args, "--text");
    push_arg(&mut args, &req.text);
    push_arg(&mut args, "--voice");
    push_arg(&mut args, &req.voice);
    let ghost base = args.deep_view();
    match opt_view(&req.rate) {
        Some(rate) => {
            if crate::text::char_count(rate) > 0 {
                push_arg(&mut args, "--rate");
                push_arg(&mut args, rate);
            }
        },
        None => {},
    }
    let ghost with_rate = args.deep_view();
    match opt_view(&req.pitch) {
        Some(pitch) => {
            if crate::text::char_count(pitch) > 0 {
                push_arg(&mut args, "--pitch");
                push_arg(&mut args, pitch);
            }
        },
        None => {},
    }
    let ghost with_pitch = args.deep_view();
    push_arg(&mut args, "--write-media");
    push_arg(&mut args, media_path);
    push_arg(&mut args, "--write-subtitles");
    push_arg(&mut args, subtitle_path);
    assert(args.deep_view() =~= edge_tts_args_spec(
        req.text@,
        req.voice@,
        match req.rate {
            Some(x) => Some(x@),
            None => None,
        },
        match req.pitch {
            Some(x) => Some(x@),
            None => None,
        },
        media_path@,
        subtitle_path@,
    ));
    args
}

/// The StreamElements speech URL for a request.
pub open spec fn streamelements_url_spec(text: Seq<char>, voice: Seq<char>) -> Seq<char> {
    "https://api.streamelements.com/kappa/v2/speech?voice="@ + streamelements_voice(voice) + "&text="@
        + percent_encoded(vstd::utf8::encode_utf8(text))
}

/// The URL of the StreamElements (English) speech fallback.
pub fn streamelements_url(req: &TtsRequest) -> (r: String)
    ensures
        r@ == streamelements_url_spec(req.text@, req.voice@),
{
    let mut out: Vec<char> = Vec::new();
    push_str(&mut out, "https://api.streamelements.com/kappa/v2/speech?voice=");
    push_str(&mut out, voice_to_streamelements(&req.voice));
    push_str(&mut out, "&text=");
    let enc = url_encode(&req.text);
    push_str(&mut out, &enc);
    string_from_chars(&out)
}

/// The Google Translate speech URL for one chunk.
pub open spec fn google_tts_url_spec(chunk: Seq<char>, lang: Seq<char>) -> Seq<char> {
    "https://translate.google.com/translate_tts?ie=UTF-8&q="@ + percent_encoded(
        vstd::utf8::encode_utf8(chunk),
    ) + "&tl="@ + lang + "&client=tw-ob"@
}

/// The Google Translate speech URLs, one per 200-character chunk of text.
pub fn google_tts_urls(text: &str, lang: &str) -> (r: Vec<String>)
    ensures
        r.len() == text_chunks(text@, 200).len(),
        forall|k: int|
            0 <= k < r.len() ==> #[trigger] r.deep_view()[k] == google_tts_url_spec(
                text_chunks(text@, 200)[k],
                lang@,
            ),
{
    let chunks = chunk_text(text, 200);
    let mut out: Vec<String> = Vec::new();
    let mut i: usize = 0;
    while i < chunks.len()
        invariant
            i <= chunks.len(),
            chunks.deep_view() == text_chunks(text@, 200),
            out.len() == i,
            forall|k: int|
                0 <= k < i ==> #[trigger] out.deep_view()[k] == google_tts_url_spec(
                    text_chunks(text@, 200)[k],
                    lang@,
                ),
        decreases chunks.len() - i,
    {
        let mut u: Vec<char> = Vec::new();
        push_str(&mut u, "https://translate.google.com/translate_tts?ie=UTF-8&q=");
        let enc = url_encode(&chunks[i]);
        push_str(&mut u, &enc);
        push_str(&mut u, "&tl=");
        push_str(&mut u, lang);
        push_str(&mut u, "&client=tw-ob");
        let s = string_from_chars(&u);
        assert(chunks.deep_view()[i as int] == chunks@[i as int]@);
        let ghost before = out.deep_view();
        out.push(s);
        assert(out.deep_view() =~= before.push(u@));
        i += 1;
    }
    out
}

/// Where synthesis goes when edge-tts fails: the language of the voice,
/// and whether StreamElements is tried first (English voices only)
/// before Google Translate speech.
pub fn public_fallback(voice: &str) -> (r: (String, bool))
    ensures
        r.0@ == voice_language(voice@),
        r.1 == (voice_language(voice@) == "en"@),
{
    let lang = voice_to_language(voice);
    let english = str_eq(&lang, "en");
    (lang, english)
}


/// A speech engine of the public fallback chain.
#[derive(Debug, Clone, Copy, PartialEq, Eq, Structural)]
pub enum PublicEngine {
    /// The edge-tts Python package.
    Edge,
    /// The StreamElements speech endpoint (English voices only).
    StreamElements,
    /// Google Translate speech.
    Google,
}

/// The engines tried, in order, for a voice on the public chain.
pub open spec fn public_engines_spec(voice: Seq<char>) -> Seq<PublicEngine> {
    if voice_language(voice) == "en"@ {
        seq![PublicEngine::Edge, PublicEngine::StreamElements, PublicEngine::Google]
    } else {
        seq![PublicEngine::Edge, PublicEngine::Google]
    }
}

/// The order in which the public engines are tried for `voice`: edge-tts
/// first, then StreamElements for English voices, then Google Translate
/// speech; each failure moves on to the next, and the last one's error is
/// the result.
pub fn public_engines(voice: &str) -> (r: Vec<PublicEngine>)
    ensures
        r@ == public_engines_spec(voice@),
{
    let (_, english) = public_fallback(voice);
    let mut r: Vec<PublicEngine> = Vec::new();
    r.push(PublicEngine::Edge);
    if english {
        r.push(PublicEngine::StreamElements);
    }
    r.push(PublicEngine::Google);
    r
}

} // verus!
