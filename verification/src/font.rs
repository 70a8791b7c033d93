//! Font discovery results for FFmpeg's `drawtext` filter.
//!
//! `drawtext` needs a concrete `fontfile` path. The application probes a
//! platform-ordered list of known font files and copies the first usable
//! one into the render work directory as `font.ttf`; this module holds the
//! candidate lists, turns the probe outcome into a structured
//! [`FontResolution`], and escapes the chosen path for the filter parser.

use vstd::prelude::*;
use crate::text::{
    chars_of, occurs_at, replace_all, lemma_replace_char_concat, lemma_replace_char_removes, push_str, remove_char,
    replace_char, replace_char_chars, str_eq, string_from_chars,
};

verus! {

broadcast use vstd::string::group_string_axioms;

// ---------------------------------------------------------------------
// Escaping the font path for the filter graph
// ---------------------------------------------------------------------

/// The render path escaped for `drawtext=fontfile=`: backslashes doubled,
/// colons escaped, apostrophes dropped.
pub open spec fn fontfile_escaped(p: Seq<char>) -> Seq<char> {
    replace_char(
        replace_char(replace_char(p, '\\', seq!['\\', '\\']), ':', seq!['\\', ':']),
        '\'',
        Seq::empty(),
    )
}

/// How FFmpeg's filter parser reads an escaped value: a backslash takes
/// the next character literally.
pub open spec fn filter_unescape(s: Seq<char>) -> Seq<char>
    decreases s.len(),
{
    if s.len() == 0 {
        s
    } else if s[0] == '\\' && s.len() >= 2 {
        seq![s[1]] + filter_unescape(s.subrange(2, s.len() as int))
    } else {
        seq![s[0]] + filter_unescape(s.drop_first())
    }
}

/// Escaping of a single character.
pub open spec fn escape_one(c: char) -> Seq<char> {
    if c == '\\' {
        seq!['\\', '\\']
    } else if c == ':' {
        seq!['\\', ':']
    } else if c == '\'' {
        Seq::empty()
    } else {
        seq![c]
    }
}

/// Character-by-character form of [`fontfile_escaped`].
pub open spec fn escape_each(p: Seq<char>) -> Seq<char>
    decreases p.len(),
{
    if p.len() == 0 {
        p
    } else {
        escape_one(p[0]) + escape_each(p.drop_first())
    }
}

proof fn lemma_escape_single(c: char)
    ensures
        fontfile_escaped(seq![c]) == escape_one(c),
{
    reveal_with_fuel(replace_char, 3);
    let s1 = seq!['\\', '\\'];
    let s2 = seq!['\\', ':'];
    assert(seq![c].drop_last() == Seq::<char>::empty());
    assert(s1.drop_last() == seq!['\\']);
    assert(seq!['\\'].drop_last() == Seq::<char>::empty());
    assert(s2.drop_last() == seq!['\\']);
    let a = replace_char(seq![c], '\\', s1);
    if c == '\\' {
        assert(a == s1);
        let b = replace_char(a, ':', s2);
        assert(replace_char(seq!['\\'], ':', s2) == seq!['\\']);
        assert(b == s1);
        assert(replace_char(seq!['\\'], '\'', Seq::empty()) == seq!['\\']);
        assert(replace_char(b, '\'', Seq::empty()) == s1);
    } else {
        assert(a == seq![c]);
        let b = replace_char(a, ':', s2);
        if c == ':' {
            assert(b == s2);
            assert(replace_char(seq!['\\'], '\'', Seq::empty()) == seq!['\\']);
            assert(replace_char(b, '\'', Seq::empty()) == s2);
        } else {
            assert(b == seq![c]);
        }
    }
}

/// The three passes of [`fontfile_escaped`] act character by character.
pub proof fn lemma_escape_each(p: Seq<char>)
    ensures
        fontfile_escaped(p) == escape_each(p),
    decreases p.len(),
{
    if p.len() == 0 {
    } else {
        let h = seq![p[0]];
        let t = p.drop_first();
        assert(p == h + t);
        let s1 = seq!['\\', '\\'];
        let s2 = seq!['\\', ':'];
        lemma_replace_char_concat(h, t, '\\', s1);
        lemma_replace_char_concat(replace_char(h, '\\', s1), replace_char(t, '\\', s1), ':', s2);
        lemma_replace_char_concat(
            replace_char(replace_char(h, '\\', s1), ':', s2),
            replace_char(replace_char(t, '\\', s1), ':', s2),
            '\'',
            Seq::empty(),
        );
        lemma_escape_single(p[0]);
        lemma_escape_each(t);
    }
}

proof fn lemma_unescape_escape_each(p: Seq<char>)
    ensures
        filter_unescape(escape_each(p)) == remove_char(p, '\''),
    decreases p.len(),
{
    if p.len() > 0 {
        let c = p[0];
        let t = p.drop_first();
        let rest = escape_each(t);
        lemma_unescape_escape_each(t);
        let e = escape_one(c) + rest;
        if c == '\\' || c == ':' {
            assert(e[0] == '\\');
            assert(e[1] == c);
            assert(e.subrange(2, e.len() as int) == rest);
        } else if c == '\'' {
            assert(e == rest);
        } else {
            assert(e[0] == c);
            assert(e.drop_first() == rest);
        }
    }
}

/// Reading the escaped path back the way FFmpeg's filter parser does
/// yields the input path, less any apostrophes: every colon and
/// backslash of the path reaches FFmpeg literally.
pub proof fn lemma_fontfile_escape_round_trip(p: Seq<char>)
    ensures
        filter_unescape(fontfile_escaped(p)) == remove_char(p, '\''),
{
    lemma_escape_each(p);
    lemma_unescape_escape_each(p);
}

/// `s` with every non-overlapping occurrence of the two-character
/// pattern `a b`, found left to right, replaced by `r`: the behaviour of
/// `str::replace` with a two-character pattern.
pub open spec fn replace_pair(s: Seq<char>, a: char, b: char, r: Seq<char>) -> Seq<char>
    decreases s.len(),
{
    if s.len() == 0 {
        s
    } else if s.len() >= 2 && s[0] == a && s[1] == b {
        r + replace_pair(s.subrange(2, s.len() as int), a, b, r)
    } else {
        seq![s[0]] + replace_pair(s.drop_first(), a, b, r)
    }
}

/// The path with apostrophes dropped and backslashes still doubled: what
/// is left of the escaped path once its escaped colons are read back.
spec fn colons_read_back(p: Seq<char>) -> Seq<char>
    decreases p.len(),
{
    if p.len() == 0 {
        p
    } else {
        let c = p[0];
        let head: Seq<char> = if c == '\\' {
            seq!['\\', '\\']
        } else if c == '\'' {
            Seq::empty()
        } else {
            seq![c]
        };
        head + colons_read_back(p.drop_first())
    }
}

proof fn lemma_escape_each_shape(p: Seq<char>)
    ensures
        escape_each(p).len() > 0 ==> escape_each(p)[0] != ':',
        forall|j: int| 0 <= j < escape_each(p).len() ==> escape_each(p)[j] != '\'',
        forall|j: int|
            0 <= j < escape_each(p).len() && #[trigger] escape_each(p)[j] == ':' ==> 1 <= j
                && escape_each(p)[j - 1] == '\\',
    decreases p.len(),
{
    if p.len() > 0 {
        let t = p.drop_first();
        lemma_escape_each_shape(t);
        let h = escape_one(p[0]);
        let rest = escape_each(t);
        let e = h + rest;
        assert(escape_each(p) == e);
        assert forall|j: int| 0 <= j < e.len() implies e[j] != '\'' by {
            if j >= h.len() {
                assert(e[j] == rest[j - h.len()]);
            }
        }
        assert forall|j: int| 0 <= j < e.len() && #[trigger] e[j] == ':' implies 1 <= j && e[j - 1] == '\\' by {
            if j >= h.len() {
                assert(e[j] == rest[j - h.len()]);
                if j - h.len() >= 1 {
                    assert(e[j - 1] == rest[j - 1 - h.len()]);
                }
            }
        }
    }
}

proof fn lemma_colons_read_back(p: Seq<char>)
    ensures
        replace_pair(escape_each(p), '\\', ':', seq![':']) == colons_read_back(p),
    decreases p.len(),
{
    if p.len() > 0 {
        let c = p[0];
        let t = p.drop_first();
        let rest = escape_each(t);
        lemma_colons_read_back(t);
        lemma_escape_each_shape(t);
        let e = escape_one(c) + rest;
        assert(escape_each(p) == e);
        if c == '\\' {
            assert(e[0] == '\\' && e[1] == '\\');
            assert(e.drop_first() == seq!['\\'] + rest);
            let e1 = seq!['\\'] + rest;
            assert(e1.drop_first() == rest);
            if rest.len() > 0 {
                assert(e1[1] == rest[0]);
            }
            assert(replace_pair(e1, '\\', ':', seq![':']) == seq!['\\'] + replace_pair(
                rest,
                '\\',
                ':',
                seq![':'],
            ));
            assert(replace_pair(e, '\\', ':', seq![':']) == seq!['\\'] + replace_pair(
                e1,
                '\\',
                ':',
                seq![':'],
            ));
            assert(seq!['\\'] + (seq!['\\'] + colons_read_back(t)) == seq!['\\', '\\']
                + colons_read_back(t));
        } else if c == ':' {
            assert(e[0] == '\\' && e[1] == ':');
            assert(e.subrange(2, e.len() as int) == rest);
        } else if c == '\'' {
            assert(e == rest);
        } else {
            assert(e[0] == c);
            assert(e.drop_first() == rest);
        }
    }
}

proof fn lemma_backslashes_read_back(p: Seq<char>)
    ensures
        replace_pair(colons_read_back(p), '\\', '\\', seq!['\\']) == remove_char(p, '\''),
    decreases p.len(),
{
    if p.len() > 0 {
        let c = p[0];
        let t = p.drop_first();
        let rest = colons_read_back(t);
        lemma_backslashes_read_back(t);
        if c == '\\' {
            let m = seq!['\\', '\\'] + rest;
            assert(colons_read_back(p) == m);
            assert(m[0] == '\\' && m[1] == '\\');
            assert(m.subrange(2, m.len() as int) == rest);
        } else if c == '\'' {
            assert(colons_read_back(p) == rest);
        } else {
            let m = seq![c] + rest;
            assert(colons_read_back(p) == m);
            assert(m[0] == c);
            assert(m.drop_first() == rest);
        }
    }
}

proof fn lemma_replace_pair_is_replace_all(s: Seq<char>, a: char, b: char, r: Seq<char>)
    ensures
        replace_pair(s, a, b, r) == replace_all(s, seq![a, b], r),
    decreases s.len(),
{
    let pat = seq![a, b];
    if s.len() > 0 {
        if s.len() >= 2 {
            assert(occurs_at(s, pat, 0) <==> (s[0] == a && s[1] == b)) by {
                if s[0] == a && s[1] == b {
                    assert(s.subrange(0, 2) == pat);
                }
                if occurs_at(s, pat, 0) {
                    assert(s.subrange(0, 2)[0] == s[0]);
                    assert(s.subrange(0, 2)[1] == s[1]);
                }
            }
            assert(s.skip(2) == s.subrange(2, s.len() as int));
            lemma_replace_pair_is_replace_all(s.subrange(2, s.len() as int), a, b, r);
        }
        lemma_replace_pair_is_replace_all(s.drop_first(), a, b, r);
    }
}

/// The escaped font path holds no apostrophe, every colon in it is
/// escaped by the backslash before it, and replacing `\:` by `:` and
/// then `\\` by `\` gives back the path with its apostrophes removed.
pub proof fn lemma_fontfile_escape_undone_by_replacements(p: Seq<char>)
    ensures
        !fontfile_escaped(p).contains('\''),
        forall|j: int|
            0 <= j < fontfile_escaped(p).len() && #[trigger] fontfile_escaped(p)[j] == ':' ==> 1 <= j
                && fontfile_escaped(p)[j - 1] == '\\',
        replace_pair(
            replace_pair(fontfile_escaped(p), '\\', ':', seq![':']),
            '\\',
            '\\',
            seq!['\\'],
        ) == remove_char(p, '\''),
        replace_all(
            replace_all(fontfile_escaped(p), seq!['\\', ':'], seq![':']),
            seq!['\\', '\\'],
            seq!['\\'],
        ) == remove_char(p, '\''),
{
    lemma_replace_pair_is_replace_all(fontfile_escaped(p), '\\', ':', seq![':']);
    lemma_replace_pair_is_replace_all(
        replace_pair(fontfile_escaped(p), '\\', ':', seq![':']),
        '\\',
        '\\',
        seq!['\\'],
    );
    lemma_escape_each(p);
    lemma_escape_each_shape(p);
    lemma_colons_read_back(p);
    lemma_backslashes_read_back(p);
}

/// Escapes a render path so it is safe inside the FFmpeg `drawtext=`
/// filter graph: backslashes are doubled, colons escaped and apostrophes
/// removed.
pub fn escape_fontfile_for_filter(render_path: &str) -> (r: String)
    ensures
        r@ == fontfile_escaped(render_path@),
        filter_unescape(r@) == remove_char(render_path@, '\''),
{
    let v = chars_of(render_path);
    let bs = vec!['\\', '\\'];
    let colon = vec!['\\', ':'];
    let none: Vec<char> = Vec::new();
    assert(bs@ == seq!['\\', '\\']);
    assert(colon@ == seq!['\\', ':']);
    assert(none@ == Seq::<char>::empty());
    let a = replace_char_chars(&v, '\\', &bs);
    let b = replace_char_chars(&a, ':', &colon);
    let c = replace_char_chars(&b, '\'', &none);
    proof {
        lemma_fontfile_escape_round_trip(render_path@);
    }
    string_from_chars(&c)
}

// ---------------------------------------------------------------------
// Candidates and install hints
// ---------------------------------------------------------------------

/// The operating system the application runs on.
#[derive(Debug, Clone, Copy, PartialEq, Eq, Structural)]
pub enum Platform {
    Windows,
    MacOs,
    /// Linux and every other Unix-like system.
    Other,
}

/// The platform named by Rust's `std::env::consts::OS` value.
pub open spec fn platform_named(os: Seq<char>) -> Platform {
    if os == "windows"@ {
        Platform::Windows
    } else if os == "macos"@ {
        Platform::MacOs
    } else {
        Platform::Other
    }
}

/// The platform named by an operating-system name (`windows`, `macos`,
/// `linux`, ...).
pub fn platform_from_os(os: &str) -> (r: Platform)
    ensures
        r == platform_named(os@),
{
    if str_eq(os, "windows") {
        Platform::Windows
    } else if str_eq(os, "macos") {
        Platform::MacOs
    } else {
        Platform::Other
    }
}

/// Known font files per platform, in order of preference (a TTF before
/// a TTC, since `drawtext` handles TTF more reliably).
pub open spec fn candidate_paths(platform: Platform) -> Seq<Seq<char>> {
    match platform {
        Platform::Windows => seq![
            "C:\\Windows\\Fonts\\arial.ttf"@,
            "C:\\Windows\\Fonts\\segoeui.ttf"@,
            "C:\\Windows\\Fonts\\consola.ttf"@,
            "C:\\Windows\\Fonts\\calibri.ttf"@,
            "C:\\Windows\\Fonts\\verdana.ttf"@,
            "C:\\Windows\\Fonts\\tahoma.ttf"@,
        ],
        Platform::MacOs => seq![
            "/System/Library/Fonts/Supplemental/Arial.ttf"@,
            "/Library/Fonts/Arial.ttf"@,
            "/System/Library/Fonts/SFNS.ttf"@,
            "/System/Library/Fonts/Helvetica.ttc"@,
            "/System/Library/Fonts/HelveticaNeue.ttc"@,
        ],
        Platform::Other => seq![
            "/usr/share/fonts/truetype/dejavu/DejaVuSans.ttf"@,
            "/usr/share/fonts/truetype/liberation/LiberationSans-Regular.ttf"@,
            "/usr/share/fonts/truetype/freefont/FreeSans.ttf"@,
            "/usr/share/fonts/TTF/DejaVuSans.ttf"@,
            "/usr/share/fonts/dejavu/DejaVuSans.ttf"@,
            "/usr/share/fonts/liberation/LiberationSans-Regular.ttf"@,
        ],
    }
}

/// `p` ends with `suffix`.
pub open spec fn ends_with(p: Seq<char>, suffix: Seq<char>) -> bool {
    suffix.len() <= p.len() && p.subrange(p.len() - suffix.len(), p.len() as int) == suffix
}

/// The candidate lists prefer TrueType files: on every platform the list
/// is non-empty and every `.ttf` comes before every `.ttc`.
pub proof fn lemma_candidates_ttf_first(platform: Platform)
    ensures
        candidate_paths(platform).len() > 0,
        forall|i: int, j: int|
            0 <= i < j < candidate_paths(platform).len() ==> !(ends_with(
                #[trigger] candidate_paths(platform)[i],
                ".ttc"@,
            ) && ends_with(#[trigger] candidate_paths(platform)[j], ".ttf"@)),
{
    reveal_strlit(".ttc");
    reveal_strlit(".ttf");
    reveal_strlit("C:\\Windows\\Fonts\\arial.ttf");
    reveal_strlit("C:\\Windows\\Fonts\\segoeui.ttf");
    reveal_strlit("C:\\Windows\\Fonts\\consola.ttf");
    reveal_strlit("C:\\Windows\\Fonts\\calibri.ttf");
    reveal_strlit("C:\\Windows\\Fonts\\verdana.ttf");
    reveal_strlit("C:\\Windows\\Fonts\\tahoma.ttf");
    reveal_strlit("/System/Library/Fonts/Supplemental/Arial.ttf");
    reveal_strlit("/Library/Fonts/Arial.ttf");
    reveal_strlit("/System/Library/Fonts/SFNS.ttf");
    reveal_strlit("/System/Library/Fonts/Helvetica.ttc");
    reveal_strlit("/System/Library/Fonts/HelveticaNeue.ttc");
    reveal_strlit("/usr/share/fonts/truetype/dejavu/DejaVuSans.ttf");
    reveal_strlit("/usr/share/fonts/truetype/liberation/LiberationSans-Regular.ttf");
    reveal_strlit("/usr/share/fonts/truetype/freefont/FreeSans.ttf");
    reveal_strlit("/usr/share/fonts/TTF/DejaVuSans.ttf");
    reveal_strlit("/usr/share/fonts/dejavu/DejaVuSans.ttf");
    reveal_strlit("/usr/share/fonts/liberation/LiberationSans-Regular.ttf");
    let c = candidate_paths(platform);
    assert forall|k: int| 0 <= k < c.len() implies (#[trigger] c[k]).len() >= 4 && (ends_with(
        c[k],
        ".ttc"@,
    ) ==> c[k].last() == 'c') && (ends_with(c[k], ".ttf"@) ==> c[k].last() == 'f') by {
        let p = c[k];
        if ends_with(p, ".ttc"@) {
            assert(p.subrange(p.len() - 4, p.len() as int)[3] == p.last());
        }
        if ends_with(p, ".ttf"@) {
            assert(p.subrange(p.len() - 4, p.len() as int)[3] == p.last());
        }
    }
    assert forall|k: int| 0 <= k < c.len() implies ((#[trigger] c[k]).last() == 'c' <==> (
    platform == Platform::MacOs && k >= 3)) by {}
}

fn push_path(v: &mut Vec<String>, s: &str)
    ensures
        final(v).deep_view() == old(v).deep_view().push(s@),
{
    let ghost before = v.deep_view();
    v.push(s.to_owned());
    assert(v.deep_view() =~= before.push(s@));
}

/// Platform-ordered list of font candidates; the first existing file wins.
pub fn default_candidates(platform: Platform) -> (r: Vec<String>)
    ensures
        r.deep_view() == candidate_paths(platform),
{
    let mut v: Vec<String> = Vec::new();
    match platform {
        Platform::Windows => {
            push_path(&mut v, "C:\\Windows\\Fonts\\arial.ttf");
            push_path(&mut v, "C:\\Windows\\Fonts\\segoeui.ttf");
            push_path(&mut v, "C:\\Windows\\Fonts\\consola.ttf");
            push_path(&mut v, "C:\\Windows\\Fonts\\calibri.ttf");
            push_path(&mut v, "C:\\Windows\\Fonts\\verdana.ttf");
            push_path(&mut v, "C:\\Windows\\Fonts\\tahoma.ttf");
        },
        Platform::MacOs => {
            push_path(&mut v, "/System/Library/Fonts/Supplemental/Arial.ttf");
            push_path(&mut v, "/Library/Fonts/Arial.ttf");
            push_path(&mut v, "/System/Library/Fonts/SFNS.ttf");
            push_path(&mut v, "/System/Library/Fonts/Helvetica.ttc");
            push_path(&mut v, "/System/Library/Fonts/HelveticaNeue.ttc");
        },
        Platform::Other => {
            push_path(&mut v, "/usr/share/fonts/truetype/dejavu/DejaVuSans.ttf");
            push_path(&mut v, "/usr/share/fonts/truetype/liberation/LiberationSans-Regular.ttf");
            push_path(&mut v, "/usr/share/fonts/truetype/freefont/FreeSans.ttf");
            push_path(&mut v, "/usr/share/fonts/TTF/DejaVuSans.ttf");
            push_path(&mut v, "/usr/share/fonts/dejavu/DejaVuSans.ttf");
            push_path(&mut v, "/usr/share/fonts/liberation/LiberationSans-Regular.ttf");
        },
    }
    assert(v.deep_view() =~= candidate_paths(platform));
    v
}

/// How to get a usable font on each platform.
pub open spec fn install_hint_text(platform: Platform) -> Seq<char> {
    match platform {
        Platform::Windows => "Install a TrueType font under C:\\Windows\\Fonts (e.g. Arial or Segoe UI)."@,
        Platform::MacOs => "Reinstall macOS system fonts, or copy a .ttf into /Library/Fonts."@,
        Platform::Other => "Install fonts via your package manager: e.g. `sudo apt install fonts-dejavu`."@,
    }
}

/// The platform-appropriate hint shown when no font was found.
pub fn install_hint_for_platform(platform: Platform) -> (r: String)
    ensures
        r@ == install_hint_text(platform),
{
    match platform {
        Platform::Windows => "Install a TrueType font under C:\\Windows\\Fonts (e.g. Arial or Segoe UI).".to_owned(),
        Platform::MacOs => "Reinstall macOS system fonts, or copy a .ttf into /Library/Fonts.".to_owned(),
        Platform::Other => "Install fonts via your package manager: e.g. `sudo apt install fonts-dejavu`.".to_owned(),
    }
}

// ---------------------------------------------------------------------
// Resolution
// ---------------------------------------------------------------------

/// Where the path handed to FFmpeg came from.
#[derive(Debug, Clone, Copy, PartialEq, Eq, Structural)]
pub enum FontRenderKind {
    /// Raw system path (may contain colons or backslashes).
    System,
    /// Safe `font.ttf` copy inside the render work dir.
    Workdir,
    /// Nothing was found.
    Missing,
}

/// Outcome of font discovery, structured so the caller can surface a
/// clear warning instead of a stringly-typed status.
#[derive(Debug, Clone, PartialEq, Eq)]
pub struct FontResolution {
    /// True if a usable font file was located.
    pub found: bool,
    /// Path of the source font discovered on disk.
    pub source_path: Option<String>,
    /// Path to pass to FFmpeg: the staged copy, with colons removed.
    pub render_path: Option<String>,
    pub render_kind: FontRenderKind,
    /// Short human message for status bars.
    pub message: String,
    /// Platform-appropriate install hint when `found` is false.
    pub install_hint: Option<String>,
}

/// One probed candidate: its path, its file name as the platform's path
/// rules give it, and where it was copied when staging succeeded.
#[derive(Debug, Clone)]
pub struct FontStaging {
    pub candidate: String,
    pub file_name: Option<String>,
    pub staged: Option<String>,
}

/// Index of the first candidate that was staged, if any.
pub open spec fn first_staged(attempts: Seq<FontStaging>) -> int
    decreases attempts.len(),
{
    if attempts.len() == 0 {
        -1
    } else if attempts[0].staged is Some {
        0
    } else {
        let rest = first_staged(attempts.drop_first());
        if rest == -1 {
            -1
        } else {
            rest + 1
        }
    }
}

proof fn lemma_first_staged(attempts: Seq<FontStaging>)
    ensures
        -1 <= first_staged(attempts) < attempts.len(),
        first_staged(attempts) == -1 <==> forall|k: int|
            0 <= k < attempts.len() ==> attempts[k].staged is None,
        first_staged(attempts) >= 0 ==> attempts[first_staged(attempts)].staged is Some,
        forall|k: int| 0 <= k < first_staged(attempts) ==> attempts[k].staged is None,
    decreases attempts.len(),
{
    if attempts.len() > 0 && !(attempts[0].staged is Some) {
        let t = attempts.drop_first();
        lemma_first_staged(t);
        assert forall|k: int| 1 <= k < attempts.len() implies attempts[k] == t[k - 1] by {}
        if first_staged(t) == -1 {
            assert forall|k: int| 0 <= k < attempts.len() implies attempts[k].staged is None by {
                if k > 0 {
                    assert(attempts[k] == t[k - 1]);
                }
            }
        }
    }
}

/// Turns the probe of the platform's candidates into a
/// [`FontResolution`]. `attempts` lists, in candidate order, the
/// candidates that exist as files, each with its staged copy when copying
/// it into the work dir succeeded. The first staged candidate wins; its
/// render path is the staged copy with every `:` removed.
pub fn resolve_font(platform: Platform, attempts: &Vec<FontStaging>) -> (r: FontResolution)
    ensures
        r.found <==> first_staged(attempts@) >= 0,
        r.found ==> {
            let a = attempts@[first_staged(attempts@)];
            &&& r.source_path matches Some(p) && p@ == a.candidate@
            &&& r.render_path matches Some(p) && p@ == replace_char(
                a.staged->0@,
                ':',
                Seq::empty(),
            )
            &&& r.render_kind == FontRenderKind::Workdir
            &&& r.message@ == "Using font "@ + match a.file_name {
                Some(n) => n@,
                None => "?"@,
            }
            &&& r.install_hint is None
        },
        !r.found ==> {
            &&& r.source_path is None
            &&& r.render_path is None
            &&& r.render_kind == FontRenderKind::Missing
            &&& r.message@ == "No system font found; drawtext will be skipped"@
            &&& r.install_hint matches Some(h) && h@ == install_hint_text(platform)
        },
        r.render_path matches Some(p) ==> forall|j: int| 0 <= j < p@.len() ==> p@[j] != ':',
{
    proof {
        lemma_first_staged(attempts@);
    }
    let mut k: usize = 0;
    while k < attempts.len()
        invariant
            k <= attempts.len(),
            forall|j: int| 0 <= j < k ==> attempts@[j].staged is None,
            -1 <= first_staged(attempts@) < attempts.len(),
            first_staged(attempts@) == -1 <==> forall|j: int|
                0 <= j < attempts.len() ==> attempts@[j].staged is None,
            first_staged(attempts@) >= 0 ==> attempts@[first_staged(attempts@)].staged is Some,
            forall|j: int| 0 <= j < first_staged(attempts@) ==> attempts@[j].staged is None,
        decreases attempts.len() - k,
    {
        let a = &attempts[k];
        match &a.staged {
            Some(staged) => {
                assert(first_staged(attempts@) == k);
                let sv = chars_of(staged);
                let none: Vec<char> = Vec::new();
                let cleaned = replace_char_chars(&sv, ':', &none);
                proof {
                    lemma_replace_char_removes(sv@, ':');
                }
                let mut msg: Vec<char> = Vec::new();
                push_str(&mut msg, "Using font ");
                match &a.file_name {
                    Some(n) => push_str(&mut msg, n),
                    None => push_str(&mut msg, "?"),
                }
                return FontResolution {
                    found: true,
                    source_path: Some(a.candidate.clone()),
                    render_path: Some(string_from_chars(&cleaned)),
                    render_kind: FontRenderKind::Workdir,
                    message: string_from_chars(&msg),
                    install_hint: None,
                };
            },
            None => {},
        }
        k += 1;
    }
    FontResolution {
        found: false,
        source_path: None,
        render_path: None,
        render_kind: FontRenderKind::Missing,
        message: "No system font found; drawtext will be skipped".to_owned(),
        install_hint: Some(install_hint_for_platform(platform)),
    }
}

} // verus!
