//! FFmpeg filter-graph and argument construction for the export.

use vstd::prelude::*;
use crate::font::{escape_fontfile_for_filter, fontfile_escaped, FontRenderKind, FontResolution};
use crate::providers::{edge_voice_for_language, edge_voice_spec, kokoro_voice_for_language, kokoro_voice_spec};
use crate::types::{Project, ProjectWarning, WarningCode, WarningSeverity};
use crate::text::{
    ascii_alphanumeric, chars_of, contains, dec, digit, find_from, find_from_exec, has_char,
    has_char_exec, is_alphanumeric, join, lemma_find_from, lemma_join_push,
    lemma_replace_char_keeps_absent, lemma_replace_char_removes, lemma_words_shape,
    lemma_occurrences_concat, lemma_occurrences_concat_second, lemma_occurrences_missing_char,
    lemma_occurrences_none, lemma_occurrences_self, lemma_occurrences_short, occurrences, occurs_at, is_ws, lemma_replace_all_at, lemma_replace_all_copies, replace_all, push_all, push_dec, push_range, push_str, replace_char, replace_char_chars, str_eq,
    string_from_chars, strings_from, unicode_alphanumeric, words, words_of,
};

verus! {

broadcast use vstd::string::group_string_axioms;

// ---------------------------------------------------------------------
// drawtext text escaping
// ---------------------------------------------------------------------

/// Caption text made safe for a quoted `drawtext=text='...'` value:
/// backslashes doubled, `:` and `%` escaped, apostrophes dropped.
pub open spec fn drawtext_escaped(s: Seq<char>) -> Seq<char> {
    replace_char(
        replace_char(
            replace_char(replace_char(s, '\\', seq!['\\', '\\']), ':', seq!['\\', ':']),
            '\'',
            Seq::empty(),
        ),
        '%',
        seq!['\\', '%'],
    )
}

fn drawtext_escaped_chars(s: &Vec<char>) -> (r: Vec<char>)
    ensures
        r@ == drawtext_escaped(s@),
{
    let bs = vec!['\\', '\\'];
    let colon = vec!['\\', ':'];
    let none: Vec<char> = Vec::new();
    let pct = vec!['\\', '%'];
    assert(bs@ == seq!['\\', '\\']);
    assert(colon@ == seq!['\\', ':']);
    assert(none@ == Seq::<char>::empty());
    assert(pct@ == seq!['\\', '%']);
    let a = replace_char_chars(s, '\\', &bs);
    let b = replace_char_chars(&a, ':', &colon);
    let c = replace_char_chars(&b, '\'', &none);
    replace_char_chars(&c, '%', &pct)
}

/// No apostrophe survives escaping, so the text cannot close the quoted
/// `text='...'` value early.
pub proof fn lemma_drawtext_drops_apostrophes(s: Seq<char>)
    ensures
        forall|j: int| 0 <= j < drawtext_escaped(s).len() ==> drawtext_escaped(s)[j] != '\'',
{
    let a = replace_char(replace_char(s, '\\', seq!['\\', '\\']), ':', seq!['\\', ':']);
    lemma_replace_char_removes(a, '\'');
    let b = replace_char(a, '\'', Seq::empty());
    lemma_replace_char_keeps_absent(b, '%', seq!['\\', '%'], '\'');
}

/// Escapes caption text for FFmpeg's `drawtext` filter.
pub fn sanitize_ffmpeg_drawtext(text: &str) -> (r: String)
    ensures
        r@ == drawtext_escaped(text@),
        forall|j: int| 0 <= j < r@.len() ==> r@[j] != '\'',
{
    proof {
        lemma_drawtext_drops_apostrophes(text@);
    }
    let v = chars_of(text);
    let e = drawtext_escaped_chars(&v);
    string_from_chars(&e)
}

// ---------------------------------------------------------------------
// Caption line wrapping
// ---------------------------------------------------------------------

/// Greedy word-wrap state after laying out `ws`: the finished lines and
/// the line still being filled.
pub open spec fn caption_fold(ws: Seq<Seq<char>>, max: nat) -> (Seq<Seq<char>>, Seq<char>)
    decreases ws.len(),
{
    if ws.len() == 0 {
        (Seq::empty(), Seq::empty())
    } else {
        let prev = caption_fold(ws.drop_last(), max);
        let w = ws.last();
        let broke = prev.1.len() > 0 && prev.1.len() + 1 + w.len() > max;
        let lines = if broke { prev.0.push(prev.1) } else { prev.0 };
        let cur: Seq<char> = if broke { Seq::empty() } else { prev.1 };
        let next: Seq<char> = if cur.len() > 0 { cur + seq![' '] + w } else { cur + w };
        (lines, next)
    }
}

/// Finished lines plus the pending line, when it is not empty.
pub open spec fn flush_line(state: (Seq<Seq<char>>, Seq<char>)) -> Seq<Seq<char>> {
    if state.1.len() > 0 {
        state.0.push(state.1)
    } else {
        state.0
    }
}

/// The caption lines for `text` wrapped at `max` characters.
pub open spec fn caption_lines(text: Seq<char>, max: nat) -> Seq<Seq<char>> {
    flush_line(caption_fold(words(text), max))
}

/// What greedy wrapping keeps: joining the lines with single spaces
/// gives back the words joined with single spaces, no line is empty,
/// and when no word is longer than `max` no line is either.
pub proof fn lemma_caption_fold(ws: Seq<Seq<char>>, max: nat)
    requires
        forall|k: int| 0 <= k < ws.len() ==> #[trigger] ws[k].len() > 0,
    ensures
        ws.len() == 0 ==> caption_fold(ws, max).0.len() == 0 && caption_fold(ws, max).1.len() == 0,
        ws.len() > 0 ==> caption_fold(ws, max).1.len() > 0,
        join(flush_line(caption_fold(ws, max)), seq![' ']) == join(ws, seq![' ']),
        forall|k: int|
            0 <= k < caption_fold(ws, max).0.len() ==> #[trigger] caption_fold(ws, max).0[k].len() > 0,
        (forall|k: int| 0 <= k < ws.len() ==> #[trigger] ws[k].len() <= max) ==> {
            &&& caption_fold(ws, max).1.len() <= max
            &&& forall|k: int|
                0 <= k < caption_fold(ws, max).0.len() ==> #[trigger] caption_fold(ws, max).0[k].len()
                    <= max
        },
    decreases ws.len(),
{
    if ws.len() > 0 {
        let p = ws.drop_last();
        assert forall|k: int| 0 <= k < p.len() implies #[trigger] p[k].len() > 0 by {
            assert(p[k] == ws[k]);
        }
        lemma_caption_fold(p, max);
        let prev = caption_fold(p, max);
        let w = ws.last();
        let sp = seq![' '];
        assert(w.len() > 0);
        assert(ws == p.push(w));
        lemma_join_push(p, sp, w);
        let broke = prev.1.len() > 0 && prev.1.len() + 1 + w.len() > max;
        if broke {
            lemma_join_push(prev.0, sp, prev.1);
            lemma_join_push(prev.0.push(prev.1), sp, w);
        } else if prev.1.len() > 0 {
            lemma_join_push(prev.0, sp, prev.1);
            lemma_join_push(prev.0, sp, prev.1 + sp + w);
            assert(join(prev.0, sp) + sp + (prev.1 + sp + w) == join(prev.0, sp) + sp + prev.1 + sp + w);
        } else {
            lemma_join_push(prev.0, sp, w);
            assert(prev.1 + w == w);
        }
        if forall|k: int| 0 <= k < ws.len() ==> #[trigger] ws[k].len() <= max {
            assert forall|k: int| 0 <= k < p.len() implies #[trigger] p[k].len() <= max by {
                assert(p[k] == ws[k]);
            }
            assert(w.len() <= max);
        }
    }
}

/// The first word of a line: its characters up to the first space.
pub open spec fn first_word(l: Seq<char>) -> Seq<char>
    decreases l.len(),
{
    if l.len() == 0 || l[0] == ' ' {
        Seq::empty()
    } else {
        seq![l[0]] + first_word(l.drop_first())
    }
}

proof fn lemma_first_word_no_space(w: Seq<char>)
    requires
        forall|j: int| 0 <= j < w.len() ==> w[j] != ' ',
    ensures
        first_word(w) == w,
    decreases w.len(),
{
    if w.len() > 0 {
        lemma_first_word_no_space(w.drop_first());
        assert(seq![w[0]] + w.drop_first() == w);
    }
}

proof fn lemma_first_word_extend(x: Seq<char>, y: Seq<char>)
    requires
        x.len() > 0,
    ensures
        first_word(x + seq![' '] + y) == first_word(x),
    decreases x.len(),
{
    let s = x + seq![' '] + y;
    assert(s[0] == x[0]);
    if x[0] != ' ' {
        if x.len() == 1 {
            assert(s.drop_first() == seq![' '] + y);
            assert((seq![' '] + y)[0] == ' ');
            assert(first_word(seq![' '] + y) == Seq::<char>::empty());
            assert(x.drop_first().len() == 0);
            assert(first_word(x.drop_first()) == Seq::<char>::empty());
            assert(seq![x[0]] + Seq::<char>::empty() == seq![x[0]]);
        } else {
            lemma_first_word_extend(x.drop_first(), y);
            assert(s.drop_first() == x.drop_first() + seq![' '] + y);
        }
    }
}

/// Greedy wrapping, stated of the fold: every finished line, followed by
/// a space and the first word of the line after it, is longer than `max`.
proof fn lemma_caption_fold_greedy(ws: Seq<Seq<char>>, max: nat)
    requires
        forall|k: int| 0 <= k < ws.len() ==> #[trigger] ws[k].len() > 0,
        forall|k: int, j: int| 0 <= k < ws.len() && 0 <= j < ws[k].len() ==> #[trigger] ws[k][j] != ' ',
    ensures
        ({
            let st = caption_fold(ws, max);
            &&& forall|k: int|
                0 <= k < st.0.len() - 1 ==> #[trigger] st.0[k].len() + 1 + first_word(st.0[k + 1]).len()
                    > max
            &&& st.0.len() > 0 ==> st.1.len() > 0 && st.0.last().len() + 1 + first_word(st.1).len()
                > max
        }),
    decreases ws.len(),
{
    if ws.len() > 0 {
        let p = ws.drop_last();
        assert forall|k: int| 0 <= k < p.len() implies #[trigger] p[k].len() > 0 by {
            assert(p[k] == ws[k]);
        }
        assert forall|k: int, j: int| 0 <= k < p.len() && 0 <= j < p[k].len() implies #[trigger] p[k][j]
            != ' ' by {
            assert(p[k] == ws[k]);
        }
        lemma_caption_fold_greedy(p, max);
        let prev = caption_fold(p, max);
        let w = ws.last();
        assert forall|j: int| 0 <= j < w.len() implies w[j] != ' ' by {
            assert(w[j] == ws[ws.len() - 1][j]);
        }
        lemma_first_word_no_space(w);
        let broke = prev.1.len() > 0 && prev.1.len() + 1 + w.len() > max;
        let st = caption_fold(ws, max);
        if broke {
            let f = prev.0.push(prev.1);
            assert(st.0 == f);
            assert forall|k: int| 0 <= k < f.len() - 1 implies #[trigger] f[k].len() + 1 + first_word(
                f[k + 1],
            ).len() > max by {
                if k + 1 < prev.0.len() {
                    assert(f[k] == prev.0[k]);
                    assert(f[k + 1] == prev.0[k + 1]);
                } else {
                    assert(f[k] == prev.0.last());
                    assert(f[k + 1] == prev.1);
                }
            }
            assert(st.1 == w);
        } else if prev.1.len() > 0 {
            lemma_first_word_extend(prev.1, w);
            assert(st.1 == prev.1 + seq![' '] + w);
        } else {
            assert(prev.0.len() == 0);
        }
    }
}

/// Greedy wrapping: a line is broken only when the next word does not
/// fit. Every caption line but the last, followed by a space and the
/// first word of the next line, is longer than `max`.
pub proof fn lemma_caption_lines_greedy(text: Seq<char>, max: nat)
    ensures
        forall|k: int|
            0 <= k < caption_lines(text, max).len() - 1 ==> #[trigger] caption_lines(text, max)[k].len()
                + 1 + first_word(caption_lines(text, max)[k + 1]).len() > max,
{
    let ws = words(text);
    lemma_words_shape(text);
    assert forall|k: int, j: int| 0 <= k < ws.len() && 0 <= j < ws[k].len() implies #[trigger] ws[k][j]
        != ' ' by {
        assert(!is_ws(ws[k][j]));
    }
    lemma_caption_fold_greedy(ws, max);
    let st = caption_fold(ws, max);
    let l = caption_lines(text, max);
    if st.1.len() > 0 {
        assert(l == st.0.push(st.1));
        assert forall|k: int| 0 <= k < l.len() - 1 implies #[trigger] l[k].len() + 1 + first_word(
            l[k + 1],
        ).len() > max by {
            if k + 1 < st.0.len() {
                assert(l[k] == st.0[k]);
                assert(l[k + 1] == st.0[k + 1]);
            } else {
                assert(l[k] == st.0.last());
                assert(l[k + 1] == st.1);
            }
        }
    } else {
        assert(st.0.len() == 0);
    }
}

/// Word-wraps caption text into lines of roughly `max_chars` characters
/// so captions show a line at a time. Words are never split.
pub fn split_caption_lines(text: &str, max_chars: usize) -> (r: Vec<String>)
    ensures
        r.deep_view() == caption_lines(text@, max_chars as nat),
        join(r.deep_view(), seq![' ']) == join(words(text@), seq![' ']),
        forall|k: int| 0 <= k < r.len() ==> #[trigger] r.deep_view()[k].len() > 0,
        (forall|k: int| 0 <= k < words(text@).len() ==> #[trigger] words(text@)[k].len() <= max_chars)
            ==> forall|k: int| 0 <= k < r.len() ==> #[trigger] r.deep_view()[k].len() <= max_chars,
{
    let chars = chars_of(text);
    let ws = words_of(&chars);
    let ghost wsv = ws.deep_view();
    let mut lines: Vec<Vec<char>> = Vec::new();
    let mut current: Vec<char> = Vec::new();
    let mut i: usize = 0;
    while i < ws.len()
        invariant
            i <= ws.len(),
            wsv == ws.deep_view(),
            (lines.deep_view(), current@) == caption_fold(wsv.take(i as int), max_chars as nat),
        decreases ws.len() - i,
    {
        assert(wsv.take(i + 1).drop_last() == wsv.take(i as int));
        assert(wsv.take(i + 1).last() == wsv[i as int]);
        let w = &ws[i];
        proof {
            crate::text::lemma_chars_deep_view(w);
        }
        let cur = current.len();
        if cur > 0 && (cur >= max_chars || w.len() > max_chars - cur - 1) {
            let ghost before = lines.deep_view();
            let ghost cv = current@;
            proof {
                crate::text::lemma_chars_deep_view(&current);
            }
            lines.push(current);
            assert(lines.deep_view() =~= before.push(cv));
            current = Vec::new();
        }
        if current.len() > 0 {
            current.push(' ');
        }
        push_all(&mut current, w);
        i += 1;
    }
    assert(wsv.take(i as int) == wsv);
    if current.len() > 0 {
        let ghost before = lines.deep_view();
        let ghost cv = current@;
        proof {
            crate::text::lemma_chars_deep_view(&current);
        }
        lines.push(current);
        assert(lines.deep_view() =~= before.push(cv));
    }
    proof {
        lemma_words_shape(chars@);
        lemma_caption_fold(wsv, max_chars as nat);
    }
    strings_from(lines)
}

// ---------------------------------------------------------------------
// Caption timing
// ---------------------------------------------------------------------

/// How much of the scene a caption line gets: its length, at least one.
pub open spec fn caption_weight(l: Seq<char>) -> nat {
    if l.len() == 0 {
        1
    } else {
        l.len()
    }
}

/// Sum of the weights of `lines`.
pub open spec fn total_weight(lines: Seq<Seq<char>>) -> nat
    decreases lines.len(),
{
    if lines.len() == 0 {
        0
    } else {
        total_weight(lines.drop_last()) + caption_weight(lines.last())
    }
}

/// End frame of a caption window that starts at `acc`.
pub open spec fn window_end(acc: nat, weight: nat, is_last: bool, frames: nat, total: nat) -> nat {
    let share: nat = acc + weight * frames / total;
    let e0: nat = if is_last {
        frames
    } else if share < frames {
        share
    } else {
        frames
    };
    let e1: nat = if e0 < acc + 1 {
        acc + 1
    } else {
        e0
    };
    if e1 < frames {
        e1
    } else {
        frames
    }
}

/// The windows of the first `k` lines and the frame the next one starts at.
pub open spec fn timed_prefix(lines: Seq<Seq<char>>, frames: nat, k: nat) -> (
    Seq<(Seq<char>, nat, nat)>,
    nat,
)
    decreases k,
{
    if k == 0 {
        (Seq::empty(), 0)
    } else {
        let prev = timed_prefix(lines, frames, (k - 1) as nat);
        let l = lines[k - 1];
        let end = window_end(
            prev.1,
            caption_weight(l),
            k - 1 == lines.len() - 1,
            frames,
            total_weight(lines),
        );
        (prev.0.push((l, prev.1, end)), end)
    }
}

/// `(line, start_frame, end_frame)` for each caption line: frames are
/// shared out in proportion to line length, windows follow one another
/// without gaps, and the last one ends at `frames`.
pub open spec fn timed_windows(lines: Seq<Seq<char>>, frames: nat) -> Seq<(Seq<char>, nat, nat)> {
    if lines.len() == 0 || frames == 0 {
        Seq::empty()
    } else {
        timed_prefix(lines, frames, lines.len()).0
    }
}

/// Sum of caption weights, computed without overflow.
fn total_caption_weight(lines: &Vec<String>) -> (t: u128)
    ensures
        t == total_weight(lines.deep_view()),
        lines.len() > 0 ==> t >= lines.len(),
{
    let ghost lv = lines.deep_view();
    let mut t: u128 = 0;
    let mut i: usize = 0;
    while i < lines.len()
        invariant
            i <= lines.len(),
            lv == lines.deep_view(),
            t == total_weight(lv.take(i as int)),
            t <= i * 0x1_0000_0000_0000_0000u128,
            t >= i,
        decreases lines.len() - i,
    {
        assert(lv.take(i + 1).drop_last() == lv.take(i as int));
        let n = crate::text::char_count(&lines[i]);
        let w: usize = if n == 0 { 1 } else { n };
        t = t + w as u128;
        i += 1;
    }
    assert(lv.take(i as int) == lv);
    t
}

/// Splits `frames` across caption `lines` in proportion to each line's
/// length, producing `(line, start_frame, end_frame)` windows that are
/// contiguous and together cover the whole scene.
pub fn timed_caption_lines(lines: &Vec<String>, frames: u32) -> (r: Vec<(String, u32, u32)>)
    ensures
        r.len() == timed_windows(lines.deep_view(), frames as nat).len(),
        forall|k: int|
            0 <= k < r.len() ==> {
                &&& (#[trigger] r@[k]).0@ == timed_windows(lines.deep_view(), frames as nat)[k].0
                &&& r@[k].1 == timed_windows(lines.deep_view(), frames as nat)[k].1
                &&& r@[k].2 == timed_windows(lines.deep_view(), frames as nat)[k].2
            },
        lines.len() == 0 || frames == 0 ==> r.len() == 0,
        lines.len() > 0 && frames > 0 ==> {
            &&& r.len() == lines.len()
            &&& r@[0].1 == 0
            &&& r@[r.len() - 1].2 == frames
        },
        forall|k: int| 0 <= k < r.len() ==> #[trigger] r@[k].1 <= r@[k].2 <= frames,
        forall|k: int| 0 <= k < r.len() && r@[k].1 < frames ==> #[trigger] r@[k].1 < r@[k].2,
        forall|k: int| 0 <= k < r.len() - 1 ==> #[trigger] r@[k].2 == r@[k + 1].1,
{
    let mut out: Vec<(String, u32, u32)> = Vec::new();
    if lines.len() == 0 || frames == 0 {
        return out;
    }
    let ghost lv = lines.deep_view();
    let total = total_caption_weight(lines);
    let last = lines.len() - 1;
    let mut acc: u32 = 0;
    let mut idx: usize = 0;
    while idx < lines.len()
        invariant
            lv == lines.deep_view(),
            lines.len() > 0,
            frames > 0,
            last == lines.len() - 1,
            total == total_weight(lv),
            total >= lines.len(),
            idx <= lines.len(),
            out.len() == idx,
            acc <= frames,
            acc == timed_prefix(lv, frames as nat, idx as nat).1,
            timed_prefix(lv, frames as nat, idx as nat).0.len() == idx,
            forall|k: int|
                0 <= k < idx ==> {
                    &&& (#[trigger] out@[k]).0@ == timed_prefix(lv, frames as nat, idx as nat).0[k].0
                    &&& out@[k].1 == timed_prefix(lv, frames as nat, idx as nat).0[k].1
                    &&& out@[k].2 == timed_prefix(lv, frames as nat, idx as nat).0[k].2
                },
            idx > 0 ==> out@[0].1 == 0,
            idx > 0 ==> out@[idx - 1].2 == acc,
            forall|k: int| 0 <= k < idx ==> #[trigger] out@[k].1 <= out@[k].2 <= frames,
            forall|k: int| 0 <= k < idx && out@[k].1 < frames ==> #[trigger] out@[k].1 < out@[k].2,
            forall|k: int| 0 <= k < idx - 1 ==> #[trigger] out@[k].2 == out@[k + 1].1,
        decreases lines.len() - idx,
    {
        let ghost prev = timed_prefix(lv, frames as nat, idx as nat);
        let n = crate::text::char_count(&lines[idx]);
        let weight: usize = if n == 0 { 1 } else { n };
        assert(weight as nat == caption_weight(lv[idx as int]));
        let end: u32 = if idx == last {
            frames
        } else {
            assert(weight as u128 * frames as u128 <= 0xffff_ffff_ffff_ffffu128 * 0xffff_ffffu128)
                by (nonlinear_arith)
                requires weight <= 0xffff_ffff_ffff_ffffu128, frames <= 0xffff_ffffu128;
            let prod: u128 = weight as u128 * frames as u128;
            let share: u128 = acc as u128 + prod / total;
            if share < frames as u128 {
                share as u32
            } else {
                frames
            }
        };
        let end: u32 = if (end as u64) < acc as u64 + 1 {
            if acc < frames { acc + 1 } else { frames }
        } else {
            end
        };
        let end: u32 = if end < frames { end } else { frames };
        let text = lines[idx].clone();
        proof {
            assert(text@ == lv[idx as int]);
        }
        let ghost before = out@;
        out.push((text, acc, end));
        proof {
            let next = timed_prefix(lv, frames as nat, (idx + 1) as nat);
            assert(next.0 == prev.0.push((lv[idx as int], prev.1, next.1)));
            assert forall|k: int| 0 <= k < idx + 1 implies {
                &&& (#[trigger] out@[k]).0@ == next.0[k].0
                &&& out@[k].1 == next.0[k].1
                &&& out@[k].2 == next.0[k].2
            } by {
                if k < idx {
                    assert(out@[k] == before[k]);
                }
            }
        }
        acc = end;
        idx += 1;
    }
    out
}

// ---------------------------------------------------------------------
// Per-scene video chain
// ---------------------------------------------------------------------

/// `frame / 25` seconds with two decimals, as `{:.2}` prints it. The
/// value is a multiple of 0.04, so the two decimals are exact.
pub open spec fn seconds_2dp(frame: nat) -> Seq<char> {
    let h = frame * 4;
    dec(h / 100) + seq!['.', digit((h % 100) / 10), digit(h % 10)]
}

/// The `drawtext` filter's name and the key of its text.
pub open spec fn drawtext_text_key() -> Seq<char> {
    "drawtext=text="@
}

/// The start of a caption's visibility window.
pub open spec fn enable_between() -> Seq<char> {
    "enable='between(t,"@
}

/// Font, shadow, box and placement options of a caption, each led by
/// its `:` separator, and the separator before `enable`.
pub open spec fn caption_style() -> Seq<char> {
    ":fontcolor=white"@ + ":fontsize=44"@ + ":shadowcolor=black@0.8"@ + ":shadowx=2"@
        + ":shadowy=2"@ + ":box=1"@ + ":boxcolor=black@0.45"@ + ":boxborderw=18"@
        + ":x=(w-text_w)/2"@ + ":y=h-90"@ + ":"@
}

/// One read-along caption: shown between its start and end time.
pub open spec fn caption_clause(line: Seq<char>, start: nat, end: nat) -> Seq<char> {
    ","@ + drawtext_text_key() + "'"@ + drawtext_escaped(line) + "'"@ + caption_style()
        + enable_between() + seconds_2dp(start) + ","@ + seconds_2dp(end) + ")'"@
}

/// `c` is a decimal digit.
spec fn is_digit_char(c: char) -> bool {
    '0' <= c && c <= '9'
}

proof fn lemma_dec_digits(n: nat)
    ensures
        dec(n).len() >= 1,
        forall|j: int| 0 <= j < dec(n).len() ==> is_digit_char(#[trigger] dec(n)[j]),
    decreases n,
{
    if n >= 10 {
        lemma_dec_digits(n / 10);
        let a = dec(n / 10);
        let b = seq![digit(n % 10)];
        assert forall|j: int| 0 <= j < (a + b).len() implies is_digit_char(#[trigger] (a + b)[j]) by {
            if j < a.len() {
                assert((a + b)[j] == a[j]);
            }
        }
    }
}

/// The seconds of a frame are digits and one point, led and ended by a
/// digit.
proof fn lemma_seconds_chars(frame: nat)
    ensures
        seconds_2dp(frame).len() >= 4,
        is_digit_char(seconds_2dp(frame)[0]),
        is_digit_char(seconds_2dp(frame).last()),
        forall|j: int|
            0 <= j < seconds_2dp(frame).len() ==> is_digit_char(#[trigger] seconds_2dp(frame)[j])
                || seconds_2dp(frame)[j] == '.',
{
    let h = frame * 4;
    lemma_dec_digits(h / 100);
    let a = dec(h / 100);
    let b = seq!['.', digit((h % 100) / 10), digit(h % 10)];
    assert(seconds_2dp(frame) == a + b);
    assert((a + b)[0] == a[0]);
    assert forall|j: int| 0 <= j < (a + b).len() implies is_digit_char(#[trigger] (a + b)[j])
        || (a + b)[j] == '.' by {
        if j < a.len() {
            assert((a + b)[j] == a[j]);
        } else {
            assert((a + b)[j] == b[j - a.len()]);
        }
    }
}

/// A text of digits and points holds neither caption key.
proof fn lemma_seconds_no_keys(frame: nat)
    ensures
        occurrences(seconds_2dp(frame), drawtext_text_key()) == 0,
        occurrences(seconds_2dp(frame), enable_between()) == 0,
{
    reveal_strlit("drawtext=text=");
    reveal_strlit("enable='between(t,");
    lemma_seconds_chars(frame);
    assert(drawtext_text_key()[0] == 'd');
    assert(enable_between()[0] == 'e');
    lemma_occurrences_missing_char(seconds_2dp(frame), drawtext_text_key(), 'd');
    lemma_occurrences_missing_char(seconds_2dp(frame), enable_between(), 'e');
}

/// No digit is a character of either caption key.
proof fn lemma_keys_without_digits(c: char)
    requires
        is_digit_char(c),
    ensures
        !drawtext_text_key().contains(c),
        !enable_between().contains(c),
{
    reveal_strlit("drawtext=text=");
    reveal_strlit("enable='between(t,");
}

/// A style option led by `:` holds neither caption key.
proof fn lemma_option_no_keys(opt: Seq<char>)
    requires
        opt.len() >= 1,
        opt[0] == ':',
        opt.len() < 14 || !opt.contains('d') || !opt.contains('x') || !opt.contains('t'),
        !opt.contains('\''),
    ensures
        occurrences(opt, drawtext_text_key()) == 0,
        occurrences(opt, enable_between()) == 0,
{
    reveal_strlit("drawtext=text=");
    reveal_strlit("enable='between(t,");
    assert(enable_between()[7] == '\'');
    lemma_occurrences_missing_char(opt, enable_between(), '\'');
    if opt.len() < 14 {
        lemma_occurrences_short(opt, drawtext_text_key());
    } else if !opt.contains('d') {
        assert(drawtext_text_key()[0] == 'd');
        lemma_occurrences_missing_char(opt, drawtext_text_key(), 'd');
    } else if !opt.contains('x') {
        assert(drawtext_text_key()[6] == 'x');
        lemma_occurrences_missing_char(opt, drawtext_text_key(), 'x');
    } else {
        assert(drawtext_text_key()[4] == 't');
        lemma_occurrences_missing_char(opt, drawtext_text_key(), 't');
    }
}

/// Appending a style option adds no occurrence of either caption key.
proof fn lemma_append_option(x: Seq<char>, opt: Seq<char>)
    requires
        opt.len() >= 1,
        opt[0] == ':',
        opt.len() < 14 || !opt.contains('d') || !opt.contains('x') || !opt.contains('t'),
        !opt.contains('\''),
    ensures
        occurrences(x + opt, drawtext_text_key()) == occurrences(x, drawtext_text_key()),
        occurrences(x + opt, enable_between()) == occurrences(x, enable_between()),
{
    reveal_strlit("drawtext=text=");
    reveal_strlit("enable='between(t,");
    lemma_option_no_keys(opt);
    assert(!drawtext_text_key().contains(':'));
    assert(!enable_between().contains(':'));
    lemma_occurrences_concat(x, opt, drawtext_text_key());
    lemma_occurrences_concat(x, opt, enable_between());
}

/// The caption style holds neither caption key, and starts and ends
/// with `:`.
proof fn lemma_style_no_keys()
    ensures
        occurrences(caption_style(), drawtext_text_key()) == 0,
        occurrences(caption_style(), enable_between()) == 0,
        caption_style().len() >= 1,
        caption_style()[0] == ':',
        caption_style().last() == ':',
{
    reveal_strlit(":fontcolor=white");
    reveal_strlit(":fontsize=44");
    reveal_strlit(":shadowcolor=black@0.8");
    reveal_strlit(":shadowx=2");
    reveal_strlit(":shadowy=2");
    reveal_strlit(":box=1");
    reveal_strlit(":boxcolor=black@0.45");
    reveal_strlit(":boxborderw=18");
    reveal_strlit(":x=(w-text_w)/2");
    reveal_strlit(":y=h-90");
    reveal_strlit(":");
    let s1 = ":fontcolor=white"@;
    let s2 = s1 + ":fontsize=44"@;
    let s3 = s2 + ":shadowcolor=black@0.8"@;
    let s4 = s3 + ":shadowx=2"@;
    let s5 = s4 + ":shadowy=2"@;
    let s6 = s5 + ":box=1"@;
    let s7 = s6 + ":boxcolor=black@0.45"@;
    let s8 = s7 + ":boxborderw=18"@;
    let s9 = s8 + ":x=(w-text_w)/2"@;
    let s10 = s9 + ":y=h-90"@;
    let s11 = s10 + ":"@;
    assert(!":fontcolor=white"@.contains('d'));
    assert(!":shadowcolor=black@0.8"@.contains('x'));
    assert(!":boxcolor=black@0.45"@.contains('d'));
    assert(!":boxborderw=18"@.contains('t'));
    assert(!":x=(w-text_w)/2"@.contains('d'));
    assert(!":fontcolor=white"@.contains('\''));
    assert(!":fontsize=44"@.contains('\''));
    assert(!":shadowcolor=black@0.8"@.contains('\''));
    assert(!":shadowx=2"@.contains('\''));
    assert(!":shadowy=2"@.contains('\''));
    assert(!":box=1"@.contains('\''));
    assert(!":boxcolor=black@0.45"@.contains('\''));
    assert(!":boxborderw=18"@.contains('\''));
    assert(!":x=(w-text_w)/2"@.contains('\''));
    assert(!":y=h-90"@.contains('\''));
    assert(!":"@.contains('\''));
    lemma_option_no_keys(s1);
    lemma_append_option(s1, ":fontsize=44"@);
    lemma_append_option(s2, ":shadowcolor=black@0.8"@);
    lemma_append_option(s3, ":shadowx=2"@);
    lemma_append_option(s4, ":shadowy=2"@);
    lemma_append_option(s5, ":box=1"@);
    lemma_append_option(s6, ":boxcolor=black@0.45"@);
    lemma_append_option(s7, ":boxborderw=18"@);
    lemma_append_option(s8, ":x=(w-text_w)/2"@);
    lemma_append_option(s9, ":y=h-90"@);
    lemma_append_option(s10, ":"@);
    assert(s11 == caption_style());
    assert(s11[0] == s1[0]);
    assert(s11.last() == ':');
}

/// The opening of a caption, up to the end of its quoted text, holds no
/// `enable='between(t,`: its only quotes sit where that key cannot.
proof fn lemma_caption_text_no_enable(esc: Seq<char>)
    requires
        forall|j: int| 0 <= j < esc.len() ==> esc[j] != '\'',
    ensures
        occurrences(","@ + drawtext_text_key() + "'"@ + esc + "'"@, enable_between()) == 0,
{
    reveal_strlit(",");
    reveal_strlit("drawtext=text=");
    reveal_strlit("'");
    reveal_strlit("enable='between(t,");
    let head = ","@ + drawtext_text_key() + "'"@;
    let s = head + esc + "'"@;
    let e = enable_between();
    assert(head.len() == 16);
    assert(head[15] == '\'');
    assert(head[8] == 't');
    assert forall|i: int| 0 <= i < 15 implies head[i] != '\'' by {}
    assert forall|j: int| !occurs_at(s, e, j) by {
        if occurs_at(s, e, j) {
            let sub = s.subrange(j, j + 18);
            assert(sub[7] == s[j + 7]);
            assert(sub[0] == s[j]);
            assert(s[j + 7] == '\'');
            assert(s[j] == 'e');
            if j + 7 < 16 {
                assert(s[j + 7] == head[j + 7]);
                assert(s[j] == head[j]);
            } else if j + 7 < 16 + esc.len() {
                assert(s[j + 7] == esc[j + 7 - 16]);
            }
        }
    }
    lemma_occurrences_none(s, e);
}

/// One caption clause holds one `enable='between(t,` and, when its
/// escaped text holds no `drawtext=text=`, one `drawtext=text=`; it
/// starts with `,d` and ends with a quote.
proof fn lemma_caption_clause_keys(line: Seq<char>, start: nat, end: nat)
    ensures
        occurrences(caption_clause(line, start, end), enable_between()) == 1,
        occurrences(drawtext_escaped(line), drawtext_text_key()) == 0 ==> occurrences(
            caption_clause(line, start, end),
            drawtext_text_key(),
        ) == 1,
        caption_clause(line, start, end).len() >= 2,
        caption_clause(line, start, end)[0] == ',',
        caption_clause(line, start, end)[1] == 'd',
        caption_clause(line, start, end).last() == '\'',
{
    reveal_strlit(",");
    reveal_strlit("drawtext=text=");
    reveal_strlit("'");
    reveal_strlit("enable='between(t,");
    reveal_strlit(")'");
    let d = drawtext_text_key();
    let e = enable_between();
    let esc = drawtext_escaped(line);
    lemma_drawtext_drops_apostrophes(line);
    lemma_style_no_keys();
    lemma_seconds_no_keys(start);
    lemma_seconds_no_keys(end);
    lemma_seconds_chars(start);
    lemma_seconds_chars(end);
    lemma_keys_without_digits(seconds_2dp(start)[0]);
    lemma_keys_without_digits(seconds_2dp(end)[0]);
    lemma_keys_without_digits(seconds_2dp(start).last());
    let st = caption_style();
    let s1 = seconds_2dp(start);
    let s2 = seconds_2dp(end);
    let p1 = ","@;
    let p2 = p1 + d;
    let p3 = p2 + "'"@;
    let p4 = p3 + esc;
    let p5 = p4 + "'"@;
    let p6 = p5 + st;
    let p7 = p6 + e;
    let p8 = p7 + s1;
    let p9 = p8 + ","@;
    let p10 = p9 + s2;
    let p11 = p10 + ")'"@;
    assert(p11 == caption_clause(line, start, end));
    assert(!d.contains(','));
    assert(!d.contains('\''));
    assert(!d.contains(':'));
    assert(!d.contains(')'));
    assert(!e.contains(':'));
    assert(!e.contains(')'));
    assert(!e.contains('d'));
    // The `enable` key.
    lemma_caption_text_no_enable(esc);
    lemma_occurrences_concat(p5, st, e);
    assert(p6.last() == st.last());
    lemma_occurrences_concat(p6, e, e);
    lemma_occurrences_self(e);
    lemma_occurrences_concat(p7, s1, e);
    assert(p8.last() == s1.last());
    lemma_occurrences_short(","@, e);
    lemma_occurrences_concat(p8, ","@, e);
    lemma_occurrences_concat(p9, s2, e);
    lemma_occurrences_short(")'"@, e);
    lemma_occurrences_concat(p10, ")'"@, e);
    // The `drawtext` key.
    if occurrences(esc, d) == 0 {
        lemma_occurrences_short(","@, d);
        lemma_occurrences_self(d);
        lemma_occurrences_concat(p1, d, d);
        lemma_occurrences_short("'"@, d);
        lemma_occurrences_concat(p2, "'"@, d);
        lemma_occurrences_concat(p3, esc, d);
        lemma_occurrences_concat(p4, "'"@, d);
        lemma_occurrences_concat(p5, st, d);
        assert(d[0] == 'd');
        lemma_occurrences_missing_char(e, d, 'd');
        lemma_occurrences_concat(p6, e, d);
        lemma_occurrences_concat(p7, s1, d);
        lemma_occurrences_concat(p8, ","@, d);
        lemma_occurrences_concat(p9, s2, d);
        lemma_occurrences_short(")'"@, d);
        lemma_occurrences_concat(p10, ")'"@, d);
    }
    assert(p11[0] == ',');
    assert(p11[1] == 'd');
}

/// The caption clauses for all windows, in order.
pub open spec fn caption_clauses(ws: Seq<(Seq<char>, nat, nat)>) -> Seq<char>
    decreases ws.len(),
{
    if ws.len() == 0 {
        Seq::empty()
    } else {
        caption_clauses(ws.drop_last()) + caption_clause(ws.last().0, ws.last().1, ws.last().2)
    }
}

/// Blurred backdrop, centred page, Ken Burns zoom and vignette for scene
/// `i` reading input pad `v_idx`.
pub open spec fn scene_chain_base(v_idx: nat, i: nat, w: nat, h: nat, frames: nat) -> Seq<char> {
    "["@ + dec(v_idx) + ":v]split=2[bg"@ + dec(i) + "][fg"@ + dec(i) + "];[bg"@ + dec(i)
        + "]scale="@ + dec(w) + ":"@ + dec(h) + ":force_original_aspect_ratio=increase,crop="@
        + dec(w) + ":"@ + dec(h)
        + ",boxblur=24:2,eq=brightness=-0.12:saturation=1.15[bgb"@ + dec(i) + "];[fg"@ + dec(i)
        + "]scale="@ + dec(w) + ":"@ + dec(h) + ":force_original_aspect_ratio=decrease[fgs"@
        + dec(i) + "];[bgb"@ + dec(i) + "][fgs"@ + dec(i)
        + "]overlay=(W-w)/2:(H-h)/2,zoompan=z='min(zoom+0.0008,1.15)':d="@ + dec(frames)
        + ":s="@ + dec(w) + "x"@ + dec(h)
        + ":fps=25,vignette=PI/5,setsar=1,fps=25,format=yuv420p"@
}

/// The full filter chain for one scene, ending in the labelled output
/// `[v{i}];`. Captions (wrapped at 42 characters and timed across
/// `frames`) are drawn only when `caption` is given.
pub open spec fn scene_chain(
    v_idx: nat,
    i: nat,
    w: nat,
    h: nat,
    frames: nat,
    caption: Option<Seq<char>>,
) -> Seq<char> {
    scene_chain_base(v_idx, i, w, h, frames) + match caption {
        Some(script) => caption_clauses(timed_windows(caption_lines(script, 42), frames)),
        None => Seq::empty(),
    } + "[v"@ + dec(i) + "];"@
}

proof fn lemma_timed_prefix_lines(lines: Seq<Seq<char>>, frames: nat, k: nat)
    requires
        k <= lines.len(),
    ensures
        timed_prefix(lines, frames, k).0.len() == k,
        forall|j: int| 0 <= j < k ==> (#[trigger] timed_prefix(lines, frames, k).0[j]).0 == lines[j],
    decreases k,
{
    if k > 0 {
        lemma_timed_prefix_lines(lines, frames, (k - 1) as nat);
        let prev = timed_prefix(lines, frames, (k - 1) as nat);
        let cur = timed_prefix(lines, frames, k);
        assert forall|j: int| 0 <= j < k implies (#[trigger] cur.0[j]).0 == lines[j] by {
            if j < k - 1 {
                assert(cur.0[j] == prev.0[j]);
            }
        }
    }
}

/// The caption clauses of `ws`, one per window, in order.
proof fn lemma_caption_clauses_split(ws: Seq<(Seq<char>, nat, nat)>, k: int)
    requires
        0 <= k <= ws.len(),
    ensures
        caption_clauses(ws) == caption_clauses(ws.take(k)) + caption_clauses(ws.skip(k)),
    decreases ws.len(),
{
    if k < ws.len() {
        lemma_caption_clauses_split(ws.drop_last(), k);
        assert(ws.drop_last().take(k) == ws.take(k));
        assert(ws.skip(k).drop_last() == ws.drop_last().skip(k));
        assert(ws.skip(k).last() == ws.last());
    } else {
        assert(ws.take(k) == ws);
        assert(ws.skip(k).len() == 0);
    }
}

/// The first `k` lines weigh at most the whole less one per line left.
proof fn lemma_total_weight_take(lines: Seq<Seq<char>>, k: int)
    requires
        0 <= k <= lines.len(),
    ensures
        total_weight(lines.take(k)) + (lines.len() - k) <= total_weight(lines),
    decreases lines.len(),
{
    if k < lines.len() {
        lemma_total_weight_take(lines.drop_last(), k);
        assert(lines.drop_last().take(k) == lines.take(k));
    } else {
        assert(lines.take(k) == lines);
    }
}

/// Window `k` of the timed prefix stays as later lines are added.
proof fn lemma_timed_prefix_window(lines: Seq<Seq<char>>, frames: nat, m: nat, k: nat)
    requires
        k < m <= lines.len(),
    ensures
        timed_prefix(lines, frames, m).0[k as int] == (
            lines[k as int],
            timed_prefix(lines, frames, k).1,
            timed_prefix(lines, frames, k + 1).1,
        ),
    decreases m,
{
    lemma_timed_prefix_lines(lines, frames, (m - 1) as nat);
    if k + 1 < m {
        lemma_timed_prefix_window(lines, frames, (m - 1) as nat, k);
    }
}

/// When the scene has at least as many frames as the caption text
/// weighs, the first `k` windows end within their share of the frames:
/// `end * total <= frames * weight_of_first_k`.
proof fn lemma_timed_prefix_within_share(lines: Seq<Seq<char>>, frames: nat, k: nat)
    requires
        k <= lines.len(),
        lines.len() > 0,
        frames >= total_weight(lines),
    ensures
        timed_prefix(lines, frames, k).1 * total_weight(lines) <= frames * total_weight(
            lines.take(k as int),
        ),
    decreases k,
{
    let t = total_weight(lines);
    lemma_total_weight_take(lines, 0);
    if k > 0 {
        let j = (k - 1) as nat;
        lemma_timed_prefix_within_share(lines, frames, j);
        let acc = timed_prefix(lines, frames, j).1;
        let wk = caption_weight(lines[j as int]);
        let wp = total_weight(lines.take(j as int));
        assert(lines.take(k as int).drop_last() == lines.take(j as int));
        assert(total_weight(lines.take(k as int)) == wp + wk);
        let end = timed_prefix(lines, frames, k).1;
        if j == lines.len() - 1 {
            assert(lines.take(k as int) == lines);
            assert(end == frames);
            assert(end * t <= frames * t);
        } else {
            let q = wk * frames / t;
            assert(q * t <= wk * frames && q >= 1) by (nonlinear_arith)
                requires
                    q == wk * frames / t,
                    t > 0,
                    wk >= 1,
                    frames >= t,
            ;
            assert(end <= acc + q);
            assert(end * t <= (acc + q) * t) by (nonlinear_arith)
                requires
                    end <= acc + q,
            ;
            assert((acc + q) * t == acc * t + q * t) by (nonlinear_arith);
            assert(frames * (wp + wk) == frames * wp + frames * wk) by (nonlinear_arith);
            assert(wk * frames == frames * wk) by (nonlinear_arith);
            assert(end * t <= frames * (wp + wk));
        }
    } else {
        assert(lines.take(0).len() == 0);
        assert(total_weight(lines.take(0)) == 0);
        assert(timed_prefix(lines, frames, 0).1 == 0);
        assert(0 * t == 0) by (nonlinear_arith);
        assert(frames * 0 == 0) by (nonlinear_arith);
    }
}

/// When the scene has at least as many frames as the caption text
/// weighs, every window before the last ends at the start of the previous
/// end plus the line's proportional share, so the `j`-th boundary lags
/// the exact cumulative share by less than one frame per line.
proof fn lemma_timed_prefix_cumulative(lines: Seq<Seq<char>>, frames: nat, j: nat)
    requires
        lines.len() > 0,
        j < lines.len(),
        frames >= total_weight(lines),
    ensures
        ({
            let t = total_weight(lines);
            let acc = timed_prefix(lines, frames, j).1;
            let wj = total_weight(lines.take(j as int));
            &&& acc * t <= frames * wj
            &&& frames * wj <= acc * t + j * (t - 1)
            &&& j >= 1 ==> acc == timed_prefix(lines, frames, (j - 1) as nat).1 + caption_weight(
                lines[j - 1],
            ) * frames / t
        }),
    decreases j,
{
    let t = total_weight(lines);
    lemma_total_weight_take(lines, 0);
    if j == 0 {
        assert(lines.take(0).len() == 0);
        assert(total_weight(lines.take(0)) == 0);
        assert(0 * t == 0) by (nonlinear_arith);
        assert(frames * 0 == 0) by (nonlinear_arith);
    } else {
        let i = (j - 1) as nat;
        lemma_timed_prefix_cumulative(lines, frames, i);
        lemma_total_weight_take(lines, j as int);
        let acc = timed_prefix(lines, frames, i).1;
        let wk = caption_weight(lines[i as int]);
        let wp = total_weight(lines.take(i as int));
        assert(lines.take(j as int).drop_last() == lines.take(i as int));
        assert(total_weight(lines.take(j as int)) == wp + wk);
        let q = wk * frames / t;
        assert(q * t <= wk * frames && wk * frames < q * t + t && q >= 1) by (nonlinear_arith)
            requires
                q == wk * frames / t,
                t > 0,
                wk >= 1,
                frames >= t,
        ;
        let share = acc + q;
        assert(share * t == acc * t + q * t) by (nonlinear_arith)
            requires
                share == acc + q,
        ;
        assert(frames * (wp + wk) == frames * wp + frames * wk) by (nonlinear_arith);
        assert(wk * frames == frames * wk) by (nonlinear_arith);
        assert(wp + wk + 1 <= t);
        assert(frames * (wp + wk) <= frames * (t - 1)) by (nonlinear_arith)
            requires
                wp + wk <= t - 1,
        ;
        assert(frames * (t - 1) < frames * t) by (nonlinear_arith)
            requires
                frames >= t,
                t > 0,
        ;
        assert(share < frames) by (nonlinear_arith)
            requires
                share * t <= frames * (t - 1),
                frames * (t - 1) < frames * t,
                t > 0,
        ;
        let end = timed_prefix(lines, frames, j).1;
        assert(i != lines.len() - 1);
        assert(end == share);
        assert(j * (t - 1) == i * (t - 1) + (t - 1)) by (nonlinear_arith)
            requires
                j == i + 1,
        ;
    }
}

/// Caption windows track the narration: when the scene has at least as
/// many frames as the caption text weighs (its characters, an empty line
/// counting one), the windows follow one another from frame 0 to the last
/// frame, each window but the last lasts its line's proportional share of
/// the frames, and each such window ends within the cumulative share of
/// the lines up to it: `end * total <= frames * weight(lines[..=k])`, short
/// of it by less than one frame per line so far.
pub proof fn lemma_caption_windows_track_share(lines: Seq<Seq<char>>, frames: nat)
    requires
        lines.len() > 0,
        frames >= total_weight(lines),
    ensures
        ({
            let ws = timed_windows(lines, frames);
            let t = total_weight(lines);
            &&& ws.len() == lines.len()
            &&& ws[0].1 == 0
            &&& ws[lines.len() - 1].2 == frames
            &&& forall|k: int| 0 <= k < lines.len() ==> (#[trigger] ws[k]).0 == lines[k]
            &&& forall|k: int| 0 <= k < lines.len() - 1 ==> #[trigger] ws[k].2 == ws[k + 1].1
            &&& forall|k: int|
                0 <= k < lines.len() - 1 ==> #[trigger] ws[k].2 - ws[k].1 == caption_weight(lines[k])
                    * frames / t
            &&& forall|k: int|
                0 <= k < lines.len() - 1 ==> #[trigger] ws[k].2 * t <= frames * total_weight(
                    lines.take(k + 1),
                ) && frames * total_weight(lines.take(k + 1)) <= ws[k].2 * t + (k + 1) * (t - 1)
        }),
{
    let n = lines.len();
    let ws = timed_windows(lines, frames);
    let t = total_weight(lines);
    lemma_total_weight_take(lines, 0);
    lemma_timed_prefix_lines(lines, frames, n);
    assert forall|k: int| 0 <= k < n implies #[trigger] ws[k] == (
        lines[k],
        timed_prefix(lines, frames, k as nat).1,
        timed_prefix(lines, frames, (k + 1) as nat).1,
    ) by {
        lemma_timed_prefix_window(lines, frames, n, k as nat);
    }
    assert(ws[0].1 == 0);
    assert(ws[n - 1].2 == frames);
    assert forall|k: int| 0 <= k < n - 1 implies #[trigger] ws[k].2 == ws[k + 1].1 by {
        assert(ws[k + 1] == (
            lines[k + 1],
            timed_prefix(lines, frames, (k + 1) as nat).1,
            timed_prefix(lines, frames, (k + 2) as nat).1,
        ));
    }
    assert forall|k: int| 0 <= k < n - 1 implies #[trigger] ws[k].2 - ws[k].1 == caption_weight(
        lines[k],
    ) * frames / t && ws[k].2 * t <= frames * total_weight(lines.take(k + 1)) && frames
        * total_weight(lines.take(k + 1)) <= ws[k].2 * t + (k + 1) * (t - 1) by {
        lemma_timed_prefix_cumulative(lines, frames, (k + 1) as nat);
    }
}

/// When the scene has at least as many frames as the caption text
/// weighs (its characters, an empty line counting one), every caption
/// window is non-empty: each line is shown for at least one frame.
pub proof fn lemma_caption_windows_nonempty(lines: Seq<Seq<char>>, frames: nat)
    requires
        lines.len() > 0,
        frames >= total_weight(lines),
    ensures
        timed_windows(lines, frames).len() == lines.len(),
        forall|k: int|
            0 <= k < lines.len() ==> #[trigger] timed_windows(lines, frames)[k].1 < timed_windows(
                lines,
                frames,
            )[k].2,
{
    lemma_total_weight_take(lines, 0);
    lemma_timed_prefix_lines(lines, frames, lines.len());
    let t = total_weight(lines);
    assert forall|k: int| 0 <= k < lines.len() implies #[trigger] timed_windows(lines, frames)[k].1
        < timed_windows(lines, frames)[k].2 by {
        lemma_timed_prefix_window(lines, frames, lines.len(), k as nat);
        lemma_timed_prefix_within_share(lines, frames, k as nat);
        lemma_total_weight_take(lines, k);
        let acc = timed_prefix(lines, frames, k as nat).1;
        let wp = total_weight(lines.take(k));
        assert(acc < frames) by (nonlinear_arith)
            requires
                acc * t <= frames * wp,
                wp + 1 <= t,
                frames >= t,
                t > 0,
        ;
    }
}

/// Window `k`'s clause sits between the clauses before it and those after.
proof fn lemma_caption_clause_at(ws: Seq<(Seq<char>, nat, nat)>, k: int)
    requires
        0 <= k < ws.len(),
    ensures
        caption_clauses(ws) == caption_clauses(ws.take(k)) + caption_clause(
            ws[k].0,
            ws[k].1,
            ws[k].2,
        ) + caption_clauses(ws.skip(k + 1)),
{
    lemma_caption_clauses_split(ws, k);
    let rest = ws.skip(k);
    lemma_caption_clauses_split(rest, 1);
    let one = rest.take(1);
    assert(one == seq![ws[k]]);
    assert(one.drop_last() == Seq::<(Seq<char>, nat, nat)>::empty());
    assert(caption_clauses(one) == caption_clauses(one.drop_last()) + caption_clause(
        ws[k].0,
        ws[k].1,
        ws[k].2,
    ));
    assert(rest.skip(1) == ws.skip(k + 1));
}

/// With captions on a scene of at least one frame, the chain holds one
/// timed `drawtext` clause per caption line, in line order: the page
/// chain, then for the `k`-th caption line its clause shown over the
/// `k`-th window, then the output label.
pub proof fn lemma_caption_chain_layout(
    v_idx: nat,
    i: nat,
    w: nat,
    h: nat,
    frames: nat,
    script: Seq<char>,
)
    requires
        frames > 0,
    ensures
        ({
            let lines = caption_lines(script, 42);
            let ws = timed_windows(lines, frames);
            &&& ws.len() == lines.len()
            &&& forall|k: int| 0 <= k < lines.len() ==> (#[trigger] ws[k]).0 == lines[k]
            &&& forall|k: int|
                0 <= k < lines.len() ==> caption_clauses(ws) == caption_clauses(ws.take(k))
                    + caption_clause(lines[k], ws[k].1, ws[k].2) + caption_clauses(
                    ws.skip(k + 1),
                )
            &&& scene_chain(v_idx, i, w, h, frames, Some(script)) == scene_chain_base(
                v_idx,
                i,
                w,
                h,
                frames,
            ) + caption_clauses(ws) + "[v"@ + dec(i) + "];"@
        }),
{
    let lines = caption_lines(script, 42);
    let ws = timed_windows(lines, frames);
    if lines.len() > 0 {
        lemma_timed_prefix_lines(lines, frames, lines.len());
    }
    assert forall|k: int| 0 <= k < lines.len() implies caption_clauses(ws) == caption_clauses(
        ws.take(k),
    ) + caption_clause(lines[k], ws[k].1, ws[k].2) + caption_clauses(ws.skip(k + 1)) by {
        lemma_caption_clause_at(ws, k);
    }
}

/// The caption clauses hold one `enable='between(t,` per window and,
/// when no escaped caption text holds `drawtext=text=`, one
/// `drawtext=text=` per window.
proof fn lemma_caption_clauses_keys(ws: Seq<(Seq<char>, nat, nat)>)
    ensures
        occurrences(caption_clauses(ws), enable_between()) == ws.len(),
        (forall|k: int|
            0 <= k < ws.len() ==> occurrences(drawtext_escaped(#[trigger] ws[k].0), drawtext_text_key())
                == 0) ==> occurrences(caption_clauses(ws), drawtext_text_key()) == ws.len(),
        ws.len() > 0 ==> caption_clauses(ws)[0] == ',' && caption_clauses(ws).last() == '\'',
    decreases ws.len(),
{
    reveal_strlit("drawtext=text=");
    reveal_strlit("enable='between(t,");
    if ws.len() > 0 {
        let prev = ws.drop_last();
        lemma_caption_clauses_keys(prev);
        let l = ws.last();
        let x = caption_clauses(prev);
        let y = caption_clause(l.0, l.1, l.2);
        lemma_caption_clause_keys(l.0, l.1, l.2);
        assert(caption_clauses(ws) == x + y);
        let e = enable_between();
        let d = drawtext_text_key();
        assert(!e.contains('d'));
        assert(e[16] == 't');
        lemma_occurrences_concat_second(x, y, e);
        assert(!d.contains(','));
        lemma_occurrences_concat(x, y, d);
        if forall|k: int|
            0 <= k < ws.len() ==> occurrences(drawtext_escaped(#[trigger] ws[k].0), d) == 0 {
            assert forall|k: int| 0 <= k < prev.len() implies occurrences(
                drawtext_escaped(#[trigger] prev[k].0),
                d,
            ) == 0 by {
                assert(prev[k] == ws[k]);
            }
            assert(occurrences(drawtext_escaped(ws[ws.len() - 1].0), d) == 0);
        }
        if x.len() == 0 {
            assert(x + y == y);
        } else {
            assert((x + y)[0] == x[0]);
        }
    }
}

/// A piece of the page chain holds neither caption key.
proof fn lemma_piece_no_keys(lit: Seq<char>)
    requires
        lit.len() < 14 || !lit.contains('d') || !lit.contains('x'),
        lit.len() < 18 || !lit.contains('\'') || !lit.contains('b'),
    ensures
        occurrences(lit, drawtext_text_key()) == 0,
        occurrences(lit, enable_between()) == 0,
{
    reveal_strlit("drawtext=text=");
    reveal_strlit("enable='between(t,");
    let d = drawtext_text_key();
    let e = enable_between();
    assert(d[0] == 'd' && d[6] == 'x');
    assert(e[7] == '\'' && e[3] == 'b');
    if lit.len() < 14 {
        lemma_occurrences_short(lit, d);
    } else if !lit.contains('d') {
        lemma_occurrences_missing_char(lit, d, 'd');
    } else {
        lemma_occurrences_missing_char(lit, d, 'x');
    }
    if lit.len() < 18 {
        lemma_occurrences_short(lit, e);
    } else if !lit.contains('\'') {
        lemma_occurrences_missing_char(lit, e, '\'');
    } else {
        lemma_occurrences_missing_char(lit, e, 'b');
    }
}

/// Appending a number adds no caption key.
proof fn lemma_append_dec(x: Seq<char>, n: nat)
    ensures
        occurrences(x + dec(n), drawtext_text_key()) == occurrences(x, drawtext_text_key()),
        occurrences(x + dec(n), enable_between()) == occurrences(x, enable_between()),
        (x + dec(n)).len() >= 1,
        is_digit_char((x + dec(n)).last()),
{
    reveal_strlit("drawtext=text=");
    reveal_strlit("enable='between(t,");
    lemma_dec_digits(n);
    let y = dec(n);
    lemma_keys_without_digits(y[0]);
    assert(drawtext_text_key()[0] == 'd');
    assert(enable_between()[0] == 'e');
    lemma_occurrences_missing_char(y, drawtext_text_key(), 'd');
    lemma_occurrences_missing_char(y, enable_between(), 'e');
    lemma_occurrences_concat(x, y, drawtext_text_key());
    lemma_occurrences_concat(x, y, enable_between());
    assert((x + y).last() == y.last());
}

/// Appending a piece after a number adds no caption key.
proof fn lemma_append_piece(x: Seq<char>, lit: Seq<char>)
    requires
        x.len() >= 1,
        is_digit_char(x.last()),
        lit.len() < 14 || !lit.contains('d') || !lit.contains('x'),
        lit.len() < 18 || !lit.contains('\'') || !lit.contains('b'),
    ensures
        occurrences(x + lit, drawtext_text_key()) == occurrences(x, drawtext_text_key()),
        occurrences(x + lit, enable_between()) == occurrences(x, enable_between()),
{
    reveal_strlit("drawtext=text=");
    reveal_strlit("enable='between(t,");
    lemma_piece_no_keys(lit);
    lemma_keys_without_digits(x.last());
    lemma_occurrences_concat(x, lit, drawtext_text_key());
    lemma_occurrences_concat(x, lit, enable_between());
}

/// The page chain holds neither caption key, and ends with `p`.
proof fn lemma_scene_base_no_keys(v_idx: nat, i: nat, w: nat, h: nat, frames: nat)
    ensures
        occurrences(scene_chain_base(v_idx, i, w, h, frames), drawtext_text_key()) == 0,
        occurrences(scene_chain_base(v_idx, i, w, h, frames), enable_between()) == 0,
        scene_chain_base(v_idx, i, w, h, frames).len() >= 1,
        scene_chain_base(v_idx, i, w, h, frames).last() == 'p',
{
    reveal_strlit("[");
    reveal_strlit(":v]split=2[bg");
    reveal_strlit("][fg");
    reveal_strlit("];[bg");
    reveal_strlit("]scale=");
    reveal_strlit(":");
    reveal_strlit(":force_original_aspect_ratio=increase,crop=");
    reveal_strlit(",boxblur=24:2,eq=brightness=-0.12:saturation=1.15[bgb");
    reveal_strlit("];[fg");
    reveal_strlit(":force_original_aspect_ratio=decrease[fgs");
    reveal_strlit("];[bgb");
    reveal_strlit("][fgs");
    reveal_strlit("]overlay=(W-w)/2:(H-h)/2,zoompan=z='min(zoom+0.0008,1.15)':d=");
    reveal_strlit(":s=");
    reveal_strlit("x");
    reveal_strlit(":fps=25,vignette=PI/5,setsar=1,fps=25,format=yuv420p");
    assert(!":v]split=2[bg"@.contains('d'));
    assert(!":force_original_aspect_ratio=increase,crop="@.contains('d'));
    assert(!":force_original_aspect_ratio=increase,crop="@.contains('\''));
    assert(!",boxblur=24:2,eq=brightness=-0.12:saturation=1.15[bgb"@.contains('d'));
    assert(!",boxblur=24:2,eq=brightness=-0.12:saturation=1.15[bgb"@.contains('\''));
    assert(!":force_original_aspect_ratio=decrease[fgs"@.contains('x'));
    assert(!":force_original_aspect_ratio=decrease[fgs"@.contains('\''));
    assert(!"]overlay=(W-w)/2:(H-h)/2,zoompan=z='min(zoom+0.0008,1.15)':d="@.contains('x'));
    assert(!"]overlay=(W-w)/2:(H-h)/2,zoompan=z='min(zoom+0.0008,1.15)':d="@.contains('b'));
    assert(!":fps=25,vignette=PI/5,setsar=1,fps=25,format=yuv420p"@.contains('d'));
    assert(!":fps=25,vignette=PI/5,setsar=1,fps=25,format=yuv420p"@.contains('\''));
    let s0 = "["@;
    lemma_piece_no_keys(s0);
    let s1 = s0 + dec(v_idx);
    lemma_append_dec(s0, v_idx);
    let s2 = s1 + ":v]split=2[bg"@;
    lemma_append_piece(s1, ":v]split=2[bg"@);
    let s3 = s2 + dec(i);
    lemma_append_dec(s2, i);
    let s4 = s3 + "][fg"@;
    lemma_append_piece(s3, "][fg"@);
    let s5 = s4 + dec(i);
    lemma_append_dec(s4, i);
    let s6 = s5 + "];[bg"@;
    lemma_append_piece(s5, "];[bg"@);
    let s7 = s6 + dec(i);
    lemma_append_dec(s6, i);
    let s8 = s7 + "]scale="@;
    lemma_append_piece(s7, "]scale="@);
    let s9 = s8 + dec(w);
    lemma_append_dec(s8, w);
    let s10 = s9 + ":"@;
    lemma_append_piece(s9, ":"@);
    let s11 = s10 + dec(h);
    lemma_append_dec(s10, h);
    let s12 = s11 + ":force_original_aspect_ratio=increase,crop="@;
    lemma_append_piece(s11, ":force_original_aspect_ratio=increase,crop="@);
    let s13 = s12 + dec(w);
    lemma_append_dec(s12, w);
    let s14 = s13 + ":"@;
    lemma_append_piece(s13, ":"@);
    let s15 = s14 + dec(h);
    lemma_append_dec(s14, h);
    let s16 = s15 + ",boxblur=24:2,eq=brightness=-0.12:saturation=1.15[bgb"@;
    lemma_append_piece(s15, ",boxblur=24:2,eq=brightness=-0.12:saturation=1.15[bgb"@);
    let s17 = s16 + dec(i);
    lemma_append_dec(s16, i);
    let s18 = s17 + "];[fg"@;
    lemma_append_piece(s17, "];[fg"@);
    let s19 = s18 + dec(i);
    lemma_append_dec(s18, i);
    let s20 = s19 + "]scale="@;
    lemma_append_piece(s19, "]scale="@);
    let s21 = s20 + dec(w);
    lemma_append_dec(s20, w);
    let s22 = s21 + ":"@;
    lemma_append_piece(s21, ":"@);
    let s23 = s22 + dec(h);
    lemma_append_dec(s22, h);
    let s24 = s23 + ":force_original_aspect_ratio=decrease[fgs"@;
    lemma_append_piece(s23, ":force_original_aspect_ratio=decrease[fgs"@);
    let s25 = s24 + dec(i);
    lemma_append_dec(s24, i);
    let s26 = s25 + "];[bgb"@;
    lemma_append_piece(s25, "];[bgb"@);
    let s27 = s26 + dec(i);
    lemma_append_dec(s26, i);
    let s28 = s27 + "][fgs"@;
    lemma_append_piece(s27, "][fgs"@);
    let s29 = s28 + dec(i);
    lemma_append_dec(s28, i);
    let s30 = s29 + "]overlay=(W-w)/2:(H-h)/2,zoompan=z='min(zoom+0.0008,1.15)':d="@;
    lemma_append_piece(s29, "]overlay=(W-w)/2:(H-h)/2,zoompan=z='min(zoom+0.0008,1.15)':d="@);
    let s31 = s30 + dec(frames);
    lemma_append_dec(s30, frames);
    let s32 = s31 + ":s="@;
    lemma_append_piece(s31, ":s="@);
    let s33 = s32 + dec(w);
    lemma_append_dec(s32, w);
    let s34 = s33 + "x"@;
    lemma_append_piece(s33, "x"@);
    let s35 = s34 + dec(h);
    lemma_append_dec(s34, h);
    let tail = ":fps=25,vignette=PI/5,setsar=1,fps=25,format=yuv420p"@;
    let s36 = s35 + tail;
    lemma_append_piece(s35, tail);
    assert(s36 == scene_chain_base(v_idx, i, w, h, frames));
    assert(s36.last() == tail.last());
}

/// Wrapping caption clauses in the page chain and the output label adds
/// no caption key.
proof fn lemma_chain_keys(base: Seq<char>, cc: Seq<char>, i: nat)
    requires
        occurrences(base, drawtext_text_key()) == 0,
        occurrences(base, enable_between()) == 0,
        base.len() >= 1,
        base.last() == 'p',
    ensures
        occurrences(base + cc + "[v"@ + dec(i) + "];"@, drawtext_text_key()) == occurrences(
            cc,
            drawtext_text_key(),
        ),
        occurrences(base + cc + "[v"@ + dec(i) + "];"@, enable_between()) == occurrences(
            cc,
            enable_between(),
        ),
{
    reveal_strlit("drawtext=text=");
    reveal_strlit("enable='between(t,");
    reveal_strlit("[v");
    reveal_strlit("];");
    let d = drawtext_text_key();
    let e = enable_between();
    assert(!d.contains('p') && !e.contains('p'));
    assert(!d.contains('[') && !e.contains('['));
    lemma_occurrences_concat(base, cc, d);
    lemma_occurrences_concat(base, cc, e);
    let x = base + cc;
    lemma_piece_no_keys("[v"@);
    lemma_occurrences_concat(x, "[v"@, d);
    lemma_occurrences_concat(x, "[v"@, e);
    lemma_append_dec(x + "[v"@, i);
    lemma_append_piece(x + "[v"@ + dec(i), "];"@);
}

/// One timed `drawtext` per caption line: with captions on a scene of at
/// least one frame, the scene's filter chain holds `enable='between(t,`
/// exactly once per caption line, and `drawtext=text=` exactly once per
/// caption line unless a line's escaped text itself spells that key.
pub proof fn lemma_one_timed_drawtext_per_line(
    v_idx: nat,
    i: nat,
    w: nat,
    h: nat,
    frames: nat,
    script: Seq<char>,
)
    requires
        frames > 0,
    ensures
        occurrences(scene_chain(v_idx, i, w, h, frames, Some(script)), enable_between())
            == caption_lines(script, 42).len(),
        (forall|k: int|
            0 <= k < caption_lines(script, 42).len() ==> occurrences(
                drawtext_escaped(#[trigger] caption_lines(script, 42)[k]),
                drawtext_text_key(),
            ) == 0) ==> occurrences(scene_chain(v_idx, i, w, h, frames, Some(script)), drawtext_text_key())
            == caption_lines(script, 42).len(),
{
    let lines = caption_lines(script, 42);
    let ws = timed_windows(lines, frames);
    lemma_caption_chain_layout(v_idx, i, w, h, frames, script);
    lemma_caption_clauses_keys(ws);
    lemma_scene_base_no_keys(v_idx, i, w, h, frames);
    lemma_chain_keys(scene_chain_base(v_idx, i, w, h, frames), caption_clauses(ws), i);
    if forall|k: int|
        0 <= k < lines.len() ==> occurrences(
            drawtext_escaped(#[trigger] lines[k]),
            drawtext_text_key(),
        ) == 0 {
        assert forall|k: int| 0 <= k < ws.len() implies occurrences(
            drawtext_escaped(#[trigger] ws[k].0),
            drawtext_text_key(),
        ) == 0 by {
            assert(ws[k].0 == lines[k]);
        }
    }
}

fn push_seconds(out: &mut Vec<char>, frame: u32)
    ensures
        final(out)@ == old(out)@ + seconds_2dp(frame as nat),
{
    let h: u128 = frame as u128 * 4;
    push_dec(out, h / 100);
    out.push('.');
    out.push(crate::text::digit_char((h % 100) / 10));
    out.push(crate::text::digit_char(h % 10));
}

fn push_caption_clause(out: &mut Vec<char>, line: &str, start: u32, end: u32)
    ensures
        final(out)@ == old(out)@ + caption_clause(line@, start as nat, end as nat),
{
    push_str(out, ",");
    push_str(out, "drawtext=text=");
    push_str(out, "'");
    let lc = chars_of(line);
    let esc = drawtext_escaped_chars(&lc);
    push_all(out, &esc);
    push_str(out, "'");
    push_str(out, ":fontcolor=white");
    push_str(out, ":fontsize=44");
    push_str(out, ":shadowcolor=black@0.8");
    push_str(out, ":shadowx=2");
    push_str(out, ":shadowy=2");
    push_str(out, ":box=1");
    push_str(out, ":boxcolor=black@0.45");
    push_str(out, ":boxborderw=18");
    push_str(out, ":x=(w-text_w)/2");
    push_str(out, ":y=h-90");
    push_str(out, ":");
    push_str(out, "enable='between(t,");
    push_seconds(out, start);
    push_str(out, ",");
    push_seconds(out, end);
    push_str(out, ")'");
}

/// Builds the per-scene video filter chain for scene index `i`, reading
/// input pad `v_idx` and emitting the labelled output `[v{i}]`: a
/// blurred, graded copy of the page fills the frame, the sharp page sits
/// centred on top, a slow Ken Burns zoom and vignette add motion, and
/// read-along captions (when a caption is given) appear line by line.
pub fn build_scene_video_chain(
    v_idx: usize,
    i: usize,
    w: u32,
    h: u32,
    frames: u32,
    caption: Option<&str>,
) -> (r: String)
    ensures
        r@ == scene_chain(
            v_idx as nat,
            i as nat,
            w as nat,
            h as nat,
            frames as nat,
            match caption {
                Some(s) => Some(s@),
                None => None,
            },
        ),
{
    let mut out: Vec<char> = Vec::new();
    push_str(&mut out, "[");
    push_dec(&mut out, v_idx as u128);
    push_str(&mut out, ":v]split=2[bg");
    push_dec(&mut out, i as u128);
    push_str(&mut out, "][fg");
    push_dec(&mut out, i as u128);
    push_str(&mut out, "];[bg");
    push_dec(&mut out, i as u128);
    push_str(&mut out, "]scale=");
    push_dec(&mut out, w as u128);
    push_str(&mut out, ":");
    push_dec(&mut out, h as u128);
    push_str(&mut out, ":force_original_aspect_ratio=increase,crop=");
    push_dec(&mut out, w as u128);
    push_str(&mut out, ":");
    push_dec(&mut out, h as u128);
    push_str(&mut out, ",boxblur=24:2,eq=brightness=-0.12:saturation=1.15[bgb");
    push_dec(&mut out, i as u128);
    push_str(&mut out, "];[fg");
    push_dec(&mut out, i as u128);
    push_str(&mut out, "]scale=");
    push_dec(&mut out, w as u128);
    push_str(&mut out, ":");
    push_dec(&mut out, h as u128);
    push_str(&mut out, ":force_original_aspect_ratio=decrease[fgs");
    push_dec(&mut out, i as u128);
    push_str(&mut out, "];[bgb");
    push_dec(&mut out, i as u128);
    push_str(&mut out, "][fgs");
    push_dec(&mut out, i as u128);
    push_str(&mut out, "]overlay=(W-w)/2:(H-h)/2,zoompan=z='min(zoom+0.0008,1.15)':d=");
    push_dec(&mut out, frames as u128);
    push_str(&mut out, ":s=");
    push_dec(&mut out, w as u128);
    push_str(&mut out, "x");
    push_dec(&mut out, h as u128);
    push_str(&mut out, ":fps=25,vignette=PI/5,setsar=1,fps=25,format=yuv420p");
    let ghost base = out@;
    assert(base == scene_chain_base(v_idx as nat, i as nat, w as nat, h as nat, frames as nat));
    if let Some(script) = caption {
        let lines = split_caption_lines(script, 42);
        let timed = timed_caption_lines(&lines, frames);
        let ghost ws = timed_windows(lines.deep_view(), frames as nat);
        let mut k: usize = 0;
        while k < timed.len()
            invariant
                k <= timed.len(),
                timed.len() == ws.len(),
                forall|j: int|
                    0 <= j < timed.len() ==> {
                        &&& (#[trigger] timed@[j]).0@ == ws[j].0
                        &&& timed@[j].1 == ws[j].1
                        &&& timed@[j].2 == ws[j].2
                    },
                out@ == base + caption_clauses(ws.take(k as int)),
            decreases timed.len() - k,
        {
            assert(ws.take(k + 1).drop_last() == ws.take(k as int));
            assert(timed@[k as int].0@ == ws[k as int].0);
            push_caption_clause(&mut out, &timed[k].0, timed[k].1, timed[k].2);
            k += 1;
        }
        assert(ws.take(k as int) == ws);
    } else {
        assert(out@ == base + Seq::<char>::empty());
    }
    push_str(&mut out, "[v");
    push_dec(&mut out, i as u128);
    push_str(&mut out, "];");
    string_from_chars(&out)
}

// ---------------------------------------------------------------------
// FFmpeg arguments
// ---------------------------------------------------------------------

/// The `drawtext=` filter name that receives the font file.
pub open spec fn drawtext_key() -> Seq<char> {
    seq!['d', 'r', 'a', 'w', 't', 'e', 'x', 't', '=']
}

/// `f[cur..]` with each `drawtext=` turned into
/// `drawtext=fontfile={safe}:`, scanning left to right.
pub open spec fn inject_from(f: Seq<char>, safe: Seq<char>, cur: int) -> Seq<char>
    decreases f.len() - cur,
{
    if !(0 <= cur <= f.len()) {
        Seq::empty()
    } else {
        let k = find_from(f, drawtext_key(), cur);
        if k == -1 {
            f.subrange(cur, f.len() as int)
        } else {
            proof {
                lemma_find_from(f, drawtext_key(), cur);
            }
            f.subrange(cur, k) + "drawtext=fontfile="@ + safe + ":"@ + inject_from(
                f,
                safe,
                k + 9,
            )
        }
    }
}

/// The filter with every `drawtext=` clause given `fontfile={safe}`.
pub open spec fn fontfile_injected(f: Seq<char>, safe: Seq<char>) -> Seq<char> {
    inject_from(f, safe, 0)
}

/// The replacement that gives a `drawtext=` clause its font file.
pub open spec fn fontfile_clause(safe: Seq<char>) -> Seq<char> {
    "drawtext=fontfile="@ + safe + ":"@
}

proof fn lemma_inject_from_replaces(f: Seq<char>, safe: Seq<char>, cur: int)
    requires
        0 <= cur <= f.len(),
    ensures
        inject_from(f, safe, cur) == replace_all(f.skip(cur), drawtext_key(), fontfile_clause(safe)),
    decreases f.len() - cur,
{
    let d = drawtext_key();
    let rep = fontfile_clause(safe);
    let k = find_from(f, d, cur);
    lemma_find_from(f, d, cur);
    if k == -1 {
        lemma_replace_all_copies(f, d, rep, cur, f.len() as int);
        assert(f.skip(f.len() as int).len() == 0);
        assert(f.subrange(cur, f.len() as int) + Seq::<char>::empty() == f.subrange(
            cur,
            f.len() as int,
        ));
    } else {
        lemma_replace_all_copies(f, d, rep, cur, k);
        lemma_replace_all_at(f, d, rep, k);
        lemma_inject_from_replaces(f, safe, k + 9);
        let a = f.subrange(cur, k);
        let rest = inject_from(f, safe, k + 9);
        assert(a + "drawtext=fontfile="@ + safe + ":"@ + rest == a + (rep + rest));
    }
}

/// Injecting the font file is `str::replace` of every `drawtext=` by
/// `drawtext=fontfile={safe}:`.
pub proof fn lemma_fontfile_injected_is_replace(f: Seq<char>, safe: Seq<char>)
    ensures
        fontfile_injected(f, safe) == replace_all(f, drawtext_key(), fontfile_clause(safe)),
{
    lemma_inject_from_replaces(f, safe, 0);
    assert(f.skip(0) == f);
}

/// Rewrites each `drawtext=` clause of the filter to also carry
/// `fontfile=<safe>`, leaving everything else intact.
pub fn inject_fontfile_into_filter(filter: &str, safe_fontfile: &str) -> (r: String)
    ensures
        r@ == fontfile_injected(filter@, safe_fontfile@),
        r@ == replace_all(filter@, drawtext_key(), fontfile_clause(safe_fontfile@)),
        !contains(filter@, drawtext_key()) ==> r@ == filter@,
{
    proof {
        lemma_fontfile_injected_is_replace(filter@, safe_fontfile@);
    }
    let f = chars_of(filter);
    let safe = chars_of(safe_fontfile);
    let pat = vec!['d', 'r', 'a', 'w', 't', 'e', 'x', 't', '='];
    assert(pat@ == drawtext_key());
    let mut out: Vec<char> = Vec::new();
    let mut cursor: usize = 0;
    loop
        invariant_except_break
            cursor <= f.len(),
            pat@ == drawtext_key(),
            out@ + inject_from(f@, safe@, cursor as int) == fontfile_injected(f@, safe@),
        ensures
            out@ == fontfile_injected(f@, safe@),
        decreases f.len() - cursor,
    {
        let ghost before = out@;
        match find_from_exec(&f, &pat, cursor) {
            Some(idx) => {
                proof {
                    lemma_find_from(f@, pat@, cursor as int);
                }
                push_range(&mut out, &f, cursor, idx);
                push_str(&mut out, "drawtext=fontfile=");
                push_all(&mut out, &safe);
                push_str(&mut out, ":");
                assert(out@ + inject_from(f@, safe@, idx + 9) == before + inject_from(
                    f@,
                    safe@,
                    cursor as int,
                ));
                cursor = idx + 9;
            },
            None => {
                push_range(&mut out, &f, cursor, f.len());
                break ;
            },
        }
    }
    proof {
        if !contains(filter@, drawtext_key()) {
            lemma_find_from(f@, drawtext_key(), 0);
            if find_from(f@, drawtext_key(), 0) != -1 {
                assert(occurs_at(f@, drawtext_key(), find_from(f@, drawtext_key(), 0)));
            }
            assert(f@.subrange(0, f@.len() as int) == f@);
        }
    }
    string_from_chars(&out)
}

/// The filter argument handed to FFmpeg: with a font, every `drawtext=`
/// clause names the escaped font file; without one it is unchanged.
pub open spec fn filter_arg(filter: Seq<char>, font_path: Option<Seq<char>>) -> Seq<char> {
    match font_path {
        Some(p) => replace_all(filter, drawtext_key(), fontfile_clause(fontfile_escaped(p))),
        None => filter,
    }
}

/// The full FFmpeg argument list for one render.
pub open spec fn ffmpeg_args(
    inputs: Seq<Seq<char>>,
    filter: Seq<char>,
    output: Seq<char>,
    font_path: Option<Seq<char>>,
) -> Seq<Seq<char>> {
    seq!["-y"@] + inputs + seq![
        "-filter_complex"@,
        filter_arg(filter, font_path),
        "-map"@,
        "[vout]"@,
        "-map"@,
        "[aout]"@,
        "-c:v"@,
        "libx264"@,
        "-preset"@,
        "medium"@,
        "-crf"@,
        "20"@,
        "-pix_fmt"@,
        "yuv420p"@,
        "-c:a"@,
        "aac"@,
        "-b:a"@,
        "192k"@,
        "-shortest"@,
        "-movflags"@,
        "+faststart"@,
        output,
    ]
}

fn push_owned(args: &mut Vec<String>, s: &str)
    ensures
        final(args).deep_view() == old(args).deep_view().push(s@),
{
    let o = s.to_owned();
    let ghost before = args.deep_view();
    args.push(o);
    assert(args.deep_view() =~= before.push(s@));
}

/// Builds the FFmpeg argument list for one render: overwrite flag, the
/// inputs, the filter graph (with the font file injected into every
/// `drawtext=` clause when a font is given), stream maps, H.264/AAC
/// encoding settings, `-shortest`, `+faststart`, then the output path.
pub fn build_ffmpeg_args(
    inputs: &Vec<String>,
    filter: &str,
    output: &str,
    font_path: Option<&str>,
) -> (r: Vec<String>)
    ensures
        r.deep_view() == ffmpeg_args(
            inputs.deep_view(),
            filter@,
            output@,
            match font_path {
                Some(p) => Some(p@),
                None => None,
            },
        ),
{
    let mut args: Vec<String> = Vec::new();
    push_owned(&mut args, "-y");
    let mut i: usize = 0;
    while i < inputs.len()
        invariant
            i <= inputs.len(),
            args.deep_view() == seq!["-y"@] + inputs.deep_view().take(i as int),
        decreases inputs.len() - i,
    {
        let s = inputs[i].clone();
        let ghost before = args.deep_view();
        args.push(s);
        assert(args.deep_view() =~= before.push(inputs.deep_view()[i as int]));
        assert(inputs.deep_view().take(i + 1) == inputs.deep_view().take(i as int).push(
            inputs.deep_view()[i as int],
        ));
        i += 1;
    }
    assert(inputs.deep_view().take(i as int) == inputs.deep_view());
    push_owned(&mut args, "-filter_complex");
    match font_path {
        Some(p) => {
            let safe = escape_fontfile_for_filter(p);
            let rewritten = inject_fontfile_into_filter(filter, &safe);
            push_owned(&mut args, &rewritten);
        },
        None => {
            push_owned(&mut args, filter);
        },
    }
    push_owned(&mut args, "-map");
    push_owned(&mut args, "[vout]");
    push_owned(&mut args, "-map");
    push_owned(&mut args, "[aout]");
    push_owned(&mut args, "-c:v");
    push_owned(&mut args, "libx264");
    push_owned(&mut args, "-preset");
    push_owned(&mut args, "medium");
    push_owned(&mut args, "-crf");
    push_owned(&mut args, "20");
    push_owned(&mut args, "-pix_fmt");
    push_owned(&mut args, "yuv420p");
    push_owned(&mut args, "-c:a");
    push_owned(&mut args, "aac");
    push_owned(&mut args, "-b:a");
    push_owned(&mut args, "192k");
    push_owned(&mut args, "-shortest");
    push_owned(&mut args, "-movflags");
    push_owned(&mut args, "+faststart");
    push_owned(&mut args, output);
    assert(args.deep_view() =~= ffmpeg_args(
        inputs.deep_view(),
        filter@,
        output@,
        match font_path {
            Some(p) => Some(p@),
            None => None,
        },
    ));
    args
}

// ---------------------------------------------------------------------
// Small decisions of the export
// ---------------------------------------------------------------------

/// A font-discovery result turned into a warning, when one is warranted:
/// none when a font was found, a `MissingFont` warning (with the discovery
/// message as detail and the install hint as fix) otherwise.
pub fn font_warning_from(resolution: &FontResolution) -> (r: Option<ProjectWarning>)
    ensures
        resolution.found ==> r is None,
        !resolution.found ==> (r matches Some(w) && {
            &&& w.code == WarningCode::MissingFont
            &&& w.severity == WarningSeverity::Warning
            &&& w.scene_id is None
            &&& w.page is None
            &&& w.message@ == "No drawtext font was found on this system"@
            &&& w.detail matches Some(d) && d@ == resolution.message@
            &&& w.suggested_fix matches Some(f) && f@ == match resolution.install_hint {
                Some(h) => h@,
                None => "Install a TrueType font and re-export."@,
            }
        }),
{
    if resolution.found {
        return None;
    }
    let fix = match &resolution.install_hint {
        Some(h) => h.clone(),
        None => "Install a TrueType font and re-export.".to_owned(),
    };
    Some(
        ProjectWarning::warning(
            WarningCode::MissingFont,
            "No drawtext font was found on this system".to_owned(),
        ).with_detail(resolution.message.clone()).with_fix(fix),
    )
}

/// How the resolved font will be handed to the renderer.
pub fn font_render_kind(resolution: &FontResolution) -> (r: FontRenderKind)
    ensures
        r == resolution.render_kind,
{
    resolution.render_kind
}

/// A project name made safe as a file name: letters, digits, `-` and `_`
/// kept, everything else turned into `_`.
pub open spec fn sanitized(name: Seq<char>) -> Seq<char>
    decreases name.len(),
{
    if name.len() == 0 {
        name
    } else {
        let c = name.last();
        sanitized(name.drop_last()) + seq![
            if unicode_alphanumeric(c) || c == '-' || c == '_' {
                c
            } else {
                '_'
            },
        ]
    }
}

/// A character kept in a file name: `-`, `_`, or an alphanumeric one,
/// which within ASCII means a letter or a digit (so never a path
/// separator, a colon, a dot or a space).
pub open spec fn file_name_safe(c: char) -> bool {
    c == '-' || c == '_' || (unicode_alphanumeric(c) && ((c as u32) < 128 ==> ascii_alphanumeric(
        c,
    )))
}

/// What an ASCII character of a project name becomes in the file name:
/// letters, digits, `-` and `_` stay, everything else becomes `_`.
pub open spec fn ascii_kept(c: char) -> char {
    if ascii_alphanumeric(c) || c == '-' || c == '_' {
        c
    } else {
        '_'
    }
}

/// Makes a project name safe to use in an output file name.
pub fn sanitize(name: &str) -> (r: String)
    ensures
        r@ == sanitized(name@),
        r@.len() == name@.len(),
        forall|j: int| 0 <= j < r@.len() ==> #[trigger] file_name_safe(r@[j]),
        forall|j: int|
            0 <= j < name@.len() && (name@[j] as u32) < 128 ==> #[trigger] r@[j] == ascii_kept(
                name@[j],
            ),
{
    let v = chars_of(name);
    let mut out: Vec<char> = Vec::new();
    let mut i: usize = 0;
    while i < v.len()
        invariant
            i <= v.len(),
            out@ == sanitized(v@.take(i as int)),
            out@.len() == i,
            forall|j: int| 0 <= j < out@.len() ==> #[trigger] file_name_safe(out@[j]),
            forall|j: int|
                0 <= j < i && (v@[j] as u32) < 128 ==> #[trigger] out@[j] == ascii_kept(v@[j]),
        decreases v.len() - i,
    {
        assert(v@.take(i + 1).drop_last() == v@.take(i as int));
        let c = v[i];
        if is_alphanumeric(c) || c == '-' || c == '_' {
            out.push(c);
        } else {
            out.push('_');
        }
        i += 1;
    }
    assert(v@.take(i as int) == v@);
    string_from_chars(&out)
}

/// The local Argos translator handles the project: no provider chosen,
/// or the legacy `marian` / current `argos` ids.
pub open spec fn default_translator(provider: Seq<char>) -> bool {
    provider.len() == 0 || provider == "marian"@ || provider == "argos"@
}

/// Whether the project uses the local default translator.
pub fn is_default_translator(project: &Project) -> (r: bool)
    ensures
        r == default_translator(project.translation_provider@),
{
    project.translation_provider.unicode_len() == 0 || str_eq(
        &project.translation_provider,
        "marian",
    ) || str_eq(&project.translation_provider, "argos")
}

/// English output needs no translation; an empty language means English.
pub open spec fn english(language: Seq<char>) -> bool {
    language == "English (US)"@ || language.len() == 0
}

/// Whether the output language is English.
pub fn is_english(language: &str) -> (r: bool)
    ensures
        r == english(language@),
{
    str_eq(language, "English (US)") || language.unicode_len() == 0
}

/// Narration speed clamped to the 50–200% that edge-tts is given.
pub open spec fn clamped_speed(speed: nat) -> int {
    if speed < 50 {
        50
    } else if speed > 200 {
        200
    } else {
        speed as int
    }
}

/// The edge-tts `--rate` value for a speed percentage: none at 100%,
/// otherwise the signed difference from 100 followed by `%`.
pub open spec fn rate_for_speed(speed: nat) -> Option<Seq<char>> {
    let delta = clamped_speed(speed) - 100;
    if delta == 0 {
        None
    } else if delta > 0 {
        Some("+"@ + dec(delta as nat) + "%"@)
    } else {
        Some("-"@ + dec((-delta) as nat) + "%"@)
    }
}

/// Converts a narration speed percentage (100 = normal) into an edge-tts
/// `--rate` string like `+15%` / `-20%`; `None` at 100%. Out-of-range
/// values are clamped to 50–200%.
pub fn speed_to_rate(speed: u32) -> (r: Option<String>)
    ensures
        match r {
            Some(s) => rate_for_speed(speed as nat) == Some(s@),
            None => rate_for_speed(speed as nat) is None,
        },
{
    let clamped: u32 = if speed < 50 {
        50
    } else if speed > 200 {
        200
    } else {
        speed
    };
    if clamped == 100 {
        None
    } else if clamped > 100 {
        let mut out: Vec<char> = Vec::new();
        out.push('+');
        push_dec(&mut out, (clamped - 100) as u128);
        out.push('%');
        assert(out@ == "+"@ + dec((clamped - 100) as nat) + "%"@) by {
            reveal_strlit("+");
            reveal_strlit("%");
        }
        Some(string_from_chars(&out))
    } else {
        let mut out: Vec<char> = Vec::new();
        out.push('-');
        push_dec(&mut out, (100 - clamped) as u128);
        out.push('%');
        assert(out@ == "-"@ + dec((100 - clamped) as nat) + "%"@) by {
            reveal_strlit("-");
            reveal_strlit("%");
        }
        Some(string_from_chars(&out))
    }
}

/// The voice name handed to the chosen voice provider.
pub open spec fn voice_for(provider: Seq<char>, voice: Seq<char>, language: Seq<char>) -> Seq<char> {
    if provider == "edge"@ {
        edge_voice_spec(language)
    } else if provider == "kokoro"@ {
        if has_char(voice, '_') {
            voice
        } else {
            kokoro_voice_spec(language)
        }
    } else if provider == "piper"@ {
        voice
    } else if provider == "elevenlabs"@ {
        if voice == "Amy · English (US)"@ {
            "EXAVITQu4vr4xnSDxMaL"@
        } else {
            "21m00Tcm4TlvDq8ikWAM"@
        }
    } else if provider == "openai"@ {
        openai_voice_spec(voice)
    } else {
        voice
    }
}

/// OpenAI TTS voice for the project's voice choice.
pub open spec fn openai_voice_spec(voice: Seq<char>) -> Seq<char> {
    if voice == "Amy · English (US)"@ {
        "shimmer"@
    } else if voice == "Ryan · English (US)"@ {
        "onyx"@
    } else {
        "alloy"@
    }
}

/// Picks the concrete voice for the project's voice provider: the edge
/// voice for the language, a Kokoro voice id (the stored one when it
/// looks like one, i.e. contains `_`), the ElevenLabs or OpenAI voice for
/// the UI voice name, or the stored voice otherwise.
pub fn resolve_voice(project: &Project, _script: &str) -> (r: String)
    ensures
        r@ == voice_for(project.voice_provider@, project.voice@, project.language@),
{
    let p = &project.voice_provider;
    if str_eq(p, "edge") {
        edge_voice_for_language(&project.language).to_owned()
    } else if str_eq(p, "kokoro") {
        if has_char_exec(&project.voice, '_') {
            project.voice.clone()
        } else {
            kokoro_voice_for_language(&project.language).to_owned()
        }
    } else if str_eq(p, "piper") {
        project.voice.clone()
    } else if str_eq(p, "elevenlabs") {
        if str_eq(&project.voice, "Amy · English (US)") {
            "EXAVITQu4vr4xnSDxMaL".to_owned()
        } else {
            "21m00Tcm4TlvDq8ikWAM".to_owned()
        }
    } else if str_eq(p, "openai") {
        openai_voice_name(project)
    } else {
        project.voice.clone()
    }
}

/// The ElevenLabs voice id used for synthesis (the default voice).
pub fn elevenlabs_voice_id(_name: &str) -> (r: String)
    ensures
        r@ == "21m00Tcm4TlvDq8ikWAM"@,
{
    "21m00Tcm4TlvDq8ikWAM".to_owned()
}

/// The OpenAI TTS voice for the project's voice choice.
pub fn openai_voice_name(project: &Project) -> (r: String)
    ensures
        r@ == openai_voice_spec(project.voice@),
{
    if str_eq(&project.voice, "Amy · English (US)") {
        "shimmer".to_owned()
    } else if str_eq(&project.voice, "Ryan · English (US)") {
        "onyx".to_owned()
    } else {
        "alloy".to_owned()
    }
}

/// With no words there are no caption lines.
pub proof fn lemma_words_nonempty_lines(text: Seq<char>, max: nat)
    requires
        words(text).len() == 0,
    ensures
        caption_lines(text, max).len() == 0,
{
    lemma_words_shape(text);
    lemma_caption_fold(words(text), max);
}

} // verus!
