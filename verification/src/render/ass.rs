//! ASS: where the caption was, what colour it was, how wide the cells were —
//! the sidecar form for a recording, where a player will honour all of it.
//!
//! A script declares the caption plane the broadcast used as its `PlayResX` /
//! `PlayResY`, so every coordinate in the model goes out unchanged and the
//! player scales the plane onto whatever the video really is. What is here is
//! the exact part of that: the colours and their transparency as ASS spells
//! them, the timestamps, the text with its braces escaped, the inline tags that
//! take one cell's appearance to the next, the runs of cells that share a line,
//! and DRCS bitmaps turned into the rectangles that draw them. The sizes and
//! positions, which are fractions of the plane, are formatted by the program
//! that writes the script.
use std::collections::HashMap;
use vstd::prelude::*;

use crate::model::{Caption, CaptionChar, CharBody, CharStyle, CharView, Drcs, Rgba};
use crate::render::timeline::Timed;
use crate::text::{
    all_digits, dec, decimal_value, hex2, hex_value, law_decimal_reads_back, law_hex2_reads_back,
    law_padded_reads_back, lemma_padded_exact, padded, pow10, push_char, push_dec, push_hex2,
    push_padded, push_str,
};

verus! {

broadcast use vstd::std_specs::hash::group_hash_axioms;

/// The caption plane a script is written against when no caption declares
/// one: ARIB STD-B24 profile A.
pub const DEFAULT_PLANE_WIDTH: i32 = 960;

pub const DEFAULT_PLANE_HEIGHT: i32 = 540;

// ── colours ─────────────────────────────────────────────────────────

/// `&HBBGGRR&` — ASS orders the channels backwards from everything else.
pub open spec fn spec_colour(c: Rgba) -> Seq<char> {
    seq!['&', 'H'] + hex2(c.b) + hex2(c.g) + hex2(c.r) + seq!['&']
}

/// `&HAA&`, where ASS counts *transparency*: 00 is opaque.
pub open spec fn spec_alpha(c: Rgba) -> Seq<char> {
    seq!['&', 'H'] + hex2((255 - c.a) as u8) + seq!['&']
}

pub fn colour(c: Rgba) -> (s: String)
    ensures
        s@ == spec_colour(c),
{
    let mut s = String::new();
    push_char(&mut s, '&');
    push_char(&mut s, 'H');
    push_hex2(&mut s, c.b);
    push_hex2(&mut s, c.g);
    push_hex2(&mut s, c.r);
    push_char(&mut s, '&');
    assert(s@ =~= spec_colour(c));
    s
}

pub fn alpha(c: Rgba) -> (s: String)
    ensures
        s@ == spec_alpha(c),
{
    let mut s = String::new();
    push_char(&mut s, '&');
    push_char(&mut s, 'H');
    push_hex2(&mut s, 255 - c.a);
    push_char(&mut s, '&');
    assert(s@ =~= spec_alpha(c));
    s
}

// ── time ────────────────────────────────────────────────────────────

/// `H:MM:SS.cc` of a count of hundredths.
pub open spec fn hundredths(cs: nat) -> Seq<char> {
    dec(cs / 360_000) + seq![':'] + padded((cs / 6_000) % 60, 2) + seq![':'] + padded(
        (cs / 100) % 60,
        2,
    ) + seq!['.'] + padded(cs % 100, 2)
}

/// `H:MM:SS.cc` — ASS keeps hundredths and no more: a time is rounded to the
/// nearest, and a negative one is zero.
pub open spec fn spec_timestamp(ms: int) -> Seq<char> {
    hundredths(((if ms < 0 {
        0
    } else {
        ms
    }) + 5) as nat / 10)
}

pub fn timestamp(ms: i64) -> (s: String)
    requires
        ms <= i64::MAX - 5,
    ensures
        s@ == spec_timestamp(ms as int),
{
    let clamped: i64 = if ms < 0 {
        0
    } else {
        ms
    };
    let cs = ((clamped + 5) / 10) as u64;
    let mut s = String::new();
    push_dec(&mut s, cs / 360_000);
    push_char(&mut s, ':');
    push_padded(&mut s, (cs / 6_000) % 60, 2);
    push_char(&mut s, ':');
    push_padded(&mut s, (cs / 100) % 60, 2);
    push_char(&mut s, '.');
    push_padded(&mut s, cs % 100, 2);
    assert(s@ =~= spec_timestamp(ms as int));
    s
}

/// Two hexadecimal digits at `k` of `s`, read as a number.
pub open spec fn hex_pair_at(s: Seq<char>, k: int) -> int {
    hex_value(s[k]) * 16 + hex_value(s[k + 1])
}

/// A colour reads back as written: `&H`, then blue, green and red as two
/// hex digits each, then `&`. Its alpha reads back as `&H`, the transparency
/// `255 - a` in two hex digits, `&`.
pub proof fn law_colour_reads_back(c: Rgba)
    ensures
        spec_colour(c).len() == 9,
        spec_colour(c)[0] == '&' && spec_colour(c)[1] == 'H' && spec_colour(c)[8] == '&',
        hex_pair_at(spec_colour(c), 2) == c.b,
        hex_pair_at(spec_colour(c), 4) == c.g,
        hex_pair_at(spec_colour(c), 6) == c.r,
        spec_alpha(c).len() == 5,
        spec_alpha(c)[0] == '&' && spec_alpha(c)[1] == 'H' && spec_alpha(c)[4] == '&',
        hex_pair_at(spec_alpha(c), 2) == 255 - c.a,
{
    law_hex2_reads_back(c.b);
    law_hex2_reads_back(c.g);
    law_hex2_reads_back(c.r);
    law_hex2_reads_back((255 - c.a) as u8);
    let s = spec_colour(c);
    assert(s[2] == hex2(c.b)[0] && s[3] == hex2(c.b)[1]);
    assert(s[4] == hex2(c.g)[0] && s[5] == hex2(c.g)[1]);
    assert(s[6] == hex2(c.r)[0] && s[7] == hex2(c.r)[1]);
    let a = spec_alpha(c);
    assert(a[2] == hex2((255 - c.a) as u8)[0] && a[3] == hex2((255 - c.a) as u8)[1]);
}

/// An ASS time reads back: `H:MM:SS.cc`, hours in as many digits as they
/// take, minutes and seconds below 60, and together the number of hundredths
/// the time rounds to (a negative time being zero).
pub proof fn law_timestamp_reads_back(ms: int)
    requires
        ms <= i64::MAX,
    ensures
        ({
            let s = spec_timestamp(ms);
            let l = s.len() as int;
            let cs = ((if ms < 0 {
                0
            } else {
                ms
            }) + 5) / 10;
            &&& l >= 10
            &&& s[l - 9] == ':' && s[l - 6] == ':' && s[l - 3] == '.'
            &&& all_digits(s.take(l - 9)) && all_digits(s.subrange(l - 8, l - 6))
            &&& all_digits(s.subrange(l - 5, l - 3)) && all_digits(s.subrange(l - 2, l))
            &&& decimal_value(s.subrange(l - 8, l - 6)) < 60
            &&& decimal_value(s.subrange(l - 5, l - 3)) < 60
            &&& decimal_value(s.take(l - 9)) * 360000 + decimal_value(s.subrange(l - 8, l - 6))
                * 6000 + decimal_value(s.subrange(l - 5, l - 3)) * 100 + decimal_value(
                s.subrange(l - 2, l),
            ) == cs
        }),
{
    let cs: nat = (((if ms < 0 {
        0
    } else {
        ms
    }) + 5) / 10) as nat;
    let h = cs / 360_000;
    let mm = (cs / 6_000) % 60;
    let ss = (cs / 100) % 60;
    let cc = cs % 100;
    assert(pow10(2) == 100) by {
        assert(pow10(0) == 1);
        assert(pow10(1) == 10);
    }
    law_decimal_reads_back(h);
    law_padded_reads_back(mm, 2);
    law_padded_reads_back(ss, 2);
    law_padded_reads_back(cc, 2);
    lemma_padded_exact(mm, 2);
    lemma_padded_exact(ss, 2);
    lemma_padded_exact(cc, 2);
    let s = spec_timestamp(ms);
    let d = dec(h);
    assert(s =~= d + seq![':'] + padded(mm, 2) + seq![':'] + padded(ss, 2) + seq!['.'] + padded(cc, 2));
    let l = s.len() as int;
    assert(s.take(l - 9) =~= d);
    assert(s.subrange(l - 8, l - 6) =~= padded(mm, 2));
    assert(s.subrange(l - 5, l - 3) =~= padded(ss, 2));
    assert(s.subrange(l - 2, l) =~= padded(cc, 2));
    assert(h * 360000 + mm * 6000 + ss * 100 + cc == cs) by (nonlinear_arith)
        requires
            h == cs / 360_000,
            mm == (cs / 6_000) % 60,
            ss == (cs / 100) % 60,
            cc == cs % 100,
    ;
}

// ── text ────────────────────────────────────────────────────────────

/// What one character becomes in ASS text: a brace would open or close an
/// override block, so it is escaped; nothing else is special.
pub open spec fn escape_char(c: char) -> Seq<char> {
    if c == '{' {
        seq!['\\', '{']
    } else if c == '}' {
        seq!['\\', '}']
    } else {
        seq![c]
    }
}

pub open spec fn spec_escape(s: Seq<char>) -> Seq<char>
    decreases s.len(),
{
    if s.len() == 0 {
        Seq::empty()
    } else {
        escape_char(s[0]) + spec_escape(s.drop_first())
    }
}

/// What ASS text stands for: `\{` and `\}` are literal braces, and every
/// other character is itself.
pub open spec fn ass_unescape(s: Seq<char>) -> Seq<char>
    decreases s.len(),
{
    if s.len() >= 2 && s[0] == '\\' && (s[1] == '{' || s[1] == '}') {
        seq![s[1]] + ass_unescape(s.skip(2))
    } else if s.len() > 0 {
        seq![s[0]] + ass_unescape(s.skip(1))
    } else {
        Seq::empty()
    }
}

/// Escaping reads back: the braces that would open or close an override
/// block come back as the characters they were, and so does everything else.
pub proof fn law_escape_reads_back(s: Seq<char>)
    ensures
        ass_unescape(spec_escape(s)) == s,
    decreases s.len(),
{
    if s.len() > 0 {
        law_escape_reads_back(s.drop_first());
        let e = escape_char(s[0]);
        let t = spec_escape(s.drop_first());
        let a = e + t;
        assert(spec_escape(s) == a);
        assert(a.skip(e.len() as int) =~= t);
        if s[0] == '\\' && t.len() > 0 {
            // A backslash is itself; the brace after it, if any, is escaped
            // in turn and read as a brace in turn.
            assert(a[1] == t[0]);
            if t[0] == '{' || t[0] == '}' {
                assert(false);
            }
        }
        assert(s =~= seq![s[0]] + s.drop_first());
    }
}

/// Braces open an override block, so a caption containing one would be read as
/// markup. Nothing else in ASS text is special.
pub fn escape(text: &str) -> (e: String)
    ensures
        e@ == spec_escape(text@),
{
    let chars = crate::text::chars_of(text);
    let mut out = String::new();
    let mut i: usize = 0;
    assert(chars@.skip(0) =~= chars@);
    while i < chars.len()
        invariant
            i <= chars@.len(),
            chars@ == text@,
            out@ + spec_escape(chars@.skip(i as int)) == spec_escape(text@),
        decreases chars@.len() - i,
    {
        assert(chars@.skip(i as int).drop_first() =~= chars@.skip(i + 1));
        let c = chars[i];
        let ghost before = out@;
        if c == '{' || c == '}' {
            push_char(&mut out, '\\');
        }
        push_char(&mut out, c);
        assert(out@ =~= before + escape_char(c));
        assert(out@ + spec_escape(chars@.skip(i + 1)) =~= before + spec_escape(
            chars@.skip(i as int),
        ));
        i = i + 1;
    }
    assert(chars@.skip(chars@.len() as int) =~= Seq::<char>::empty());
    assert(out@ + Seq::<char>::empty() =~= out@);
    out
}

/// What a cell shows as text: its own, or GETA for a DRCS glyph that has
/// none.
pub open spec fn spec_text_of(ch: CaptionChar) -> Seq<char> {
    match ch.spec_text() {
        Some(t) => t,
        None => seq!['\u{3013}'],
    }
}

pub fn text_of(ch: &CaptionChar) -> (t: &str)
    ensures
        t@ == spec_text_of(*ch),
{
    match ch.text() {
        Some(t) => t,
        None => {
            proof {
                reveal_strlit("\u{3013}");
            }
            "\u{3013}"
        },
    }
}

// ── the plane ───────────────────────────────────────────────────────

/// The plane of the first caption that declares one, or profile A's.
pub open spec fn spec_plane_of(cs: Seq<Timed<Caption>>) -> (i32, i32)
    decreases cs.len(),
{
    if cs.len() == 0 {
        (DEFAULT_PLANE_WIDTH, DEFAULT_PLANE_HEIGHT)
    } else if cs[0].value.plane_width > 0 && cs[0].value.plane_height > 0 {
        (cs[0].value.plane_width, cs[0].value.plane_height)
    } else {
        spec_plane_of(cs.drop_first())
    }
}

/// The plane every caption in the script is written against: the first one's.
///
/// A service that changes between HD and SD mid-recording changes the plane
/// with it, and one script can only declare one `PlayRes`.
pub fn plane_of(captions: &[Timed<Caption>]) -> (p: (i32, i32))
    ensures
        p == spec_plane_of(captions@),
{
    let mut i: usize = 0;
    assert(captions@.skip(0) =~= captions@);
    while i < captions.len()
        invariant
            i <= captions@.len(),
            spec_plane_of(captions@.skip(i as int)) == spec_plane_of(captions@),
        decreases captions@.len() - i,
    {
        assert(captions@.skip(i as int).drop_first() =~= captions@.skip(i + 1));
        let w = captions[i].value.plane_width;
        let h = captions[i].value.plane_height;
        if w > 0 && h > 0 {
            return (w, h);
        }
        i = i + 1;
    }
    assert(captions@.skip(i as int) =~= Seq::<Timed<Caption>>::empty());
    (DEFAULT_PLANE_WIDTH, DEFAULT_PLANE_HEIGHT)
}

// ── runs ────────────────────────────────────────────────────────────

/// Whether `r` cuts `0..n` into consecutive, non-empty ranges, joining
/// neighbours `j` and `j + 1` exactly where `same[j]` holds.
pub open spec fn is_runs(n: int, same: Seq<bool>, r: Seq<(usize, usize)>) -> bool {
    &&& (r.len() == 0 <==> n == 0)
    &&& r.len() > 0 ==> r[0].0 == 0 && r.last().1 == n
    &&& forall|k: int| 0 <= k < r.len() ==> #[trigger] r[k].0 < r[k].1
    &&& forall|k: int| 0 <= k < r.len() - 1 ==> #[trigger] r[k].1 == r[k + 1].0
    &&& forall|k: int, j: int|
        #![trigger r[k], same[j]]
        0 <= k < r.len() && r[k].0 <= j && j + 1 < r[k].1 ==> same[j]
    &&& forall|k: int| 0 <= k < r.len() - 1 ==> !same[#[trigger] r[k].1 - 1]
}

/// Consecutive cells that belong together, as `(start, end)` ranges in
/// order: cells `j` and `j + 1` share a range exactly when `same[j]` says so.
pub fn runs(n: usize, same: &[bool]) -> (r: Vec<(usize, usize)>)
    requires
        n > 0 ==> same@.len() == n - 1,
    ensures
        is_runs(n as int, same@, r@),
{
    let mut out: Vec<(usize, usize)> = Vec::new();
    let mut start: usize = 0;
    let mut i: usize = 1;
    while i < n
        invariant
            n > 0 ==> same@.len() == n - 1,
            1 <= i,
            n > 0 ==> i <= n,
            n == 0 ==> start == 0 && out@.len() == 0,
            start < i,
            out@.len() == 0 <==> start == 0,
            out@.len() > 0 ==> out@[0].0 == 0 && out@.last().1 == start,
            forall|k: int| 0 <= k < out@.len() ==> #[trigger] out@[k].0 < out@[k].1,
            forall|k: int| 0 <= k < out@.len() - 1 ==> #[trigger] out@[k].1 == out@[k + 1].0,
            forall|k: int, j: int|
                #![trigger out@[k], same@[j]]
                0 <= k < out@.len() && out@[k].0 <= j && j + 1 < out@[k].1 ==> same@[j],
            forall|k: int| 0 <= k < out@.len() ==> !same@[#[trigger] out@[k].1 - 1],
            forall|j: int| start <= j && j + 1 < i ==> #[trigger] same@[j],
        decreases n - i,
    {
        if !same[i - 1] {
            let ghost before = out@;
            out.push((start, i));
            proof {
                assert forall|k: int, j: int|
                    #![trigger out@[k], same@[j]]
                    0 <= k < out@.len() && out@[k].0 <= j && j + 1 < out@[k].1 implies same@[j] by {
                    if k < before.len() {
                        assert(out@[k] == before[k]);
                    }
                }
                assert forall|k: int| 0 <= k < out@.len() - 1 implies #[trigger] out@[k].1 == out@[k + 1].0 by {
                    if k + 1 < before.len() {
                        assert(out@[k] == before[k] && out@[k + 1] == before[k + 1]);
                    } else {
                        assert(out@[k] == before.last());
                    }
                }
            }
            start = i;
        }
        i = i + 1;
    }
    if start < n {
        let ghost before = out@;
        out.push((start, n));
        proof {
            assert forall|k: int, j: int|
                #![trigger out@[k], same@[j]]
                0 <= k < out@.len() && out@[k].0 <= j && j + 1 < out@[k].1 implies same@[j] by {
                if k < before.len() {
                    assert(out@[k] == before[k]);
                }
            }
            assert forall|k: int| 0 <= k < out@.len() - 1 implies #[trigger] out@[k].1 == out@[k + 1].0 by {
                if k + 1 < before.len() {
                    assert(out@[k] == before[k] && out@[k + 1] == before[k + 1]);
                } else {
                    assert(out@[k] == before.last());
                }
            }
            assert forall|k: int| 0 <= k < out@.len() - 1 implies !same@[#[trigger] out@[k].1 - 1] by {
                assert(out@[k] == before[k]);
            }
        }
    }
    out
}

// ── appearance ──────────────────────────────────────────────────────

/// Whether a cell is drawn outlined: ARIB's stroke, in a colour that shows.
pub open spec fn stroked(c: CaptionChar) -> bool {
    c.style.stroke && c.stroke_color.a != 0
}

/// `\b1`-style tag for one flag, when it changed.
pub open spec fn flag_tag(name: char, was: bool, now: bool) -> Seq<char> {
    if was != now {
        seq![
            '\\',
            name,
            if now {
                '1'
            } else {
                '0'
            },
        ]
    } else {
        Seq::empty()
    }
}

pub open spec fn deref_opt(o: Option<&CaptionChar>) -> Option<CaptionChar> {
    match o {
        Some(p) => Some(*p),
        None => None,
    }
}

/// The fill colour and its transparency, where it changed.
pub open spec fn colour_tags(ch: CaptionChar, prev: Option<CaptionChar>) -> Seq<char> {
    if prev is None || prev->0.text_color != ch.text_color {
        "\\1c"@ + spec_colour(ch.text_color) + "\\1a"@ + spec_alpha(ch.text_color)
    } else {
        Seq::empty()
    }
}

/// The outline where it was switched on or changed colour, or its removal
/// where it was switched off.
pub open spec fn stroke_tags(ch: CaptionChar, prev: Option<CaptionChar>) -> Seq<char> {
    let was_stroked = prev is Some && stroked(prev->0);
    if stroked(ch) {
        if !was_stroked || prev->0.stroke_color != ch.stroke_color {
            "\\bord2\\3c"@ + spec_colour(ch.stroke_color) + "\\3a"@ + spec_alpha(ch.stroke_color)
        } else {
            Seq::empty()
        }
    } else if was_stroked {
        "\\bord0"@
    } else {
        Seq::empty()
    }
}

/// Bold, italic and underline, each where it differs from before — or, on the
/// first character, from the plain style the script declares.
pub open spec fn style_tags(ch: CaptionChar, prev: Option<CaptionChar>) -> Seq<char> {
    let was = if prev is Some {
        prev->0.style
    } else {
        CharStyle::spec_plain()
    };
    flag_tag('b', was.bold, ch.style.bold) + flag_tag('i', was.italic, ch.style.italic)
        + flag_tag('u', was.underline, ch.style.underline)
}

/// The override tags that turn the previous character's appearance into this
/// one's, unbraced.
pub open spec fn spec_appearance(ch: CaptionChar, prev: Option<CaptionChar>) -> Seq<char> {
    colour_tags(ch, prev) + stroke_tags(ch, prev) + style_tags(ch, prev)
}

/// Whether `tag` occurs in `s`.
pub open spec fn holds_tag(s: Seq<char>, tag: Seq<char>) -> bool {
    exists|k: int| 0 <= k && k + tag.len() <= s.len() && #[trigger] s.subrange(k, k + tag.len()) == tag
}

/// The tag that switches style flag `name` on or off.
pub open spec fn switch_tag(name: char, on: bool) -> Seq<char> {
    seq!['\\', name, if on { '1' } else { '0' }]
}

/// Where a cell's bold, italic or underline differs from the cell before it
/// — or, for the first cell, from plain text — its appearance switches that
/// flag to the cell's own: `\b1`/`\b0`, `\i1`/`\i0`, `\u1`/`\u0`.
pub proof fn law_style_changes_are_switched(ch: CaptionChar, prev: Option<CaptionChar>)
    ensures
        ({
            let was = if prev is Some {
                prev->0.style
            } else {
                CharStyle::spec_plain()
            };
            let a = spec_appearance(ch, prev);
            &&& was.bold != ch.style.bold ==> holds_tag(a, switch_tag('b', ch.style.bold))
            &&& was.italic != ch.style.italic ==> holds_tag(a, switch_tag('i', ch.style.italic))
            &&& was.underline != ch.style.underline ==> holds_tag(
                a,
                switch_tag('u', ch.style.underline),
            )
            &&& was.bold == ch.style.bold ==> !holds_tag(style_tags(ch, prev), seq!['\\', 'b'])
            &&& was.italic == ch.style.italic ==> !holds_tag(style_tags(ch, prev), seq!['\\', 'i'])
            &&& was.underline == ch.style.underline ==> !holds_tag(
                style_tags(ch, prev),
                seq!['\\', 'u'],
            )
        }),
{
    let was = if prev is Some {
        prev->0.style
    } else {
        CharStyle::spec_plain()
    };
    lemma_flags_in(
        colour_tags(ch, prev),
        stroke_tags(ch, prev),
        was,
        ch.style,
    );
    assert(style_tags(ch, prev) == flag_tag('b', was.bold, ch.style.bold) + flag_tag(
        'i',
        was.italic,
        ch.style.italic,
    ) + flag_tag('u', was.underline, ch.style.underline));
    if was.bold == ch.style.bold {
        lemma_no_unswitched_flag(was, ch.style, 'b');
    }
    if was.italic == ch.style.italic {
        lemma_no_unswitched_flag(was, ch.style, 'i');
    }
    if was.underline == ch.style.underline {
        lemma_no_unswitched_flag(was, ch.style, 'u');
    }
}

/// The style tags name only the flags that switch.
proof fn lemma_no_unswitched_flag(was: CharStyle, now: CharStyle, name: char)
    requires
        name == 'b' && was.bold == now.bold || name == 'i' && was.italic == now.italic || name
            == 'u' && was.underline == now.underline,
    ensures
        !holds_tag(
            flag_tag('b', was.bold, now.bold) + flag_tag('i', was.italic, now.italic) + flag_tag(
                'u',
                was.underline,
                now.underline,
            ),
            seq!['\\', name],
        ),
{
    let a = flag_tag('b', was.bold, now.bold) + flag_tag('i', was.italic, now.italic) + flag_tag(
        'u',
        was.underline,
        now.underline,
    );
    assert forall|k: int| 0 <= k < a.len() implies #[trigger] a[k] != name by {
    }
    if holds_tag(a, seq!['\\', name]) {
        let k = choose|k: int| 0 <= k && k + 2 <= a.len() && #[trigger] a.subrange(k, k + 2) == seq!['\\', name];
        assert(a.subrange(k, k + 2)[1] == name);
        assert(a[k + 1] == name);
    }
}

/// The three flag tags, after any other tags, each occur where they switch.
proof fn lemma_flags_in(c: Seq<char>, t: Seq<char>, was: CharStyle, now: CharStyle)
    ensures
        ({
            let a = c + t + (flag_tag('b', was.bold, now.bold) + flag_tag('i', was.italic, now.italic)
                + flag_tag('u', was.underline, now.underline));
            &&& was.bold != now.bold ==> holds_tag(a, switch_tag('b', now.bold))
            &&& was.italic != now.italic ==> holds_tag(a, switch_tag('i', now.italic))
            &&& was.underline != now.underline ==> holds_tag(a, switch_tag('u', now.underline))
        }),
{
    let head = c + t;
    let fb = flag_tag('b', was.bold, now.bold);
    let fi = flag_tag('i', was.italic, now.italic);
    let fu = flag_tag('u', was.underline, now.underline);
    let a = c + t + (fb + fi + fu);
    if was.bold != now.bold {
        let k = head.len() as int;
        assert(a.subrange(k, k + 3) =~= switch_tag('b', now.bold));
    }
    if was.italic != now.italic {
        let k = (head.len() + fb.len()) as int;
        assert(a.subrange(k, k + 3) =~= switch_tag('i', now.italic));
    }
    if was.underline != now.underline {
        let k = (head.len() + fb.len() + fi.len()) as int;
        assert(a.subrange(k, k + 3) =~= switch_tag('u', now.underline));
    }
}

fn push_flag_tag(out: &mut String, name: char, was: bool, now: bool)
    ensures
        final(out)@ == old(out)@ + flag_tag(name, was, now),
{
    if was != now {
        push_char(out, '\\');
        push_char(out, name);
        push_char(out, if now { '1' } else { '0' });
    }
    assert(out@ =~= old(out)@ + flag_tag(name, was, now));
}

fn stroked_exec(c: &CaptionChar) -> (b: bool)
    ensures
        b == stroked(*c),
{
    c.style.stroke && !c.stroke_color.is_transparent()
}

fn push_colour_tags(out: &mut String, ch: &CaptionChar, prev: Option<&CaptionChar>)
    ensures
        final(out)@ == old(out)@ + colour_tags(*ch, deref_opt(prev)),
{
    let changed = match prev {
        Some(q) => q.text_color != ch.text_color,
        None => true,
    };
    if changed {
        push_str(out, "\\1c");
        let c = colour(ch.text_color);
        push_str(out, c.as_str());
        push_str(out, "\\1a");
        let a = alpha(ch.text_color);
        push_str(out, a.as_str());
    }
    assert(out@ =~= old(out)@ + colour_tags(*ch, deref_opt(prev)));
}

fn push_stroke_tags(out: &mut String, ch: &CaptionChar, prev: Option<&CaptionChar>)
    ensures
        final(out)@ == old(out)@ + stroke_tags(*ch, deref_opt(prev)),
{
    let is_stroked = stroked_exec(ch);
    let (was_stroked, changed) = match prev {
        Some(q) => (stroked_exec(q), q.stroke_color != ch.stroke_color),
        None => (false, true),
    };
    if is_stroked {
        if !was_stroked || changed {
            push_str(out, "\\bord2\\3c");
            let c = colour(ch.stroke_color);
            push_str(out, c.as_str());
            push_str(out, "\\3a");
            let a = alpha(ch.stroke_color);
            push_str(out, a.as_str());
        }
    } else if was_stroked {
        push_str(out, "\\bord0");
    }
    assert(out@ =~= old(out)@ + stroke_tags(*ch, deref_opt(prev)));
}

fn push_style_tags(out: &mut String, ch: &CaptionChar, prev: Option<&CaptionChar>)
    ensures
        final(out)@ == old(out)@ + style_tags(*ch, deref_opt(prev)),
{
    let was = match prev {
        Some(q) => q.style,
        None => CharStyle { bold: false, italic: false, underline: false, stroke: false },
    };
    push_flag_tag(out, 'b', was.bold, ch.style.bold);
    push_flag_tag(out, 'i', was.italic, ch.style.italic);
    push_flag_tag(out, 'u', was.underline, ch.style.underline);
    assert(out@ =~= old(out)@ + style_tags(*ch, deref_opt(prev)));
}

/// The override tags that turn the previous character's appearance into this
/// one's, unbraced — everything the style does not already give on the first
/// character, only the differences after it.
pub fn appearance(ch: &CaptionChar, prev: Option<&CaptionChar>) -> (tags: String)
    ensures
        tags@ == spec_appearance(*ch, deref_opt(prev)),
{
    let mut tags = String::new();
    push_colour_tags(&mut tags, ch, prev);
    // Stroke is ARIB's outlined text. Where it is off, the cell's background is
    // what makes the text readable, so the border goes back to nothing rather
    // than to whatever the style carries.
    push_stroke_tags(&mut tags, ch, prev);
    // The style the script declares is the plain one, so the first character
    // only has to say what is *not* plain.
    push_style_tags(&mut tags, ch, prev);
    assert(tags@ =~= spec_appearance(*ch, deref_opt(prev)));
    tags
}

/// A glyph that can be drawn: it has a size and pixels.
pub open spec fn drawable(g: Drcs) -> bool {
    g.width > 0 && g.height > 0 && g.pixels@.len() > 0
}

/// The DRCS glyph a cell draws, if it draws one: a cell naming a code whose
/// glyph was transmitted with a size and pixels.
///
/// A glyph the replacement table resolved is *not* one of these: once the
/// character is known, a font draws it better than a 36×36 stencil does.
pub fn glyph_of<'a>(ch: &CaptionChar, drcs: &'a HashMap<u32, Drcs>) -> (g: Option<&'a Drcs>)
    ensures
        g.is_some() == (ch.body matches CharBody::Drcs { code } && drcs@.contains_key(code)
            && drawable(drcs@[code])),
        g matches Some(d) ==> (ch.body matches CharBody::Drcs { code } && *d == drcs@[code]),
{
    match &ch.body {
        CharBody::Drcs { code } => match drcs.get(code) {
            Some(d) => {
                if d.width > 0 && d.height > 0 && d.pixels.len() > 0 {
                    Some(d)
                } else {
                    None
                }
            },
            None => None,
        },
        _ => None,
    }
}

// ── DRCS outlines ───────────────────────────────────────────────────

/// Whether pixel `(x, y)` of the glyph is at `level`.
pub open spec fn lit(g: Drcs, level: u8, x: int, y: int) -> bool {
    0 <= x < g.width && 0 <= y < g.height && g.spec_level(x as u32, y as u32) == level
}

/// Whether rectangle `(x, y, width, height)` holds pixel `(px, py)`.
pub open spec fn in_rect(r: (u32, u32, u32, u32), px: int, py: int) -> bool {
    r.0 <= px < r.0 + r.2 && r.1 <= py < r.1 + r.3
}

/// A non-empty rectangle every pixel of which is at `level`.
pub open spec fn solid(g: Drcs, level: u8, r: (u32, u32, u32, u32)) -> bool {
    &&& r.2 > 0
    &&& r.3 > 0
    &&& forall|px: int, py: int| #[trigger] in_rect(r, px, py) ==> lit(g, level, px, py)
}

/// Two rectangles share no pixel: one lies wholly left of, right of, above or
/// below the other.
pub open spec fn apart(a: (u32, u32, u32, u32), b: (u32, u32, u32, u32)) -> bool {
    a.0 + a.2 <= b.0 || b.0 + b.2 <= a.0 || a.1 + a.3 <= b.1 || b.1 + b.3 <= a.1
}

/// Reading order: by row, then by column.
pub open spec fn reads_before(a: (u32, u32, u32, u32), b: (u32, u32, u32, u32)) -> bool {
    a.1 < b.1 || (a.1 == b.1 && a.0 < b.0)
}

/// Whether some rectangle of `rs` holds pixel `(px, py)`.
pub open spec fn covered(rs: Seq<(u32, u32, u32, u32)>, px: int, py: int) -> bool {
    exists|k: int| 0 <= k < rs.len() && #[trigger] in_rect(rs[k], px, py)
}

/// Neither pixel beside columns `[x, x + w)` of row `py` is at `level`.
pub open spec fn sides_dark(g: Drcs, level: u8, x: int, w: int, py: int) -> bool {
    !lit(g, level, x - 1, py) && !lit(g, level, x + w, py)
}

/// Row `py` has a run of pixels at `level` spanning exactly columns
/// `[x, x + w)`.
pub open spec fn run_at(g: Drcs, level: u8, x: int, w: int, py: int) -> bool {
    &&& w > 0
    &&& forall|px: int| x <= px < x + w ==> #[trigger] lit(g, level, px, py)
    &&& sides_dark(g, level, x, w, py)
}

/// A rectangle made of one run repeated down consecutive rows, as tall as
/// the repetition goes: each of its rows is exactly that run, and neither the
/// row above it nor the row below it is.
pub open spec fn maximal(g: Drcs, level: u8, r: (u32, u32, u32, u32)) -> bool {
    &&& forall|py: int| r.1 <= py < r.1 + r.3 ==> #[trigger] sides_dark(g, level, r.0 as int, r.2 as int, py)
    &&& !run_at(g, level, r.0 as int, r.2 as int, r.1 - 1)
    &&& !run_at(g, level, r.0 as int, r.2 as int, r.1 + r.3)
}

/// The glyph has a size the bitmap arithmetic can index.
pub open spec fn indexable(g: Drcs) -> bool {
    g.width * g.height * g.depth_bits <= u32::MAX + 1
}

/// The runs of pixels at `level` in row `y`, left to right: `(x, width)`.
fn row_runs(glyph: &Drcs, level: u8, y: u32) -> (row: Vec<(u32, u32)>)
    requires
        indexable(*glyph),
        y < glyph.height,
    ensures
        forall|j: int|
            0 <= j < row@.len() ==> #[trigger] row@[j].1 > 0 && row@[j].0 + row@[j].1
                <= glyph.width,
        forall|j: int, px: int|
            #![trigger row@[j], lit(*glyph, level, px, y as int)]
            0 <= j < row@.len() && row@[j].0 <= px < row@[j].0 + row@[j].1 ==> lit(
                *glyph,
                level,
                px,
                y as int,
            ),
        forall|i: int, j: int|
            0 <= i < j < row@.len() ==> #[trigger] row@[i].0 + row@[i].1 <= #[trigger] row@[j].0,
        forall|px: int|
            #[trigger] lit(*glyph, level, px, y as int) ==> exists|j: int|
                0 <= j < row@.len() && #[trigger] row@[j].0 <= px < row@[j].0 + row@[j].1,
        forall|j: int|
            0 <= j < row@.len() ==> #[trigger] sides_dark(
                *glyph,
                level,
                row@[j].0 as int,
                row@[j].1 as int,
                y as int,
            ),
{
    proof {
        assert forall|px: u32, py: u32| #[trigger] glyph.bits_fit(px, py) by {
            glyph.lemma_bits_fit(px, py);
        }
    }
    let mut row: Vec<(u32, u32)> = Vec::new();
    let mut x: u32 = 0;
    while x < glyph.width
        invariant
            indexable(*glyph),
            forall|px: u32, py: u32| #[trigger] glyph.bits_fit(px, py),
            y < glyph.height,
            x <= glyph.width,
            forall|j: int|
                0 <= j < row@.len() ==> #[trigger] row@[j].1 > 0 && row@[j].0 + row@[j].1 <= x,
            forall|j: int, px: int|
                #![trigger row@[j], lit(*glyph, level, px, y as int)]
                0 <= j < row@.len() && row@[j].0 <= px < row@[j].0 + row@[j].1 ==> lit(
                    *glyph,
                    level,
                    px,
                    y as int,
                ),
            forall|i: int, j: int|
                0 <= i < j < row@.len() ==> #[trigger] row@[i].0 + row@[i].1 <= #[trigger] row@[j].0,
            forall|px: int|
                0 <= px < x && #[trigger] lit(*glyph, level, px, y as int) ==> exists|j: int|
                    0 <= j < row@.len() && #[trigger] row@[j].0 <= px < row@[j].0 + row@[j].1,
            forall|j: int|
                0 <= j < row@.len() ==> #[trigger] sides_dark(
                    *glyph,
                    level,
                    row@[j].0 as int,
                    row@[j].1 as int,
                    y as int,
                ),
            !lit(*glyph, level, x - 1, y as int) || !lit(*glyph, level, x as int, y as int),
        decreases glyph.width - x,
    {
        if glyph.level(x, y) != level {
            x = x + 1;
        } else {
            let from = x;
            while x < glyph.width && glyph.level(x, y) == level
                invariant
                    indexable(*glyph),
                    forall|px: u32, py: u32| #[trigger] glyph.bits_fit(px, py),
                    y < glyph.height,
                    from <= x <= glyph.width,
                    forall|px: int| from <= px < x ==> #[trigger] lit(*glyph, level, px, y as int),
                decreases glyph.width - x,
            {
                x = x + 1;
            }
            let ghost before = row@;
            row.push((from, x - from));
            proof {
                let n = before.len() as int;
                assert(row@[n] == (from, (x - from) as u32));
                assert forall|j: int| 0 <= j < row@.len() implies #[trigger] sides_dark(
                    *glyph,
                    level,
                    row@[j].0 as int,
                    row@[j].1 as int,
                    y as int,
                ) by {
                    if j < n {
                        assert(row@[j] == before[j]);
                    }
                }
                assert forall|j: int, px: int|
                    #![trigger row@[j], lit(*glyph, level, px, y as int)]
                    0 <= j < row@.len() && row@[j].0 <= px < row@[j].0 + row@[j].1 implies lit(
                        *glyph,
                        level,
                        px,
                        y as int,
                    ) by {
                    if j < n {
                        assert(row@[j] == before[j]);
                    }
                }
                assert forall|i: int, j: int| 0 <= i < j < row@.len() implies #[trigger] row@[i].0
                    + row@[i].1 <= #[trigger] row@[j].0 by {
                    assert(row@[i] == before[i]);
                    if j < n {
                        assert(row@[j] == before[j]);
                    }
                }
                assert forall|px: int|
                    0 <= px < x && #[trigger] lit(*glyph, level, px, y as int) implies exists|j: int|
                        0 <= j < row@.len() && #[trigger] row@[j].0 <= px < row@[j].0 + row@[j].1 by {
                    if px < from {
                        let j = choose|j: int|
                            0 <= j < before.len() && #[trigger] before[j].0 <= px < before[j].0 + before[j].1;
                        assert(row@[j] == before[j]);
                    } else {
                        assert(row@[n].0 <= px < row@[n].0 + row@[n].1);
                    }
                }
            }
        }
    }
    row
}

/// A rectangle still growing downwards, `(x, width, first row)`, as the
/// rectangle it is once it reaches row `y`.
pub open spec fn grown(o: (u32, u32, u32), y: int) -> (u32, u32, u32, u32) {
    (o.0, o.2, o.1, (y - o.2) as u32)
}

/// Two growing rectangles cover different columns.
pub open spec fn x_apart(a: (u32, u32, u32), b: (u32, u32, u32)) -> bool {
    a.0 + a.1 <= b.0 || b.0 + b.1 <= a.0
}

/// The finished rectangles are solid, above row `y`, and share no pixel.
pub open spec fn rects_ok(g: Drcs, level: u8, done: Seq<(u32, u32, u32, u32)>, y: int) -> bool {
    &&& forall|k: int| 0 <= k < done.len() ==> #[trigger] solid(g, level, done[k])
    &&& forall|k: int| 0 <= k < done.len() ==> #[trigger] done[k].1 + done[k].3 <= y
    &&& forall|k1: int, k2: int|
        0 <= k1 < done.len() && 0 <= k2 < done.len() && k1 != k2 ==> apart(
            #[trigger] done[k1],
            #[trigger] done[k2],
        )
}

/// The growing rectangles are solid down to row `y` and cover different
/// columns.
pub open spec fn opens_ok(g: Drcs, level: u8, open: Seq<(u32, u32, u32)>, y: int) -> bool {
    &&& forall|i: int| 0 <= i < open.len() ==> #[trigger] open[i].1 > 0 && open[i].2 < y
    &&& forall|i: int| 0 <= i < open.len() ==> #[trigger] solid(g, level, grown(open[i], y))
    &&& forall|i1: int, i2: int|
        0 <= i1 < open.len() && 0 <= i2 < open.len() && i1 != i2 ==> x_apart(
            #[trigger] open[i1],
            #[trigger] open[i2],
        )
}

/// Where a growing rectangle for `row[j]` comes from: `-1` when it starts at
/// row `y`, otherwise the index of the rectangle above that it continues.
pub open spec fn continues(
    open: Seq<(u32, u32, u32)>,
    taken: Seq<bool>,
    row: Seq<(u32, u32)>,
    still: Seq<(u32, u32, u32)>,
    src: Seq<int>,
    y: int,
    j: int,
) -> bool {
    &&& still[j].0 == row[j].0
    &&& still[j].1 == row[j].1
    &&& (src[j] == -1 && still[j].2 == y) || (0 <= src[j] < open.len() && taken[src[j]]
        && open[src[j]].0 == row[j].0 && open[src[j]].1 == row[j].1 && still[j].2
        == open[src[j]].2)
}

/// The growing rectangle with this column span that has not been continued
/// yet, if there is one.
fn find_open(open: &Vec<(u32, u32, u32)>, taken: &Vec<bool>, x: u32, w: u32) -> (r: Option<usize>)
    requires
        taken@.len() == open@.len(),
    ensures
        r matches Some(i) ==> i < open@.len() && open@[i as int].0 == x && open@[i as int].1 == w
            && !taken@[i as int],
        r is None ==> forall|i: int|
            0 <= i < open@.len() && #[trigger] open@[i].0 == x && open@[i].1 == w ==> taken@[i],
{
    let mut i: usize = 0;
    while i < open.len()
        invariant
            taken@.len() == open@.len(),
            i <= open@.len(),
            forall|q: int| 0 <= q < i && #[trigger] open@[q].0 == x && open@[q].1 == w ==> taken@[q],
        decreases open@.len() - i,
    {
        if open[i].0 == x && open[i].1 == w && !taken[i] {
            return Some(i);
        }
        i = i + 1;
    }
    None
}

/// Each run of row `y` continues the rectangle above it with the same column
/// span, or starts one; the rectangles continued are marked.
fn match_row(open: &Vec<(u32, u32, u32)>, row: &Vec<(u32, u32)>, y: u32) -> (r: (
    Vec<(u32, u32, u32)>,
    Vec<bool>,
    Ghost<Seq<int>>,
))
    requires
        forall|i: int| 0 <= i < open@.len() ==> #[trigger] open@[i].1 > 0,
        forall|i1: int, i2: int|
            0 <= i1 < open@.len() && 0 <= i2 < open@.len() && i1 != i2 ==> x_apart(
                #[trigger] open@[i1],
                #[trigger] open@[i2],
            ),
    ensures
        forall|i: int, j: int|
            0 <= i < open@.len() && 0 <= j < row@.len() && #[trigger] open@[i].0 == #[trigger] row@[j].0
                && open@[i].1 == row@[j].1 ==> r.1@[i],
        r.0@.len() == row@.len(),
        r.1@.len() == open@.len(),
        r.2@.len() == row@.len(),
        forall|j: int|
            0 <= j < row@.len() ==> #[trigger] continues(open@, r.1@, row@, r.0@, r.2@, y as int, j),
        forall|i: int|
            0 <= i < open@.len() && #[trigger] r.1@[i] ==> exists|j: int|
                0 <= j < row@.len() && #[trigger] r.2@[j] == i,
{
    let mut taken: Vec<bool> = Vec::new();
    let mut k: usize = 0;
    while k < open.len()
        invariant
            k <= open@.len(),
            taken@.len() == k,
            forall|q: int| 0 <= q < k ==> !#[trigger] taken@[q],
        decreases open@.len() - k,
    {
        taken.push(false);
        k = k + 1;
    }
    let mut still: Vec<(u32, u32, u32)> = Vec::new();
    let ghost mut src: Seq<int> = Seq::empty();
    let mut j: usize = 0;
    while j < row.len()
        invariant
            j <= row@.len(),
            taken@.len() == open@.len(),
            still@.len() == j,
            src.len() == j,
            forall|jj: int|
                0 <= jj < j ==> #[trigger] continues(open@, taken@, row@, still@, src, y as int, jj),
            forall|i: int|
                0 <= i < open@.len() && #[trigger] taken@[i] ==> exists|jj: int|
                    0 <= jj < j && #[trigger] src[jj] == i,
            forall|i: int| 0 <= i < open@.len() ==> #[trigger] open@[i].1 > 0,
            forall|i1: int, i2: int|
                0 <= i1 < open@.len() && 0 <= i2 < open@.len() && i1 != i2 ==> x_apart(
                    #[trigger] open@[i1],
                    #[trigger] open@[i2],
                ),
            forall|i: int, jj: int|
                0 <= i < open@.len() && 0 <= jj < j && #[trigger] open@[i].0 == #[trigger] row@[jj].0
                    && open@[i].1 == row@[jj].1 ==> taken@[i],
        decreases row@.len() - j,
    {
        let (rx, rw) = row[j];
        let ghost taken0 = taken@;
        let ghost still0 = still@;
        let ghost src0 = src;
        match find_open(open, &taken, rx, rw) {
            Some(i) => {
                taken.set(i, true);
                still.push((rx, rw, open[i].2));
                proof {
                    src = src.push(i as int);
                }
            },
            None => {
                still.push((rx, rw, y));
                proof {
                    src = src.push(-1);
                }
            },
        }
        proof {
            assert forall|jj: int| 0 <= jj < j + 1 implies #[trigger] continues(
                open@,
                taken@,
                row@,
                still@,
                src,
                y as int,
                jj,
            ) by {
                if jj < j {
                    assert(continues(open@, taken0, row@, still0, src0, y as int, jj));
                    assert(still@[jj] == still0[jj]);
                    assert(src[jj] == src0[jj]);
                    if src0[jj] != -1 {
                        assert(taken@[src0[jj]]);
                    }
                }
            }
            assert forall|i: int, jj: int|
                0 <= i < open@.len() && 0 <= jj < j + 1 && #[trigger] open@[i].0 == #[trigger] row@[jj].0
                    && open@[i].1 == row@[jj].1 implies taken@[i] by {
                if jj < j {
                    assert(taken0[i]);
                } else {
                    if src[j as int] != -1 {
                        let i0 = src[j as int];
                        if i != i0 {
                            assert(x_apart(open@[i], open@[i0]));
                        }
                    }
                }
            }
            assert forall|q: int| 0 <= q < open@.len() && #[trigger] taken@[q] implies exists|jj: int|
                0 <= jj < j + 1 && #[trigger] src[jj] == q by {
                if src[j as int] == q {
                } else {
                    assert(taken0[q]);
                    let jj = choose|jj: int| 0 <= jj < j && #[trigger] src0[jj] == q;
                    assert(src[jj] == src0[jj]);
                }
            }
        }
        j = j + 1;
    }
    (still, taken, Ghost(src))
}

/// The rectangles above that no run of row `y` continued, finished at row `y`.
fn close_open(
    done: &mut Vec<(u32, u32, u32, u32)>,
    open: &Vec<(u32, u32, u32)>,
    taken: &Vec<bool>,
    y: u32,
    Ghost(glyph): Ghost<Drcs>,
    level: u8,
)
    requires
        taken@.len() == open@.len(),
        rects_ok(glyph, level, old(done)@, y as int),
        opens_ok(glyph, level, open@, y as int),
        forall|k: int, i: int|
            0 <= k < old(done)@.len() && 0 <= i < open@.len() ==> apart(
                #[trigger] old(done)@[k],
                #[trigger] grown(open@[i], y as int),
            ),
        forall|k: int| 0 <= k < old(done)@.len() ==> #[trigger] maximal(glyph, level, old(done)@[k]),
        forall|i: int|
            0 <= i < open@.len() && !#[trigger] taken@[i] ==> maximal(
                glyph,
                level,
                grown(open@[i], y as int),
            ),
    ensures
        forall|k: int| 0 <= k < final(done)@.len() ==> #[trigger] maximal(glyph, level, final(done)@[k]),
        rects_ok(glyph, level, final(done)@, y as int),
        final(done)@.len() >= old(done)@.len(),
        forall|k: int| 0 <= k < old(done)@.len() ==> #[trigger] final(done)@[k] == old(done)@[k],
        forall|k: int, i: int|
            0 <= k < final(done)@.len() && 0 <= i < open@.len() && taken@[i] ==> apart(
                #[trigger] final(done)@[k],
                #[trigger] grown(open@[i], y as int),
            ),
        forall|i: int|
            0 <= i < open@.len() && !#[trigger] taken@[i] ==> exists|k: int|
                0 <= k < final(done)@.len() && #[trigger] final(done)@[k] == grown(
                    open@[i],
                    y as int,
                ),
{
    let ghost start = done@;
    let mut i: usize = 0;
    while i < open.len()
        invariant
            taken@.len() == open@.len(),
            i <= open@.len(),
            opens_ok(glyph, level, open@, y as int),
            rects_ok(glyph, level, done@, y as int),
            forall|k: int| 0 <= k < done@.len() ==> #[trigger] maximal(glyph, level, done@[k]),
            forall|q: int|
                0 <= q < open@.len() && !#[trigger] taken@[q] ==> maximal(
                    glyph,
                    level,
                    grown(open@[q], y as int),
                ),
            done@.len() >= start.len(),
            forall|k: int| 0 <= k < start.len() ==> #[trigger] done@[k] == start[k],
            forall|k: int, q: int|
                0 <= k < done@.len() && 0 <= q < open@.len() && (taken@[q] || q >= i) ==> apart(
                    #[trigger] done@[k],
                    #[trigger] grown(open@[q], y as int),
                ),
            forall|q: int|
                0 <= q < i && !#[trigger] taken@[q] ==> exists|k: int|
                    0 <= k < done@.len() && #[trigger] done@[k] == grown(open@[q], y as int),
        decreases open@.len() - i,
    {
        if !taken[i] {
            let (ox, ow, top) = open[i];
            let ghost before = done@;
            let ghost c = grown(open@[i as int], y as int);
            assert(open@[i as int].2 < y);
            done.push((ox, top, ow, y - top));
            proof {
                let n = before.len() as int;
                assert(done@[n] == c);
                assert(solid(glyph, level, c));
                assert forall|k: int| 0 <= k < done@.len() implies #[trigger] maximal(
                    glyph,
                    level,
                    done@[k],
                ) by {
                    if k < n {
                        assert(done@[k] == before[k]);
                    }
                }
                assert forall|k: int| 0 <= k < done@.len() implies #[trigger] solid(
                    glyph,
                    level,
                    done@[k],
                ) by {
                    if k < n {
                        assert(done@[k] == before[k]);
                    }
                }
                assert forall|k: int| 0 <= k < done@.len() implies #[trigger] done@[k].1
                    + done@[k].3 <= y by {
                    if k < n {
                        assert(done@[k] == before[k]);
                    }
                }
                assert forall|k1: int, k2: int|
                    0 <= k1 < done@.len() && 0 <= k2 < done@.len() && k1 != k2 implies apart(
                        #[trigger] done@[k1],
                        #[trigger] done@[k2],
                    ) by {
                    if k1 < n && k2 < n {
                        assert(done@[k1] == before[k1] && done@[k2] == before[k2]);
                    } else if k1 < n {
                        assert(done@[k1] == before[k1]);
                        assert(apart(before[k1], grown(open@[i as int], y as int)));
                    } else {
                        assert(done@[k2] == before[k2]);
                        assert(apart(before[k2], grown(open@[i as int], y as int)));
                    }
                }
                assert forall|k: int, q: int|
                    0 <= k < done@.len() && 0 <= q < open@.len() && (taken@[q] || q >= i + 1) implies apart(
                        #[trigger] done@[k],
                        #[trigger] grown(open@[q], y as int),
                    ) by {
                    if k < n {
                        assert(done@[k] == before[k]);
                    } else {
                        assert(q != i);
                        assert(x_apart(open@[i as int], open@[q]));
                    }
                }
                assert forall|q: int| 0 <= q < i + 1 && !#[trigger] taken@[q] implies exists|k: int|
                    0 <= k < done@.len() && #[trigger] done@[k] == grown(open@[q], y as int) by {
                    if q == i {
                        assert(done@[n] == grown(open@[q], y as int));
                    } else {
                        let k = choose|k: int|
                            0 <= k < before.len() && #[trigger] before[k] == grown(open@[q], y as int);
                        assert(done@[k] == before[k]);
                    }
                }
            }
        }
        i = i + 1;
    }
}

/// Whether some growing rectangle, taken down to row `y`, holds the pixel.
pub open spec fn covered_open(open: Seq<(u32, u32, u32)>, y: int, px: int, py: int) -> bool {
    exists|i: int| 0 <= i < open.len() && #[trigger] in_rect(grown(open[i], y), px, py)
}

/// Every pixel at `level` above row `y` is in a finished or a growing
/// rectangle.
pub open spec fn all_covered(
    g: Drcs,
    level: u8,
    done: Seq<(u32, u32, u32, u32)>,
    open: Seq<(u32, u32, u32)>,
    y: int,
) -> bool {
    forall|px: int, py: int|
        py < y && #[trigger] lit(g, level, px, py) ==> covered(done, px, py) || covered_open(
            open,
            y,
            px,
            py,
        )
}

/// One row's worth of rectangles keeps every invariant: what the runs of row
/// `y` continue or start, together with what was finished at row `y`, is
/// solid, disjoint and covers every pixel at `level` down to row `y + 1`.
proof fn lemma_row_step(
    g: Drcs,
    level: u8,
    done0: Seq<(u32, u32, u32, u32)>,
    done1: Seq<(u32, u32, u32, u32)>,
    open: Seq<(u32, u32, u32)>,
    taken: Seq<bool>,
    row: Seq<(u32, u32)>,
    still: Seq<(u32, u32, u32)>,
    src: Seq<int>,
    y: int,
)
    requires
        0 <= y < g.height,
        rects_ok(g, level, done0, y),
        opens_ok(g, level, open, y),
        all_covered(g, level, done0, open, y),
        forall|j: int| 0 <= j < row.len() ==> #[trigger] row[j].1 > 0 && row[j].0 + row[j].1 <= g.width,
        forall|j: int, px: int|
            #![trigger row[j], lit(g, level, px, y)]
            0 <= j < row.len() && row[j].0 <= px < row[j].0 + row[j].1 ==> lit(g, level, px, y),
        forall|i: int, j: int| 0 <= i < j < row.len() ==> #[trigger] row[i].0 + row[i].1 <= #[trigger] row[j].0,
        forall|px: int|
            #[trigger] lit(g, level, px, y) ==> exists|j: int|
                0 <= j < row.len() && #[trigger] row[j].0 <= px < row[j].0 + row[j].1,
        still.len() == row.len(),
        taken.len() == open.len(),
        src.len() == row.len(),
        forall|j: int| 0 <= j < row.len() ==> #[trigger] continues(open, taken, row, still, src, y, j),
        forall|i: int|
            0 <= i < open.len() && #[trigger] taken[i] ==> exists|j: int|
                0 <= j < row.len() && #[trigger] src[j] == i,
        rects_ok(g, level, done1, y),
        done1.len() >= done0.len(),
        forall|k: int| 0 <= k < done0.len() ==> #[trigger] done1[k] == done0[k],
        forall|k: int, i: int|
            0 <= k < done1.len() && 0 <= i < open.len() && taken[i] ==> apart(
                #[trigger] done1[k],
                #[trigger] grown(open[i], y),
            ),
        forall|i: int|
            0 <= i < open.len() && !#[trigger] taken[i] ==> exists|k: int|
                0 <= k < done1.len() && #[trigger] done1[k] == grown(open[i], y),
    ensures
        rects_ok(g, level, done1, y + 1),
        opens_ok(g, level, still, y + 1),
        forall|k: int, j: int|
            0 <= k < done1.len() && 0 <= j < still.len() ==> apart(
                #[trigger] done1[k],
                #[trigger] grown(still[j], y + 1),
            ),
        all_covered(g, level, done1, still, y + 1),
{
    assert forall|j: int| 0 <= j < still.len() implies #[trigger] still[j].1 > 0 && still[j].2 < y + 1 by {
        assert(continues(open, taken, row, still, src, y, j));
        assert(row[j].1 > 0);
        if src[j] != -1 {
            assert(open[src[j]].2 < y);
        }
    }
    assert forall|j: int| 0 <= j < still.len() implies #[trigger] solid(
        g,
        level,
        grown(still[j], y + 1),
    ) by {
        assert(continues(open, taken, row, still, src, y, j));
        assert(row[j].1 > 0);
        let r = grown(still[j], y + 1);
        assert forall|px: int, py: int| #[trigger] in_rect(r, px, py) implies lit(g, level, px, py) by {
            if py == y {
                assert(row[j].0 <= px < row[j].0 + row[j].1);
                assert(lit(g, level, px, y));
            } else {
                let i = src[j];
                assert(i != -1);
                assert(solid(g, level, grown(open[i], y)));
                assert(in_rect(grown(open[i], y), px, py));
            }
        }
        if src[j] != -1 {
            assert(open[src[j]].2 < y);
        }
    }
    assert forall|j1: int, j2: int|
        0 <= j1 < still.len() && 0 <= j2 < still.len() && j1 != j2 implies x_apart(
            #[trigger] still[j1],
            #[trigger] still[j2],
        ) by {
        assert(continues(open, taken, row, still, src, y, j1));
        assert(continues(open, taken, row, still, src, y, j2));
        if j1 < j2 {
            assert(row[j1].0 + row[j1].1 <= row[j2].0);
        } else {
            assert(row[j2].0 + row[j2].1 <= row[j1].0);
        }
    }
    assert forall|k: int, j: int|
        0 <= k < done1.len() && 0 <= j < still.len() implies apart(
            #[trigger] done1[k],
            #[trigger] grown(still[j], y + 1),
        ) by {
        assert(continues(open, taken, row, still, src, y, j));
        assert(solid(g, level, done1[k]));
        assert(done1[k].1 + done1[k].3 <= y);
        if src[j] != -1 {
            assert(apart(done1[k], grown(open[src[j]], y)));
        }
    }
    assert forall|px: int, py: int|
        py < y + 1 && #[trigger] lit(g, level, px, py) implies covered(done1, px, py) || covered_open(
            still,
            y + 1,
            px,
            py,
        ) by {
        if py == y {
            let j = choose|j: int| 0 <= j < row.len() && #[trigger] row[j].0 <= px < row[j].0 + row[j].1;
            assert(continues(open, taken, row, still, src, y, j));
            if src[j] != -1 {
                assert(open[src[j]].2 < y);
            }
            assert(in_rect(grown(still[j], y + 1), px, py));
        } else {
            if covered(done0, px, py) {
                let k = choose|k: int| 0 <= k < done0.len() && #[trigger] in_rect(done0[k], px, py);
                assert(done1[k] == done0[k]);
                assert(in_rect(done1[k], px, py));
            } else {
                assert(covered_open(open, y, px, py));
                let i = choose|i: int| 0 <= i < open.len() && #[trigger] in_rect(grown(open[i], y), px, py);
                if taken[i] {
                    let j = choose|j: int| 0 <= j < row.len() && #[trigger] src[j] == i;
                    assert(continues(open, taken, row, still, src, y, j));
                    assert(in_rect(grown(still[j], y + 1), px, py));
                } else {
                    let k = choose|k: int| 0 <= k < done1.len() && #[trigger] done1[k] == grown(open[i], y);
                    assert(in_rect(done1[k], px, py));
                }
            }
        }
    }
}

/// A growing rectangle, taken down to row `y`, is one run repeated from its
/// first row, and the row above its first is not that run.
pub open spec fn open_maximal(g: Drcs, level: u8, o: (u32, u32, u32), y: int) -> bool {
    &&& forall|py: int| o.2 <= py < y ==> #[trigger] sides_dark(g, level, o.0 as int, o.1 as int, py)
    &&& !run_at(g, level, o.0 as int, o.1 as int, o.2 - 1)
}

/// Every pixel at `level` in row `py` lies in the columns of some growing
/// rectangle.
pub open spec fn row_spanned(g: Drcs, level: u8, open: Seq<(u32, u32, u32)>, py: int) -> bool {
    forall|px: int|
        #[trigger] lit(g, level, px, py) ==> exists|i: int|
            0 <= i < open.len() && #[trigger] open[i].0 <= px < open[i].0 + open[i].1
}

/// A run of row `py` that is solid and dark on both sides, and holds the
/// first pixel of a run `(x, w)` of that row, is that run.
proof fn lemma_same_run(g: Drcs, level: u8, a: int, b: int, x: int, w: int, py: int)
    requires
        a <= x < a + b,
        forall|px: int| a <= px < a + b ==> #[trigger] lit(g, level, px, py),
        sides_dark(g, level, a, b, py),
        run_at(g, level, x, w, py),
    ensures
        a == x,
        b == w,
{
    if a < x {
        assert(lit(g, level, x - 1, py));
    }
    if a + b < x + w {
        assert(lit(g, level, a + b, py));
    }
    if a + b > x + w {
        assert(lit(g, level, x + w, py));
    }
}

/// One row's worth of rectangles keeps them as tall as their runs repeat: a
/// rectangle no run of row `y` continues is finished maximal, and each run
/// of row `y` continues or starts a rectangle that is one run repeated from a
/// row whose predecessor is not that run.
proof fn lemma_row_maximal(
    g: Drcs,
    level: u8,
    open: Seq<(u32, u32, u32)>,
    taken: Seq<bool>,
    row: Seq<(u32, u32)>,
    still: Seq<(u32, u32, u32)>,
    src: Seq<int>,
    y: int,
)
    requires
        0 <= y < g.height,
        opens_ok(g, level, open, y),
        forall|i: int| 0 <= i < open.len() ==> #[trigger] open_maximal(g, level, open[i], y),
        y > 0 ==> row_spanned(g, level, open, y - 1),
        forall|j: int| 0 <= j < row.len() ==> #[trigger] row[j].1 > 0 && row[j].0 + row[j].1 <= g.width,
        forall|j: int, px: int|
            #![trigger row[j], lit(g, level, px, y)]
            0 <= j < row.len() && row[j].0 <= px < row[j].0 + row[j].1 ==> lit(g, level, px, y),
        forall|i: int, j: int| 0 <= i < j < row.len() ==> #[trigger] row[i].0 + row[i].1 <= #[trigger] row[j].0,
        forall|px: int|
            #[trigger] lit(g, level, px, y) ==> exists|j: int|
                0 <= j < row.len() && #[trigger] row[j].0 <= px < row[j].0 + row[j].1,
        forall|j: int|
            0 <= j < row.len() ==> #[trigger] sides_dark(g, level, row[j].0 as int, row[j].1 as int, y),
        still.len() == row.len(),
        taken.len() == open.len(),
        src.len() == row.len(),
        forall|j: int| 0 <= j < row.len() ==> #[trigger] continues(open, taken, row, still, src, y, j),
        forall|i: int|
            0 <= i < open.len() && #[trigger] taken[i] ==> exists|j: int|
                0 <= j < row.len() && #[trigger] src[j] == i,
        forall|i: int, j: int|
            0 <= i < open.len() && 0 <= j < row.len() && #[trigger] open[i].0 == #[trigger] row[j].0
                && open[i].1 == row[j].1 ==> taken[i],
    ensures
        forall|i: int|
            0 <= i < open.len() && !#[trigger] taken[i] ==> maximal(g, level, grown(open[i], y)),
        forall|j: int| 0 <= j < still.len() ==> #[trigger] open_maximal(g, level, still[j], y + 1),
        row_spanned(g, level, still, y),
{
    assert forall|i: int| 0 <= i < open.len() && !#[trigger] taken[i] implies maximal(
        g,
        level,
        grown(open[i], y),
    ) by {
        let o = open[i];
        assert(open_maximal(g, level, o, y));
        assert(o.1 > 0 && o.2 < y);
        let r = grown(o, y);
        assert(r.1 + r.3 == y);
        if run_at(g, level, o.0 as int, o.1 as int, y) {
            assert(lit(g, level, o.0 as int, y));
            let j = choose|j: int| 0 <= j < row.len() && #[trigger] row[j].0 <= o.0 < row[j].0 + row[j].1;
            assert(sides_dark(g, level, row[j].0 as int, row[j].1 as int, y));
            assert forall|px: int| row[j].0 <= px < row[j].0 + row[j].1 implies #[trigger] lit(g, level, px, y) by {
                assert(lit(g, level, px, y));
            }
            lemma_same_run(g, level, row[j].0 as int, row[j].1 as int, o.0 as int, o.1 as int, y);
            assert(taken[i]);
        }
    }
    assert forall|j: int| 0 <= j < still.len() implies #[trigger] open_maximal(g, level, still[j], y + 1) by {
        assert(continues(open, taken, row, still, src, y, j));
        assert(row[j].1 > 0);
        assert(sides_dark(g, level, row[j].0 as int, row[j].1 as int, y));
        if src[j] == -1 {
            let x = row[j].0 as int;
            let w = row[j].1 as int;
            if run_at(g, level, x, w, y - 1) {
                assert(lit(g, level, x, y - 1));
                assert(y > 0);
                let i = choose|i: int| 0 <= i < open.len() && #[trigger] open[i].0 <= x < open[i].0 + open[i].1;
                let o = open[i];
                assert(open_maximal(g, level, o, y));
                assert(o.1 > 0 && o.2 < y);
                assert(solid(g, level, grown(o, y)));
                assert(sides_dark(g, level, o.0 as int, o.1 as int, y - 1));
                assert forall|px: int| o.0 <= px < o.0 + o.1 implies #[trigger] lit(g, level, px, y - 1) by {
                    assert(in_rect(grown(o, y), px, y - 1));
                }
                lemma_same_run(g, level, o.0 as int, o.1 as int, x, w, y - 1);
                assert(taken[i]);
                let j2 = choose|j2: int| 0 <= j2 < row.len() && #[trigger] src[j2] == i;
                assert(continues(open, taken, row, still, src, y, j2));
                if j2 < j {
                    assert(row[j2].0 + row[j2].1 <= row[j].0);
                } else if j < j2 {
                    assert(row[j].0 + row[j].1 <= row[j2].0);
                }
            }
        } else {
            assert(open_maximal(g, level, open[src[j]], y));
        }
    }
    assert forall|px: int| #[trigger] lit(g, level, px, y) implies exists|j: int|
        0 <= j < still.len() && #[trigger] still[j].0 <= px < still[j].0 + still[j].1 by {
        let j = choose|j: int| 0 <= j < row.len() && #[trigger] row[j].0 <= px < row[j].0 + row[j].1;
        assert(continues(open, taken, row, still, src, y, j));
        assert(still[j].0 <= px < still[j].0 + still[j].1);
    }
}

/// The pixels at `level`, merged into rectangles — solid, disjoint and
/// covering — in the order the rows produce them.
fn ink_rects(glyph: &Drcs, level: u8) -> (done: Vec<(u32, u32, u32, u32)>)
    requires
        indexable(*glyph),
    ensures
        rects_ok(*glyph, level, done@, glyph.height as int),
        forall|px: int, py: int| #[trigger] lit(*glyph, level, px, py) ==> covered(done@, px, py),
        forall|k: int| 0 <= k < done@.len() ==> #[trigger] maximal(*glyph, level, done@[k]),
{
    let mut done: Vec<(u32, u32, u32, u32)> = Vec::new();
    // (x, width, first row) for the rectangles still growing downwards.
    let mut open: Vec<(u32, u32, u32)> = Vec::new();
    let mut y: u32 = 0;
    while y < glyph.height
        invariant
            indexable(*glyph),
            y <= glyph.height,
            rects_ok(*glyph, level, done@, y as int),
            opens_ok(*glyph, level, open@, y as int),
            forall|k: int, i: int|
                0 <= k < done@.len() && 0 <= i < open@.len() ==> apart(
                    #[trigger] done@[k],
                    #[trigger] grown(open@[i], y as int),
                ),
            all_covered(*glyph, level, done@, open@, y as int),
            forall|k: int| 0 <= k < done@.len() ==> #[trigger] maximal(*glyph, level, done@[k]),
            forall|i: int| 0 <= i < open@.len() ==> #[trigger] open_maximal(*glyph, level, open@[i], y as int),
            y > 0 ==> row_spanned(*glyph, level, open@, y - 1),
        decreases glyph.height - y,
    {
        let row = row_runs(glyph, level, y);
        let (still, taken, Ghost(src)) = match_row(&open, &row, y);
        proof {
            lemma_row_maximal(*glyph, level, open@, taken@, row@, still@, src, y as int);
        }
        let ghost done0 = done@;
        close_open(&mut done, &open, &taken, y, Ghost(*glyph), level);
        proof {
            lemma_row_step(*glyph, level, done0, done@, open@, taken@, row@, still@, src, y as int);
        }
        open = still;
        y = y + 1;
    }
    let mut none: Vec<bool> = Vec::new();
    let mut k: usize = 0;
    while k < open.len()
        invariant
            k <= open@.len(),
            none@.len() == k,
            forall|q: int| 0 <= q < k ==> !#[trigger] none@[q],
        decreases open@.len() - k,
    {
        none.push(false);
        k = k + 1;
    }
    proof {
        assert forall|i: int| 0 <= i < open@.len() && !#[trigger] none@[i] implies maximal(
            *glyph,
            level,
            grown(open@[i], y as int),
        ) by {
            let o = open@[i];
            assert(open_maximal(*glyph, level, o, y as int));
            assert(o.1 > 0 && o.2 < y);
            let r = grown(o, y as int);
            assert(r.1 + r.3 == y);
            assert(!lit(*glyph, level, o.0 as int, y as int));
        }
    }
    let ghost done0 = done@;
    close_open(&mut done, &open, &none, y, Ghost(*glyph), level);
    proof {
        assert forall|px: int, py: int| #[trigger] lit(*glyph, level, px, py) implies covered(
            done@,
            px,
            py,
        ) by {
            if covered(done0, px, py) {
                let k = choose|k: int| 0 <= k < done0.len() && #[trigger] in_rect(done0[k], px, py);
                assert(done@[k] == done0[k]);
            } else {
                assert(covered_open(open@, y as int, px, py));
                let i = choose|i: int| 0 <= i < open@.len() && #[trigger] in_rect(grown(open@[i], y as int), px, py);
                assert(!none@[i]);
                let k = choose|k: int| 0 <= k < done@.len() && #[trigger] done@[k] == grown(open@[i], y as int);
                assert(in_rect(done@[k], px, py));
            }
        }
    }
    done
}

fn reads_before_exec(a: (u32, u32, u32, u32), b: (u32, u32, u32, u32)) -> (r: bool)
    ensures
        r == reads_before(a, b),
{
    a.1 < b.1 || (a.1 == b.1 && a.0 < b.0)
}

/// The pixels at one level, merged into as few rectangles as the rows allow:
/// every rectangle is solid at `level`, no two share a pixel, every pixel at
/// `level` is in one of them, they come in reading order, and each is one
/// run of its row repeated down as far as the rows below repeat it, with the
/// row above it not that run.
///
/// Row by row, a rectangle extends downwards while the row below repeats its
/// run. Worth the few lines: a DRCS glyph is often sent at double height with
/// every row duplicated, and a rectangle per row would double the path for
/// nothing.
pub fn ink(glyph: &Drcs, level: u8) -> (rects: Vec<(u32, u32, u32, u32)>)
    requires
        indexable(*glyph),
    ensures
        forall|k: int| 0 <= k < rects@.len() ==> #[trigger] solid(*glyph, level, rects@[k]),
        forall|k1: int, k2: int|
            0 <= k1 < rects@.len() && 0 <= k2 < rects@.len() && k1 != k2 ==> apart(
                #[trigger] rects@[k1],
                #[trigger] rects@[k2],
            ),
        forall|px: int, py: int| #[trigger] lit(*glyph, level, px, py) ==> covered(rects@, px, py),
        forall|k1: int, k2: int|
            0 <= k1 < k2 < rects@.len() ==> reads_before(#[trigger] rects@[k1], #[trigger] rects@[k2]),
        forall|k: int| 0 <= k < rects@.len() ==> #[trigger] maximal(*glyph, level, rects@[k]),
{
    let done = ink_rects(glyph, level);
    // Reading order, so the same glyph always produces the same path.
    let mut sorted: Vec<(u32, u32, u32, u32)> = Vec::new();
    let mut n: usize = 0;
    while n < done.len()
        invariant
            n <= done@.len(),
            rects_ok(*glyph, level, done@, glyph.height as int),
            forall|e: (u32, u32, u32, u32)| sorted@.contains(e) <==> done@.take(n as int).contains(e),
            forall|k1: int, k2: int|
                0 <= k1 < k2 < sorted@.len() ==> reads_before(
                    #[trigger] sorted@[k1],
                    #[trigger] sorted@[k2],
                ),
        decreases done@.len() - n,
    {
        let e = done[n];
        let ghost seen = done@.take(n as int);
        let mut p: usize = 0;
        while p < sorted.len() && reads_before_exec(sorted[p], e)
            invariant
                p <= sorted@.len(),
                forall|q: int| 0 <= q < p ==> reads_before(#[trigger] sorted@[q], e),
            decreases sorted@.len() - p,
        {
            p = p + 1;
        }
        proof {
            assert(solid(*glyph, level, e));
            if p < sorted@.len() {
                let s = sorted@[p as int];
                assert(sorted@.contains(s));
                assert(seen.contains(s));
                let m = choose|m: int| 0 <= m < seen.len() && seen[m] == s;
                assert(done@[m] == s);
                assert(solid(*glyph, level, done@[m]));
                assert(apart(done@[m], done@[n as int]));
                assert(reads_before(e, s));
            }
        }
        let ghost before = sorted@;
        sorted.insert(p, e);
        proof {
            assert(done@.take(n + 1) =~= seen.push(e));
            assert forall|x: (u32, u32, u32, u32)| sorted@.contains(x) <==> seen.push(e).contains(x) by {
                if sorted@.contains(x) {
                    let q = choose|q: int| 0 <= q < sorted@.len() && sorted@[q] == x;
                    if q < p {
                        assert(before[q] == x);
                        assert(before.contains(x));
                    } else if q > p {
                        assert(before[q - 1] == x);
                        assert(before.contains(x));
                    }
                    if x != e {
                        assert(seen.contains(x));
                        let r = choose|r: int| 0 <= r < seen.len() && seen[r] == x;
                        assert(seen.push(e)[r] == x);
                    } else {
                        assert(seen.push(e)[seen.len() as int] == x);
                    }
                }
                if seen.push(e).contains(x) {
                    let r = choose|r: int| 0 <= r < seen.len() + 1 && seen.push(e)[r] == x;
                    if r == seen.len() {
                        assert(sorted@[p as int] == x);
                    } else {
                        assert(seen[r] == x);
                        assert(seen.contains(x));
                        assert(before.contains(x));
                        let q = choose|q: int| 0 <= q < before.len() && before[q] == x;
                        if q < p {
                            assert(sorted@[q] == x);
                        } else {
                            assert(sorted@[q + 1] == x);
                        }
                    }
                }
            }
            assert forall|k1: int, k2: int| 0 <= k1 < k2 < sorted@.len() implies reads_before(
                #[trigger] sorted@[k1],
                #[trigger] sorted@[k2],
            ) by {
                if k2 < p {
                    assert(sorted@[k1] == before[k1] && sorted@[k2] == before[k2]);
                } else if k2 == p {
                    assert(sorted@[k1] == before[k1]);
                } else if k1 < p {
                    assert(sorted@[k1] == before[k1] && sorted@[k2] == before[k2 - 1]);
                    assert(reads_before(e, before[p as int]));
                    if k2 - 1 > p {
                        assert(reads_before(before[p as int], before[k2 - 1]));
                    }
                } else if k1 == p {
                    assert(sorted@[k2] == before[k2 - 1]);
                    assert(reads_before(e, before[p as int]));
                    if k2 - 1 > p {
                        assert(reads_before(before[p as int], before[k2 - 1]));
                    }
                } else {
                    assert(sorted@[k1] == before[k1 - 1] && sorted@[k2] == before[k2 - 1]);
                }
            }
        }
        n = n + 1;
    }
    proof {
        assert(done@.take(done@.len() as int) =~= done@);
        assert forall|k: int| 0 <= k < sorted@.len() implies #[trigger] solid(
            *glyph,
            level,
            sorted@[k],
        ) by {
            assert(sorted@.contains(sorted@[k]));
            let m = choose|m: int| 0 <= m < done@.len() && done@[m] == sorted@[k];
            assert(solid(*glyph, level, done@[m]));
        }
        assert forall|k: int| 0 <= k < sorted@.len() implies #[trigger] maximal(
            *glyph,
            level,
            sorted@[k],
        ) by {
            assert(sorted@.contains(sorted@[k]));
            let m = choose|m: int| 0 <= m < done@.len() && done@[m] == sorted@[k];
            assert(maximal(*glyph, level, done@[m]));
        }
        assert forall|k1: int, k2: int|
            0 <= k1 < sorted@.len() && 0 <= k2 < sorted@.len() && k1 != k2 implies apart(
                #[trigger] sorted@[k1],
                #[trigger] sorted@[k2],
            ) by {
            assert(sorted@.contains(sorted@[k1]));
            assert(sorted@.contains(sorted@[k2]));
            let m1 = choose|m: int| 0 <= m < done@.len() && done@[m] == sorted@[k1];
            let m2 = choose|m: int| 0 <= m < done@.len() && done@[m] == sorted@[k2];
            if k1 < k2 {
                assert(reads_before(sorted@[k1], sorted@[k2]));
            } else {
                assert(reads_before(sorted@[k2], sorted@[k1]));
            }
            assert(m1 != m2);
            assert(apart(done@[m1], done@[m2]));
        }
        assert forall|px: int, py: int| #[trigger] lit(*glyph, level, px, py) implies covered(
            sorted@,
            px,
            py,
        ) by {
            assert(covered(done@, px, py));
            let m = choose|m: int| 0 <= m < done@.len() && #[trigger] in_rect(done@[m], px, py);
            assert(done@.contains(done@[m]));
            assert(sorted@.contains(done@[m]));
            let k = choose|k: int| 0 <= k < sorted@.len() && sorted@[k] == done@[m];
            assert(in_rect(sorted@[k], px, py));
        }
    }
    sorted
}

} // verus!
