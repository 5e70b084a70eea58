//! WebVTT: the text-and-timing renderer, for a subtitle track a browser can
//! turn on.
//!
//! The hard part is not the format, it is knowing when a caption ends — which
//! is [`crate::render::timeline`]'s problem, shared with every other timed
//! renderer. What is left here is what WebVTT keeps of a caption: the words,
//! and whether it was at the top of the screen.
use vstd::prelude::*;

pub use crate::render::timeline::{MAX_OPEN_MS, PROVISIONAL_MS};

use crate::model::{Caption, CaptionRegion, Duration, RegionView};
use crate::render::timeline::{
    closed_at, end_at_next, end_fits, stated_end, Pending, Timed, Timeline,
};
use crate::text::{
    all_digits, chars_of, decimal_value, law_padded_reads_back, lemma_padded_exact, padded, pow10,
    push_char, push_padded, push_str, string_of,
};

verus! {

/// A resolved subtitle cue: text with a start and an end.
#[derive(Clone, Debug, PartialEq, Eq)]
pub struct Cue {
    pub start_ms: i64,
    pub end_ms: i64,
    pub text: String,
    /// The caption sat in the upper part of the plane. Japanese broadcasts move
    /// captions up when something at the bottom of the frame matters — a score
    /// bar, a name caption — so a renderer that always places at the bottom
    /// covers exactly what the broadcaster was avoiding.
    pub top: bool,
}

/// What a [`Cue`] holds, as values.
pub struct CueView {
    pub start_ms: i64,
    pub end_ms: i64,
    pub text: Seq<char>,
    pub top: bool,
}

impl Cue {
    pub open spec fn view(&self) -> CueView {
        CueView { start_ms: self.start_ms, end_ms: self.end_ms, text: self.text@, top: self.top }
    }
}

/// What WebVTT keeps of a caption.
#[derive(Debug)]
pub struct Body {
    pub text: String,
    pub top: bool,
}

impl Clone for Body {
    fn clone(&self) -> (b: Body)
        ensures
            b.text@ == self.text@,
            b.top == self.top,
    {
        Body { text: self.text.clone(), top: self.top }
    }
}

/// The caption a [`CueStream`] holds back, as values.
pub struct PendingCue {
    pub start_ms: i64,
    pub end_ms: Option<i64>,
    pub text: Seq<char>,
    pub top: bool,
}

/// Turns decoded captions into cues, resolving the open-ended ones.
#[derive(Debug)]
pub struct CueStream {
    timeline: Timeline<Body>,
}

fn cue_of(timed: Timed<Body>) -> (c: Cue)
    ensures
        c.view() == (CueView {
            start_ms: timed.start_ms,
            end_ms: timed.end_ms,
            text: timed.value.text@,
            top: timed.value.top,
        }),
{
    Cue { start_ms: timed.start_ms, end_ms: timed.end_ms, text: timed.value.text, top: timed.value.top }
}

/// A closed or pending span as a cue, if there is one.
pub open spec fn cue_view_of(t: Option<(i64, i64, Seq<char>, bool)>) -> Option<CueView> {
    match t {
        Some((s, e, text, top)) => Some(CueView { start_ms: s, end_ms: e, text, top }),
        None => None,
    }
}

pub open spec fn opt_cue_view(c: Option<Cue>) -> Option<CueView> {
    match c {
        Some(c) => Some(c.view()),
        None => None,
    }
}

impl CueStream {
    /// The caption held back, if any.
    pub closed spec fn spec_pending(&self) -> Option<PendingCue> {
        match self.timeline.spec_pending() {
            Some(p) => Some(
                PendingCue {
                    start_ms: p.start_ms,
                    end_ms: p.end_ms,
                    text: p.value.text@,
                    top: p.value.top,
                },
            ),
            None => None,
        }
    }

    pub fn new() -> (s: CueStream)
        ensures
            s.spec_pending() is None,
    {
        CueStream { timeline: Timeline::new() }
    }

    /// Feed one decoded caption. Returns the cue that this caption *closed*,
    /// if any — which is normally the one before it. A caption with nothing to
    /// show (a clear-screen, or one made only of DRCS with no replacement)
    /// opens no cue, but does end whatever was showing.
    pub fn push(&mut self, caption: &Caption) -> (closed: Option<Cue>)
        requires
            caption.pts_ms matches Some(pts) ==> (old(self).spec_pending() matches Some(q)
                ==> q.start_ms < i64::MAX) && (spec_visible_text(caption.text@).len() > 0
                ==> end_fits(pts, caption.duration)),
        ensures
            match caption.pts_ms {
                None => closed is None && final(self).spec_pending() == old(self).spec_pending(),
                Some(pts) => {
                    &&& opt_cue_view(closed) == closed_cue(old(self).spec_pending(), pts)
                    &&& final(self).spec_pending() == if spec_visible_text(caption.text@).len()
                        > 0 {
                        Some(
                            PendingCue {
                                start_ms: pts,
                                end_ms: stated_end(pts, caption.duration),
                                text: spec_visible_text(caption.text@),
                                top: spec_is_top(
                                    caption.view().regions,
                                    caption.plane_height as int,
                                ),
                            },
                        )
                    } else {
                        None::<PendingCue>
                    }
                },
            },
    {
        let text = visible_text(caption);
        let body = if !text.as_str().is_empty() {
            Some(Body { text, top: is_top(caption) })
        } else {
            None
        };
        match self.timeline.push(caption, body) {
            Some(t) => Some(cue_of(t)),
            None => None,
        }
    }

    /// Close the open cue, if the stream ends.
    pub fn flush(&mut self) -> (closed: Option<Cue>)
        requires
            old(self).spec_pending() matches Some(q) ==> (q.end_ms is None ==> q.start_ms
                + MAX_OPEN_MS <= i64::MAX),
        ensures
            final(self).spec_pending() is None,
            opt_cue_view(closed) == match old(self).spec_pending() {
                None => None::<CueView>,
                Some(p) => Some(
                    CueView {
                        start_ms: p.start_ms,
                        end_ms: match p.end_ms {
                            Some(e) => e,
                            None => (p.start_ms + MAX_OPEN_MS) as i64,
                        },
                        text: p.text,
                        top: p.top,
                    },
                ),
            },
    {
        match self.timeline.flush() {
            Some(t) => Some(cue_of(t)),
            None => None,
        }
    }

    /// The start time of the caption still waiting for its end, if any.
    pub fn open_since(&self) -> (t: Option<i64>)
        ensures
            t == match self.spec_pending() {
                Some(p) => Some(p.start_ms),
                None => None::<i64>,
            },
    {
        self.timeline.open_since()
    }

    /// The caption currently on screen as a publishable cue, its end
    /// provisional ([`PROVISIONAL_MS`]) unless the broadcast stated one.
    pub fn pending(&self) -> (c: Option<Cue>)
        requires
            self.spec_pending() matches Some(q) ==> (q.end_ms is None ==> q.start_ms
                + PROVISIONAL_MS <= i64::MAX),
        ensures
            opt_cue_view(c) == match self.spec_pending() {
                None => None::<CueView>,
                Some(p) => Some(open_cue(p)),
            },
    {
        match self.timeline.pending() {
            Some(t) => Some(cue_of(t)),
            None => None,
        }
    }
}

/// The cue a held caption becomes when the next caption arrives at `at_ms`.
/// The cue a caption still on screen is published as: its stated end, or a
/// provisional one.
pub open spec fn open_cue(p: PendingCue) -> CueView {
    CueView {
        start_ms: p.start_ms,
        end_ms: match p.end_ms {
            Some(e) => e,
            None => (p.start_ms + PROVISIONAL_MS) as i64,
        },
        text: p.text,
        top: p.top,
    }
}

pub open spec fn closed_cue(p: Option<PendingCue>, at_ms: i64) -> Option<CueView> {
    match closed_at(
        match p {
            Some(q) => Some(Pending { start_ms: q.start_ms, end_ms: q.end_ms, value: (q.text, q.top) }),
            None => None,
        },
        at_ms,
    ) {
        Some(t) => Some(
            CueView { start_ms: t.start_ms, end_ms: t.end_ms, text: t.value.0, top: t.value.1 },
        ),
        None => None,
    }
}

// ── the text a cue shows ────────────────────────────────────────────

/// Unicode White_Space, which is what `str::trim` trims.
pub open spec fn is_ws(c: char) -> bool {
    let u = c as u32;
    (0x09 <= u <= 0x0d) || u == 0x20 || u == 0x85 || u == 0xa0 || u == 0x1680 || (0x2000 <= u
        <= 0x200a) || u == 0x2028 || u == 0x2029 || u == 0x202f || u == 0x205f || u == 0x3000
}

fn is_white_space(c: char) -> (b: bool)
    ensures
        b == is_ws(c),
{
    let u = c as u32;
    (0x09 <= u && u <= 0x0d) || u == 0x20 || u == 0x85 || u == 0xa0 || u == 0x1680 || (0x2000
        <= u && u <= 0x200a) || u == 0x2028 || u == 0x2029 || u == 0x202f || u == 0x205f || u
        == 0x3000
}

/// The continuation arrow ➡ that ends a line continued in the next caption.
pub open spec fn is_arrow(c: char) -> bool {
    c == '\u{27a1}'
}

pub open spec fn strip_arrows(s: Seq<char>) -> Seq<char>
    decreases s.len(),
{
    if s.len() > 0 && is_arrow(s.last()) {
        strip_arrows(s.drop_last())
    } else {
        s
    }
}

pub open spec fn trim_start(s: Seq<char>) -> Seq<char>
    decreases s.len(),
{
    if s.len() > 0 && is_ws(s[0]) {
        trim_start(s.drop_first())
    } else {
        s
    }
}

pub open spec fn trim_end(s: Seq<char>) -> Seq<char>
    decreases s.len(),
{
    if s.len() > 0 && is_ws(s.last()) {
        trim_end(s.drop_last())
    } else {
        s
    }
}

pub open spec fn trim(s: Seq<char>) -> Seq<char> {
    trim_end(trim_start(s))
}

/// One line into the output: trimmed, dropped when empty, joined by a
/// newline to what came before.
pub open spec fn emit(out: Seq<char>, line: Seq<char>) -> Seq<char> {
    let l = trim(line);
    if l.len() == 0 {
        out
    } else if out.len() == 0 {
        l
    } else {
        out + seq!['\n'] + l
    }
}

/// The lines of `t`, the one under way being `line`, emitted onto `out`.
pub open spec fn join_lines(t: Seq<char>, line: Seq<char>, out: Seq<char>) -> Seq<char>
    decreases t.len(),
{
    if t.len() == 0 {
        emit(out, line)
    } else if t[0] == '\n' {
        join_lines(t.drop_first(), Seq::empty(), emit(out, line))
    } else {
        join_lines(t.drop_first(), line.push(t[0]), out)
    }
}

/// The text a subtitle track shows of a caption: its text (ruby is already
/// excluded by the decoder) without the trailing continuation arrows, every
/// line trimmed, the empty ones dropped.
pub open spec fn spec_visible_text(text: Seq<char>) -> Seq<char> {
    join_lines(trim(strip_arrows(text)), Seq::empty(), Seq::empty())
}

/// The range `[a, b)` of `v[lo..hi]` that trimming leaves.
pub(crate) fn trim_range(v: &Vec<char>, lo: usize, hi: usize) -> (r: (usize, usize))
    requires
        lo <= hi <= v@.len(),
    ensures
        lo <= r.0 <= r.1 <= hi,
        v@.subrange(r.0 as int, r.1 as int) == trim(v@.subrange(lo as int, hi as int)),
{
    let ghost s = v@.subrange(lo as int, hi as int);
    let mut a = lo;
    assert(s =~= v@.subrange(a as int, hi as int));
    while a < hi && is_white_space(v[a])
        invariant
            lo <= a <= hi <= v@.len(),
            s == v@.subrange(lo as int, hi as int),
            trim_start(s) == trim_start(v@.subrange(a as int, hi as int)),
        decreases hi - a,
    {
        assert(v@.subrange(a as int, hi as int).drop_first() =~= v@.subrange(a + 1, hi as int));
        a = a + 1;
    }
    let ghost u = v@.subrange(a as int, hi as int);
    assert(trim_start(s) == u);
    let mut b = hi;
    assert(u =~= v@.subrange(a as int, b as int));
    while b > a && is_white_space(v[b - 1])
        invariant
            lo <= a <= b <= hi <= v@.len(),
            u == v@.subrange(a as int, hi as int),
            trim_end(u) == trim_end(v@.subrange(a as int, b as int)),
        decreases b - a,
    {
        assert(v@.subrange(a as int, b as int).drop_last() =~= v@.subrange(a as int, b - 1));
        b = b - 1;
    }
    (a, b)
}

/// The text a subtitle track should show: the caption's text with ruby already
/// excluded by the decoder, trimmed of the trailing continuation arrow. ➡ ends
/// a line that continues in the next caption: a reading aid on a TV screen
/// and clutter in a subtitle track, where the next cue follows immediately.
pub fn visible_text(caption: &Caption) -> (t: String)
    ensures
        t@ == spec_visible_text(caption.text@),
{
    let chars = chars_of(caption.text.as_str());
    let ghost s = chars@;
    let mut e = chars.len();
    assert(s.subrange(0, e as int) =~= s);
    while e > 0 && chars[e - 1] == '\u{27a1}'
        invariant
            e <= chars@.len(),
            s == chars@,
            strip_arrows(s) == strip_arrows(s.subrange(0, e as int)),
        decreases e,
    {
        assert(s.subrange(0, e as int).drop_last() =~= s.subrange(0, e - 1));
        e = e - 1;
    }
    let (a, b) = trim_range(&chars, 0, e);
    let ghost t = s.subrange(a as int, b as int);
    let mut out: Vec<char> = Vec::new();
    let mut line_start = a;
    let mut i = a;
    assert(t =~= s.subrange(i as int, b as int));
    assert(s.subrange(line_start as int, i as int) =~= Seq::<char>::empty());
    while i < b
        invariant
            a <= line_start <= i <= b <= chars@.len(),
            s == chars@,
            join_lines(t, Seq::empty(), Seq::empty()) == join_lines(
                s.subrange(i as int, b as int),
                s.subrange(line_start as int, i as int),
                out@,
            ),
        decreases b - i,
    {
        assert(s.subrange(i as int, b as int).drop_first() =~= s.subrange(i + 1, b as int));
        if chars[i] == '\n' {
            emit_line(&mut out, &chars, line_start, i);
            line_start = i + 1;
            assert(s.subrange(line_start as int, i + 1) =~= Seq::<char>::empty());
        } else {
            assert(s.subrange(line_start as int, i as int).push(s[i as int]) =~= s.subrange(
                line_start as int,
                i + 1,
            ));
        }
        i = i + 1;
    }
    emit_line(&mut out, &chars, line_start, b);
    assert(s.subrange(b as int, b as int).len() == 0);
    string_of(out.as_slice())
}

/// One line, `chars[lo..hi]`, onto the output.
fn emit_line(out: &mut Vec<char>, chars: &Vec<char>, lo: usize, hi: usize)
    requires
        lo <= hi <= chars@.len(),
    ensures
        final(out)@ == emit(old(out)@, chars@.subrange(lo as int, hi as int)),
{
    let (a, b) = trim_range(chars, lo, hi);
    if a == b {
        return;
    }
    let ghost l = chars@.subrange(a as int, b as int);
    let ghost before = out@;
    if out.len() != 0 {
        out.push('\n');
    }
    let ghost mid = out@;
    let mut k = a;
    while k < b
        invariant
            a <= k <= b <= chars@.len(),
            out@ == mid + chars@.subrange(a as int, k as int),
        decreases b - k,
    {
        out.push(chars[k]);
        assert(chars@.subrange(a as int, k as int).push(chars@[k as int]) =~= chars@.subrange(
            a as int,
            k + 1,
        ));
        k = k + 1;
    }
    proof {
        if before.len() == 0 {
            assert(out@ =~= l);
        } else {
            assert(out@ =~= before + seq!['\n'] + l);
        }
    }
}

// ── placement ───────────────────────────────────────────────────────

/// `3 y` pinned to the range of an `i32`, as `i32::saturating_mul` gives it.
pub open spec fn triple_saturating(y: int) -> int {
    if 3 * y > i32::MAX {
        i32::MAX as int
    } else if 3 * y < i32::MIN {
        i32::MIN as int
    } else {
        3 * y
    }
}

/// Whether a region sits in the top third of a plane `plane_height` high.
pub open spec fn in_top_third(r: RegionView, plane_height: int) -> bool {
    triple_saturating(r.y) < plane_height
}

/// True when the caption has regions of its own (ruby aside) and every one of
/// them sits in the top third of the plane.
pub open spec fn spec_is_top(regions: Seq<RegionView>, plane_height: int) -> bool {
    &&& exists|i: int| 0 <= i < regions.len() && !(#[trigger] regions[i]).is_ruby
    &&& forall|i: int|
        0 <= i < regions.len() && !(#[trigger] regions[i]).is_ruby ==> in_top_third(
            regions[i],
            plane_height,
        )
}

/// True when every one of the caption's own regions sits in the top third of
/// the plane.
///
/// A third, not a half: ordinary dialogue is placed anywhere from 28% to 61%
/// down the plane, because ARIB captions are positioned per line to dodge
/// whatever graphics are on screen. WebVTT can only say "up" or "down", so the
/// threshold has to be where a caption is unambiguously *not* subtitle-shaped.
pub fn is_top(caption: &Caption) -> (top: bool)
    ensures
        top == spec_is_top(caption.view().regions, caption.plane_height as int),
{
    let mut any = false;
    let mut all_top = true;
    let mut i: usize = 0;
    let ghost rs = caption.view().regions;
    while i < caption.regions.len()
        invariant
            i <= caption.regions@.len(),
            rs == caption.view().regions,
            rs.len() == caption.regions@.len(),
            any == exists|j: int| 0 <= j < i && !(#[trigger] rs[j]).is_ruby,
            all_top == forall|j: int|
                0 <= j < i && !(#[trigger] rs[j]).is_ruby ==> in_top_third(
                    rs[j],
                    caption.plane_height as int,
                ),
        decreases caption.regions@.len() - i,
    {
        let region: &CaptionRegion = &caption.regions[i];
        assert(rs[i as int] == region.view());
        if !region.is_ruby {
            any = true;
            // Saturating: `Caption` is public, so a caller can hand this
            // renderer a region the decoder would never emit.
            let tripled: i64 = region.y as i64 * 3;
            let saturated: i32 = if tripled > i32::MAX as i64 {
                i32::MAX
            } else if tripled < i32::MIN as i64 {
                i32::MIN
            } else {
                tripled as i32
            };
            if saturated >= caption.plane_height {
                all_top = false;
            }
        }
        i = i + 1;
    }
    any && all_top
}

// ── the file ────────────────────────────────────────────────────────

/// `HH:MM:SS.mmm`, the only timestamp form WebVTT accepts for hours.
pub open spec fn spec_timestamp(ms: i64) -> Seq<char> {
    let m: nat = if ms < 0 {
        0
    } else {
        ms as nat
    };
    padded(m / 3_600_000, 2) + seq![':'] + padded((m / 60_000) % 60, 2) + seq![':'] + padded(
        (m / 1000) % 60,
        2,
    ) + seq!['.'] + padded(m % 1000, 3)
}

/// A WebVTT time reads back: `HH:MM:SS.mmm`, hours in two digits or more,
/// minutes and seconds below 60, and together the milliseconds of the time
/// (a negative time being zero).
pub proof fn law_timestamp_reads_back(ms: i64)
    ensures
        ({
            let s = spec_timestamp(ms);
            let l = s.len() as int;
            let m = if ms < 0 {
                0
            } else {
                ms as int
            };
            &&& l >= 12
            &&& s[l - 10] == ':' && s[l - 7] == ':' && s[l - 4] == '.'
            &&& all_digits(s.take(l - 10)) && all_digits(s.subrange(l - 9, l - 7))
            &&& all_digits(s.subrange(l - 6, l - 4)) && all_digits(s.subrange(l - 3, l))
            &&& decimal_value(s.subrange(l - 9, l - 7)) < 60
            &&& decimal_value(s.subrange(l - 6, l - 4)) < 60
            &&& decimal_value(s.take(l - 10)) * 3_600_000 + decimal_value(s.subrange(l - 9, l - 7))
                * 60_000 + decimal_value(s.subrange(l - 6, l - 4)) * 1000 + decimal_value(
                s.subrange(l - 3, l),
            ) == m
        }),
{
    let m: nat = if ms < 0 {
        0
    } else {
        ms as nat
    };
    let h = m / 3_600_000;
    let mm = (m / 60_000) % 60;
    let ss = (m / 1000) % 60;
    let fr = m % 1000;
    assert(pow10(2) == 100 && pow10(3) == 1000) by {
        assert(pow10(0) == 1);
        assert(pow10(1) == 10);
        assert(pow10(2) == 100);
    }
    law_padded_reads_back(h, 2);
    law_padded_reads_back(mm, 2);
    law_padded_reads_back(ss, 2);
    law_padded_reads_back(fr, 3);
    lemma_padded_exact(mm, 2);
    lemma_padded_exact(ss, 2);
    lemma_padded_exact(fr, 3);
    let s = spec_timestamp(ms);
    let p = padded(h, 2);
    assert(s =~= p + seq![':'] + padded(mm, 2) + seq![':'] + padded(ss, 2) + seq!['.'] + padded(fr, 3));
    let l = s.len() as int;
    assert(s.take(l - 10) =~= p);
    assert(s.subrange(l - 9, l - 7) =~= padded(mm, 2));
    assert(s.subrange(l - 6, l - 4) =~= padded(ss, 2));
    assert(s.subrange(l - 3, l) =~= padded(fr, 3));
    assert(h * 3_600_000 + mm * 60_000 + ss * 1000 + fr == m) by (nonlinear_arith)
        requires
            h == m / 3_600_000,
            mm == (m / 60_000) % 60,
            ss == (m / 1000) % 60,
            fr == m % 1000,
    ;
}

/// `HH:MM:SS.mmm`, the only timestamp form WebVTT accepts for hours.
pub fn timestamp(ms: i64) -> (s: String)
    ensures
        s@ == spec_timestamp(ms),
{
    let m: u64 = if ms < 0 {
        0
    } else {
        ms as u64
    };
    let mut s = String::new();
    push_padded(&mut s, m / 3_600_000, 2);
    push_char(&mut s, ':');
    push_padded(&mut s, (m / 60_000) % 60, 2);
    push_char(&mut s, ':');
    push_padded(&mut s, (m / 1000) % 60, 2);
    push_char(&mut s, '.');
    push_padded(&mut s, m % 1000, 3);
    assert(s@ =~= spec_timestamp(ms));
    s
}

/// What one character becomes in cue text: the three characters WebVTT reads
/// as markup are written as entities.
pub open spec fn escape_char(c: char) -> Seq<char> {
    if c == '&' {
        seq!['&', 'a', 'm', 'p', ';']
    } else if c == '<' {
        seq!['&', 'l', 't', ';']
    } else if c == '>' {
        seq!['&', 'g', 't', ';']
    } else {
        seq![c]
    }
}

pub open spec fn spec_escape(s: Seq<char>) -> Seq<char>
    decreases s.len(),
{
    if s.len() == 0 {
        Seq::empty()
    } else {
        escape_char(s[0]) + spec_escape(s.drop_first())
    }
}

fn push_chars(out: &mut String, cs: &[char])
    ensures
        final(out)@ == old(out)@ + cs@,
{
    let mut i: usize = 0;
    let ghost start = out@;
    while i < cs.len()
        invariant
            i <= cs@.len(),
            out@ == start + cs@.take(i as int),
        decreases cs@.len() - i,
    {
        push_char(out, cs[i]);
        assert(cs@.take(i as int).push(cs@[i as int]) =~= cs@.take(i + 1));
        i = i + 1;
    }
    assert(cs@.take(cs@.len() as int) =~= cs@);
}

/// Cue text with `&`, `<` and `>` escaped, `&` first so the others' escapes
/// are not mangled.
pub fn escape(text: &str) -> (e: String)
    ensures
        e@ == spec_escape(text@),
{
    let chars = chars_of(text);
    let mut out = String::new();
    let mut i: usize = 0;
    assert(chars@.skip(0) =~= chars@);
    while i < chars.len()
        invariant
            i <= chars@.len(),
            chars@ == text@,
            out@ + spec_escape(chars@.skip(i as int)) == spec_escape(text@),
        decreases chars@.len() - i,
    {
        let c = chars[i];
        assert(chars@.skip(i as int).drop_first() =~= chars@.skip(i + 1));
        let ghost before = out@;
        if c == '&' {
            push_chars(&mut out, &['&', 'a', 'm', 'p', ';']);
        } else if c == '<' {
            push_chars(&mut out, &['&', 'l', 't', ';']);
        } else if c == '>' {
            push_chars(&mut out, &['&', 'g', 't', ';']);
        } else {
            push_char(&mut out, c);
        }
        assert(out@ + spec_escape(chars@.skip(i + 1)) =~= before + spec_escape(
            chars@.skip(i as int),
        ));
        i = i + 1;
    }
    assert(chars@.skip(chars@.len() as int) =~= Seq::<char>::empty());
    assert(out@ + Seq::<char>::empty() =~= out@);
    out
}

/// Where a caption sits when the broadcast did not move it up: 94% down,
/// clear of a player's progress bar and roughly where a television puts one.
/// Bare, with no line alignment after it, which one widely used parser would
/// otherwise discard whole.
pub open spec fn bottom_line() -> Seq<char> {
    seq![' ', 'l', 'i', 'n', 'e', ':', '9', '4', '%']
}

/// Two lines down from the top, which clears the channel logos that sit in
/// the corner.
pub open spec fn top_line() -> Seq<char> {
    seq![' ', 'l', 'i', 'n', 'e', ':', '1']
}

pub open spec fn arrow() -> Seq<char> {
    seq![' ', '-', '-', '>', ' ']
}

/// A cue as it appears in a WebVTT file.
pub open spec fn spec_block(c: CueView) -> Seq<char> {
    spec_timestamp(c.start_ms) + arrow() + spec_timestamp(c.end_ms) + (if c.top {
        top_line()
    } else {
        bottom_line()
    }) + seq!['\n'] + spec_escape(c.text) + seq!['\n']
}

impl Cue {
    /// The cue as it appears in a WebVTT file.
    pub fn to_block(&self) -> (s: String)
        ensures
            s@ == spec_block(self.view()),
    {
        let mut out = timestamp(self.start_ms);
        push_chars(&mut out, &[' ', '-', '-', '>', ' ']);
        let end = timestamp(self.end_ms);
        push_str(&mut out, end.as_str());
        if self.top {
            push_chars(&mut out, &[' ', 'l', 'i', 'n', 'e', ':', '1']);
        } else {
            push_chars(&mut out, &[' ', 'l', 'i', 'n', 'e', ':', '9', '4', '%']);
        }
        push_char(&mut out, '\n');
        let text = escape(self.text.as_str());
        push_str(&mut out, text.as_str());
        push_char(&mut out, '\n');
        assert(out@ =~= spec_block(self.view()));
        out
    }
}

/// Every cue's block followed by a blank line.
pub open spec fn spec_blocks(cues: Seq<Cue>) -> Seq<char>
    decreases cues.len(),
{
    if cues.len() == 0 {
        Seq::empty()
    } else {
        spec_block(cues[0].view()) + seq!['\n'] + spec_blocks(cues.drop_first())
    }
}

fn push_blocks(out: &mut String, cues: &[Cue])
    ensures
        final(out)@ == old(out)@ + spec_blocks(cues@),
{
    let mut i: usize = 0;
    let ghost start = out@;
    assert(cues@.skip(0) =~= cues@);
    while i < cues.len()
        invariant
            i <= cues@.len(),
            out@ + spec_blocks(cues@.skip(i as int)) == start + spec_blocks(cues@),
        decreases cues@.len() - i,
    {
        assert(cues@.skip(i as int).drop_first() =~= cues@.skip(i + 1));
        let ghost before = out@;
        let block = cues[i].to_block();
        push_str(out, block.as_str());
        push_char(out, '\n');
        assert(out@ + spec_blocks(cues@.skip(i + 1)) =~= before + spec_blocks(
            cues@.skip(i as int),
        ));
        i = i + 1;
    }
    assert(cues@.skip(cues@.len() as int) =~= Seq::<Cue>::empty());
    assert(out@ + Seq::<char>::empty() =~= out@);
}

pub open spec fn file_header() -> Seq<char> {
    seq!['W', 'E', 'B', 'V', 'T', 'T', '\n', '\n']
}

/// `X-TIMESTAMP-MAP=MPEGTS:0,LOCAL:00:00:00.000` after the signature line.
pub open spec fn segment_header() -> Seq<char> {
    "WEBVTT\nX-TIMESTAMP-MAP=MPEGTS:0,LOCAL:00:00:00.000\n\n"@
}

/// A whole WebVTT file: the header plus every cue. For a recording sidecar,
/// where all the cues are known.
pub fn to_file(cues: &[Cue]) -> (s: String)
    ensures
        s@ == file_header() + spec_blocks(cues@),
{
    let mut out = String::new();
    push_chars(&mut out, &['W', 'E', 'B', 'V', 'T', 'T', '\n', '\n']);
    push_blocks(&mut out, cues);
    out
}

/// One WebVTT segment of an HLS subtitle rendition.
///
/// Cue times are the caption's own presentation timestamps, and
/// `X-TIMESTAMP-MAP` is what tells the player so: `MPEGTS:0,LOCAL:00:00:00.000`
/// declares "cue time zero is PTS zero", which lets the player subtract the
/// stream's own initial PTS to reach its media timeline. It only holds if the
/// video segments keep their input timestamps.
pub fn to_segment(cues: &[Cue]) -> (s: String)
    ensures
        s@ == segment_header() + spec_blocks(cues@),
{
    let mut out = String::new();
    push_str(&mut out, "WEBVTT\nX-TIMESTAMP-MAP=MPEGTS:0,LOCAL:00:00:00.000\n\n");
    push_blocks(&mut out, cues);
    out
}

/// The characters WebVTT cue text stands for: the character references
/// `&amp;`, `&lt;` and `&gt;`, and every other character as itself.
pub open spec fn vtt_unescape(s: Seq<char>) -> Seq<char>
    decreases s.len(),
{
    if s.len() >= 5 && s.take(5) == seq!['&', 'a', 'm', 'p', ';'] {
        seq!['&'] + vtt_unescape(s.skip(5))
    } else if s.len() >= 4 && s.take(4) == seq!['&', 'l', 't', ';'] {
        seq!['<'] + vtt_unescape(s.skip(4))
    } else if s.len() >= 4 && s.take(4) == seq!['&', 'g', 't', ';'] {
        seq!['>'] + vtt_unescape(s.skip(4))
    } else if s.len() > 0 {
        seq![s[0]] + vtt_unescape(s.skip(1))
    } else {
        Seq::empty()
    }
}

/// Escaping reads back: a WebVTT parser recovers from escaped text exactly
/// the characters that went in.
pub proof fn law_escape_reads_back(s: Seq<char>)
    ensures
        vtt_unescape(spec_escape(s)) == s,
    decreases s.len(),
{
    if s.len() > 0 {
        law_escape_reads_back(s.drop_first());
        let e = escape_char(s[0]);
        let t = spec_escape(s.drop_first());
        let a = e + t;
        assert(spec_escape(s) == a);
        assert(a.skip(e.len() as int) =~= t);
        if s[0] == '&' {
            assert(a.take(5) =~= seq!['&', 'a', 'm', 'p', ';']);
        } else if s[0] == '<' {
            assert(a.take(4) =~= seq!['&', 'l', 't', ';']);
            assert(!(a.len() >= 5 && a.take(5) == seq!['&', 'a', 'm', 'p', ';'])) by {
                if a.len() >= 5 {
                    assert(a.take(5)[1] == 'l');
                }
            }
        } else if s[0] == '>' {
            assert(a.take(4) =~= seq!['&', 'g', 't', ';']);
            assert(!(a.len() >= 5 && a.take(5) == seq!['&', 'a', 'm', 'p', ';'])) by {
                if a.len() >= 5 {
                    assert(a.take(5)[1] == 'g');
                }
            }
            assert(a.take(4) != seq!['&', 'l', 't', ';']) by {
                assert(a.take(4)[1] == 'g');
            }
        } else {
            assert(a[0] == s[0]);
            if a.len() >= 5 {
                assert(a.take(5)[0] == s[0]);
            }
            if a.len() >= 4 {
                assert(a.take(4)[0] == s[0]);
            }
        }
        assert(s =~= seq![s[0]] + s.drop_first());
    }
}

/// What escaping gives back contains none of the three markup characters
/// unescaped: every `<` and `>` of the text is gone.
pub proof fn law_escaped_text_has_no_markup(s: Seq<char>)
    ensures
        forall|i: int| 0 <= i < spec_escape(s).len() ==> spec_escape(s)[i] != '<' && spec_escape(s)[i] != '>',
    decreases s.len(),
{
    if s.len() > 0 {
        law_escaped_text_has_no_markup(s.drop_first());
        let head = escape_char(s[0]);
        assert(spec_escape(s) == head + spec_escape(s.drop_first()));
        assert forall|i: int| 0 <= i < spec_escape(s).len() implies spec_escape(s)[i] != '<'
            && spec_escape(s)[i] != '>' by {
            if i < head.len() {
            } else {
                assert(spec_escape(s)[i] == spec_escape(s.drop_first())[i - head.len()]);
            }
        }
    }
}

/// A cue published while still open and the same cue once closed carry the
/// same start, text and placement: the start is the key a live consumer
/// replaces the provisional cue on, whenever the close comes.
pub proof fn law_open_and_closed_cue_share_their_key(p: PendingCue, at_ms: i64)
    ensures
        closed_cue(Some(p), at_ms) matches Some(c) && c.start_ms == open_cue(p).start_ms
            && c.text == open_cue(p).text && c.top == open_cue(p).top,
{
}

/// A cue held back by `push` — started at `s`, stated duration `d`, text
/// `text` and placement `top` — is closed by the next caption at `t` as the
/// same cue, ending where [`end_at_next`] says.
pub proof fn law_a_held_cue_closes_at_the_next_caption(
    s: i64,
    d: Duration,
    text: Seq<char>,
    top: bool,
    t: i64,
)
    requires
        s < i64::MAX,
        end_fits(s, d),
    ensures
        closed_cue(Some(PendingCue { start_ms: s, end_ms: stated_end(s, d), text, top }), t)
            == Some(CueView { start_ms: s, end_ms: end_at_next(s, d, t) as i64, text, top }),
{
}

/// A caption goes to the top exactly when it has a region of its own (ruby
/// aside) and each of its own regions starts in the top third of the plane:
/// three times its `y` below the plane's height. A region at or below the
/// third keeps the caption at the bottom. (For a plane of non-negative
/// height, and regions placed within the range of an `i32`, as the model's
/// are.)
pub proof fn law_top_is_the_top_third(regions: Seq<RegionView>, plane_height: int)
    requires
        0 <= plane_height <= i32::MAX,
        forall|i: int| 0 <= i < regions.len() ==> i32::MIN <= #[trigger] regions[i].y <= i32::MAX,
    ensures
        spec_is_top(regions, plane_height) <==> {
            &&& exists|i: int| 0 <= i < regions.len() && !(#[trigger] regions[i]).is_ruby
            &&& forall|i: int|
                0 <= i < regions.len() && !(#[trigger] regions[i]).is_ruby ==> 3 * regions[i].y
                    < plane_height
        },
{
    assert forall|i: int| 0 <= i < regions.len() implies #[trigger] in_top_third(
        regions[i],
        plane_height,
    ) == (3 * regions[i].y < plane_height) by {
        assert(i32::MIN <= regions[i].y <= i32::MAX);
    }
}

} // verus!
