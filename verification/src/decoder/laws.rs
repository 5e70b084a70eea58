//! What holds of the decoder across calls and inputs, proved over the state
//! machine of [`super::machine`].
use vstd::prelude::*;

use super::machine::{
    add_wait, aps_pen, begin_caption, c1_szx, char_step, char_steps, find_language, finish,
    push_char, push_text, Layout, Pen,
    reserved_format_message,
    spec_decode, spec_management_format_to_swf, st_c0, st_c1, wrong_stream_message,
    DecodeFailure, DecoderState,
};
use crate::model::{BodyView, CaptionView, CharStyle, Rgba, Scale, WritingMode};
use crate::pes::{spec_parse, GroupLayout};

verus! {

/// Management data that repeats the interleave group already applied is a
/// retransmission: it yields no caption, and nothing but the per-caption
/// accumulation changes.
pub proof fn law_repeated_management_is_ignored(
    s: DecoderState,
    payload: Seq<u8>,
    pts_ms: Option<i64>,
)
    requires
        spec_parse(payload) matches Ok((kind, header, group)) && kind == s.kind
            && group is Management && s.prev_management_group == Some(header.group),
    ensures
        spec_decode(s, payload, pts_ms) == (
            begin_caption(s),
            Ok::<Option<CaptionView>, DecodeFailure>(None),
        ),
{
}

/// Management data never yields a caption: it is ignored as a repeat,
/// refused, or read only for the DRCS glyphs it defines.
pub proof fn law_management_makes_no_caption(s: DecoderState, payload: Seq<u8>, pts_ms: Option<i64>)
    requires
        spec_parse(payload) matches Ok((_, _, group)) && group is Management,
    ensures
        spec_decode(s, payload, pts_ms).1 matches Ok(c) ==> c is None,
{
}

/// Management data whose selected language has a reserved writing format is
/// refused before any management state changes: the interleave group is not
/// marked as applied, and the writing format, coding and language of the
/// prior management data stay in force.
pub proof fn law_reserved_format_changes_no_setting(
    s: DecoderState,
    payload: Seq<u8>,
    pts_ms: Option<i64>,
)
    requires
        spec_parse(payload) matches Ok((kind, header, group)) && (kind == s.kind && (group matches GroupLayout::Management { languages, .. } && (
        s.prev_management_group != Some(header.group) && (find_language(
            languages,
            s.options.language_id,
        ) matches Some(lang) && spec_management_format_to_swf(lang.format) is None)))),
    ensures
        spec_decode(s, payload, pts_ms).1 == Err::<Option<CaptionView>, DecodeFailure>(
            DecodeFailure::Malformed(reserved_format_message()),
        ),
        spec_decode(s, payload, pts_ms).0 == begin_caption(s),
        spec_decode(s, payload, pts_ms).0.prev_management_group == s.prev_management_group,
        spec_decode(s, payload, pts_ms).0.swf == s.swf,
        spec_decode(s, payload, pts_ms).0.encoding == s.encoding,
        spec_decode(s, payload, pts_ms).0.language == s.language,
        spec_decode(s, payload, pts_ms).0.plane_width == s.plane_width,
        spec_decode(s, payload, pts_ms).0.plane_height == s.plane_height,
{
}

/// A data group for the other kind of stream is refused and changes nothing.
pub proof fn law_wrong_stream_changes_nothing(s: DecoderState, payload: Seq<u8>, pts_ms: Option<i64>)
    requires
        spec_parse(payload) matches Ok((kind, _, _)) && kind != s.kind,
    ensures
        spec_decode(s, payload, pts_ms) == (
            s,
            Err::<Option<CaptionView>, DecodeFailure>(
                DecodeFailure::Malformed(wrong_stream_message()),
            ),
        ),
{
}

/// Another language's statement yields no caption, and changes nothing but
/// the per-caption accumulation.
pub proof fn law_other_language_is_skipped(s: DecoderState, payload: Seq<u8>, pts_ms: Option<i64>)
    requires
        spec_parse(payload) matches Ok((kind, _, group)) && (kind == s.kind && (group matches GroupLayout::Statement { language_id, .. } && language_id
            != s.options.language_id)),
    ensures
        spec_decode(s, payload, pts_ms) == (
            begin_caption(s),
            Ok::<Option<CaptionView>, DecodeFailure>(None),
        ),
{
}

/// A clear screen is reported even with nothing to show: it is how the
/// caption before it stops being shown.
pub proof fn law_clear_screen_is_reported(s: DecoderState, pts_ms: Option<i64>)
    requires
        s.clear_screen,
    ensures
        finish(s, pts_ms).1 matches Ok(Some(c)) && c.clear_screen && c.pts_ms == pts_ms,
{
}

/// CS resets the state and marks the caption as clearing the screen.
pub proof fn law_cs_clears(s: DecoderState, data: Seq<u8>, nest: nat)
    requires
        data.len() >= 1,
        data[0] == 0x0c,
    ensures
        st_c0(s, data, nest).0.clear_screen,
        st_c0(s, data, nest).1 == Some(1int),
        !st_c0(s, data, nest).0.pos_inited,
{
}

/// TIME with the 0x20 parameter adds its units of 100 ms to the caption's
/// wait: waits accumulate across commands.
pub proof fn law_time_accumulates(s: DecoderState, data: Seq<u8>)
    requires
        data.len() >= 3,
        data[0] == 0x9d,
        data[1] == 0x20,
    ensures
        st_c1(s, data).0.wait_ms == Some(add_wait(s.wait_ms, (data[2] & 0x3fu8) * 100)),
        s.wait_ms matches Some(ms) ==> st_c1(s, data).0.wait_ms->0 >= ms,
{
}

/// A colour control applies to the cells that follow it, not to the ones
/// already placed.
pub proof fn law_colour_leaves_placed_cells(s: DecoderState, data: Seq<u8>)
    requires
        data.len() >= 1,
        0x80 <= data[0] <= 0x87,
    ensures
        st_c1(s, data).0.regions == s.regions,
        st_c1(s, data).0.text == s.text,
{
}

/// Ruby is placed but not spoken: its cell joins the regions, its text stays
/// out of the plain text.
pub proof fn law_ruby_is_not_spoken(s: DecoderState, text: Seq<char>, pua: Option<char>)
    requires
        s.is_ruby(),
    ensures
        push_text(s, text, pua).text == s.text,
        push_text(s, text, pua).regions.len() >= 1,
        push_text(s, text, pua).regions.last().chars.last().body == (BodyView::Text { text, pua }),
{
    let s1 = s;
    let (s2, ch) = super::machine::make_char(s1, BodyView::Text { text, pua });
    lemma_push_char_places(s2, ch);
}

/// A cell pushed is the last cell of the last region.
proof fn lemma_push_char_places(s: DecoderState, ch: crate::model::CharView)
    ensures
        push_char(s, ch).regions.len() >= 1,
        push_char(s, ch).regions.last().chars.last() == ch,
        push_char(s, ch).text == s.text,
{
}

/// Text that is not ruby is spoken exactly as given.
pub proof fn law_text_is_spoken(s: DecoderState, text: Seq<char>, pua: Option<char>)
    requires
        !s.is_ruby(),
    ensures
        push_text(s, text, pua).text == s.text + text,
{
    let s1 = DecoderState { text: s.text + text, ..s };
    let (s2, ch) = super::machine::make_char(s1, BodyView::Text { text, pua });
    lemma_push_char_places(s2, ch);
}

/// SZX sets the character size: 0x41 doubles the height alone, 0x44 the
/// width alone, 0x45 both; every other parameter leaves the size as it was.
/// Nothing else about the state changes, and the code takes two bytes.
pub proof fn law_szx_sets_the_size(s: DecoderState, data: Seq<u8>)
    requires
        data.len() >= 2,
    ensures
        ({
            let (t, used) = c1_szx(s, data);
            let p = data[1];
            &&& used == Some(2int)
            &&& t.char_v_scale == (if p == 0x41 || p == 0x45 {
                Scale::Double
            } else {
                s.char_v_scale
            })
            &&& t.char_h_scale == (if p == 0x44 || p == 0x45 {
                Scale::Double
            } else {
                s.char_h_scale
            })
            &&& t == DecoderState { char_h_scale: t.char_h_scale, char_v_scale: t.char_v_scale, ..s }
        }),
{
}

/// The fixed-size codes: SSZ makes characters small (half width, half
/// height), MSZ middle (half width, full height), NSZ normal (full both);
/// each takes one byte and changes nothing else.
pub proof fn law_size_codes(s: DecoderState, data: Seq<u8>)
    requires
        data.len() >= 1,
        data[0] == 0x88 || data[0] == 0x89 || data[0] == 0x8a,
    ensures
        ({
            let (t, used) = st_c1(s, data);
            let b = data[0];
            &&& used == Some(1int)
            &&& t.char_h_scale == (if b == 0x8a {
                Scale::One
            } else {
                Scale::Half
            })
            &&& t.char_v_scale == (if b == 0x88 {
                Scale::Half
            } else {
                Scale::One
            })
            &&& t == DecoderState { char_h_scale: t.char_h_scale, char_v_scale: t.char_v_scale, ..s }
        }),
{
}

/// The eight foreground codes BKF..WHF, in the first palette, give opaque
/// black, red, green, yellow, blue, magenta, cyan and white; each takes one
/// byte and changes nothing but the text colour.
pub proof fn law_foreground_codes(s: DecoderState, data: Seq<u8>)
    requires
        data.len() >= 1,
        0x80 <= data[0] <= 0x87,
        s.palette == 0,
    ensures
        ({
            let (t, used) = st_c1(s, data);
            let k = data[0] - 0x80;
            let on = |bit: int| if (k / bit) % 2 == 1 {
                255u8
            } else {
                0u8
            };
            &&& used == Some(1int)
            &&& t.text_color == Rgba { r: on(1), g: on(2), b: on(4), a: 255 }
            &&& t == DecoderState { text_color: t.text_color, ..s }
        }),
{
}

/// STL starts underlining and SPL stops it; HLC encloses the cell on the
/// sides its low four bits name — bottom, right, top, left from the lowest.
pub proof fn law_underline_and_enclosure_codes(s: DecoderState, data: Seq<u8>)
    requires
        data.len() >= 2,
    ensures
        data[0] == 0x9a ==> st_c1(s, data) == (
            DecoderState { style: CharStyle { underline: true, ..s.style }, ..s },
            Some(1int),
        ),
        data[0] == 0x99 ==> st_c1(s, data) == (
            DecoderState { style: CharStyle { underline: false, ..s.style }, ..s },
            Some(1int),
        ),
        data[0] == 0x97 ==> {
            let e = st_c1(s, data).0.enclosure;
            let v = data[1] as int;
            &&& st_c1(s, data).1 == Some(2int)
            &&& e.bottom == (v % 2 == 1)
            &&& e.right == ((v / 2) % 2 == 1)
            &&& e.top == ((v / 4) % 2 == 1)
            &&& e.left == ((v / 8) % 2 == 1)
        },
{
    let v = data[1];
    assert(((v & 0x0f) & 1 != 0) == (v % 2 == 1)) by (bit_vector);
    assert(((v & 0x0f) & 2 != 0) == ((v / 2) % 2 == 1)) by (bit_vector);
    assert(((v & 0x0f) & 4 != 0) == ((v / 4) % 2 == 1)) by (bit_vector);
    assert(((v & 0x0f) & 8 != 0) == ((v / 8) % 2 == 1)) by (bit_vector);
}

/// A step along the character path, away from the area's edge, moves the
/// pen one cell — right by a cell's width in horizontal writing, down by a
/// cell's height in vertical — and a step back undoes it.
pub proof fn law_a_character_step_is_one_cell(l: Layout, p: Pen)
    ensures
        l.mode == WritingMode::HorizontalTb && l.area_x <= p.x && p.x + 2 * l.sw <= l.area_x
            + l.area_width && l.sw > 0 ==> {
            &&& char_step(l, p, false) == Pen { x: p.x + l.sw, ..p }
            &&& char_step(l, char_step(l, p, false), true) == p
        },
        l.mode == WritingMode::VerticalRl && l.area_y + l.sh <= p.y && p.y + l.sh <= l.area_y
            + l.area_height && l.sh > 0 ==> {
            &&& char_step(l, p, false) == Pen { y: p.y + l.sh, ..p }
            &&& char_step(l, char_step(l, p, false), true) == p
        },
{
}

/// `n` characters on from cell `k` of a line is cell `k + n` of it, while
/// the line has room: APS to a cell and drawing up to it agree.
pub proof fn law_characters_advance_by_cells(l: Layout, line: int, k: int, n: nat)
    requires
        0 <= k,
        l.sw > 0,
        l.sh > 0,
        l.mode == WritingMode::HorizontalTb ==> (k + n + 1) * l.sw <= l.area_width,
        l.mode == WritingMode::VerticalRl ==> (k + n + 2) * l.sh <= l.area_height,
    ensures
        char_steps(l, aps_pen(l, line, k), n as int) == aps_pen(l, line, k + n),
    decreases n,
{
    if n > 0 {
        let p = aps_pen(l, line, k);
        match l.mode {
            WritingMode::HorizontalTb => {
                assert(k * l.sw + l.sw == (k + 1) * l.sw) by (nonlinear_arith);
                assert((k + 1) * l.sw + l.sw <= (k + n + 1) * l.sw) by (nonlinear_arith)
                    requires
                        n >= 1,
                        l.sw > 0,
                ;
                assert(char_step(l, p, false) == aps_pen(l, line, k + 1));
            },
            WritingMode::VerticalRl => {
                assert((k + 1) * l.sh + l.sh == (k + 2) * l.sh) by (nonlinear_arith);
                assert((k + 2) * l.sh + l.sh <= (k + n + 2) * l.sh) by (nonlinear_arith)
                    requires
                        n >= 1,
                        l.sh > 0,
                ;
                assert(char_step(l, p, false) == aps_pen(l, line, k + 1));
            },
        }
        law_characters_advance_by_cells(l, line, k + 1, (n - 1) as nat);
    }
}

} // verus!
