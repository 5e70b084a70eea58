//! The statement-body state machine: control codes and character bytes in,
//! [`Caption`] out.
//!
//! The control-code semantics, the region derivation and the positioning
//! arithmetic follow libaribcaption's decoder, because those are the parts
//! that took someone years of watching real broadcasts to get right.
//!
//! Two deliberate departures:
//!
//! - A statement that runs out of bytes mid-control-code stops and keeps what
//!   it decoded, where libaribcaption discards the whole caption. On live TV a
//!   PES arrives truncated now and then, and half a line of subtitle beats
//!   none.
//! - The interleave group is read as bit 5 of `data_group_id` (see
//!   [`crate::pes`]), so a mid-stream management change is applied instead of
//!   being taken for a retransmission.
//!
//! [`machine`] states what every code does, over values; the decoder here is
//! held to it.
use std::collections::HashMap;
use vstd::prelude::*;
use vstd::slice::slice_subrange;
use vstd::slice::slice_to_vec;
use vstd::arithmetic::power2::pow2;

pub mod laws;
pub mod machine;

use crate::b24::charset::{resolve_double, resolve_single, Resolved, SizeContext, GETA};
use crate::b24::codesets::{self, Codeset, GraphicSet};
use crate::b24::controls::{c0, c1, csi, esc};
use crate::b24::macros::default_macro;
use crate::model::{
    drcs_map_view, regions_view, section, section_of, BodyView, CaptionView, DrcsView, Caption, CaptionChar, CaptionKind,
    CaptionRegion, CharBody, CharStyle, Drcs, Duration, Enclosure, Encoding, Profile,
    RegionView, Rgba, Scale, WritingMode,
};
use crate::pes::{self, DataGroup, DataUnitKind, DataUnits, Group, LanguageInfo, ParseError, spec_parse_message};
use crate::text::{char_from_u32, push_str, string_of_char};
use machine::{
    DecodeFailure, DecoderState, Layout, MAX_PLANE_DOTS, PEN_LIMIT, Pen, aps_pen, begin_caption,
    bit_length, c1_col, c1_hlc, c1_skip, c1_szx, c1_time, char_bounded, char_step, char_steps,
    clut_rgb, csi_apply, csi_scan, default_sets, depth_bits_for, designatable, designate,
    drcs_codes, drcs_fonts, ensure_pen, ensure_position, file_drcs, find_language, finish,
    first_utf8_char, handle_unit, handle_units, hex_digit, hex_of, initial_state,
    lemma_no_regions_laid_out,
    lemma_push_char_laid_out, line_step, line_steps, make_char, management, md5_of, move_char_pen, move_character_path, move_line_direction,
    move_line_pen, move_to_newline, needs_new_region, newline_pen, note_drcs, parse_drcs,
    push_char, push_drcs, push_text, region_bounded, regions_laid_out, regions_stay_bounded,
    reset_graphic_sets,
    reset_state, reset_writing_format, saturate_u32, set_active_position, spec_clut,
    spec_decode, spec_management_format_to_swf, spec_plane_dots, spec_writing_mode_for_swf,
    st_body, st_c0, st_c1, st_csi, st_esc, st_glgr, st_step, st_utf8, transparent,
};

verus! {

broadcast use vstd::std_specs::hash::group_hash_axioms;

#[derive(Clone, Copy, Debug, PartialEq, Eq)]
pub enum DecodeError {
    Pes(ParseError),
    /// The data group parsed but its contents contradict the standard in a way
    /// that leaves nothing to salvage.
    Malformed(&'static str),
}

impl DecodeError {
    /// What this error stands for, as values.
    pub open spec fn view(&self) -> DecodeFailure {
        match self {
            DecodeError::Pes(e) => DecodeFailure::Pes(*e),
            DecodeError::Malformed(m) => DecodeFailure::Malformed(m@),
        }
    }

    /// What this error says to a person reading a log.
    pub fn message(&self) -> (s: String)
        ensures
            s@ == match self {
                DecodeError::Pes(e) => spec_parse_message(*e),
                DecodeError::Malformed(m) => "malformed: "@ + m@,
            },
    {
        match self {
            DecodeError::Pes(e) => e.message(),
            DecodeError::Malformed(m) => {
                let mut s = String::new();
                push_str(&mut s, "malformed: ");
                push_str(&mut s, m);
                s
            },
        }
    }
}

impl From<ParseError> for DecodeError {
    fn from(e: ParseError) -> (d: DecodeError) {
        DecodeError::Pes(e)
    }
}

impl vstd::std_specs::convert::FromSpecImpl<ParseError> for DecodeError {
    open spec fn obeys_from_spec() -> bool {
        true
    }

    open spec fn from_spec(e: ParseError) -> DecodeError {
        DecodeError::Pes(e)
    }
}

/// Convert the raw management `format` field (Table 9-7) to the value used by
/// CSI SWF (Table 7-17). The gap at raw value 5 is reserved, not an offset form
/// of SWF 4.
pub fn management_format_to_swf(raw: u8) -> (r: Option<u8>)
    ensures
        r == spec_management_format_to_swf(raw),
{
    if raw <= 4 {
        Some(raw)
    } else if 6 <= raw && raw <= 13 {
        Some(raw - 1)
    } else {
        None
    }
}

/// Clamps a CSI geometry parameter to a dimension a caption plane could have.
///
/// The parameters arrive as decimal digits in the statement body, so they are
/// entirely stream-controlled. Anything beyond `MAX_PLANE_DOTS` cannot
/// describe a real plane, so it is pinned there rather than rejected -- the
/// caption is still worth rendering as best it can be.
pub fn plane_dots(param: u32) -> (d: i32)
    ensures
        d == spec_plane_dots(param),
        0 <= d <= MAX_PLANE_DOTS,
{
    if param > MAX_PLANE_DOTS as u32 {
        MAX_PLANE_DOTS
    } else {
        param as i32
    }
}

/// Direction selected by every defined SWF value in Table 7-17.
pub fn writing_mode_for_swf(swf: u8) -> (m: Option<WritingMode>)
    ensures
        m == spec_writing_mode_for_swf(swf),
{
    match swf {
        0 | 2 | 4 | 5 | 7 | 9 | 11 => Some(WritingMode::HorizontalTb),
        1 | 3 | 6 | 8 | 10 | 12 => Some(WritingMode::VerticalRl),
        _ => None,
    }
}

#[derive(Clone, Copy, Debug, PartialEq, Eq, Structural)]
pub struct Options {
    /// Full-seg (A) or one-seg (C). Decides the default graphic sets and plane.
    pub profile: Profile,
    /// Which language's statements to decode. 1 is the main caption service;
    /// a second language, when present, is 2.
    pub language_id: u8,
    /// Under MSZ (half-width) mode, emit halfwidth ASCII rather than the
    /// fullwidth forms the code set nominally maps to. Wanted for text output
    /// (WebVTT, ASS): a fullwidth `Ａ` in a half-width cell reads as a typo.
    pub replace_msz_fullwidth_ascii: bool,
    /// The same for Japanese punctuation and kana (。「」、・ー).
    ///
    /// Off by default. Japanese captions are written in MSZ almost throughout
    /// — that is how ~34 characters fit on a line — so switching this on
    /// rewrites ordinary prose: 「キャラクター」 comes out as 「キャラクタｰ」,
    /// a halfwidth long-vowel mark inside fullwidth kana. In a bitmap renderer,
    /// where the cell really is half as wide, it is the right glyph; in a
    /// browser drawing a WebVTT cue it just looks broken. A pixel renderer
    /// should turn it on.
    pub replace_msz_fullwidth_japanese: bool,
}

impl Default for Options {
    fn default() -> (o: Options)
        ensures
            o == (Options {
                profile: Profile::A,
                language_id: 1,
                replace_msz_fullwidth_ascii: true,
                replace_msz_fullwidth_japanese: false,
            }),
    {
        Options {
            profile: Profile::A,
            language_id: 1,
            replace_msz_fullwidth_ascii: true,
            replace_msz_fullwidth_japanese: false,
        }
    }
}

/// The settings a decoder is working with: its writing format, plane,
/// writing area, cell metrics and what the last management data selected.
#[derive(Clone, Copy, Debug, PartialEq, Eq)]
pub struct Settings {
    pub swf: u8,
    pub writing_mode: WritingMode,
    pub plane_width: i32,
    pub plane_height: i32,
    pub area_x: i32,
    pub area_y: i32,
    pub area_width: i32,
    pub area_height: i32,
    pub char_width: i32,
    pub char_height: i32,
    pub char_horizontal_spacing: i32,
    pub char_vertical_spacing: i32,
    pub encoding: Encoding,
    pub language: [u8; 3],
    pub prev_management_group: Option<Group>,
}

fn clut_rgb_at(i: usize) -> (c: (u8, u8, u8))
    requires
        i < 65,
    ensures
        c == clut_rgb(i as int),
{
    match i {
        0 => (0, 0, 0),
        1 => (255, 0, 0),
        2 => (0, 255, 0),
        3 => (255, 255, 0),
        4 => (0, 0, 255),
        5 => (255, 0, 255),
        6 => (0, 255, 255),
        7 => (255, 255, 255),
        8 => (0, 0, 0),
        9 => (170, 0, 0),
        10 => (0, 170, 0),
        11 => (170, 170, 0),
        12 => (0, 0, 170),
        13 => (170, 0, 170),
        14 => (0, 170, 170),
        15 => (170, 170, 170),
        16 => (0, 0, 85),
        17 => (0, 85, 0),
        18 => (0, 85, 85),
        19 => (0, 85, 170),
        20 => (0, 85, 255),
        21 => (0, 170, 85),
        22 => (0, 170, 255),
        23 => (0, 255, 85),
        24 => (0, 255, 170),
        25 => (85, 0, 0),
        26 => (85, 0, 85),
        27 => (85, 0, 170),
        28 => (85, 0, 255),
        29 => (85, 85, 0),
        30 => (85, 85, 85),
        31 => (85, 85, 170),
        32 => (85, 85, 255),
        33 => (85, 170, 0),
        34 => (85, 170, 85),
        35 => (85, 170, 170),
        36 => (85, 170, 255),
        37 => (85, 255, 0),
        38 => (85, 255, 85),
        39 => (85, 255, 170),
        40 => (85, 255, 255),
        41 => (170, 0, 85),
        42 => (170, 0, 255),
        43 => (170, 85, 0),
        44 => (170, 85, 85),
        45 => (170, 85, 170),
        46 => (170, 85, 255),
        47 => (170, 170, 85),
        48 => (170, 170, 255),
        49 => (170, 255, 0),
        50 => (170, 255, 85),
        51 => (170, 255, 170),
        52 => (170, 255, 255),
        53 => (255, 0, 85),
        54 => (255, 0, 170),
        55 => (255, 85, 0),
        56 => (255, 85, 85),
        57 => (255, 85, 170),
        58 => (255, 85, 255),
        59 => (255, 170, 0),
        60 => (255, 170, 85),
        61 => (255, 170, 170),
        62 => (255, 170, 255),
        63 => (255, 255, 85),
        _ => (255, 255, 170),
    }
}
/// `md5::compute`: the MD5 digest of some bytes. The digest is named here,
/// not stated.
#[verifier::external_body]
fn md5_digest(data: &[u8]) -> (d: [u8; 16])
    ensures
        d@ == md5_of(data@),
{
    md5::compute(data).0
}

/// CLUT[palette][index].
fn clut(palette: usize, index: usize) -> (c: Rgba)
    requires
        palette < 8,
        index < 16,
    ensures
        c == spec_clut(palette as int, index as int),
{
    let i = palette * 16 + index;
    if i == 8 {
        Rgba { r: 0, g: 0, b: 0, a: 0 }
    } else if i < 65 {
        let (r, g, b) = clut_rgb_at(i);
        Rgba { r, g, b, a: 255 }
    } else {
        let (r, g, b) = clut_rgb_at(i - 64);
        Rgba { r, g, b, a: 128 }
    }
}

/// A section computed from in-range metrics is the unclamped one, and fits
/// a pen step.
proof fn lemma_section(size: i32, spacing: i32, scale: Scale)
    requires
        0 <= size <= 8192,
        0 <= spacing <= 8192,
    ensures
        crate::model::spec_section(size, spacing, scale) == section_of(
            size as int,
            spacing as int,
            scale,
        ),
        0 <= section_of(size as int, spacing as int, scale) <= 32768,
{
}

/// The writing area, the section a cell takes and the writing direction:
/// what moving the pen depends on.
struct Geometry {
    area_x: i32,
    area_y: i32,
    area_width: i32,
    area_height: i32,
    sw: i32,
    sh: i32,
    mode: WritingMode,
}

impl Geometry {
    spec fn view(&self) -> Layout {
        Layout {
            area_x: self.area_x as int,
            area_y: self.area_y as int,
            area_width: self.area_width as int,
            area_height: self.area_height as int,
            sw: self.sw as int,
            sh: self.sh as int,
            mode: self.mode,
        }
    }
}

/// Where the pen is, and whether it has been placed.
#[derive(Clone, Copy)]
struct PenAt {
    inited: bool,
    x: i32,
    y: i32,
}

impl PenAt {
    spec fn view(&self) -> Pen {
        Pen { inited: self.inited, x: self.x as int, y: self.y as int }
    }
}

/// The pen at an APS cell. The bounds on the layout keep the arithmetic in
/// range: a cell is at most 64 sections of at most 32768 dots from an area
/// edge at most 16384 dots out.
fn aps_pen_at(g: &Geometry, line: i32, character: i32) -> (p: PenAt)
    requires
        g.view().bounded(),
        0 <= line < 64,
        0 <= character < 64,
    ensures
        p.view() == aps_pen(g.view(), line as int, character as int),
        p.view().bounded(),
{
    let sw = g.sw;
    let sh = g.sh;
    match g.mode {
        WritingMode::HorizontalTb => {
            assert(0 <= character * sw <= 63 * 32768) by (nonlinear_arith)
                requires
                    0 <= character < 64,
                    0 <= sw <= 32768,
            ;
            assert(0 <= (line + 1) * sh <= 64 * 32768) by (nonlinear_arith)
                requires
                    0 <= line < 64,
                    0 <= sh <= 32768,
            ;
            PenAt { inited: true, x: g.area_x + character * sw, y: g.area_y + (line + 1) * sh }
        },
        WritingMode::VerticalRl => {
            assert(0 <= (line + 1) * sw <= 64 * 32768) by (nonlinear_arith)
                requires
                    0 <= line < 64,
                    0 <= sw <= 32768,
            ;
            assert(0 <= (character + 1) * sh <= 64 * 32768) by (nonlinear_arith)
                requires
                    0 <= character < 64,
                    0 <= sh <= 32768,
            ;
            PenAt {
                inited: true,
                x: g.area_x + g.area_width - (line + 1) * sw,
                y: g.area_y + (character + 1) * sh,
            }
        },
    }
}

fn ensure_pen_at(g: &Geometry, p: PenAt) -> (q: PenAt)
    requires
        g.view().bounded(),
        p.view().bounded(),
    ensures
        q.view() == ensure_pen(g.view(), p.view()),
        q.view().bounded(),
{
    if !p.inited || p.x < 0 || p.y < 0 {
        aps_pen_at(g, 0, 0)
    } else {
        p
    }
}

fn line_step_at(g: &Geometry, p: PenAt, back: bool) -> (q: PenAt)
    requires
        g.view().bounded(),
        p.view().bounded(),
    ensures
        q.view() == line_step(g.view(), p.view(), back),
        q.view().bounded(),
{
    match g.mode {
        WritingMode::HorizontalTb => if back {
            let y = p.y - g.sh;
            PenAt {
                y: if y < g.area_y + g.sh {
                    g.area_y + g.area_height
                } else {
                    y
                },
                ..p
            }
        } else {
            let y = p.y + g.sh;
            PenAt {
                y: if y > g.area_y + g.area_height {
                    g.area_y + g.sh
                } else {
                    y
                },
                ..p
            }
        },
        WritingMode::VerticalRl => if back {
            let x = p.x + g.sw;
            PenAt {
                x: if x >= g.area_x + g.area_width {
                    g.area_x
                } else {
                    x
                },
                ..p
            }
        } else {
            let x = p.x - g.sw;
            PenAt {
                x: if x < g.area_x {
                    g.area_x + g.area_width - g.sw
                } else {
                    x
                },
                ..p
            }
        },
    }
}

fn move_line_at(g: &Geometry, p: PenAt, steps: i32) -> (q: PenAt)
    requires
        g.view().bounded(),
        p.view().bounded(),
        -64 <= steps <= 64,
    ensures
        q.view() == move_line_pen(g.view(), p.view(), steps as int),
        q.view().bounded(),
{
    let mut q = ensure_pen_at(g, p);
    let mut n = steps;
    while n < 0
        invariant
            g.view().bounded(),
            q.view().bounded(),
            -64 <= n <= 64,
            line_steps(g.view(), q.view(), n as int) == move_line_pen(
                g.view(),
                p.view(),
                steps as int,
            ),
        decreases -n,
    {
        q = line_step_at(g, q, true);
        n = n + 1;
    }
    while n > 0
        invariant
            g.view().bounded(),
            q.view().bounded(),
            0 <= n <= 64,
            line_steps(g.view(), q.view(), n as int) == move_line_pen(
                g.view(),
                p.view(),
                steps as int,
            ),
        decreases n,
    {
        q = line_step_at(g, q, false);
        n = n - 1;
    }
    q
}

fn char_step_at(g: &Geometry, p: PenAt, back: bool) -> (q: PenAt)
    requires
        g.view().bounded(),
        p.view().bounded(),
    ensures
        q.view() == char_step(g.view(), p.view(), back),
        q.view().bounded(),
{
    match g.mode {
        WritingMode::HorizontalTb => if back {
            let x = p.x - g.sw;
            if x < g.area_x {
                move_line_at(g, PenAt { x: g.area_x + g.area_width - g.sw, ..p }, -1)
            } else {
                PenAt { x, ..p }
            }
        } else {
            let x = p.x + g.sw;
            if x >= g.area_x + g.area_width {
                move_line_at(g, PenAt { x: g.area_x, ..p }, 1)
            } else {
                PenAt { x, ..p }
            }
        },
        WritingMode::VerticalRl => if back {
            let y = p.y - g.sh;
            if y < g.area_y + g.sh {
                move_line_at(g, PenAt { y: g.area_y + g.area_height, ..p }, -1)
            } else {
                PenAt { y, ..p }
            }
        } else {
            let y = p.y + g.sh;
            if y > g.area_y + g.area_height {
                move_line_at(g, PenAt { y: g.area_y + g.sh, ..p }, 1)
            } else {
                PenAt { y, ..p }
            }
        },
    }
}

fn move_char_at(g: &Geometry, p: PenAt, steps: i32) -> (q: PenAt)
    requires
        g.view().bounded(),
        p.view().bounded(),
        -64 <= steps <= 64,
    ensures
        q.view() == move_char_pen(g.view(), p.view(), steps as int),
        q.view().bounded(),
{
    let mut q = ensure_pen_at(g, p);
    let mut n = steps;
    while n < 0
        invariant
            g.view().bounded(),
            q.view().bounded(),
            -64 <= n <= 64,
            char_steps(g.view(), q.view(), n as int) == move_char_pen(
                g.view(),
                p.view(),
                steps as int,
            ),
        decreases -n,
    {
        q = char_step_at(g, q, true);
        n = n + 1;
    }
    while n > 0
        invariant
            g.view().bounded(),
            q.view().bounded(),
            0 <= n <= 64,
            char_steps(g.view(), q.view(), n as int) == move_char_pen(
                g.view(),
                p.view(),
                steps as int,
            ),
        decreases n,
    {
        q = char_step_at(g, q, false);
        n = n - 1;
    }
    q
}

fn newline_at(g: &Geometry, p: PenAt) -> (q: PenAt)
    requires
        g.view().bounded(),
        p.view().bounded(),
    ensures
        q.view() == newline_pen(g.view(), p.view()),
        q.view().bounded(),
{
    let p0 = ensure_pen_at(g, p);
    let p1 = move_line_at(g, p0, 1);
    match g.mode {
        WritingMode::HorizontalTb => PenAt { x: g.area_x, ..p1 },
        WritingMode::VerticalRl => PenAt { y: g.area_y + g.sh, ..p1 },
    }
}

/// A count of bytes as a value.
pub open spec fn opt_int(n: Option<usize>) -> Option<int> {
    match n {
        Some(k) => Some(k as int),
        None => None,
    }
}

/// `p * 10 + digit`, saturating.
fn push_digit(p: u32, digit: u8) -> (q: u32)
    requires
        digit < 16,
    ensures
        q == saturate_u32(p * 10 + digit),
{
    match p.checked_mul(10) {
        Some(v) => v.saturating_add(digit as u32),
        None => u32::MAX,
    }
}

/// The CSI parameters: where the scan stopped (the 0x20, or the end), the
/// two parameters, and how many were ended.
fn csi_params(data: &[u8]) -> (r: (usize, u32, u32, usize))
    ensures
        (r.0 as int, r.1, r.2, r.3 as int) == csi_scan(data@, 0, 0, 0, 0),
        r.0 <= data@.len(),
{
    let mut offset: usize = 0;
    let mut param1: u32 = 0;
    let mut param2: u32 = 0;
    let mut param_count: usize = 0;
    while offset < data.len()
        invariant
            offset <= data@.len(),
            param_count <= offset,
            csi_scan(data@, offset as int, param1, param2, param_count as int) == csi_scan(
                data@,
                0,
                0,
                0,
                0,
            ),
        decreases data@.len() - offset,
    {
        let b = data[offset];
        if 0x30 <= b && b <= 0x39 {
            if param_count <= 1 {
                // Saturating: the digit run is stream-controlled and has no
                // length limit.
                let d = b & 0x0f;
                assert(d < 16) by (bit_vector)
                    requires
                        d == b & 0x0f,
                ;
                param2 = push_digit(param2, d);
            }
        } else if b == 0x20 {
            if param_count == 0 {
                param1 = param2;
            }
            return (offset, param1, param2, param_count + 1);
        } else if b == 0x3b {
            if param_count == 0 {
                param1 = param2;
                param2 = 0;
            }
            param_count = param_count + 1;
        }
        offset = offset + 1;
    }
    (offset, param1, param2, param_count)
}

/// The first character of a UTF-8 body and its length, decoded by the rules
/// of UTF-8: a leading byte, its continuation bytes, no overlong form, no
/// surrogate.
fn decode_first_char(data: &[u8]) -> (r: Option<(char, usize)>)
    requires
        data@.len() >= 1,
    ensures
        match (r, first_utf8_char(data@)) {
            (Some((c, n)), Some((d, m))) => c == d && n as int == m,
            (None, None) => true,
            _ => false,
        },
{
    let ghost head = if data@.len() < 4 {
        data@
    } else {
        data@.take(4)
    };
    assert(forall|i: int| 0 <= i < head.len() ==> head[i] == data@[i]);
    let b0 = data[0];
    let (cp, len): (u32, usize) = if b0 <= 0x7f {
        ((b0 & 0x7f) as u32, 1)
    } else if 0xc0 <= b0 && b0 <= 0xdf {
        if data.len() < 2 || !(0x80 <= data[1] && data[1] <= 0xbf) {
            return None;
        }
        let b1 = data[1];
        let cp = (((b0 & 0x1f) as u32) << 6) | ((b1 & 0x3f) as u32);
        if cp < 0x80 {
            return None;
        }
        assert(cp <= 0x7ff) by (bit_vector)
            requires
                cp == (((b0 & 0x1f) as u32) << 6) | ((b1 & 0x3f) as u32),
        ;
        (cp, 2)
    } else if 0xe0 <= b0 && b0 <= 0xef {
        if data.len() < 3 || !(0x80 <= data[1] && data[1] <= 0xbf) || !(0x80 <= data[2]
            && data[2] <= 0xbf) {
            return None;
        }
        let b1 = data[1];
        let b2 = data[2];
        let cp = (((b0 & 0x0f) as u32) << 12) | (((b1 & 0x3f) as u32) << 6) | ((b2 & 0x3f) as u32);
        if cp < 0x800 || (0xd800 <= cp && cp <= 0xdfff) {
            return None;
        }
        assert(cp <= 0xffff) by (bit_vector)
            requires
                cp == (((b0 & 0x0f) as u32) << 12) | (((b1 & 0x3f) as u32) << 6) | ((b2
                    & 0x3f) as u32),
        ;
        (cp, 3)
    } else if 0xf0 <= b0 && b0 <= 0xf7 {
        if data.len() < 4 || !(0x80 <= data[1] && data[1] <= 0xbf) || !(0x80 <= data[2]
            && data[2] <= 0xbf) || !(0x80 <= data[3] && data[3] <= 0xbf) {
            return None;
        }
        let b1 = data[1];
        let b2 = data[2];
        let b3 = data[3];
        let cp = (((b0 & 0x07) as u32) << 18) | (((b1 & 0x3f) as u32) << 12) | (((b2
            & 0x3f) as u32) << 6) | ((b3 & 0x3f) as u32);
        if cp < 0x10000 || cp > 0x10ffff {
            return None;
        }
        (cp, 4)
    } else {
        return None;
    };
    match char_from_u32(cp) {
        Some(c) => Some((c, len)),
        None => None,
    }
}

/// A caption as values, if there is one.
pub open spec fn caption_view(c: Option<Caption>) -> Option<CaptionView> {
    match c {
        Some(c) => Some(c.view()),
        None => None,
    }
}

/// What a decoding reports, as values.
pub open spec fn decode_view(r: Result<Option<Caption>, DecodeError>) -> Result<
    Option<CaptionView>,
    DecodeFailure,
> {
    match r {
        Ok(c) => Ok(caption_view(c)),
        Err(e) => Err(e.view()),
    }
}

/// The first language entry with the given id.
fn select_language(languages: &Vec<LanguageInfo>, id: u8) -> (r: Option<LanguageInfo>)
    ensures
        r == find_language(languages@, id),
{
    let mut i: usize = 0;
    assert(languages@.subrange(0, languages@.len() as int) =~= languages@);
    while i < languages.len()
        invariant
            i <= languages@.len(),
            find_language(languages@, id) == find_language(
                languages@.subrange(i as int, languages@.len() as int),
                id,
            ),
        decreases languages@.len() - i,
    {
        assert(languages@.subrange(i as int, languages@.len() as int).drop_first() =~= languages@.subrange(
            i + 1,
            languages@.len() as int,
        ));
        if languages[i].language_id == id {
            return Some(languages[i]);
        }
        i = i + 1;
    }
    None
}

/// The bits per pixel that index `depth` levels.
fn depth_bits(depth: u32) -> (b: u32)
    requires
        2 <= depth <= 257,
    ensures
        b == depth_bits_for(depth),
        1 <= b <= 9,
{
    let mut v = depth - 1;
    let mut n: u32 = 0;
    proof {
        vstd::arithmetic::power2::lemma2_to64();
        lemma_bit_length_bound(v, 9);
    }
    while v > 0
        invariant
            bit_length((depth - 1) as u32) == n + bit_length(v),
            n + bit_length(v) <= 9,
        decreases v,
    {
        v = v / 2;
        n = n + 1;
    }
    if n < 1 {
        1
    } else {
        n
    }
}

/// A value below `2^k` takes at most `k` bits.
proof fn lemma_bit_length_bound(v: u32, k: nat)
    requires
        v < pow2(k),
    ensures
        bit_length(v) <= k,
    decreases k,
{
    if v > 0 {
        if k == 0 {
            vstd::arithmetic::power2::lemma2_to64();
        } else {
            vstd::arithmetic::power2::lemma_pow2_unfold(k);
            lemma_bit_length_bound(v / 2, (k - 1) as nat);
        }
    }
}

/// A hex digit in lowercase.
fn hex_digit_char(v: u8) -> (c: char)
    requires
        v < 16,
    ensures
        c == hex_digit(v),
{
    if v < 10 {
        (0x30 + v) as char
    } else {
        (0x61 + v - 10) as char
    }
}

/// Bytes as lowercase hex, two digits each: the form an MD5 digest is
/// written in.
fn lower_hex(bytes: &[u8]) -> (s: String)
    ensures
        s@ == hex_of(bytes@),
{
    let mut s = String::new();
    let mut i: usize = 0;
    assert(bytes@.skip(0) =~= bytes@);
    while i < bytes.len()
        invariant
            i <= bytes@.len(),
            s@ + hex_of(bytes@.skip(i as int)) == hex_of(bytes@),
        decreases bytes@.len() - i,
    {
        let b = bytes[i];
        assert(bytes@.skip(i as int).drop_first() =~= bytes@.skip(i + 1));
        let hi = hex_digit_char(b / 16);
        let lo = hex_digit_char(b % 16);
        let ghost before = s@;
        crate::text::push_char(&mut s, hi);
        crate::text::push_char(&mut s, lo);
        assert(s@ + hex_of(bytes@.skip(i + 1)) =~= before + hex_of(bytes@.skip(i as int)));
        i = i + 1;
    }
    assert(bytes@.skip(bytes@.len() as int) =~= Seq::<u8>::empty());
    assert(s@ + Seq::<char>::empty() =~= s@);
    s
}

/// Decodes one caption service.
///
/// Feed it the PES payloads of a single PID in order. State persists between
/// calls, which is required rather than incidental: the management data that
/// sets the plane size arrives in its own PES, and the graphic sets a statement
/// designates hold until the next one changes them.
pub struct Decoder {
    kind: CaptionKind,
    options: Options,
    encoding: Encoding,
    // ── code set state ──
    gx: Vec<Codeset>,
    gl: usize,
    gr: usize,
    drcs_maps: Vec<HashMap<u16, Drcs>>,
    // ── writing format ──
    swf: u8,
    plane_width: i32,
    plane_height: i32,
    area_x: i32,
    area_y: i32,
    area_width: i32,
    area_height: i32,
    char_width: i32,
    char_height: i32,
    char_h_spacing: i32,
    char_v_spacing: i32,
    char_h_scale: Scale,
    char_v_scale: Scale,
    // ── pen ──
    pos_inited: bool,
    pos_x: i32,
    pos_y: i32,
    // ── styling ──
    palette: usize,
    text_color: Rgba,
    back_color: Rgba,
    stroke_color: Rgba,
    style: CharStyle,
    enclosure: Enclosure,
    // ── per-caption accumulation ──
    regions: Vec<CaptionRegion>,
    text: String,
    drcs_used: HashMap<u32, Drcs>,
    clear_screen: bool,
    wait_ms: Option<u32>,
    builtin_sound: Option<u8>,
    language: [u8; 3],
    prev_management_group: Option<Group>,
}

impl Decoder {
    /// Everything the decoder holds, as values.
    pub closed spec fn state(&self) -> DecoderState {
        DecoderState {
            kind: self.kind,
            options: self.options,
            encoding: self.encoding,
            gx: self.gx@,
            gl: self.gl as int,
            gr: self.gr as int,
            drcs_maps: self.drcs_maps@.map_values(|m: HashMap<u16, Drcs>| drcs_map_view(m@)),
            swf: self.swf,
            plane_width: self.plane_width as int,
            plane_height: self.plane_height as int,
            area_x: self.area_x as int,
            area_y: self.area_y as int,
            area_width: self.area_width as int,
            area_height: self.area_height as int,
            char_width: self.char_width as int,
            char_height: self.char_height as int,
            char_h_spacing: self.char_h_spacing as int,
            char_v_spacing: self.char_v_spacing as int,
            char_h_scale: self.char_h_scale,
            char_v_scale: self.char_v_scale,
            pos_inited: self.pos_inited,
            pos_x: self.pos_x as int,
            pos_y: self.pos_y as int,
            palette: self.palette as int,
            text_color: self.text_color,
            back_color: self.back_color,
            stroke_color: self.stroke_color,
            style: self.style,
            enclosure: self.enclosure,
            regions: regions_view(self.regions@),
            text: self.text@,
            drcs_used: drcs_map_view(self.drcs_used@),
            clear_screen: self.clear_screen,
            wait_ms: self.wait_ms,
            builtin_sound: self.builtin_sound,
            language: self.language,
            prev_management_group: self.prev_management_group,
        }
    }

    /// The decoder's invariant.
    pub closed spec fn wf(&self) -> bool {
        self.state().wf()
    }

    /// Makes the per-field facts of the invariant available.
    proof fn lemma_wf(&self)
        requires
            self.wf(),
        ensures
            self.gx@.len() == 4,
            self.gl < 4,
            self.gr < 4,
            self.drcs_maps@.len() == 16,
            self.palette < 8,
            0 <= self.area_x <= 8192,
            0 <= self.area_y <= 8192,
            0 <= self.area_width <= 8192,
            0 <= self.area_height <= 8192,
            0 <= self.char_width <= 8192,
            0 <= self.char_height <= 8192,
            0 <= self.char_h_spacing <= 8192,
            0 <= self.char_v_spacing <= 8192,
            -PEN_LIMIT <= self.pos_x <= PEN_LIMIT,
            -PEN_LIMIT <= self.pos_y <= PEN_LIMIT,
            0 <= self.state().sw() <= 32768,
            0 <= self.state().sh() <= 32768,
            forall|i: int| 0 <= i < 4 ==> designatable(#[trigger] self.gx@[i]),
    {
        lemma_section(self.char_width, self.char_h_spacing, self.char_h_scale);
        lemma_section(self.char_height, self.char_v_spacing, self.char_v_scale);
        assert(forall|i: int| 0 <= i < 4 ==> designatable(#[trigger] self.state().gx[i]));
    }

    pub fn new(kind: CaptionKind, options: Options) -> (d: Decoder)
        ensures
            d.wf(),
            d.state() == initial_state(kind, options),
    {
        let mut maps: Vec<HashMap<u16, Drcs>> = Vec::new();
        let mut i: usize = 0;
        while i < 16
            invariant
                0 <= i <= 16,
                maps@.len() == i,
                forall|j: int| 0 <= j < i ==> (#[trigger] maps@[j])@ == Map::<u16, Drcs>::empty(),
            decreases 16 - i,
        {
            maps.push(HashMap::new());
            i = i + 1;
        }
        let mut gx: Vec<Codeset> = Vec::new();
        gx.push(codesets::kanji());
        gx.push(codesets::kanji());
        gx.push(codesets::kanji());
        gx.push(codesets::kanji());
        let mut decoder = Decoder {
            kind,
            options,
            encoding: Encoding::JisB24,
            gx,
            gl: 0,
            gr: 2,
            drcs_maps: maps,
            swf: 7,
            plane_width: 960,
            plane_height: 540,
            area_x: 0,
            area_y: 0,
            area_width: 960,
            area_height: 540,
            char_width: 36,
            char_height: 36,
            char_h_spacing: 4,
            char_v_spacing: 24,
            char_h_scale: Scale::One,
            char_v_scale: Scale::One,
            pos_inited: false,
            pos_x: 0,
            pos_y: 0,
            palette: 0,
            text_color: clut(0, 7),
            back_color: clut(0, 8),
            stroke_color: Rgba::transparent(),
            style: CharStyle::default(),
            enclosure: Enclosure::default(),
            regions: Vec::new(),
            text: String::new(),
            drcs_used: HashMap::new(),
            clear_screen: false,
            wait_ms: None,
            builtin_sound: None,
            language: [0x6a, 0x70, 0x6e],
            prev_management_group: None,
        };
        assert(decoder.gx@ =~= seq![Codeset { set: GraphicSet::Kanji, bytes: 2 }; 4]);
        assert(decoder.state().drcs_maps =~= Seq::new(16, |i: int| Map::<u16, DrcsView>::empty()))
            by {
            assert forall|j: int| 0 <= j < 16 implies decoder.state().drcs_maps[j] =~= Map::<
                u16,
                DrcsView,
            >::empty() by {
                assert(decoder.drcs_maps@[j]@ == Map::<u16, Drcs>::empty());
            }
        }
        assert(decoder.state().regions =~= Seq::<RegionView>::empty());
        assert(decoder.state().drcs_used =~= Map::<u32, DrcsView>::empty());
        proof {
            lemma_no_regions_laid_out(decoder.state().regions);
        }
        decoder.reset_state();
        decoder
    }

    /// The settings the decoder is working with.
    pub fn settings(&self) -> (s: Settings)
        requires
            self.wf(),
        ensures
            s.swf == self.state().swf,
            s.writing_mode == self.state().writing_mode(),
            s.plane_width == self.state().plane_width,
            s.plane_height == self.state().plane_height,
            s.area_x == self.state().area_x,
            s.area_y == self.state().area_y,
            s.area_width == self.state().area_width,
            s.area_height == self.state().area_height,
            s.char_width == self.state().char_width,
            s.char_height == self.state().char_height,
            s.char_horizontal_spacing == self.state().char_h_spacing,
            s.char_vertical_spacing == self.state().char_v_spacing,
            s.encoding == self.state().encoding,
            s.language == self.state().language,
            s.prev_management_group == self.state().prev_management_group,
    {
        Settings {
            swf: self.swf,
            writing_mode: self.writing_mode(),
            plane_width: self.plane_width,
            plane_height: self.plane_height,
            area_x: self.area_x,
            area_y: self.area_y,
            area_width: self.area_width,
            area_height: self.area_height,
            char_width: self.char_width,
            char_height: self.char_height,
            char_horizontal_spacing: self.char_h_spacing,
            char_vertical_spacing: self.char_v_spacing,
            encoding: self.encoding,
            language: self.language,
            prev_management_group: self.prev_management_group,
        }
    }

    /// Select a writing format without resetting anything else; the next
    /// [`Decoder::reset_state`] lays the plane out for it.
    pub fn set_swf(&mut self, swf: u8)
        requires
            old(self).wf(),
        ensures
            final(self).wf(),
            final(self).state() == (DecoderState { swf, ..old(self).state() }),
    {
        self.swf = swf;
    }

    /// Forget everything: called on a discontinuity, or when seeking. The
    /// decoder is then as [`Decoder::new`] made it for its stream and options.
    pub fn flush(&mut self)
        requires
            old(self).wf(),
        ensures
            final(self).wf(),
            final(self).state() == initial_state(old(self).state().kind, old(self).state().options),
    {
        *self = Decoder::new(self.kind, self.options);
    }

    // ── state resets ────────────────────────────────────────────────

    fn reset_graphic_sets(&mut self)
        requires
            old(self).wf(),
        ensures
            final(self).wf(),
            final(self).state() == reset_graphic_sets(old(self).state()),
    {
        let (a, b, c, d) = if self.encoding == Encoding::Latin {
            (
                codesets::alphanumeric(),
                codesets::alphanumeric(),
                codesets::latin_extension(),
                codesets::latin_special(),
            )
        } else if self.options.profile == Profile::C {
            // One-seg leads with DRCS because its captions are largely drawn
            // glyphs, not text.
            (codesets::drcs_1(), codesets::alphanumeric(), codesets::kanji(), codesets::macro_set())
        } else {
            (codesets::kanji(), codesets::alphanumeric(), codesets::hiragana(), codesets::macro_set())
        };
        self.gx.set(0, a);
        self.gx.set(1, b);
        self.gx.set(2, c);
        self.gx.set(3, d);
        self.gl = 0;
        self.gr = 2;
        assert(self.gx@ =~= default_sets(self.encoding, self.options.profile));
    }

    fn reset_writing_format(&mut self)
        requires
            old(self).wf(),
        ensures
            final(self).wf(),
            final(self).state() == reset_writing_format(old(self).state()),
    {
        match self.options.profile {
            Profile::A => {
                let (w, h, hs, vs) = match self.swf {
                    // The legacy formats keep the historical fallback
                    // geometry.
                    5 | 6 => (1920, 1080, 4, 24),
                    8 => (960, 540, 12, 24),
                    9 => (720, 480, 4, 16),
                    10 => (720, 480, 8, 24),
                    11 | 12 => (1280, 720, 4, 24),
                    _ => (960, 540, 4, 24),
                };
                self.plane_width = w;
                self.plane_height = h;
                self.area_width = w;
                self.area_height = h;
                self.char_width = 36;
                self.char_height = 36;
                self.char_h_spacing = hs;
                self.char_v_spacing = vs;
            },
            Profile::C => {
                self.plane_width = 320;
                self.plane_height = 180;
                self.area_width = 320;
                self.area_height = 180;
                self.char_width = 18;
                self.char_height = 18;
                self.char_h_spacing = 2;
                self.char_v_spacing = 6;
            },
        }
        if self.encoding == Encoding::Latin {
            self.char_h_spacing = 2;
            self.char_v_spacing = 16;
        }
    }

    /// Back to the state a statement starts from: default sets, the writing
    /// format's geometry, the pen unplaced, default size, style and colours.
    pub fn reset_state(&mut self)
        requires
            old(self).wf(),
        ensures
            final(self).wf(),
            final(self).state() == reset_state(old(self).state()),
    {
        self.reset_graphic_sets();
        self.reset_writing_format();
        self.area_x = 0;
        self.area_y = 0;
        self.pos_inited = false;
        self.pos_x = 0;
        self.pos_y = 0;
        if self.encoding == Encoding::Latin {
            // Latin captions are written in MSZ by default.
            self.char_h_scale = Scale::Half;
            self.char_v_scale = Scale::One;
        } else {
            self.char_h_scale = Scale::One;
            self.char_v_scale = Scale::One;
        }
        self.style = CharStyle::default();
        self.stroke_color = Rgba::transparent();
        self.enclosure = Enclosure::default();
        self.builtin_sound = None;
        self.palette = 0;
        self.text_color = clut(0, 7);
        self.back_color = clut(0, 8);
    }

    // ── geometry ────────────────────────────────────────────────────

    fn writing_mode(&self) -> (m: WritingMode)
        ensures
            m == self.state().writing_mode(),
    {
        match writing_mode_for_swf(self.swf) {
            Some(m) => m,
            None => WritingMode::HorizontalTb,
        }
    }

    fn section_width(&self) -> (w: i32)
        requires
            self.wf(),
        ensures
            w == self.state().sw(),
            0 <= w <= 32768,
    {
        proof {
            self.lemma_wf();
            lemma_section(self.char_width, self.char_h_spacing, self.char_h_scale);
        }
        section(self.char_width, self.char_h_spacing, self.char_h_scale)
    }

    fn section_height(&self) -> (h: i32)
        requires
            self.wf(),
        ensures
            h == self.state().sh(),
            0 <= h <= 32768,
    {
        proof {
            self.lemma_wf();
            lemma_section(self.char_height, self.char_v_spacing, self.char_v_scale);
        }
        section(self.char_height, self.char_v_spacing, self.char_v_scale)
    }

    /// Half width against full height — the mode Japanese captions use for
    /// narrow text, and the one where a fullwidth glyph looks wrong.
    fn is_msz(&self) -> (b: bool)
        ensures
            b == self.state().is_msz(),
    {
        self.char_h_scale.as_halves() * 2 == self.char_v_scale.as_halves()
    }

    /// Ruby (furigana) is sent as half-size text, or on profile A as text in an
    /// 18×18 cell. Text renderings drop it; pixel renderings draw it.
    fn is_ruby(&self) -> (b: bool)
        ensures
            b == self.state().is_ruby(),
    {
        if self.encoding != Encoding::JisB24 {
            return false;
        }
        (self.char_h_scale == Scale::Half && self.char_v_scale == Scale::Half) || (
        self.options.profile == Profile::A && self.char_width == 18 && self.char_height == 18)
    }

    fn size_context(&self) -> (c: SizeContext)
        ensures
            c == self.state().size_context(),
    {
        SizeContext {
            is_msz: self.is_msz(),
            replace_msz_ascii: self.options.replace_msz_fullwidth_ascii,
            replace_msz_japanese: self.options.replace_msz_fullwidth_japanese,
        }
    }

    // ── the pen ─────────────────────────────────────────────────────

    fn geometry(&self) -> (g: Geometry)
        requires
            self.wf(),
        ensures
            g.view() == self.state().layout(),
            g.view().bounded(),
    {
        proof {
            self.lemma_wf();
        }
        Geometry {
            area_x: self.area_x,
            area_y: self.area_y,
            area_width: self.area_width,
            area_height: self.area_height,
            sw: self.section_width(),
            sh: self.section_height(),
            mode: self.writing_mode(),
        }
    }

    fn pen(&self) -> (p: PenAt)
        requires
            self.wf(),
        ensures
            p.view() == self.state().pen(),
            p.view().bounded(),
    {
        PenAt { inited: self.pos_inited, x: self.pos_x, y: self.pos_y }
    }

    fn set_pen(&mut self, p: PenAt)
        requires
            old(self).wf(),
            p.view().bounded(),
        ensures
            final(self).wf(),
            final(self).state() == old(self).state().with_pen(p.view()),
    {
        self.pos_inited = p.inited;
        self.pos_x = p.x;
        self.pos_y = p.y;
    }

    /// Set APS coordinates. Its first parameter counts in the line direction;
    /// its second counts along the character path.
    fn set_active_position(&mut self, line: i32, character: i32)
        requires
            old(self).wf(),
            0 <= line < 64,
            0 <= character < 64,
        ensures
            final(self).wf(),
            final(self).state() == set_active_position(
                old(self).state(),
                line as int,
                character as int,
            ),
    {
        let g = self.geometry();
        let p = aps_pen_at(&g, line, character);
        self.set_pen(p);
    }

    fn set_absolute_pos_dots(&mut self, x: i32, y: i32)
        requires
            old(self).wf(),
            0 <= x <= MAX_PLANE_DOTS,
            0 <= y <= MAX_PLANE_DOTS,
        ensures
            final(self).wf(),
            final(self).state() == old(self).state().with_pen(
                Pen { inited: true, x: x as int, y: y as int },
            ),
    {
        self.set_pen(PenAt { inited: true, x, y });
    }

    fn ensure_position(&mut self)
        requires
            old(self).wf(),
        ensures
            final(self).wf(),
            final(self).state() == ensure_position(old(self).state()),
    {
        let g = self.geometry();
        let p = ensure_pen_at(&g, self.pen());
        self.set_pen(p);
    }

    fn move_line_direction(&mut self, steps: i32)
        requires
            old(self).wf(),
            -64 <= steps <= 64,
        ensures
            final(self).wf(),
            final(self).state() == move_line_direction(old(self).state(), steps as int),
    {
        let g = self.geometry();
        let p = move_line_at(&g, self.pen(), steps);
        self.set_pen(p);
    }

    fn move_character_path(&mut self, steps: i32)
        requires
            old(self).wf(),
            -64 <= steps <= 64,
        ensures
            final(self).wf(),
            final(self).state() == move_character_path(old(self).state(), steps as int),
    {
        let g = self.geometry();
        let p = move_char_at(&g, self.pen(), steps);
        self.set_pen(p);
    }

    fn move_to_newline(&mut self)
        requires
            old(self).wf(),
        ensures
            final(self).wf(),
            final(self).state() == move_to_newline(old(self).state()),
    {
        let g = self.geometry();
        let p = newline_at(&g, self.pen());
        self.set_pen(p);
    }

    // ── character placement ─────────────────────────────────────────

    /// A cell at the pen, in the current size and colours.
    pub fn make_char(&mut self, body: CharBody) -> (ch: CaptionChar)
        requires
            old(self).wf(),
        ensures
            final(self).wf(),
            (final(self).state(), ch.view()) == make_char(old(self).state(), body.view()),
            char_bounded(ch.view()),
    {
        self.ensure_position();
        proof {
            self.lemma_wf();
        }
        let sh = self.section_height();
        CaptionChar {
            body,
            x: self.pos_x,
            y: self.pos_y - sh,
            char_width: self.char_width,
            char_height: self.char_height,
            char_horizontal_spacing: self.char_h_spacing,
            char_vertical_spacing: self.char_v_spacing,
            char_horizontal_scale: self.char_h_scale,
            char_vertical_scale: self.char_v_scale,
            text_color: self.text_color,
            back_color: self.back_color,
            stroke_color: if self.style.stroke {
                self.stroke_color
            } else {
                Rgba::transparent()
            },
            style: self.style,
            enclosure: self.enclosure,
        }
    }

    /// A region is a contiguous run along one character path. A position jump,
    /// cross-path size change, or writing-direction change starts another one.
    fn needs_new_region(&self, next: &CaptionChar) -> (b: bool)
        requires
            self.wf(),
            char_bounded(next.view()),
        ensures
            b == needs_new_region(self.state(), next.view()),
    {
        let n = self.regions.len();
        if n == 0 {
            return true;
        }
        let region = &self.regions[n - 1];
        let writing_mode = self.writing_mode();
        assert(self.state().regions.last() == region.view());
        if region.writing_mode != writing_mode {
            return true;
        }
        let m = region.chars.len();
        if m == 0 {
            return false;
        }
        let prev = &region.chars[m - 1];
        proof {
            assert(region_bounded(self.state().regions[n - 1]));
            assert(region.view().chars.last() == prev.view());
            lemma_section(next.char_width, next.char_horizontal_spacing, next.char_horizontal_scale);
            lemma_section(next.char_height, next.char_vertical_spacing, next.char_vertical_scale);
            lemma_section(prev.char_width, prev.char_horizontal_spacing, prev.char_horizontal_scale);
            lemma_section(prev.char_height, prev.char_vertical_spacing, prev.char_vertical_scale);
        }
        match writing_mode {
            WritingMode::HorizontalTb => next.x != prev.x + prev.section_width() || next.y != prev.y
                || next.section_height() != prev.section_height(),
            WritingMode::VerticalRl => next.x != prev.x || next.y != prev.y + prev.section_height()
                || next.section_width() != prev.section_width(),
        }
    }

    /// A cell into the regions: a new region, or the last one grown to hold it.
    fn push_char(&mut self, ch: CaptionChar)
        requires
            old(self).wf(),
            char_bounded(ch.view()),
        ensures
            final(self).wf(),
            final(self).state() == push_char(old(self).state(), ch.view()),
    {
        proof {
            self.lemma_wf();
            lemma_section(ch.char_width, ch.char_horizontal_spacing, ch.char_horizontal_scale);
            lemma_section(ch.char_height, ch.char_vertical_spacing, ch.char_vertical_scale);
            lemma_push_char_laid_out(self.state(), ch.view());
        }
        let ghost old_regions = self.regions@;
        let ghost cv = ch.view();
        let writing_mode = self.writing_mode();
        let is_ruby = self.is_ruby();
        let ch_width = ch.section_width();
        let ch_height = ch.section_height();
        if self.needs_new_region(&ch) {
            let x = ch.x;
            let y = ch.y;
            let mut chars: Vec<CaptionChar> = Vec::new();
            chars.push(ch);
            let region = CaptionRegion {
                chars,
                x,
                y,
                width: ch_width,
                height: ch_height,
                writing_mode,
                is_ruby,
            };
            assert(region.view().chars =~= seq![cv]);
            self.regions.push(region);
            assert(regions_view(self.regions@) =~= regions_view(old_regions).push(region.view()));
        } else {
            let ghost last = (old_regions.len() - 1) as int;
            assert(region_bounded(regions_view(old_regions)[last]));
            let mut region = self.regions.pop().unwrap();
            assert(region == old_regions[last]);
            let ch_right = ch.x + ch_width;
            let ch_bottom = ch.y + ch_height;
            let right = if region.x + region.width >= ch_right {
                region.x + region.width
            } else {
                ch_right
            };
            let bottom = if region.y + region.height >= ch_bottom {
                region.y + region.height
            } else {
                ch_bottom
            };
            let ghost before_chars = region.chars@;
            region.x = if region.x <= ch.x {
                region.x
            } else {
                ch.x
            };
            region.y = if region.y <= ch.y {
                region.y
            } else {
                ch.y
            };
            region.width = right - region.x;
            region.height = bottom - region.y;
            region.chars.push(ch);
            assert(region.view().chars =~= before_chars.map_values(|c: CaptionChar| c.view()).push(
                cv,
            ));
            self.regions.push(region);
            assert(regions_view(self.regions@) =~= regions_view(old_regions).update(
                last,
                region.view(),
            ));
        }
    }

    /// Text into the caption: into the plain text unless it is ruby, and as a
    /// cell at the pen.
    fn push_text(&mut self, text: String, pua: Option<char>)
        requires
            old(self).wf(),
        ensures
            final(self).wf(),
            final(self).state() == push_text(old(self).state(), text@, pua),
    {
        if !self.is_ruby() {
            push_str(&mut self.text, text.as_str());
        }
        let ch = self.make_char(CharBody::Text { text, pua });
        self.push_char(ch);
    }

    /// The glyph transmitted for `key` in DRCS set `map_index`, if any.
    fn drcs_glyph(&self, map_index: u8, key: u16) -> (d: Option<Drcs>)
        requires
            self.wf(),
            map_index < 16,
        ensures
            d is None <==> !self.state().drcs_maps[map_index as int].contains_key(key),
            d matches Some(g) ==> g.view() == self.state().drcs_maps[map_index as int][key],
    {
        proof {
            self.lemma_wf();
        }
        assert(self.state().drcs_maps[map_index as int] == drcs_map_view(
            self.drcs_maps@[map_index as int]@,
        ));
        match self.drcs_maps[map_index as usize].get(&key) {
            Some(d) => Some(d.duplicate()),
            None => None,
        }
    }

    /// One character onto the plain text.
    fn append_text_char(&mut self, c: char)
        requires
            old(self).wf(),
        ensures
            final(self).wf(),
            final(self).state() == (DecoderState { text: old(self).state().text.push(c), ..old(self).state() }),
    {
        crate::text::push_char(&mut self.text, c);
    }

    /// A glyph among those the caption uses, unless its code is there already.
    fn record_drcs(&mut self, code: u32, drcs: Drcs)
        requires
            old(self).wf(),
        ensures
            final(self).wf(),
            final(self).state() == (if old(self).state().drcs_used.contains_key(code) {
                old(self).state()
            } else {
                DecoderState {
                    drcs_used: old(self).state().drcs_used.insert(code, drcs.view()),
                    ..old(self).state()
                }
            }),
    {
        let ghost used = self.drcs_used@;
        if !self.drcs_used.contains_key(&code) {
            let ghost dv = drcs.view();
            self.drcs_used.insert(code, drcs);
            assert(drcs_map_view(self.drcs_used@) =~= drcs_map_view(used).insert(code, dv));
        }
    }

    /// A transmitted glyph drawn: its text, its record, and its cell's body.
    fn note_drcs(&mut self, drcs: Drcs, code: u32) -> (body: CharBody)
        requires
            old(self).wf(),
        ensures
            final(self).wf(),
            (final(self).state(), body.view()) == note_drcs(old(self).state(), drcs.view(), code),
    {
        let ruby = self.is_ruby();
        let body = match drcs.alternative {
            Some(c) => {
                if !ruby {
                    self.append_text_char(c);
                }
                CharBody::DrcsReplaced { text: string_of_char(c), code }
            },
            None => {
                if !ruby {
                    self.append_text_char(GETA);
                }
                CharBody::Drcs { code }
            },
        };
        self.record_drcs(code, drcs);
        body
    }

    /// A DRCS character: the glyph's cell, or GETA when the glyph was never
    /// transmitted.
    fn push_drcs(&mut self, map_index: u8, key: u16)
        requires
            old(self).wf(),
            map_index < 16,
        ensures
            final(self).wf(),
            final(self).state() == push_drcs(old(self).state(), map_index as int, key),
    {
        let drcs = match self.drcs_glyph(map_index, key) {
            Some(d) => d,
            None => {
                // A DRCS character whose glyph was never transmitted. GETA is
                // what every ARIB decoder shows.
                self.push_text(string_of_char(GETA), None);
                return;
            },
        };
        let code = (map_index as u32) * 0x10000 + key as u32;
        let body = self.note_drcs(drcs, code);
        let ch = self.make_char(body);
        self.push_char(ch);
    }

    // ── single-field updates ────────────────────────────────────────

    fn set_gl(&mut self, v: usize)
        requires
            old(self).wf(),
            v < 4,
        ensures
            final(self).wf(),
            final(self).state() == (DecoderState { gl: v as int, ..old(self).state() }),
    {
        self.gl = v;
    }

    fn set_gr(&mut self, v: usize)
        requires
            old(self).wf(),
            v < 4,
        ensures
            final(self).wf(),
            final(self).state() == (DecoderState { gr: v as int, ..old(self).state() }),
    {
        self.gr = v;
    }

    fn set_text_color(&mut self, c: Rgba)
        requires
            old(self).wf(),
        ensures
            final(self).wf(),
            final(self).state() == (DecoderState { text_color: c, ..old(self).state() }),
    {
        self.text_color = c;
    }

    fn set_back_color(&mut self, c: Rgba)
        requires
            old(self).wf(),
        ensures
            final(self).wf(),
            final(self).state() == (DecoderState { back_color: c, ..old(self).state() }),
    {
        self.back_color = c;
    }

    fn set_palette(&mut self, p: usize)
        requires
            old(self).wf(),
            p < 8,
        ensures
            final(self).wf(),
            final(self).state() == (DecoderState { palette: p as int, ..old(self).state() }),
    {
        self.palette = p;
    }

    fn set_scales(&mut self, h: Scale, v: Scale)
        requires
            old(self).wf(),
        ensures
            final(self).wf(),
            final(self).state() == (DecoderState {
                char_h_scale: h,
                char_v_scale: v,
                ..old(self).state()
            }),
    {
        self.char_h_scale = h;
        self.char_v_scale = v;
    }

    fn set_wait(&mut self, w: Option<u32>)
        requires
            old(self).wf(),
        ensures
            final(self).wf(),
            final(self).state() == (DecoderState { wait_ms: w, ..old(self).state() }),
    {
        self.wait_ms = w;
    }

    fn set_style(&mut self, st: CharStyle)
        requires
            old(self).wf(),
        ensures
            final(self).wf(),
            final(self).state() == (DecoderState { style: st, ..old(self).state() }),
    {
        self.style = st;
    }

    fn set_enclosure(&mut self, e: Enclosure)
        requires
            old(self).wf(),
        ensures
            final(self).wf(),
            final(self).state() == (DecoderState { enclosure: e, ..old(self).state() }),
    {
        self.enclosure = e;
    }

    fn set_stroke(&mut self, st: CharStyle, c: Rgba)
        requires
            old(self).wf(),
        ensures
            final(self).wf(),
            final(self).state() == (DecoderState {
                style: st,
                stroke_color: c,
                ..old(self).state()
            }),
    {
        self.style = st;
        self.stroke_color = c;
    }

    fn set_builtin_sound(&mut self, sound: u8)
        requires
            old(self).wf(),
        ensures
            final(self).wf(),
            final(self).state() == (DecoderState { builtin_sound: Some(sound), ..old(self).state() }),
    {
        self.builtin_sound = Some(sound);
    }

    fn set_area_size(&mut self, w: i32, h: i32)
        requires
            old(self).wf(),
            0 <= w <= MAX_PLANE_DOTS,
            0 <= h <= MAX_PLANE_DOTS,
        ensures
            final(self).wf(),
            final(self).state() == (DecoderState {
                area_width: w as int,
                area_height: h as int,
                ..old(self).state()
            }),
    {
        self.area_width = w;
        self.area_height = h;
    }

    fn set_char_size(&mut self, w: i32, h: i32)
        requires
            old(self).wf(),
            0 <= w <= MAX_PLANE_DOTS,
            0 <= h <= MAX_PLANE_DOTS,
        ensures
            final(self).wf(),
            final(self).state() == (DecoderState {
                char_width: w as int,
                char_height: h as int,
                ..old(self).state()
            }),
    {
        self.char_width = w;
        self.char_height = h;
    }

    fn set_spacing(&mut self, h: i32, v: i32)
        requires
            old(self).wf(),
            0 <= h <= MAX_PLANE_DOTS,
            0 <= v <= MAX_PLANE_DOTS,
        ensures
            final(self).wf(),
            final(self).state() == (DecoderState {
                char_h_spacing: h as int,
                char_v_spacing: v as int,
                ..old(self).state()
            }),
    {
        self.char_h_spacing = h;
        self.char_v_spacing = v;
    }

    fn set_area_origin(&mut self, x: i32, y: i32)
        requires
            old(self).wf(),
            0 <= x <= MAX_PLANE_DOTS,
            0 <= y <= MAX_PLANE_DOTS,
        ensures
            final(self).wf(),
            final(self).state() == (DecoderState {
                area_x: x as int,
                area_y: y as int,
                ..old(self).state()
            }),
    {
        self.area_x = x;
        self.area_y = y;
    }

    fn set_clear_screen(&mut self)
        requires
            old(self).wf(),
        ensures
            final(self).wf(),
            final(self).state() == (DecoderState { clear_screen: true, ..old(self).state() }),
    {
        self.clear_screen = true;
    }

    // ── statement body ──────────────────────────────────────────────

    /// A statement body, code by code. A body that ends inside a control
    /// code stops there and keeps what it decoded — the alternative is
    /// dropping a whole subtitle because its last byte went missing.
    fn parse_statement_body(&mut self, data: &[u8], nest: u8)
        requires
            old(self).wf(),
        ensures
            final(self).wf(),
            final(self).state() == st_body(old(self).state(), data@, nest as nat),
        decreases nest, data@.len(), 2nat,
    {
        let mut offset: usize = 0;
        assert(data@.subrange(0, data@.len() as int) =~= data@);
        while offset < data.len()
            invariant
                self.wf(),
                offset <= data@.len(),
                st_body(self.state(), data@.subrange(offset as int, data@.len() as int), nest as nat)
                    == st_body(old(self).state(), data@, nest as nat),
            decreases data@.len() - offset,
        {
            let rest = slice_subrange(data, offset, data.len());
            assert(rest@ == data@.subrange(offset as int, data@.len() as int));
            match self.step(rest, nest) {
                None => return,
                Some(n) => {
                    if n == 0 || n > rest.len() {
                        return;
                    }
                    assert(rest@.subrange(n as int, rest@.len() as int) =~= data@.subrange(
                        (offset + n) as int,
                        data@.len() as int,
                    ));
                    offset = offset + n;
                },
            }
        }
        assert(data@.subrange(offset as int, data@.len() as int).len() == 0);
    }

    /// One code of a statement body, by the range its first byte falls in.
    fn step(&mut self, data: &[u8], nest: u8) -> (n: Option<usize>)
        requires
            old(self).wf(),
            data@.len() >= 1,
        ensures
            final(self).wf(),
            (final(self).state(), opt_int(n)) == st_step(old(self).state(), data@, nest as nat),
        decreases nest, data@.len(), 1nat,
    {
        proof {
            self.lemma_wf();
        }
        let ch = data[0];
        if self.encoding == Encoding::Utf8 {
            if ch <= 0x1f {
                self.handle_c0(data, nest)
            } else if ch == 0x7f {
                self.handle_c1(data)
            } else if ch == 0xc2 && data.len() >= 2 && 0x80 <= data[1] && data[1] <= 0x9f {
                // C1 codes appear as their UTF-8 two-byte form.
                let rest = slice_subrange(data, 1, data.len());
                match self.handle_c1(rest) {
                    Some(n) => Some(n + 1),
                    None => None,
                }
            } else {
                self.handle_utf8(data)
            }
        } else if ch <= 0x20 {
            self.handle_c0(data, nest)
        } else if ch < 0x7f {
            let entry = self.gx[self.gl];
            self.handle_glgr(data, entry, nest)
        } else if ch <= 0xa0 {
            self.handle_c1(data)
        } else if ch < 0xff {
            let entry = self.gx[self.gr];
            self.handle_glgr(data, entry, nest)
        } else {
            Some(1)
        }
    }

    /// C0: cursor movement, shifts, and the escape.
    #[verifier::rlimit(40)]
    pub fn handle_c0(&mut self, data: &[u8], nest: u8) -> (n: Option<usize>)
        requires
            old(self).wf(),
            data@.len() >= 1,
        ensures
            final(self).wf(),
            (final(self).state(), opt_int(n)) == st_c0(old(self).state(), data@, nest as nat),
            n matches Some(k) ==> 1 <= k <= data@.len(),
        decreases nest, data@.len(), 0nat,
    {
        proof {
            self.lemma_wf();
        }
        let b = data[0];
        if b == c0::NUL || b == c0::BEL || b == c0::CAN || b == c0::RS || b == c0::US {
            Some(1)
        } else if b == c0::APB {
            self.move_character_path(-1);
            Some(1)
        } else if b == c0::APF {
            self.move_character_path(1);
            Some(1)
        } else if b == c0::APD {
            self.move_line_direction(1);
            Some(1)
        } else if b == c0::APU {
            self.move_line_direction(-1);
            Some(1)
        } else if b == c0::CS {
            // Clear screen: the caption that carries it ends whatever was on
            // display, which is how an indefinite caption terminates.
            self.reset_state();
            self.set_clear_screen();
            Some(1)
        } else if b == c0::APR {
            self.append_text_char('\n');
            self.move_to_newline();
            Some(1)
        } else if b == c0::LS1 {
            self.set_gl(1);
            Some(1)
        } else if b == c0::LS0 {
            self.set_gl(0);
            Some(1)
        } else if b == c0::PAPF {
            if data.len() < 2 {
                return None;
            }
            let d1 = data[1];
            let step = d1 & 0x3f;
            assert(step < 64) by (bit_vector)
                requires
                    step == d1 & 0x3f,
            ;
            self.move_character_path(step as i32);
            Some(2)
        } else if b == c0::SS2 || b == c0::SS3 {
            if data.len() < 2 {
                return None;
            }
            let entry = if b == c0::SS2 {
                self.gx[2]
            } else {
                self.gx[3]
            };
            let rest = slice_subrange(data, 1, data.len());
            match self.handle_glgr(rest, entry, nest) {
                Some(n) => Some(1 + n),
                None => None,
            }
        } else if b == c0::ESC {
            if data.len() < 2 {
                return None;
            }
            let rest = slice_subrange(data, 1, data.len());
            match self.handle_esc(rest) {
                Some(n) => Some(1 + n),
                None => None,
            }
        } else if b == c0::APS {
            if data.len() < 3 {
                return None;
            }
            let d1 = data[1];
            let d2 = data[2];
            let line = d1 & 0x3f;
            let character = d2 & 0x3f;
            assert(line < 64 && character < 64) by (bit_vector)
                requires
                    line == d1 & 0x3f,
                    character == d2 & 0x3f,
            ;
            self.set_active_position(line as i32, character as i32);
            Some(3)
        } else if b == c0::SP {
            // A space is ideographic unless the text is Latin, UTF-8, or in
            // half-width mode — where a fullwidth space would open a gap
            // twice the size of the surrounding characters.
            let ideographic = self.encoding == Encoding::JisB24 && !(
            self.options.replace_msz_fullwidth_ascii && self.is_msz());
            let text = if ideographic {
                string_of_char('\u{3000}')
            } else {
                string_of_char(' ')
            };
            self.push_text(text, None);
            self.move_character_path(1);
            Some(1)
        } else {
            Some(1)
        }
    }

    /// ESC: locking shifts and designations.
    #[verifier::rlimit(60)]
    fn handle_esc(&mut self, data: &[u8]) -> (n: Option<usize>)
        requires
            old(self).wf(),
            data@.len() >= 1,
        ensures
            final(self).wf(),
            (final(self).state(), opt_int(n)) == st_esc(old(self).state(), data@),
            n matches Some(k) ==> 1 <= k <= data@.len(),
    {
        proof {
            self.lemma_wf();
        }
        let b = data[0];
        if b == esc::LS2 {
            self.set_gl(2);
            Some(1)
        } else if b == esc::LS3 {
            self.set_gl(3);
            Some(1)
        } else if b == esc::LS1R {
            self.set_gr(1);
            Some(1)
        } else if b == esc::LS2R {
            self.set_gr(2);
            Some(1)
        } else if b == esc::LS3R {
            self.set_gr(3);
            Some(1)
        } else if b == 0x24 {
            // Two-byte set designation: ESC 0x24 [0x28..0x2B] F
            if data.len() < 2 {
                return None;
            }
            let second = data[1];
            if 0x28 <= second && second <= 0x2b {
                let index = (second - 0x28) as usize;
                if data.len() < 3 {
                    return None;
                }
                let third = data[2];
                if third == 0x20 {
                    // Two-byte DRCS.
                    if data.len() < 4 {
                        return None;
                    }
                    let set = match codesets::drcs_set_by_final(data[3]) {
                        Some(c) => Some(Codeset { bytes: 2, ..c }),
                        None => None,
                    };
                    self.designate(index, set);
                    Some(4)
                } else {
                    let set = codesets::g_set_by_final(third);
                    self.designate(index, set);
                    Some(3)
                }
            } else {
                // ESC 0x24 F designates into G0.
                let set = codesets::g_set_by_final(second);
                self.designate(0, set);
                Some(2)
            }
        } else if 0x28 <= b && b <= 0x2b {
            // One-byte set designation: ESC [0x28..0x2B] F
            let index = (b - 0x28) as usize;
            if data.len() < 2 {
                return None;
            }
            let second = data[1];
            if second == 0x20 {
                if data.len() < 3 {
                    return None;
                }
                let set = codesets::drcs_set_by_final(data[2]);
                self.designate(index, set);
                Some(3)
            } else {
                let set = codesets::g_set_by_final(second);
                self.designate(index, set);
                Some(2)
            }
        } else {
            Some(1)
        }
    }

    /// A designation into G`index`, when the final byte named a set.
    fn designate(&mut self, index: usize, set: Option<Codeset>)
        requires
            old(self).wf(),
            index < 4,
            set matches Some(c) ==> designatable(c),
        ensures
            final(self).wf(),
            final(self).state() == designate(old(self).state(), index as int, set),
    {
        proof {
            self.lemma_wf();
        }
        if let Some(c) = set {
            self.gx.set(index, c);
            assert(forall|i: int| 0 <= i < 4 ==> designatable(#[trigger] self.gx@[i]));
        }
    }

    /// COL: a foreground or background colour from the palette, or a palette.
    fn c1_col(&mut self, data: &[u8]) -> (n: Option<usize>)
        requires
            old(self).wf(),
            data@.len() >= 1,
        ensures
            final(self).wf(),
            (final(self).state(), opt_int(n)) == c1_col(old(self).state(), data@),
            n matches Some(k) ==> 1 <= k <= data@.len(),
    {
        proof {
            self.lemma_wf();
        }
        if data.len() < 2 {
            return None;
        }
        let p1 = data[1];
        if p1 == 0x20 {
            // Palette select. Indexes above 7 are unused in practice.
            if data.len() < 3 {
                return None;
            }
            let d2 = data[2];
            let p = d2 & 0x07;
            assert(p < 8) by (bit_vector)
                requires
                    p == d2 & 0x07,
            ;
            self.set_palette(p as usize);
            Some(3)
        } else if 0x48 <= p1 && p1 <= 0x7f {
            let index = p1 & 0x0f;
            assert(index < 16) by (bit_vector)
                requires
                    index == p1 & 0x0f,
            ;
            let high = p1 & 0xf0;
            if high == 0x40 {
                let c = clut(self.palette, index as usize);
                self.set_text_color(c);
            } else if high == 0x50 {
                let c = clut(self.palette, index as usize);
                self.set_back_color(c);
            }
            Some(2)
        } else {
            None
        }
    }

    /// SZX: double height, width, or both.
    fn c1_szx(&mut self, data: &[u8]) -> (n: Option<usize>)
        requires
            old(self).wf(),
            data@.len() >= 1,
        ensures
            final(self).wf(),
            (final(self).state(), opt_int(n)) == c1_szx(old(self).state(), data@),
            n matches Some(k) ==> 1 <= k <= data@.len(),
    {
        if data.len() < 2 {
            return None;
        }
        let p = data[1];
        if p == 0x41 {
            let h = self.char_h_scale;
            self.set_scales(h, Scale::Double);
        } else if p == 0x44 {
            let v = self.char_v_scale;
            self.set_scales(Scale::Double, v);
        } else if p == 0x45 {
            self.set_scales(Scale::Double, Scale::Double);
        }
        // Other values are unused per ARIB TR-B14.
        Some(2)
    }

    /// FLC, POL, WMM, RPC, CDC: parameters that change nothing here.
    fn c1_skip(&mut self, data: &[u8]) -> (n: Option<usize>)
        requires
            old(self).wf(),
            data@.len() >= 1,
        ensures
            final(self).wf(),
            (final(self).state(), opt_int(n)) == c1_skip(old(self).state(), data@),
            n matches Some(k) ==> 1 <= k <= data@.len(),
    {
        if data.len() < 2 {
            return None;
        }
        if data[0] == c1::CDC && data[1] == 0x20 {
            if data.len() < 3 {
                return None;
            }
            Some(3)
        } else {
            Some(2)
        }
    }

    /// TIME: a wait in units of 100 ms, accumulating across commands.
    fn c1_time(&mut self, data: &[u8]) -> (n: Option<usize>)
        requires
            old(self).wf(),
            data@.len() >= 1,
        ensures
            final(self).wf(),
            (final(self).state(), opt_int(n)) == c1_time(old(self).state(), data@),
            n matches Some(k) ==> 1 <= k <= data@.len(),
    {
        if data.len() < 3 {
            return None;
        }
        let p1 = data[1];
        let p2 = data[2];
        if p1 == 0x20 {
            // A run of waits too long for a u32 of milliseconds stops at its
            // maximum.
            let add = ((p2 & 0x3f) as u32) * 100;
            let base = match self.wait_ms {
                Some(ms) => ms,
                None => 0,
            };
            self.set_wait(Some(base.saturating_add(add)));
        }
        Some(3)
    }

    /// HLC: which sides of the cell carry a rule.
    fn c1_hlc(&mut self, data: &[u8]) -> (n: Option<usize>)
        requires
            old(self).wf(),
            data@.len() >= 1,
        ensures
            final(self).wf(),
            (final(self).state(), opt_int(n)) == c1_hlc(old(self).state(), data@),
            n matches Some(k) ==> 1 <= k <= data@.len(),
    {
        if data.len() < 2 {
            return None;
        }
        let bits = data[1] & 0x0f;
        self.set_enclosure(
            Enclosure {
                bottom: bits & 1 != 0,
                right: bits & 2 != 0,
                top: bits & 4 != 0,
                left: bits & 8 != 0,
            },
        );
        Some(2)
    }

    /// C1: colours, sizes, styling, timing, and the CSI that introduces the
    /// rest.
    fn handle_c1(&mut self, data: &[u8]) -> (n: Option<usize>)
        requires
            old(self).wf(),
            data@.len() >= 1,
        ensures
            final(self).wf(),
            (final(self).state(), opt_int(n)) == st_c1(old(self).state(), data@),
            n matches Some(k) ==> 1 <= k <= data@.len(),
    {
        proof {
            self.lemma_wf();
        }
        let b = data[0];
        if b == c1::DEL {
            Some(1)
        } else if c1::BKF <= b && b <= c1::WHF {
            let c = clut(self.palette, (b - c1::BKF) as usize);
            self.set_text_color(c);
            Some(1)
        } else if b == c1::COL {
            self.c1_col(data)
        } else if b == c1::SSZ {
            self.set_scales(Scale::Half, Scale::Half);
            Some(1)
        } else if b == c1::MSZ {
            self.set_scales(Scale::Half, Scale::One);
            Some(1)
        } else if b == c1::NSZ {
            self.set_scales(Scale::One, Scale::One);
            Some(1)
        } else if b == c1::SZX {
            self.c1_szx(data)
        } else if b == c1::FLC || b == c1::POL || b == c1::WMM || b == c1::RPC || b == c1::CDC {
            self.c1_skip(data)
        } else if b == c1::TIME {
            self.c1_time(data)
        } else if b == c1::MACRO {
            // MACRO as a C1 command is unused per ARIB TR-B14; the macro
            // *character set* is what captions use.
            Some(1)
        } else if b == c1::STL {
            let st = CharStyle { underline: true, ..self.style };
            self.set_style(st);
            Some(1)
        } else if b == c1::SPL {
            let st = CharStyle { underline: false, ..self.style };
            self.set_style(st);
            Some(1)
        } else if b == c1::HLC {
            self.c1_hlc(data)
        } else if b == c1::CSI {
            if data.len() < 2 {
                return None;
            }
            let rest = slice_subrange(data, 1, data.len());
            match self.handle_csi(rest) {
                Some(n) => Some(1 + n),
                None => None,
            }
        } else {
            Some(1)
        }
    }

    /// A control sequence after its CSI byte: parameters are decimal digits
    /// separated by 0x3B and terminated by 0x20, then the final byte, e.g.
    /// CSI "840;480" SP 'V'.
    pub fn handle_csi(&mut self, data: &[u8]) -> (n: Option<usize>)
        requires
            old(self).wf(),
        ensures
            final(self).wf(),
            (final(self).state(), opt_int(n)) == st_csi(old(self).state(), data@),
            n matches Some(k) ==> 1 <= k <= data@.len(),
    {
        let (offset, param1, param2, param_count) = csi_params(data);
        // The F byte follows the intermediate.
        if offset >= data.len() || offset + 1 >= data.len() {
            return None;
        }
        let f_at = offset + 1;
        if self.csi_apply(data[f_at], param1, param2, param_count) {
            Some(f_at + 1)
        } else {
            None
        }
    }

    /// What a CSI final byte does with its parameters; false for an ORN
    /// naming a colour outside the CLUT, which leaves everything as it was.
    #[verifier::rlimit(60)]
    fn csi_apply(&mut self, f: u8, param1: u32, param2: u32, param_count: usize) -> (ok: bool)
        requires
            old(self).wf(),
        ensures
            final(self).wf(),
            match csi_apply(old(self).state(), f, param1, param2, param_count as int) {
                Some(s1) => ok && final(self).state() == s1,
                None => !ok && final(self).state() == old(self).state(),
            },
    {
        proof {
            self.lemma_wf();
        }
        if f == csi::SWF {
            if param_count == 1 && param1 <= 0xff {
                let swf = param1 as u8;
                if writing_mode_for_swf(swf).is_some() {
                    self.set_swf(swf);
                    self.reset_writing_format();
                }
            }
        } else if f == csi::SDF {
            self.set_area_size(plane_dots(param1), plane_dots(param2));
        } else if f == csi::SSM {
            self.set_char_size(plane_dots(param1), plane_dots(param2));
        } else if f == csi::SHS {
            let v = self.char_v_spacing;
            self.set_spacing(plane_dots(param1), v);
        } else if f == csi::SVS {
            let h = self.char_h_spacing;
            self.set_spacing(h, plane_dots(param1));
        } else if f == csi::SDP {
            let y = if param_count >= 2 {
                plane_dots(param2)
            } else {
                self.area_y
            };
            self.set_area_origin(plane_dots(param1), y);
            if !self.pos_inited {
                // The pen starts at the first cell on the active character
                // path: top-left horizontally, top-right vertically.
                self.set_active_position(0, 0);
            }
        } else if f == csi::ACPS {
            // Clamped like every other geometry parameter: an unbounded ACPS
            // would reach the renderers' arithmetic.
            let x = plane_dots(param1);
            let y = plane_dots(param2);
            self.set_absolute_pos_dots(x, y);
        } else if f == csi::ORN {
            if param1 == 0 {
                let st = CharStyle { stroke: false, ..self.style };
                self.set_style(st);
            } else if param1 == 1 && param_count >= 2 {
                let palette = param2 / 100;
                let index = param2 % 100;
                if palette >= 8 || index >= 16 {
                    return false;
                }
                let st = CharStyle { stroke: true, ..self.style };
                let c = clut(palette as usize, index as usize);
                self.set_stroke(st, c);
            }
        } else if f == csi::MDF {
            let st = self.style;
            if param1 == 0 {
                self.set_style(CharStyle { bold: false, italic: false, ..st });
            } else if param1 == 1 {
                self.set_style(CharStyle { bold: true, ..st });
            } else if param1 == 2 {
                self.set_style(CharStyle { italic: true, ..st });
            } else if param1 == 3 {
                self.set_style(CharStyle { bold: true, italic: true, ..st });
            }
        } else if f == csi::PRA {
            #[verifier::truncate]
            let sound = param1 as u8;
            self.set_builtin_sound(sound);
        }
        // GSM, CCC, PLD, PLU, GAA, SRC, TCC, CFS, XCS, SCR, ACS, UED, RCS,
        // SCS: presentation details a text rendering has no use for.
        true
    }

    /// A character of a UTF-8 body. STD-B24 maps DRCS into the private use
    /// area starting at U+EC00.
    fn handle_utf8(&mut self, data: &[u8]) -> (n: Option<usize>)
        requires
            old(self).wf(),
            data@.len() >= 1,
        ensures
            final(self).wf(),
            (final(self).state(), opt_int(n)) == st_utf8(old(self).state(), data@),
    {
        let (c, len) = match decode_first_char(data) {
            Some(r) => r,
            None => return None,
        };
        let cp = c as u32;
        if 0xec00 <= cp && cp <= 0xf8ff {
            self.push_drcs(0, cp as u16);
        } else {
            self.push_text(string_of_char(c), None);
        }
        self.move_character_path(1);
        Some(len)
    }

    /// A graphic character from `entry`: text, a DRCS glyph, or a macro.
    fn handle_glgr(&mut self, data: &[u8], entry: Codeset, nest: u8) -> (n: Option<usize>)
        requires
            old(self).wf(),
            data@.len() >= 1,
            designatable(entry),
        ensures
            final(self).wf(),
            (final(self).state(), opt_int(n)) == st_glgr(old(self).state(), data@, entry, nest as nat),
            n matches Some(k) ==> 1 <= k <= data@.len(),
        decreases nest, data@.len(), 0nat,
    {
        let ch = data[0] & 0x7f;
        if !(0x21 <= ch && ch < 0x7f) {
            return None;
        }
        let ch2 = if entry.bytes == 2 {
            if data.len() < 2 {
                return None;
            }
            let b = data[1] & 0x7f;
            if !(0x21 <= b && b < 0x7f) {
                return None;
            }
            b
        } else {
            0
        };
        let size = self.size_context();
        match entry.set {
            GraphicSet::Macro => {
                // A macro is a canned statement body: designate a whole set of
                // graphic sets in one character.
                if 0x60 <= ch && ch <= 0x6f && nest > 0 {
                    let i = ch & 0x0f;
                    assert(i < 16) by (bit_vector)
                        requires
                            i == ch & 0x0f,
                    ;
                    let body = default_macro(i);
                    self.parse_statement_body(body, nest - 1);
                }
            },
            GraphicSet::Drcs(map_index) => {
                let key: u16 = if entry.bytes == 2 {
                    (ch as u16) * 256 + ch2 as u16
                } else {
                    ch as u16
                };
                self.push_drcs(map_index, key);
                self.move_character_path(1);
            },
            GraphicSet::Kanji
            | GraphicSet::JisX0213Kanji1
            | GraphicSet::JisX0213Kanji2
            | GraphicSet::AdditionalSymbols => {
                let resolved = resolve_double(
                    entry.set,
                    (ch - 0x21) as u32,
                    (ch2 - 0x21) as u32,
                    size,
                );
                self.push_text(resolved.text, resolved.pua);
                self.move_character_path(1);
            },
            other => {
                if let Some(resolved) = resolve_single(other, ch, size) {
                    self.push_text(resolved.text, resolved.pua);
                    self.move_character_path(1);
                }
                // A set with no text form (mosaic) consumes its byte and draws
                // nothing, rather than aborting the statement.
            },
        }
        Some(entry.bytes as usize)
    }

    // ── DRCS ────────────────────────────────────────────────────────

    /// A glyph into DRCS table `index` under `key`.
    fn insert_drcs(&mut self, index: usize, key: u16, drcs: Drcs)
        requires
            old(self).wf(),
            index < 16,
        ensures
            final(self).wf(),
            final(self).state() == (DecoderState {
                drcs_maps: old(self).state().drcs_maps.update(
                    index as int,
                    old(self).state().drcs_maps[index as int].insert(key, drcs.view()),
                ),
                ..old(self).state()
            }),
    {
        proof {
            self.lemma_wf();
        }
        let ghost before = self.drcs_maps@;
        let ghost dv = drcs.view();
        let mut m = self.drcs_maps.remove(index);
        let ghost mv = m@;
        m.insert(key, drcs);
        self.drcs_maps.insert(index, m);
        assert(self.drcs_maps@ =~= before.update(index as int, m));
        assert(drcs_map_view(m@) =~= drcs_map_view(mv).insert(key, dv));
        assert(self.state().drcs_maps =~= old(self).state().drcs_maps.update(
            index as int,
            old(self).state().drcs_maps[index as int].insert(key, dv),
        ));
    }

    /// A glyph filed where its character code says.
    fn file_drcs(&mut self, code: u16, byte_count: u8, drcs: Drcs)
        requires
            old(self).wf(),
        ensures
            final(self).wf(),
            final(self).state() == (DecoderState {
                drcs_maps: file_drcs(
                    old(self).state().drcs_maps,
                    code,
                    byte_count as int,
                    drcs.view(),
                ),
                ..old(self).state()
            }),
    {
        if byte_count == 1 {
            // The set the code belongs to is encoded in the code itself: high
            // nibble picks DRCS-1..15.
            let high = (code & 0x0f00) >> 8;
            assert(high < 16) by (bit_vector)
                requires
                    high == (code & 0x0f00) >> 8,
            ;
            let final_byte = high as u8 + 0x40;
            if let Some(set) = codesets::drcs_set_by_final(final_byte) {
                if let GraphicSet::Drcs(index) = set.set {
                    let key = (code & 0x00ff) & 0x7f;
                    self.insert_drcs(index as usize, key, drcs);
                }
            }
        } else {
            let key = if 0xec00 <= code && code <= 0xf8ff {
                code
            } else {
                code & 0x7f7f
            };
            self.insert_drcs(0, key, drcs);
        }
    }

    /// The `n` fonts of one DRCS character code from `offset`: where the next
    /// code starts, or `None` once the unit has run out.
    fn drcs_fonts(&mut self, data: &[u8], start_at: usize, code: u16, fonts: u8, byte_count: u8) -> (r:
        Option<usize>)
        requires
            old(self).wf(),
            start_at <= data@.len(),
        ensures
            final(self).wf(),
            ({
                let (maps, next) = drcs_fonts(
                    old(self).state().drcs_maps,
                    data@,
                    start_at as int,
                    code,
                    fonts as int,
                    byte_count as int,
                );
                &&& final(self).state() == (DecoderState { drcs_maps: maps, ..old(self).state() })
                &&& match r {
                    Some(o) => next == Some(o as int) && o <= data@.len(),
                    None => next is None || next->0 > data@.len(),
                }
            }),
    {
        let ghost goal = drcs_fonts(
            self.state().drcs_maps,
            data@,
            start_at as int,
            code,
            fonts as int,
            byte_count as int,
        );
        let mut offset = start_at;
        let mut n = fonts;
        while n > 0
            invariant
                self.wf(),
                offset <= data@.len(),
                drcs_fonts(
                    self.state().drcs_maps,
                    data@,
                    offset as int,
                    code,
                    n as int,
                    byte_count as int,
                ) == goal,
                self.state() == (DecoderState {
                    drcs_maps: self.state().drcs_maps,
                    ..old(self).state()
                }),
                goal == drcs_fonts(
                    old(self).state().drcs_maps,
                    data@,
                    start_at as int,
                    code,
                    fonts as int,
                    byte_count as int,
                ),
            decreases n,
        {
            if offset >= data.len() {
                assert(drcs_fonts(
                    self.state().drcs_maps,
                    data@,
                    offset as int,
                    code,
                    n as int,
                    byte_count as int,
                ) == (self.state().drcs_maps, None::<int>));
                assert(goal.0 == self.state().drcs_maps);
                assert(goal.1 is None);
                return None;
            }
            let mode = data[offset] & 0x0f;
            let at = offset + 1;
            if mode == 0 || mode == 1 {
                if data.len() - at < 3 {
                    return None;
                }
                let depth = data[at] as u32 + 2;
                let width = data[at + 1] as u32;
                let height = data[at + 2] as u32;
                let start = at + 3;
                // depth is a count of levels; the bits per pixel is how many
                // bits it takes to index them.
                let bits = depth_bits(depth);
                assert(width * height <= 255 * 255 && width * height * bits <= 255 * 255 * 9)
                    by (nonlinear_arith)
                    requires
                        width <= 255,
                        height <= 255,
                        bits <= 9,
                ;
                let size = ((width * height * bits + 7) / 8) as usize;
                if size > data.len() - start {
                    return None;
                }
                let pixels = slice_to_vec(slice_subrange(data, start, start + size));
                let digest = md5_digest(pixels.as_slice());
                let md5 = lower_hex(&digest);
                let drcs = Drcs {
                    width,
                    height,
                    depth,
                    depth_bits: bits,
                    pixels,
                    md5,
                    // Resolving a glyph to a character needs a table of known
                    // MD5s, which is a separate piece of work; until then a
                    // text renderer shows GETA and a pixel renderer draws the
                    // real thing.
                    alternative: None,
                };
                self.file_drcs(code, byte_count, drcs);
                offset = start + size;
            } else {
                // Geometric font data — not a bitmap, and nothing here draws
                // it.
                if data.len() - at < 4 {
                    return None;
                }
                let length = (data[at + 2] as usize) * 256 + data[at + 3] as usize;
                if length > data.len() - at - 4 {
                    proof {
                        let rest = drcs_fonts(
                            self.state().drcs_maps,
                            data@,
                            (at + 4 + length) as int,
                            code,
                            n - 1,
                            byte_count as int,
                        );
                        assert(rest == (self.state().drcs_maps, if n > 1 {
                            None::<int>
                        } else {
                            Some((at + 4 + length) as int)
                        }));
                        assert(drcs_fonts(
                            self.state().drcs_maps,
                            data@,
                            offset as int,
                            code,
                            n as int,
                            byte_count as int,
                        ) == rest);
                        assert(goal.0 == self.state().drcs_maps);
                        assert(goal.1 is None || goal.1->0 > data@.len());
                    }
                    return None;
                }
                offset = at + 4 + length;
            }
            n = n - 1;
        }
        Some(offset)
    }

    /// A DRCS data unit: its glyphs into the tables the statements draw from.
    fn parse_drcs(&mut self, data: &[u8], byte_count: u8)
        requires
            old(self).wf(),
        ensures
            final(self).wf(),
            final(self).state() == parse_drcs(old(self).state(), data@, byte_count as int),
    {
        if data.len() == 0 {
            return;
        }
        let ghost goal = parse_drcs(self.state(), data@, byte_count as int);
        let mut remaining = data[0];
        let mut offset: usize = 1;
        while remaining > 0
            invariant
                self.wf(),
                offset <= data@.len(),
                data@.len() > 0,
                (DecoderState {
                    drcs_maps: drcs_codes(
                        self.state().drcs_maps,
                        data@,
                        offset as int,
                        remaining as int,
                        byte_count as int,
                    ),
                    ..self.state()
                }) == goal,
                self.state() == (DecoderState {
                    drcs_maps: self.state().drcs_maps,
                    ..old(self).state()
                }),
                goal == parse_drcs(old(self).state(), data@, byte_count as int),
            decreases remaining,
        {
            if data.len() - offset < 3 {
                assert(drcs_codes(
                    self.state().drcs_maps,
                    data@,
                    offset as int,
                    remaining as int,
                    byte_count as int,
                ) == self.state().drcs_maps);
                return;
            }
            let code = (data[offset] as u16) * 256 + data[offset + 1] as u16;
            let fonts = data[offset + 2];
            let ghost before = self.state().drcs_maps;
            match self.drcs_fonts(data, offset + 3, code, fonts, byte_count) {
                Some(next) => offset = next,
                None => {
                    proof {
                        let (m, next) = drcs_fonts(
                            before,
                            data@,
                            offset + 3,
                            code,
                            fonts as int,
                            byte_count as int,
                        );
                        if next is Some {
                            assert(drcs_codes(
                                m,
                                data@,
                                next->0,
                                remaining - 1,
                                byte_count as int,
                            ) == m);
                        }
                        assert(drcs_codes(
                            before,
                            data@,
                            offset as int,
                            remaining as int,
                            byte_count as int,
                        ) == m);
                    }
                    return;
                },
            }
            remaining = remaining - 1;
        }
    }

    // ── data groups ─────────────────────────────────────────────────

    fn handle_unit(&mut self, kind: DataUnitKind, bytes: &[u8])
        requires
            old(self).wf(),
        ensures
            final(self).wf(),
            final(self).state() == handle_unit(old(self).state(), kind, bytes@),
    {
        match kind {
            DataUnitKind::StatementBody => self.parse_statement_body(bytes, 1),
            DataUnitKind::Drcs1 => self.parse_drcs(bytes, 1),
            DataUnitKind::Drcs2 => self.parse_drcs(bytes, 2),
            // Bitmap, geometric shape and colour map units are presentation
            // data no text rendering can carry.
            _ => {},
        }
    }

    /// The data units of a data group, in order: the error that ends a
    /// malformed loop, if it is malformed.
    fn handle_units(&mut self, all: DataUnits) -> (e: Option<ParseError>)
        requires
            old(self).wf(),
        ensures
            final(self).wf(),
            (final(self).state(), e) == handle_units(old(self).state(), all.spec_rest()),
    {
        let mut units = all;
        loop
            invariant
                self.wf(),
                handle_units(self.state(), units.spec_rest()) == handle_units(
                    old(self).state(),
                    all.spec_rest(),
                ),
            decreases units.spec_rest().len(),
        {
            match units.next() {
                None => return None,
                Some(Err(e)) => return Some(e),
                Some(Ok(unit)) => self.handle_unit(unit.kind, unit.bytes),
            }
        }
    }

    /// The per-caption accumulation emptied, as every data group starts.
    fn begin_caption(&mut self)
        requires
            old(self).wf(),
        ensures
            final(self).wf(),
            final(self).state() == begin_caption(old(self).state()),
    {
        self.regions.clear();
        self.text = String::new();
        self.drcs_used.clear();
        self.clear_screen = false;
        self.wait_ms = None;
        assert(self.state().regions =~= Seq::<RegionView>::empty());
        assert(self.state().drcs_used =~= Map::<u32, DrcsView>::empty());
        proof {
            lemma_no_regions_laid_out(self.state().regions);
        }
    }

    /// The caption the data group made, handing the per-caption state over to
    /// it; `None` when there is nothing to show, to clear, or to time.
    fn finish(&mut self, pts_ms: Option<i64>) -> (c: Option<Caption>)
        requires
            old(self).wf(),
        ensures
            final(self).wf(),
            (final(self).state(), Ok::<Option<CaptionView>, DecodeFailure>(caption_view(c)))
                == finish(old(self).state(), pts_ms),
            c matches Some(cap) ==> regions_stay_bounded(cap.view()),
            c matches Some(cap) ==> regions_laid_out(cap.view().regions),
    {
        if self.regions.len() == 0 && !self.clear_screen && self.wait_ms.is_none() {
            return None;
        }
        let mut text = String::new();
        std::mem::swap(&mut text, &mut self.text);
        let mut regions: Vec<CaptionRegion> = Vec::new();
        std::mem::swap(&mut regions, &mut self.regions);
        let mut drcs: HashMap<u32, Drcs> = HashMap::new();
        std::mem::swap(&mut drcs, &mut self.drcs_used);
        let duration = match self.wait_ms {
            Some(ms) => Duration::Millis(ms),
            None => Duration::Indefinite,
        };
        let builtin_sound = self.builtin_sound;
        self.wait_ms = None;
        self.builtin_sound = None;
        assert(self.state().regions =~= Seq::<RegionView>::empty());
        assert(self.state().drcs_used =~= Map::<u32, DrcsView>::empty());
        proof {
            lemma_no_regions_laid_out(self.state().regions);
        }
        Some(
            Caption {
                kind: self.kind,
                language: self.language,
                text,
                regions,
                drcs,
                pts_ms,
                duration,
                clear_screen: self.clear_screen,
                plane_width: self.plane_width,
                plane_height: self.plane_height,
                builtin_sound,
            },
        )
    }

    /// Management data: the selected language's settings, a reset, and its
    /// units (DRCS definitions apply to the statements that follow).
    fn management(
        &mut self,
        group: Group,
        languages: &Vec<LanguageInfo>,
        units: DataUnits,
        pts_ms: Option<i64>,
    ) -> (r: Result<Option<Caption>, DecodeError>)
        requires
            old(self).wf(),
        ensures
            final(self).wf(),
            (final(self).state(), decode_view(r)) == management(
                old(self).state(),
                group,
                languages@,
                units.spec_rest(),
                pts_ms,
            ),
            r matches Ok(c) ==> c is None,
    {
        // Management data repeats within its interleave group; only the first
        // copy means anything (ARIB TR-B14 4.2.4).
        let repeat = match self.prev_management_group {
            Some(g) => g == group,
            None => false,
        };
        if repeat {
            return Ok(None);
        }
        // Validate the selected language before committing any of the
        // management state. In particular, a reserved format must not poison
        // duplicate suppression or replace the prior epoch's usable writing
        // format.
        match select_language(languages, self.options.language_id) {
            Some(lang) => match management_format_to_swf(lang.format) {
                None => {
                    return Err(DecodeError::Malformed("reserved management writing format"));
                },
                Some(swf) => {
                    let encoding = if lang.tcs == 1 {
                        Encoding::Utf8
                    } else {
                        Encoding::JisB24
                    };
                    self.select(Some(group), lang.iso639, swf, encoding);
                },
            },
            None => {
                let (language, swf, encoding) = (self.language, self.swf, self.encoding);
                self.select(Some(group), language, swf, encoding);
            },
        }
        self.reset_state();
        match self.handle_units(units) {
            Some(e) => Err(DecodeError::Pes(e)),
            None => {
                // DRCS definitions stay for the statements that follow; no
                // caption comes of management data.
                let _dropped = self.finish(pts_ms);
                Ok(None)
            },
        }
    }

    /// What management data selects: its group, and the language's code,
    /// writing format and coding.
    fn select(&mut self, group: Option<Group>, language: [u8; 3], swf: u8, encoding: Encoding)
        requires
            old(self).wf(),
        ensures
            final(self).wf(),
            final(self).state() == (DecoderState {
                prev_management_group: group,
                language,
                swf,
                encoding,
                ..old(self).state()
            }),
    {
        self.prev_management_group = group;
        self.language = language;
        self.swf = swf;
        self.encoding = encoding;
    }

    /// Decode one caption PES payload, with the PTS of the PES that carried it.
    ///
    /// Returns `None` for a payload that legitimately produces no caption:
    /// management data, a retransmission, or another language's statement.
    /// The regions of a caption it returns stay near the origin, and each is
    /// a run of cells along its writing direction, boxed by its extent.
    pub fn decode(&mut self, payload: &[u8], pts_ms: Option<i64>) -> (r: Result<
        Option<Caption>,
        DecodeError,
    >)
        requires
            old(self).wf(),
        ensures
            final(self).wf(),
            (final(self).state(), decode_view(r)) == spec_decode(
                old(self).state(),
                payload@,
                pts_ms,
            ),
            r matches Ok(Some(cap)) ==> regions_stay_bounded(cap.view()),
            r matches Ok(Some(cap)) ==> regions_laid_out(cap.view().regions),
    {
        let parsed = match pes::parse(payload) {
            Ok(p) => p,
            Err(e) => return Err(DecodeError::Pes(e)),
        };
        if parsed.kind != self.kind {
            return Err(
                DecodeError::Malformed(
                    "data_identifier is not the stream this decoder was made for",
                ),
            );
        }
        self.begin_caption();
        match parsed.group {
            DataGroup::Management(m) => self.management(
                parsed.header.group,
                &m.languages,
                m.units(),
                pts_ms,
            ),
            DataGroup::Statement(s) => {
                if s.language_id != self.options.language_id {
                    return Ok(None);
                }
                match self.handle_units(s.units()) {
                    Some(e) => Err(DecodeError::Pes(e)),
                    None => Ok(self.finish(pts_ms)),
                }
            },
        }
    }
}

} // verus!
